//! Every form of the instruction table, from its mnemonic line to its
//! opcode.

use crate::assembler::{
    addr_form, addr_text, byte_text, encode_line, instruction_of, keyword_text, line_keyword,
    line_operands, pair_form, pair_or_byte_form, pair_text, reg_form, reg_text, Keyword,
};
use crate::disassembler::{addr_line, pair_line, reg_line};
use crate::hextext::{
    byte_of, instruction_with, lemma_addr_text, lemma_byte_text, lemma_draw_text,
    lemma_four_digits, lemma_pair_text, lemma_reg_text,
};
use crate::linewords::{
    lemma_operands, lemma_words_addr_line, lemma_words_draw_line, lemma_words_pair_line,
    lemma_words_reg_line, lemma_words_reg_word_line, lemma_words_word_addr_line,
    lemma_words_word_reg_line, register_word,
};
use crate::literals::{
    lemma_add_words, lemma_and_words, lemma_call_words, lemma_cls_words, lemma_drw_words,
    lemma_fixed_words, lemma_frames, lemma_gaps, lemma_jp_words, lemma_ld_words,
    lemma_not_fixed_word, lemma_or_words, lemma_ret_words, lemma_rnd_words, lemma_se_words,
    lemma_shl_words, lemma_shr_words, lemma_sknp_words, lemma_skp_words, lemma_sne_words,
    lemma_sub_words, lemma_subn_words, lemma_xor_words,
};
use crate::numeral::{decimal_text, hex_text};
use crate::text::{lemma_words_single, no_separator};
use vstd::prelude::*;

verus! {

/// Whether `line` encodes, at the line counter `at`, to the opcode text
/// `text` with the bytes `hi` and `lo`.
pub open spec fn encodes_to(line: Seq<char>, text: Seq<char>, hi: u8, lo: u8, at: nat) -> bool {
    encode_line(line, at) == instruction_with(text, hi, lo, at)
}

/// A line encodes as the text that its keyword gives for its operands.
pub proof fn lemma_encode_by_keyword(
    line: Seq<char>,
    keyword: Keyword,
    ops: Seq<Seq<char>>,
    text: Seq<char>,
    hi: u8,
    lo: u8,
    at: nat,
)
    requires
        line_keyword(line) == Some(keyword),
        line_operands(line) == ops,
        keyword_text(keyword, ops) == Some(text),
        instruction_of(text, at, at) == instruction_with(text, hi, lo, at),
    ensures
        encodes_to(line, text, hi, lo, at),
{
}

/// Two register words fit the form of two registers.
pub proof fn lemma_pair_form_fits(x: u8, y: u8, head: Seq<char>, tail: Seq<char>)
    ensures
        pair_form(seq![register_word(x as nat), register_word(y as nat)], head, tail) == Some(
            pair_text(head, x as u16, y as u16, tail),
        ),
{
    lemma_operands(x as u16);
    lemma_operands(y as u16);
}

/// Two register words fit the register side of the form of a register and
/// a register or a byte.
pub proof fn lemma_pair_side_fits(
    x: u8,
    y: u8,
    pair_head: Seq<char>,
    pair_tail: Seq<char>,
    byte_head: Seq<char>,
)
    ensures
        pair_or_byte_form(
            seq![register_word(x as nat), register_word(y as nat)],
            pair_head,
            pair_tail,
            byte_head,
        ) == Some(pair_text(pair_head, x as u16, y as u16, pair_tail)),
{
    lemma_operands(x as u16);
    lemma_operands(y as u16);
}

/// A register word and a numeral fit the byte side of the form of a
/// register and a register or a byte.
pub proof fn lemma_byte_side_fits(
    x: u8,
    kk: u8,
    pair_head: Seq<char>,
    pair_tail: Seq<char>,
    byte_head: Seq<char>,
)
    ensures
        pair_or_byte_form(
            seq![register_word(x as nat), decimal_text(kk as nat)],
            pair_head,
            pair_tail,
            byte_head,
        ) == Some(byte_text(byte_head, x as u16, kk as u16)),
{
    lemma_operands(x as u16);
    lemma_operands(kk as u16);
}

/// A numeral at `index` fits the address form.
pub proof fn lemma_addr_form_fits(ops: Seq<Seq<char>>, index: int, head: Seq<char>, nnn: u16)
    requires
        0 <= index < ops.len(),
        ops[index] == decimal_text(nnn as nat),
    ensures
        addr_form(ops, index, head) == Some(addr_text(head, nnn)),
{
    lemma_operands(nnn);
}

/// A register word at `index` fits the register form.
pub proof fn lemma_reg_form_fits(
    ops: Seq<Seq<char>>,
    index: int,
    head: Seq<char>,
    tail: Seq<char>,
    x: u8,
)
    requires
        0 <= index < ops.len(),
        ops[index] == register_word(x as nat),
    ensures
        reg_form(ops, index, head, tail) == Some(reg_text(head, x as u16, tail)),
{
    lemma_operands(x as u16);
}

/// `SE Vx, kk` encodes to `3xkk`.
pub proof fn lemma_se_byte_line(x: u8, kk: u8, at: nat)
    requires
        x < 16,
    ensures
        encodes_to(
            pair_line("SE V"@, x, ", "@, kk),
            byte_text("3"@, x as u16, kk as u16),
            byte_of(3, x as nat),
            kk,
            at,
        ),
{
    let line = pair_line("SE V"@, x, ", "@, kk);
    let ops = seq![register_word(x as nat), decimal_text(kk as nat)];
    let text = byte_text("3"@, x as u16, kk as u16);
    lemma_se_words();
    lemma_gaps();
    lemma_frames();
    lemma_words_pair_line("SE"@, "SE V"@, x, ", "@, ", "@, kk, false);
    lemma_byte_side_fits(x, kk, "5"@, "0"@, "3"@);
    lemma_byte_text("3"@, 3, x as u16, kk as u16, at, at);
    lemma_encode_by_keyword(line, Keyword::Se, ops, text, byte_of(3, x as nat), kk, at);
}

/// `SNE Vx, kk` encodes to `4xkk`.
pub proof fn lemma_sne_byte_line(x: u8, kk: u8, at: nat)
    requires
        x < 16,
    ensures
        encodes_to(
            pair_line("SNE V"@, x, ", "@, kk),
            byte_text("4"@, x as u16, kk as u16),
            byte_of(4, x as nat),
            kk,
            at,
        ),
{
    let line = pair_line("SNE V"@, x, ", "@, kk);
    let ops = seq![register_word(x as nat), decimal_text(kk as nat)];
    let text = byte_text("4"@, x as u16, kk as u16);
    lemma_sne_words();
    lemma_gaps();
    lemma_frames();
    lemma_words_pair_line("SNE"@, "SNE V"@, x, ", "@, ", "@, kk, false);
    lemma_byte_side_fits(x, kk, "9"@, "0"@, "4"@);
    lemma_byte_text("4"@, 4, x as u16, kk as u16, at, at);
    lemma_encode_by_keyword(line, Keyword::Sne, ops, text, byte_of(4, x as nat), kk, at);
}

/// `LD Vx, kk` encodes to `6xkk`.
#[verifier::rlimit(50)]
pub proof fn lemma_ld_byte_line(x: u8, kk: u8, at: nat)
    requires
        x < 16,
    ensures
        encodes_to(
            pair_line("LD V"@, x, ", "@, kk),
            byte_text("6"@, x as u16, kk as u16),
            byte_of(6, x as nat),
            kk,
            at,
        ),
{
    let line = pair_line("LD V"@, x, ", "@, kk);
    let ops = seq![register_word(x as nat), decimal_text(kk as nat)];
    let text = byte_text("6"@, x as u16, kk as u16);
    lemma_ld_words();
    lemma_gaps();
    lemma_frames();
    lemma_words_pair_line("LD"@, "LD V"@, x, ", "@, ", "@, kk, false);
    lemma_operands(x as u16);
    lemma_operands(kk as u16);
    lemma_not_fixed_word(register_word(x as nat));
    lemma_not_fixed_word(decimal_text(kk as nat));
    lemma_byte_side_fits(x, kk, "8"@, "0"@, "6"@);
    lemma_byte_text("6"@, 6, x as u16, kk as u16, at, at);
    lemma_encode_by_keyword(line, Keyword::Ld, ops, text, byte_of(6, x as nat), kk, at);
}

/// `ADD Vx, kk` encodes to `7xkk`.
pub proof fn lemma_add_byte_line(x: u8, kk: u8, at: nat)
    requires
        x < 16,
    ensures
        encodes_to(
            pair_line("ADD V"@, x, ", "@, kk),
            byte_text("7"@, x as u16, kk as u16),
            byte_of(7, x as nat),
            kk,
            at,
        ),
{
    let line = pair_line("ADD V"@, x, ", "@, kk);
    let ops = seq![register_word(x as nat), decimal_text(kk as nat)];
    let text = byte_text("7"@, x as u16, kk as u16);
    lemma_add_words();
    lemma_gaps();
    lemma_frames();
    lemma_words_pair_line("ADD"@, "ADD V"@, x, ", "@, ", "@, kk, false);
    lemma_operands(x as u16);
    lemma_not_fixed_word(register_word(x as nat));
    lemma_byte_side_fits(x, kk, "8"@, "4"@, "7"@);
    lemma_byte_text("7"@, 7, x as u16, kk as u16, at, at);
    lemma_encode_by_keyword(line, Keyword::Add, ops, text, byte_of(7, x as nat), kk, at);
}

/// `RND Vx, kk` encodes to `Cxkk`.
pub proof fn lemma_rnd_line(x: u8, kk: u8, at: nat)
    requires
        x < 16,
    ensures
        encodes_to(
            pair_line("RND V"@, x, ", "@, kk),
            byte_text("C"@, x as u16, kk as u16),
            byte_of(0xC, x as nat),
            kk,
            at,
        ),
{
    let line = pair_line("RND V"@, x, ", "@, kk);
    let ops = seq![register_word(x as nat), decimal_text(kk as nat)];
    let text = byte_text("C"@, x as u16, kk as u16);
    lemma_rnd_words();
    lemma_gaps();
    lemma_frames();
    lemma_words_pair_line("RND"@, "RND V"@, x, ", "@, ", "@, kk, false);
    lemma_operands(x as u16);
    lemma_operands(kk as u16);
    lemma_byte_text("C"@, 0xC, x as u16, kk as u16, at, at);
    lemma_encode_by_keyword(line, Keyword::Rnd, ops, text, byte_of(0xC, x as nat), kk, at);
}

/// `SE Vx, Vy` encodes to `5xy0`.
pub proof fn lemma_se_pair_line(x: u8, y: u8, at: nat)
    requires
        x < 16,
        y < 16,
    ensures
        encodes_to(
            pair_line("SE V"@, x, ", V"@, y),
            pair_text("5"@, x as u16, y as u16, "0"@),
            byte_of(5, x as nat),
            byte_of(y as nat, 0),
            at,
        ),
{
    let line = pair_line("SE V"@, x, ", V"@, y);
    let ops = seq![register_word(x as nat), register_word(y as nat)];
    let text = pair_text("5"@, x as u16, y as u16, "0"@);
    lemma_se_words();
    lemma_gaps();
    lemma_frames();
    lemma_words_pair_line("SE"@, "SE V"@, x, ", "@, ", V"@, y, true);
    lemma_pair_side_fits(x, y, "5"@, "0"@, "3"@);
    lemma_pair_text("5"@, 5, x as u16, y as u16, "0"@, 0, at, at);
    lemma_encode_by_keyword(
        line,
        Keyword::Se,
        ops,
        text,
        byte_of(5, x as nat),
        byte_of(y as nat, 0),
        at,
    );
}

/// `SNE Vx, Vy` encodes to `9xy0`.
pub proof fn lemma_sne_pair_line(x: u8, y: u8, at: nat)
    requires
        x < 16,
        y < 16,
    ensures
        encodes_to(
            pair_line("SNE V"@, x, ", V"@, y),
            pair_text("9"@, x as u16, y as u16, "0"@),
            byte_of(9, x as nat),
            byte_of(y as nat, 0),
            at,
        ),
{
    let line = pair_line("SNE V"@, x, ", V"@, y);
    let ops = seq![register_word(x as nat), register_word(y as nat)];
    let text = pair_text("9"@, x as u16, y as u16, "0"@);
    lemma_sne_words();
    lemma_gaps();
    lemma_frames();
    lemma_words_pair_line("SNE"@, "SNE V"@, x, ", "@, ", V"@, y, true);
    lemma_pair_side_fits(x, y, "9"@, "0"@, "4"@);
    lemma_pair_text("9"@, 9, x as u16, y as u16, "0"@, 0, at, at);
    lemma_encode_by_keyword(
        line,
        Keyword::Sne,
        ops,
        text,
        byte_of(9, x as nat),
        byte_of(y as nat, 0),
        at,
    );
}

/// `LD Vx, Vy` encodes to `8xy0`.
#[verifier::rlimit(50)]
pub proof fn lemma_ld_pair_line(x: u8, y: u8, at: nat)
    requires
        x < 16,
        y < 16,
    ensures
        encodes_to(
            pair_line("LD V"@, x, ", V"@, y),
            pair_text("8"@, x as u16, y as u16, "0"@),
            byte_of(8, x as nat),
            byte_of(y as nat, 0),
            at,
        ),
{
    let line = pair_line("LD V"@, x, ", V"@, y);
    let ops = seq![register_word(x as nat), register_word(y as nat)];
    let text = pair_text("8"@, x as u16, y as u16, "0"@);
    lemma_ld_words();
    lemma_gaps();
    lemma_frames();
    lemma_words_pair_line("LD"@, "LD V"@, x, ", "@, ", V"@, y, true);
    lemma_operands(x as u16);
    lemma_operands(y as u16);
    lemma_not_fixed_word(register_word(x as nat));
    lemma_not_fixed_word(register_word(y as nat));
    lemma_pair_side_fits(x, y, "8"@, "0"@, "6"@);
    lemma_pair_text("8"@, 8, x as u16, y as u16, "0"@, 0, at, at);
    lemma_encode_by_keyword(
        line,
        Keyword::Ld,
        ops,
        text,
        byte_of(8, x as nat),
        byte_of(y as nat, 0),
        at,
    );
}

/// `OR Vx, Vy` encodes to `8xy1`.
pub proof fn lemma_or_line(x: u8, y: u8, at: nat)
    requires
        x < 16,
        y < 16,
    ensures
        encodes_to(
            pair_line("OR V"@, x, ", V"@, y),
            pair_text("8"@, x as u16, y as u16, "1"@),
            byte_of(8, x as nat),
            byte_of(y as nat, 1),
            at,
        ),
{
    let line = pair_line("OR V"@, x, ", V"@, y);
    let ops = seq![register_word(x as nat), register_word(y as nat)];
    let text = pair_text("8"@, x as u16, y as u16, "1"@);
    lemma_or_words();
    lemma_gaps();
    lemma_frames();
    lemma_words_pair_line("OR"@, "OR V"@, x, ", "@, ", V"@, y, true);
    lemma_pair_form_fits(x, y, "8"@, "1"@);
    lemma_pair_text("8"@, 8, x as u16, y as u16, "1"@, 1, at, at);
    lemma_encode_by_keyword(
        line,
        Keyword::Or,
        ops,
        text,
        byte_of(8, x as nat),
        byte_of(y as nat, 1),
        at,
    );
}

/// `AND Vx, Vy` encodes to `8xy2`.
pub proof fn lemma_and_line(x: u8, y: u8, at: nat)
    requires
        x < 16,
        y < 16,
    ensures
        encodes_to(
            pair_line("AND V"@, x, ", V"@, y),
            pair_text("8"@, x as u16, y as u16, "2"@),
            byte_of(8, x as nat),
            byte_of(y as nat, 2),
            at,
        ),
{
    let line = pair_line("AND V"@, x, ", V"@, y);
    let ops = seq![register_word(x as nat), register_word(y as nat)];
    let text = pair_text("8"@, x as u16, y as u16, "2"@);
    lemma_and_words();
    lemma_gaps();
    lemma_frames();
    lemma_words_pair_line("AND"@, "AND V"@, x, ", "@, ", V"@, y, true);
    lemma_pair_form_fits(x, y, "8"@, "2"@);
    lemma_pair_text("8"@, 8, x as u16, y as u16, "2"@, 2, at, at);
    lemma_encode_by_keyword(
        line,
        Keyword::And,
        ops,
        text,
        byte_of(8, x as nat),
        byte_of(y as nat, 2),
        at,
    );
}

/// `XOR Vx, Vy` encodes to `8xy3`.
pub proof fn lemma_xor_line(x: u8, y: u8, at: nat)
    requires
        x < 16,
        y < 16,
    ensures
        encodes_to(
            pair_line("XOR V"@, x, ", V"@, y),
            pair_text("8"@, x as u16, y as u16, "3"@),
            byte_of(8, x as nat),
            byte_of(y as nat, 3),
            at,
        ),
{
    let line = pair_line("XOR V"@, x, ", V"@, y);
    let ops = seq![register_word(x as nat), register_word(y as nat)];
    let text = pair_text("8"@, x as u16, y as u16, "3"@);
    lemma_xor_words();
    lemma_gaps();
    lemma_frames();
    lemma_words_pair_line("XOR"@, "XOR V"@, x, ", "@, ", V"@, y, true);
    lemma_pair_form_fits(x, y, "8"@, "3"@);
    lemma_pair_text("8"@, 8, x as u16, y as u16, "3"@, 3, at, at);
    lemma_encode_by_keyword(
        line,
        Keyword::Xor,
        ops,
        text,
        byte_of(8, x as nat),
        byte_of(y as nat, 3),
        at,
    );
}

/// `ADD Vx, Vy` encodes to `8xy4`.
pub proof fn lemma_add_pair_line(x: u8, y: u8, at: nat)
    requires
        x < 16,
        y < 16,
    ensures
        encodes_to(
            pair_line("ADD V"@, x, ", V"@, y),
            pair_text("8"@, x as u16, y as u16, "4"@),
            byte_of(8, x as nat),
            byte_of(y as nat, 4),
            at,
        ),
{
    let line = pair_line("ADD V"@, x, ", V"@, y);
    let ops = seq![register_word(x as nat), register_word(y as nat)];
    let text = pair_text("8"@, x as u16, y as u16, "4"@);
    lemma_add_words();
    lemma_gaps();
    lemma_frames();
    lemma_words_pair_line("ADD"@, "ADD V"@, x, ", "@, ", V"@, y, true);
    lemma_operands(x as u16);
    lemma_not_fixed_word(register_word(x as nat));
    lemma_pair_side_fits(x, y, "8"@, "4"@, "7"@);
    lemma_pair_text("8"@, 8, x as u16, y as u16, "4"@, 4, at, at);
    lemma_encode_by_keyword(
        line,
        Keyword::Add,
        ops,
        text,
        byte_of(8, x as nat),
        byte_of(y as nat, 4),
        at,
    );
}

/// `SUB Vx, Vy` encodes to `8xy5`.
pub proof fn lemma_sub_line(x: u8, y: u8, at: nat)
    requires
        x < 16,
        y < 16,
    ensures
        encodes_to(
            pair_line("SUB V"@, x, ", V"@, y),
            pair_text("8"@, x as u16, y as u16, "5"@),
            byte_of(8, x as nat),
            byte_of(y as nat, 5),
            at,
        ),
{
    let line = pair_line("SUB V"@, x, ", V"@, y);
    let ops = seq![register_word(x as nat), register_word(y as nat)];
    let text = pair_text("8"@, x as u16, y as u16, "5"@);
    lemma_sub_words();
    lemma_gaps();
    lemma_frames();
    lemma_words_pair_line("SUB"@, "SUB V"@, x, ", "@, ", V"@, y, true);
    lemma_pair_form_fits(x, y, "8"@, "5"@);
    lemma_pair_text("8"@, 8, x as u16, y as u16, "5"@, 5, at, at);
    lemma_encode_by_keyword(
        line,
        Keyword::Sub,
        ops,
        text,
        byte_of(8, x as nat),
        byte_of(y as nat, 5),
        at,
    );
}

/// `SHR Vx, Vy` encodes to `8xy6`.
pub proof fn lemma_shr_line(x: u8, y: u8, at: nat)
    requires
        x < 16,
        y < 16,
    ensures
        encodes_to(
            pair_line("SHR V"@, x, ", V"@, y),
            pair_text("8"@, x as u16, y as u16, "6"@),
            byte_of(8, x as nat),
            byte_of(y as nat, 6),
            at,
        ),
{
    let line = pair_line("SHR V"@, x, ", V"@, y);
    let ops = seq![register_word(x as nat), register_word(y as nat)];
    let text = pair_text("8"@, x as u16, y as u16, "6"@);
    lemma_shr_words();
    lemma_gaps();
    lemma_frames();
    lemma_words_pair_line("SHR"@, "SHR V"@, x, ", "@, ", V"@, y, true);
    lemma_pair_form_fits(x, y, "8"@, "6"@);
    lemma_pair_text("8"@, 8, x as u16, y as u16, "6"@, 6, at, at);
    lemma_encode_by_keyword(
        line,
        Keyword::Shr,
        ops,
        text,
        byte_of(8, x as nat),
        byte_of(y as nat, 6),
        at,
    );
}

/// `SUBN Vx Vy`, as the decoder writes it, encodes to `8xy7`.
pub proof fn lemma_subn_line(x: u8, y: u8, at: nat)
    requires
        x < 16,
        y < 16,
    ensures
        encodes_to(
            pair_line("SUBN V"@, x, " V"@, y),
            pair_text("8"@, x as u16, y as u16, "7"@),
            byte_of(8, x as nat),
            byte_of(y as nat, 7),
            at,
        ),
{
    let line = pair_line("SUBN V"@, x, " V"@, y);
    let ops = seq![register_word(x as nat), register_word(y as nat)];
    let text = pair_text("8"@, x as u16, y as u16, "7"@);
    lemma_subn_words();
    lemma_gaps();
    lemma_frames();
    lemma_words_pair_line("SUBN"@, "SUBN V"@, x, seq![' '], " V"@, y, true);
    lemma_pair_form_fits(x, y, "8"@, "7"@);
    lemma_pair_text("8"@, 8, x as u16, y as u16, "7"@, 7, at, at);
    lemma_encode_by_keyword(
        line,
        Keyword::Subn,
        ops,
        text,
        byte_of(8, x as nat),
        byte_of(y as nat, 7),
        at,
    );
}

/// `SHL Vx, Vy` encodes to `8xyE`.
pub proof fn lemma_shl_line(x: u8, y: u8, at: nat)
    requires
        x < 16,
        y < 16,
    ensures
        encodes_to(
            pair_line("SHL V"@, x, ", V"@, y),
            pair_text("8"@, x as u16, y as u16, "E"@),
            byte_of(8, x as nat),
            byte_of(y as nat, 0xE),
            at,
        ),
{
    let line = pair_line("SHL V"@, x, ", V"@, y);
    let ops = seq![register_word(x as nat), register_word(y as nat)];
    let text = pair_text("8"@, x as u16, y as u16, "E"@);
    lemma_shl_words();
    lemma_gaps();
    lemma_frames();
    lemma_words_pair_line("SHL"@, "SHL V"@, x, ", "@, ", V"@, y, true);
    lemma_pair_form_fits(x, y, "8"@, "E"@);
    lemma_pair_text("8"@, 8, x as u16, y as u16, "E"@, 0xE, at, at);
    lemma_encode_by_keyword(
        line,
        Keyword::Shl,
        ops,
        text,
        byte_of(8, x as nat),
        byte_of(y as nat, 0xE),
        at,
    );
}

/// `JP addr` encodes to `1nnn`.
pub proof fn lemma_jp_line(nnn: u16, at: nat)
    requires
        nnn <= 0xFFF,
    ensures
        encodes_to(
            addr_line("JP "@, nnn),
            addr_text("1"@, nnn),
            byte_of(1, nnn as nat / 0x100),
            (nnn % 0x100) as u8,
            at,
        ),
{
    let line = addr_line("JP "@, nnn);
    let text = addr_text("1"@, nnn);
    lemma_jp_words();
    lemma_frames();
    let ops = seq![decimal_text(nnn as nat)];
    lemma_words_addr_line("JP"@, "JP "@, nnn);
    lemma_addr_form_fits(ops, 0, "1"@, nnn);
    lemma_addr_text("1"@, 1, nnn, at, at);
    lemma_encode_by_keyword(
        line,
        Keyword::Jp,
        ops,
        text,
        byte_of(1, nnn as nat / 0x100),
        (nnn % 0x100) as u8,
        at,
    );
}

/// `CALL addr` encodes to `2nnn`.
pub proof fn lemma_call_line(nnn: u16, at: nat)
    requires
        nnn <= 0xFFF,
    ensures
        encodes_to(
            addr_line("CALL "@, nnn),
            addr_text("2"@, nnn),
            byte_of(2, nnn as nat / 0x100),
            (nnn % 0x100) as u8,
            at,
        ),
{
    let line = addr_line("CALL "@, nnn);
    let text = addr_text("2"@, nnn);
    lemma_call_words();
    lemma_frames();
    let ops = seq![decimal_text(nnn as nat)];
    lemma_words_addr_line("CALL"@, "CALL "@, nnn);
    lemma_addr_form_fits(ops, 0, "2"@, nnn);
    lemma_addr_text("2"@, 2, nnn, at, at);
    lemma_encode_by_keyword(
        line,
        Keyword::Call,
        ops,
        text,
        byte_of(2, nnn as nat / 0x100),
        (nnn % 0x100) as u8,
        at,
    );
}

/// `LD I, addr` encodes to `Annn`.
pub proof fn lemma_ld_i_line(nnn: u16, at: nat)
    requires
        nnn <= 0xFFF,
    ensures
        encodes_to(
            addr_line("LD I, "@, nnn),
            addr_text("A"@, nnn),
            byte_of(0xA, nnn as nat / 0x100),
            (nnn % 0x100) as u8,
            at,
        ),
{
    let line = addr_line("LD I, "@, nnn);
    let text = addr_text("A"@, nnn);
    lemma_ld_words();
    lemma_frames();
    let word = "I"@;
    let ops = seq![word, decimal_text(nnn as nat)];
    lemma_fixed_words();
    lemma_words_word_addr_line("LD"@, word, "LD I, "@, nnn);
    lemma_operands(nnn);
    lemma_addr_form_fits(ops, 1, "A"@, nnn);
    lemma_addr_text("A"@, 0xA, nnn, at, at);
    lemma_encode_by_keyword(
        line,
        Keyword::Ld,
        ops,
        text,
        byte_of(0xA, nnn as nat / 0x100),
        (nnn % 0x100) as u8,
        at,
    );
}

/// `JP V0, addr` encodes to `Bnnn`.
pub proof fn lemma_jp_v0_line(nnn: u16, at: nat)
    requires
        nnn <= 0xFFF,
    ensures
        encodes_to(
            addr_line("JP V0, "@, nnn),
            addr_text("B"@, nnn),
            byte_of(0xB, nnn as nat / 0x100),
            (nnn % 0x100) as u8,
            at,
        ),
{
    let line = addr_line("JP V0, "@, nnn);
    let text = addr_text("B"@, nnn);
    lemma_jp_words();
    lemma_frames();
    let word = seq!['V', '0'];
    let ops = seq![word, decimal_text(nnn as nat)];
    assert(no_separator(word));
    lemma_words_word_addr_line("JP"@, word, "JP V0, "@, nnn);
    lemma_addr_form_fits(ops, 1, "B"@, nnn);
    lemma_addr_text("B"@, 0xB, nnn, at, at);
    lemma_encode_by_keyword(
        line,
        Keyword::Jp,
        ops,
        text,
        byte_of(0xB, nnn as nat / 0x100),
        (nnn % 0x100) as u8,
        at,
    );
}

/// `DRW Vx, Vy, n` encodes to `Dxyn`.
pub proof fn lemma_drw_line(x: u8, y: u8, n: u8, at: nat)
    requires
        x < 16,
        y < 16,
        n < 16,
    ensures
        encodes_to(
            pair_line("DRW V"@, x, ", V"@, y) + ", "@ + decimal_text(n as nat),
            pair_text("D"@, x as u16, y as u16, hex_text(n as nat)),
            byte_of(0xD, x as nat),
            byte_of(y as nat, n as nat),
            at,
        ),
{
    let line = pair_line("DRW V"@, x, ", V"@, y) + ", "@ + decimal_text(n as nat);
    let ops = seq![register_word(x as nat), register_word(y as nat), decimal_text(n as nat)];
    let text = pair_text("D"@, x as u16, y as u16, hex_text(n as nat));
    lemma_drw_words();
    lemma_gaps();
    lemma_frames();
    lemma_words_draw_line("DRW"@, "DRW V"@, x, ", "@, ", V"@, y, n);
    lemma_operands(x as u16);
    lemma_operands(y as u16);
    lemma_operands(n as u16);
    lemma_draw_text("D"@, 0xD, x as u16, y as u16, n as u16, at, at);
    lemma_encode_by_keyword(
        line,
        Keyword::Drw,
        ops,
        text,
        byte_of(0xD, x as nat),
        byte_of(y as nat, n as nat),
        at,
    );
}

/// `SKP Vx` encodes to `Ex9E`.
pub proof fn lemma_skp_line(x: u8, at: nat)
    requires
        x < 16,
    ensures
        encodes_to(
            reg_line("SKP V"@, x, ""@),
            reg_text("E"@, x as u16, "9E"@),
            byte_of(0xE, x as nat),
            byte_of(0x9, 0xE),
            at,
        ),
{
    let line = reg_line("SKP V"@, x, ""@);
    let text = reg_text("E"@, x as u16, "9E"@);
    lemma_skp_words();
    lemma_gaps();
    lemma_frames();
    let ops = seq![register_word(x as nat)];
    lemma_words_reg_line("SKP"@, "SKP V"@, x, ""@);
    lemma_reg_form_fits(ops, 0, "E"@, "9E"@, x);
    lemma_reg_text("E"@, 0xE, x as u16, "9E"@, 0x9, 0xE, at, at);
    lemma_encode_by_keyword(
        line,
        Keyword::Skp,
        ops,
        text,
        byte_of(0xE, x as nat),
        byte_of(0x9, 0xE),
        at,
    );
}

/// `SKNP Vx` encodes to `ExA1`.
pub proof fn lemma_sknp_line(x: u8, at: nat)
    requires
        x < 16,
    ensures
        encodes_to(
            reg_line("SKNP V"@, x, ""@),
            reg_text("E"@, x as u16, "A1"@),
            byte_of(0xE, x as nat),
            byte_of(0xA, 0x1),
            at,
        ),
{
    let line = reg_line("SKNP V"@, x, ""@);
    let text = reg_text("E"@, x as u16, "A1"@);
    lemma_sknp_words();
    lemma_gaps();
    lemma_frames();
    let ops = seq![register_word(x as nat)];
    lemma_words_reg_line("SKNP"@, "SKNP V"@, x, ""@);
    lemma_reg_form_fits(ops, 0, "E"@, "A1"@, x);
    lemma_reg_text("E"@, 0xE, x as u16, "A1"@, 0xA, 0x1, at, at);
    lemma_encode_by_keyword(
        line,
        Keyword::Sknp,
        ops,
        text,
        byte_of(0xE, x as nat),
        byte_of(0xA, 0x1),
        at,
    );
}

/// `LD Vx, DT` encodes to `Fx07`.
pub proof fn lemma_ld_from_dt_line(x: u8, at: nat)
    requires
        x < 16,
    ensures
        encodes_to(
            reg_line("LD V"@, x, ", DT"@),
            reg_text("F"@, x as u16, "07"@),
            byte_of(0xF, x as nat),
            byte_of(0x0, 0x7),
            at,
        ),
{
    let line = reg_line("LD V"@, x, ", DT"@);
    let text = reg_text("F"@, x as u16, "07"@);
    lemma_ld_words();
    lemma_gaps();
    lemma_frames();
    let ops = seq![register_word(x as nat), "DT"@];
    lemma_fixed_words();
    lemma_operands(x as u16);
    lemma_not_fixed_word(register_word(x as nat));
    lemma_words_reg_word_line("LD"@, "LD V"@, x, ", DT"@, "DT"@);
    lemma_reg_form_fits(ops, 0, "F"@, "07"@, x);
    lemma_reg_text("F"@, 0xF, x as u16, "07"@, 0x0, 0x7, at, at);
    lemma_encode_by_keyword(
        line,
        Keyword::Ld,
        ops,
        text,
        byte_of(0xF, x as nat),
        byte_of(0x0, 0x7),
        at,
    );
}

/// `LD Vx, K` encodes to `Fx0A`.
pub proof fn lemma_ld_key_line(x: u8, at: nat)
    requires
        x < 16,
    ensures
        encodes_to(
            reg_line("LD V"@, x, ", K"@),
            reg_text("F"@, x as u16, "0A"@),
            byte_of(0xF, x as nat),
            byte_of(0x0, 0xA),
            at,
        ),
{
    let line = reg_line("LD V"@, x, ", K"@);
    let text = reg_text("F"@, x as u16, "0A"@);
    lemma_ld_words();
    lemma_gaps();
    lemma_frames();
    let ops = seq![register_word(x as nat), "K"@];
    lemma_fixed_words();
    lemma_operands(x as u16);
    lemma_not_fixed_word(register_word(x as nat));
    lemma_words_reg_word_line("LD"@, "LD V"@, x, ", K"@, "K"@);
    lemma_reg_form_fits(ops, 0, "F"@, "0A"@, x);
    lemma_reg_text("F"@, 0xF, x as u16, "0A"@, 0x0, 0xA, at, at);
    lemma_encode_by_keyword(
        line,
        Keyword::Ld,
        ops,
        text,
        byte_of(0xF, x as nat),
        byte_of(0x0, 0xA),
        at,
    );
}

/// `LD DT, Vx` encodes to `Fx15`.
pub proof fn lemma_ld_dt_line(x: u8, at: nat)
    requires
        x < 16,
    ensures
        encodes_to(
            reg_line("LD DT, V"@, x, ""@),
            reg_text("F"@, x as u16, "15"@),
            byte_of(0xF, x as nat),
            byte_of(0x1, 0x5),
            at,
        ),
{
    let line = reg_line("LD DT, V"@, x, ""@);
    let text = reg_text("F"@, x as u16, "15"@);
    lemma_ld_words();
    lemma_gaps();
    lemma_frames();
    let ops = seq!["DT"@, register_word(x as nat)];
    lemma_fixed_words();
    lemma_operands(x as u16);
    lemma_words_word_reg_line("LD"@, "DT"@, "LD DT, V"@, x, ""@);
    lemma_reg_form_fits(ops, 1, "F"@, "15"@, x);
    lemma_reg_text("F"@, 0xF, x as u16, "15"@, 0x1, 0x5, at, at);
    lemma_encode_by_keyword(
        line,
        Keyword::Ld,
        ops,
        text,
        byte_of(0xF, x as nat),
        byte_of(0x1, 0x5),
        at,
    );
}

/// `LD ST, Vx` encodes to `Fx18`.
pub proof fn lemma_ld_st_line(x: u8, at: nat)
    requires
        x < 16,
    ensures
        encodes_to(
            reg_line("LD ST, V"@, x, ""@),
            reg_text("F"@, x as u16, "18"@),
            byte_of(0xF, x as nat),
            byte_of(0x1, 0x8),
            at,
        ),
{
    let line = reg_line("LD ST, V"@, x, ""@);
    let text = reg_text("F"@, x as u16, "18"@);
    lemma_ld_words();
    lemma_gaps();
    lemma_frames();
    let ops = seq!["ST"@, register_word(x as nat)];
    lemma_fixed_words();
    lemma_operands(x as u16);
    lemma_words_word_reg_line("LD"@, "ST"@, "LD ST, V"@, x, ""@);
    lemma_reg_form_fits(ops, 1, "F"@, "18"@, x);
    lemma_reg_text("F"@, 0xF, x as u16, "18"@, 0x1, 0x8, at, at);
    lemma_encode_by_keyword(
        line,
        Keyword::Ld,
        ops,
        text,
        byte_of(0xF, x as nat),
        byte_of(0x1, 0x8),
        at,
    );
}

/// `ADD I, Vx` encodes to `Fx1E`.
pub proof fn lemma_add_i_line(x: u8, at: nat)
    requires
        x < 16,
    ensures
        encodes_to(
            reg_line("ADD I, V"@, x, ""@),
            reg_text("F"@, x as u16, "1E"@),
            byte_of(0xF, x as nat),
            byte_of(0x1, 0xE),
            at,
        ),
{
    let line = reg_line("ADD I, V"@, x, ""@);
    let text = reg_text("F"@, x as u16, "1E"@);
    lemma_add_words();
    lemma_gaps();
    lemma_frames();
    let ops = seq!["I"@, register_word(x as nat)];
    lemma_fixed_words();
    lemma_operands(x as u16);
    lemma_words_word_reg_line("ADD"@, "I"@, "ADD I, V"@, x, ""@);
    lemma_reg_form_fits(ops, 1, "F"@, "1E"@, x);
    lemma_reg_text("F"@, 0xF, x as u16, "1E"@, 0x1, 0xE, at, at);
    lemma_encode_by_keyword(
        line,
        Keyword::Add,
        ops,
        text,
        byte_of(0xF, x as nat),
        byte_of(0x1, 0xE),
        at,
    );
}

/// `LD F, Vx` encodes to `Fx29`.
pub proof fn lemma_ld_f_line(x: u8, at: nat)
    requires
        x < 16,
    ensures
        encodes_to(
            reg_line("LD F, V"@, x, ""@),
            reg_text("F"@, x as u16, "29"@),
            byte_of(0xF, x as nat),
            byte_of(0x2, 0x9),
            at,
        ),
{
    let line = reg_line("LD F, V"@, x, ""@);
    let text = reg_text("F"@, x as u16, "29"@);
    lemma_ld_words();
    lemma_gaps();
    lemma_frames();
    let ops = seq!["F"@, register_word(x as nat)];
    lemma_fixed_words();
    lemma_operands(x as u16);
    lemma_words_word_reg_line("LD"@, "F"@, "LD F, V"@, x, ""@);
    lemma_reg_form_fits(ops, 1, "F"@, "29"@, x);
    lemma_reg_text("F"@, 0xF, x as u16, "29"@, 0x2, 0x9, at, at);
    lemma_encode_by_keyword(
        line,
        Keyword::Ld,
        ops,
        text,
        byte_of(0xF, x as nat),
        byte_of(0x2, 0x9),
        at,
    );
}

/// `LD B, Vx` encodes to `Fx33`.
pub proof fn lemma_ld_b_line(x: u8, at: nat)
    requires
        x < 16,
    ensures
        encodes_to(
            reg_line("LD B, V"@, x, ""@),
            reg_text("F"@, x as u16, "33"@),
            byte_of(0xF, x as nat),
            byte_of(0x3, 0x3),
            at,
        ),
{
    let line = reg_line("LD B, V"@, x, ""@);
    let text = reg_text("F"@, x as u16, "33"@);
    lemma_ld_words();
    lemma_gaps();
    lemma_frames();
    let ops = seq!["B"@, register_word(x as nat)];
    lemma_fixed_words();
    lemma_operands(x as u16);
    lemma_words_word_reg_line("LD"@, "B"@, "LD B, V"@, x, ""@);
    lemma_reg_form_fits(ops, 1, "F"@, "33"@, x);
    lemma_reg_text("F"@, 0xF, x as u16, "33"@, 0x3, 0x3, at, at);
    lemma_encode_by_keyword(
        line,
        Keyword::Ld,
        ops,
        text,
        byte_of(0xF, x as nat),
        byte_of(0x3, 0x3),
        at,
    );
}

/// `LD I, Vx` encodes to `Fx55`.
pub proof fn lemma_ld_store_line(x: u8, at: nat)
    requires
        x < 16,
    ensures
        encodes_to(
            reg_line("LD I, V"@, x, ""@),
            reg_text("F"@, x as u16, "55"@),
            byte_of(0xF, x as nat),
            byte_of(0x5, 0x5),
            at,
        ),
{
    let line = reg_line("LD I, V"@, x, ""@);
    let text = reg_text("F"@, x as u16, "55"@);
    lemma_ld_words();
    lemma_gaps();
    lemma_frames();
    let ops = seq!["I"@, register_word(x as nat)];
    lemma_fixed_words();
    lemma_operands(x as u16);
    lemma_words_word_reg_line("LD"@, "I"@, "LD I, V"@, x, ""@);
    lemma_reg_form_fits(ops, 1, "F"@, "55"@, x);
    lemma_reg_text("F"@, 0xF, x as u16, "55"@, 0x5, 0x5, at, at);
    lemma_encode_by_keyword(
        line,
        Keyword::Ld,
        ops,
        text,
        byte_of(0xF, x as nat),
        byte_of(0x5, 0x5),
        at,
    );
}

/// `LD Vx, I` encodes to `Fx65`.
pub proof fn lemma_ld_load_line(x: u8, at: nat)
    requires
        x < 16,
    ensures
        encodes_to(
            reg_line("LD V"@, x, ", I"@),
            reg_text("F"@, x as u16, "65"@),
            byte_of(0xF, x as nat),
            byte_of(0x6, 0x5),
            at,
        ),
{
    let line = reg_line("LD V"@, x, ", I"@);
    let text = reg_text("F"@, x as u16, "65"@);
    lemma_ld_words();
    lemma_gaps();
    lemma_frames();
    let ops = seq![register_word(x as nat), "I"@];
    lemma_fixed_words();
    lemma_operands(x as u16);
    lemma_not_fixed_word(register_word(x as nat));
    lemma_words_reg_word_line("LD"@, "LD V"@, x, ", I"@, "I"@);
    lemma_reg_form_fits(ops, 0, "F"@, "65"@, x);
    lemma_reg_text("F"@, 0xF, x as u16, "65"@, 0x6, 0x5, at, at);
    lemma_encode_by_keyword(
        line,
        Keyword::Ld,
        ops,
        text,
        byte_of(0xF, x as nat),
        byte_of(0x6, 0x5),
        at,
    );
}

/// The two instructions without operands, as text.
pub proof fn lemma_fixed_texts(line: nat, at: nat)
    ensures
        instruction_of("00E0"@, line, at) == instruction_with("00E0"@, 0x00, 0xE0, line),
        instruction_of("00EE"@, line, at) == instruction_with("00EE"@, 0x00, 0xEE, line),
{
    reveal_strlit("00E0");
    reveal_strlit("00EE");
    lemma_four_digits("00E0"@, 0, 0, 0xE, 0, line, at);
    lemma_four_digits("00EE"@, 0, 0, 0xE, 0xE, line, at);
}

/// `CLS` encodes to `00E0`.
pub proof fn lemma_cls_line(at: nat)
    ensures
        encodes_to("CLS"@, "00E0"@, 0x00, 0xE0, at),
{
    lemma_cls_words();
    lemma_words_single("CLS"@);
    lemma_fixed_texts(at, at);
}

/// `RET` encodes to `00EE`.
pub proof fn lemma_ret_line(at: nat)
    ensures
        encodes_to("RET"@, "00EE"@, 0x00, 0xEE, at),
{
    lemma_ret_words();
    lemma_words_single("RET"@);
    lemma_fixed_texts(at, at);
}

} // verus!
