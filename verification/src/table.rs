//! The opcodes of the instruction table, and that lines with a keyword
//! encode to nothing else.

use crate::assembler::{
    addr_form, encode_line, instruction_of, keyword_text, ld_text, line_keyword, line_operands,
    pair_form, pair_or_byte_form, reg_form, register_of, Keyword,
};
use crate::forms::lemma_fixed_texts;
use crate::hextext::{
    byte_of, is_hex_byte_text, is_hex_digit_text, lemma_addr_fields, lemma_addr_text,
    lemma_byte_fields, lemma_byte_text, lemma_draw_text, lemma_fields, lemma_pair_text,
    lemma_reg_text, opcode_in,
};
use crate::literals::lemma_frames;
use crate::numeral::parse_decimal;
use crate::opcode::{family_of, kk_of, n_of, nnn_of};
use vstd::prelude::*;

verus! {

/// The opcodes that lines with a keyword encode to: `00E0` and `00EE`;
/// `5xy0` and `9xy0`; `8xy0` to `8xy7` and `8xyE`; `Ex9E` and `ExA1`; the
/// nine `Fx__` of the timers and of memory; and all of `1nnn`, `2nnn`,
/// `3xkk`, `4xkk`, `6xkk`, `7xkk`, `Annn`, `Bnnn`, `Cxkk` and `Dxyn`.
pub open spec fn is_mnemonic_opcode(op: u16) -> bool {
    let family = family_of(op);
    let n = n_of(op);
    let kk = kk_of(op);
    if family == 0x0 {
        op == 0x00E0 || op == 0x00EE
    } else if family == 0x5 || family == 0x9 {
        n == 0
    } else if family == 0x8 {
        n <= 7 || n == 0xE
    } else if family == 0xE {
        kk == 0x9E || kk == 0xA1
    } else if family == 0xF {
        kk == 0x07 || kk == 0x0A || kk == 0x15 || kk == 0x18 || kk == 0x1E || kk == 0x29 || kk
            == 0x33 || kk == 0x55 || kk == 0x65
    } else {
        true
    }
}

/// Whether `text` is an instruction whose opcode the instruction table
/// holds.
pub open spec fn is_table_text(text: Seq<char>, at: nat) -> bool {
    let i = instruction_of(text, at, at)->Ok_0;
    i.bytes.len() == 2 && is_mnemonic_opcode(opcode_in(i))
}

/// What an address form encodes to: the family of its head, with the
/// address for its low twelve bits.
pub proof fn lemma_addr_form_opcode(
    ops: Seq<Seq<char>>,
    index: int,
    head: Seq<char>,
    h: nat,
    at: nat,
)
    requires
        is_hex_digit_text(head, h),
        addr_form(ops, index, head) is Some,
        instruction_of(addr_form(ops, index, head)->0, at, at) is Ok,
    ensures
        ({
            let i = instruction_of(addr_form(ops, index, head)->0, at, at)->Ok_0;
            &&& i.bytes.len() == 2
            &&& family_of(opcode_in(i)) == h
            &&& nnn_of(opcode_in(i)) == parse_decimal(ops[index])->0
        }),
{
    let nnn = parse_decimal(ops[index])->0;
    let n = nnn as nat;
    lemma_addr_text(head, h, nnn, at, at);
    lemma_addr_fields(h, n);
}

/// What a register form encodes to: the family of its head, with the low
/// byte of its tail.
pub proof fn lemma_reg_form_opcode(
    ops: Seq<Seq<char>>,
    index: int,
    head: Seq<char>,
    h: nat,
    tail: Seq<char>,
    hi: nat,
    lo: nat,
    at: nat,
)
    requires
        is_hex_digit_text(head, h),
        is_hex_byte_text(tail, hi, lo),
        reg_form(ops, index, head, tail) is Some,
        instruction_of(reg_form(ops, index, head, tail)->0, at, at) is Ok,
    ensures
        ({
            let i = instruction_of(reg_form(ops, index, head, tail)->0, at, at)->Ok_0;
            &&& i.bytes.len() == 2
            &&& family_of(opcode_in(i)) == h
            &&& kk_of(opcode_in(i)) == byte_of(hi, lo)
        }),
{
    let x = register_of(ops[index])->0;
    lemma_reg_text(head, h, x, tail, hi, lo, at, at);
    lemma_fields(h, x as nat, hi, lo);
}

/// What a form of two registers encodes to: the family of its head, with
/// the last nibble of its tail.
pub proof fn lemma_pair_form_opcode(
    ops: Seq<Seq<char>>,
    head: Seq<char>,
    h: nat,
    tail: Seq<char>,
    t: nat,
    at: nat,
)
    requires
        is_hex_digit_text(head, h),
        is_hex_digit_text(tail, t),
        pair_form(ops, head, tail) is Some,
        instruction_of(pair_form(ops, head, tail)->0, at, at) is Ok,
    ensures
        ({
            let i = instruction_of(pair_form(ops, head, tail)->0, at, at)->Ok_0;
            &&& i.bytes.len() == 2
            &&& family_of(opcode_in(i)) == h
            &&& n_of(opcode_in(i)) == t
        }),
{
    let x = register_of(ops[0])->0;
    let y = register_of(ops[1])->0;
    lemma_pair_text(head, h, x, y, tail, t, at, at);
    lemma_fields(h, x as nat, y as nat, t);
}

/// What a form of a register and a register or a byte encodes to: the
/// family of one head with the last nibble of the tail, or the family of
/// the other head.
pub proof fn lemma_pair_or_byte_form_opcode(
    ops: Seq<Seq<char>>,
    pair_head: Seq<char>,
    ph: nat,
    pair_tail: Seq<char>,
    pt: nat,
    byte_head: Seq<char>,
    bh: nat,
    at: nat,
)
    requires
        is_hex_digit_text(pair_head, ph),
        is_hex_digit_text(pair_tail, pt),
        is_hex_digit_text(byte_head, bh),
        pair_or_byte_form(ops, pair_head, pair_tail, byte_head) is Some,
        instruction_of(pair_or_byte_form(ops, pair_head, pair_tail, byte_head)->0, at, at) is Ok,
    ensures
        ({
            let i = instruction_of(
                pair_or_byte_form(ops, pair_head, pair_tail, byte_head)->0,
                at,
                at,
            )->Ok_0;
            &&& i.bytes.len() == 2
            &&& (family_of(opcode_in(i)) == ph && n_of(opcode_in(i)) == pt) || family_of(
                opcode_in(i),
            ) == bh
        }),
{
    let x = register_of(ops[0])->0;
    match register_of(ops[1]) {
        Some(y) => {
            lemma_pair_text(pair_head, ph, x, y, pair_tail, pt, at, at);
            lemma_fields(ph, x as nat, y as nat, pt);
        },
        None => {
            let kk = parse_decimal(ops[1])->0;
            lemma_byte_text(byte_head, bh, x, kk, at, at);
            lemma_byte_fields(bh, x as nat, kk as nat);
        },
    }
}

/// What a line of `JP` or `CALL` encodes to.
pub proof fn lemma_jump_opcode(keyword: Keyword, ops: Seq<Seq<char>>, at: nat)
    requires
        keyword == Keyword::Jp || keyword == Keyword::Call,
        keyword_text(keyword, ops) is Some,
        instruction_of(keyword_text(keyword, ops)->0, at, at) is Ok,
    ensures
        is_table_text(keyword_text(keyword, ops)->0, at),
{
    lemma_frames();
    if keyword == Keyword::Call {
        lemma_addr_form_opcode(ops, 0, "2"@, 2, at);
    } else if ops.len() == 1 {
        lemma_addr_form_opcode(ops, 0, "1"@, 1, at);
    } else {
        lemma_addr_form_opcode(ops, 1, "B"@, 0xB, at);
    }
}

/// What a line of `RET` or `CLS` encodes to.
pub proof fn lemma_fixed_opcode(keyword: Keyword, ops: Seq<Seq<char>>, at: nat)
    requires
        keyword == Keyword::Ret || keyword == Keyword::Cls,
    ensures
        instruction_of(keyword_text(keyword, ops)->0, at, at) is Ok,
        is_table_text(keyword_text(keyword, ops)->0, at),
{
    lemma_fixed_texts(at, at);
    lemma_fields(0, 0, 0xE, 0xE);
    lemma_fields(0, 0, 0xE, 0);
}

/// What a line of `SE`, `SNE` or `ADD` encodes to.
pub proof fn lemma_compare_opcode(keyword: Keyword, ops: Seq<Seq<char>>, at: nat)
    requires
        keyword == Keyword::Se || keyword == Keyword::Sne || keyword == Keyword::Add,
        keyword_text(keyword, ops) is Some,
        instruction_of(keyword_text(keyword, ops)->0, at, at) is Ok,
    ensures
        is_table_text(keyword_text(keyword, ops)->0, at),
{
    lemma_frames();
    if keyword == Keyword::Se {
        lemma_pair_or_byte_form_opcode(ops, "5"@, 5, "0"@, 0, "3"@, 3, at);
    } else if keyword == Keyword::Sne {
        lemma_pair_or_byte_form_opcode(ops, "9"@, 9, "0"@, 0, "4"@, 4, at);
    } else if ops[0] == "I"@ {
        lemma_reg_form_opcode(ops, 1, "F"@, 0xF, "1E"@, 0x1, 0xE, at);
    } else {
        lemma_pair_or_byte_form_opcode(ops, "8"@, 8, "4"@, 4, "7"@, 7, at);
    }
}

/// What a line of `LD` encodes to.
#[verifier::rlimit(50)]
pub proof fn lemma_ld_opcode(ops: Seq<Seq<char>>, at: nat)
    requires
        ld_text(ops) is Some,
        instruction_of(ld_text(ops)->0, at, at) is Ok,
    ensures
        is_table_text(ld_text(ops)->0, at),
{
    lemma_frames();
    if ops[0] == "I"@ {
        match register_of(ops[1]) {
            Some(x) => {
                lemma_reg_text("F"@, 0xF, x, "55"@, 0x5, 0x5, at, at);
                lemma_fields(0xF, x as nat, 0x5, 0x5);
            },
            None => {
                lemma_addr_form_opcode(ops, 1, "A"@, 0xA, at);
            },
        }
    } else if ops[0] == "DT"@ {
        lemma_reg_form_opcode(ops, 1, "F"@, 0xF, "15"@, 0x1, 0x5, at);
    } else if ops[0] == "ST"@ {
        lemma_reg_form_opcode(ops, 1, "F"@, 0xF, "18"@, 0x1, 0x8, at);
    } else if ops[0] == "F"@ {
        lemma_reg_form_opcode(ops, 1, "F"@, 0xF, "29"@, 0x2, 0x9, at);
    } else if ops[0] == "B"@ {
        lemma_reg_form_opcode(ops, 1, "F"@, 0xF, "33"@, 0x3, 0x3, at);
    } else if ops[1] == "DT"@ {
        lemma_reg_form_opcode(ops, 0, "F"@, 0xF, "07"@, 0x0, 0x7, at);
    } else if ops[1] == "K"@ {
        lemma_reg_form_opcode(ops, 0, "F"@, 0xF, "0A"@, 0x0, 0xA, at);
    } else if ops[1] == "I"@ {
        lemma_reg_form_opcode(ops, 0, "F"@, 0xF, "65"@, 0x6, 0x5, at);
    } else {
        lemma_pair_or_byte_form_opcode(ops, "8"@, 8, "0"@, 0, "6"@, 6, at);
    }
}

/// What a line of `OR`, `AND`, `XOR`, `SUB`, `SHR`, `SUBN` or `SHL`
/// encodes to.
pub proof fn lemma_arithmetic_opcode(keyword: Keyword, ops: Seq<Seq<char>>, at: nat)
    requires
        keyword == Keyword::Or || keyword == Keyword::And || keyword == Keyword::Xor || keyword
            == Keyword::Sub || keyword == Keyword::Shr || keyword == Keyword::Subn || keyword
            == Keyword::Shl,
        keyword_text(keyword, ops) is Some,
        instruction_of(keyword_text(keyword, ops)->0, at, at) is Ok,
    ensures
        is_table_text(keyword_text(keyword, ops)->0, at),
{
    lemma_frames();
    match keyword {
        Keyword::Or => {
            lemma_pair_form_opcode(ops, "8"@, 8, "1"@, 1, at);
        },
        Keyword::And => {
            lemma_pair_form_opcode(ops, "8"@, 8, "2"@, 2, at);
        },
        Keyword::Xor => {
            lemma_pair_form_opcode(ops, "8"@, 8, "3"@, 3, at);
        },
        Keyword::Sub => {
            lemma_pair_form_opcode(ops, "8"@, 8, "5"@, 5, at);
        },
        Keyword::Shr => {
            lemma_pair_form_opcode(ops, "8"@, 8, "6"@, 6, at);
        },
        Keyword::Subn => {
            lemma_pair_form_opcode(ops, "8"@, 8, "7"@, 7, at);
        },
        _ => {
            lemma_pair_form_opcode(ops, "8"@, 8, "E"@, 0xE, at);
        },
    }
}

/// What a line of `RND`, `DRW`, `SKP` or `SKNP` encodes to.
#[verifier::rlimit(50)]
pub proof fn lemma_device_opcode(keyword: Keyword, ops: Seq<Seq<char>>, at: nat)
    requires
        keyword == Keyword::Rnd || keyword == Keyword::Drw || keyword == Keyword::Skp || keyword
            == Keyword::Sknp,
        keyword_text(keyword, ops) is Some,
        instruction_of(keyword_text(keyword, ops)->0, at, at) is Ok,
    ensures
        is_table_text(keyword_text(keyword, ops)->0, at),
{
    lemma_frames();
    match keyword {
        Keyword::Rnd => {
            let x = register_of(ops[0])->0;
            let kk = parse_decimal(ops[1])->0;
            lemma_byte_text("C"@, 0xC, x, kk, at, at);
            lemma_byte_fields(0xC, x as nat, kk as nat);
        },
        Keyword::Drw => {
            let x = register_of(ops[0])->0;
            let y = register_of(ops[1])->0;
            let n = parse_decimal(ops[2])->0;
            lemma_draw_text("D"@, 0xD, x, y, n, at, at);
            lemma_fields(0xD, x as nat, y as nat, n as nat);
        },
        Keyword::Skp => {
            lemma_reg_form_opcode(ops, 0, "E"@, 0xE, "9E"@, 0x9, 0xE, at);
        },
        _ => {
            lemma_reg_form_opcode(ops, 0, "E"@, 0xE, "A1"@, 0xA, 0x1, at);
        },
    }
}

/// What a line with a keyword encodes to is one of the opcodes that the
/// instruction table holds.
#[verifier::rlimit(50)]
pub proof fn lemma_keyword_line_opcode(line: Seq<char>, at: nat)
    requires
        line_keyword(line) is Some,
        encode_line(line, at) is Ok,
    ensures
        encode_line(line, at)->Ok_0.bytes.len() == 2,
        is_mnemonic_opcode(opcode_in(encode_line(line, at)->Ok_0)),
{
    let ops = line_operands(line);
    let keyword = line_keyword(line)->0;
    assert(encode_line(line, at) == instruction_of(keyword_text(keyword, ops)->0, at, at));
    match keyword {
        Keyword::Jp | Keyword::Call => {
            lemma_jump_opcode(keyword, ops, at);
        },
        Keyword::Ret | Keyword::Cls => {
            lemma_fixed_opcode(keyword, ops, at);
        },
        Keyword::Se | Keyword::Sne | Keyword::Add => {
            lemma_compare_opcode(keyword, ops, at);
        },
        Keyword::Ld => {
            lemma_ld_opcode(ops, at);
        },
        Keyword::Or
        | Keyword::And
        | Keyword::Xor
        | Keyword::Sub
        | Keyword::Shr
        | Keyword::Subn
        | Keyword::Shl => {
            lemma_arithmetic_opcode(keyword, ops, at);
        },
        Keyword::Rnd | Keyword::Drw | Keyword::Skp | Keyword::Sknp => {
            lemma_device_opcode(keyword, ops, at);
        },
    }
}

} // verus!
