//! Around the circle: from a line to its opcode, on to the mnemonic text
//! of the opcode, and back to the opcode.

use crate::assembler::{encode_line, line_keyword, pair_text, rom_address, Keyword};
use crate::disassembler::{mnemonic, pair_line};
use crate::forms::{
    encodes_to, lemma_add_byte_line, lemma_add_i_line, lemma_add_pair_line, lemma_and_line,
    lemma_call_line, lemma_cls_line, lemma_drw_line, lemma_fixed_texts, lemma_jp_line,
    lemma_jp_v0_line, lemma_ld_b_line, lemma_ld_byte_line, lemma_ld_dt_line, lemma_ld_f_line,
    lemma_ld_from_dt_line, lemma_ld_i_line, lemma_ld_key_line, lemma_ld_load_line,
    lemma_ld_pair_line, lemma_ld_st_line, lemma_ld_store_line, lemma_or_line, lemma_ret_line,
    lemma_rnd_line, lemma_se_byte_line, lemma_se_pair_line, lemma_shl_line, lemma_shr_line,
    lemma_sknp_line, lemma_skp_line, lemma_sne_byte_line, lemma_sne_pair_line, lemma_sub_line,
    lemma_subn_line, lemma_xor_line,
};
use crate::hextext::{instruction_with, lemma_fields, lemma_opcode_parts, opcode_in};
use crate::opcode::{family_of, kk_of, n_of, nnn_of, x_of, y_of};
use crate::table::{is_mnemonic_opcode, lemma_keyword_line_opcode};
use vstd::prelude::*;

verus! {

/// Whether the mnemonic text of `op` encodes to `op` again.
pub open spec fn comes_back(op: u16, at: nat) -> bool {
    &&& encode_line(mnemonic(op), at) is Ok
    &&& encode_line(mnemonic(op), at)->Ok_0.bytes == seq![(op / 0x100) as u8, (op % 0x100) as u8]
    &&& encode_line(mnemonic(op), at)->Ok_0.address == rom_address(at)
}

/// `00E0` and `00EE` come back from `CLS` and `RET`.
pub proof fn lemma_comes_back_fixed(op: u16, at: nat)
    requires
        op == 0x00E0 || op == 0x00EE,
    ensures
        comes_back(op, at),
{
    lemma_cls_line(at);
    lemma_ret_line(at);
}

/// `1nnn`, `2nnn`, `Annn` and `Bnnn` come back from their mnemonic text.
pub proof fn lemma_comes_back_addr(op: u16, at: nat)
    requires
        family_of(op) == 0x1 || family_of(op) == 0x2 || family_of(op) == 0xA || family_of(op)
            == 0xB,
    ensures
        comes_back(op, at),
{
    let family = family_of(op);
    let nnn = nnn_of(op);
    lemma_opcode_parts(op);
    if family == 0x1 {
        lemma_jp_line(nnn, at);
    } else if family == 0x2 {
        lemma_call_line(nnn, at);
    } else if family == 0xA {
        lemma_ld_i_line(nnn, at);
    } else {
        lemma_jp_v0_line(nnn, at);
    }
}

/// `3xkk`, `4xkk`, `6xkk`, `7xkk` and `Cxkk` come back from their
/// mnemonic text.
pub proof fn lemma_comes_back_byte(op: u16, at: nat)
    requires
        family_of(op) == 0x3 || family_of(op) == 0x4 || family_of(op) == 0x6 || family_of(op)
            == 0x7 || family_of(op) == 0xC,
    ensures
        comes_back(op, at),
{
    let family = family_of(op);
    let x = x_of(op);
    let kk = kk_of(op);
    lemma_opcode_parts(op);
    if family == 0x3 {
        lemma_se_byte_line(x, kk, at);
    } else if family == 0x4 {
        lemma_sne_byte_line(x, kk, at);
    } else if family == 0x6 {
        lemma_ld_byte_line(x, kk, at);
    } else if family == 0x7 {
        lemma_add_byte_line(x, kk, at);
    } else {
        lemma_rnd_line(x, kk, at);
    }
}

/// `5xy0` and `9xy0` come back from their mnemonic text.
pub proof fn lemma_comes_back_compare(op: u16, at: nat)
    requires
        family_of(op) == 0x5 || family_of(op) == 0x9,
        n_of(op) == 0,
    ensures
        comes_back(op, at),
{
    let x = x_of(op);
    let y = y_of(op);
    lemma_opcode_parts(op);
    if family_of(op) == 0x5 {
        lemma_se_pair_line(x, y, at);
    } else {
        lemma_sne_pair_line(x, y, at);
    }
}

/// `8xy0` to `8xy7` and `8xyE` come back from their mnemonic text.
pub proof fn lemma_comes_back_arithmetic(op: u16, at: nat)
    requires
        family_of(op) == 0x8,
        n_of(op) <= 7 || n_of(op) == 0xE,
    ensures
        comes_back(op, at),
{
    let x = x_of(op);
    let y = y_of(op);
    let n = n_of(op);
    lemma_opcode_parts(op);
    if n == 0 {
        lemma_ld_pair_line(x, y, at);
    } else if n == 1 {
        lemma_or_line(x, y, at);
    } else if n == 2 {
        lemma_and_line(x, y, at);
    } else if n == 3 {
        lemma_xor_line(x, y, at);
    } else if n == 4 {
        lemma_add_pair_line(x, y, at);
    } else if n == 5 {
        lemma_sub_line(x, y, at);
    } else if n == 6 {
        lemma_shr_line(x, y, at);
    } else if n == 7 {
        lemma_subn_line(x, y, at);
    } else {
        lemma_shl_line(x, y, at);
    }
}

/// `Dxyn` comes back from its mnemonic text.
pub proof fn lemma_comes_back_draw(op: u16, at: nat)
    requires
        family_of(op) == 0xD,
    ensures
        comes_back(op, at),
{
    lemma_opcode_parts(op);
    lemma_drw_line(x_of(op), y_of(op), n_of(op), at);
}

/// `Ex9E` and `ExA1` come back from their mnemonic text.
pub proof fn lemma_comes_back_key(op: u16, at: nat)
    requires
        family_of(op) == 0xE,
        kk_of(op) == 0x9E || kk_of(op) == 0xA1,
    ensures
        comes_back(op, at),
{
    lemma_opcode_parts(op);
    if kk_of(op) == 0x9E {
        lemma_skp_line(x_of(op), at);
    } else {
        lemma_sknp_line(x_of(op), at);
    }
}

/// The nine opcodes `Fx__` of the timers and of memory come back from
/// their mnemonic text.
pub proof fn lemma_comes_back_timer_memory(op: u16, at: nat)
    requires
        family_of(op) == 0xF,
        is_mnemonic_opcode(op),
    ensures
        comes_back(op, at),
{
    let x = x_of(op);
    let kk = kk_of(op);
    lemma_opcode_parts(op);
    if kk == 0x07 {
        lemma_ld_from_dt_line(x, at);
    } else if kk == 0x0A {
        lemma_ld_key_line(x, at);
    } else if kk == 0x15 {
        lemma_ld_dt_line(x, at);
    } else if kk == 0x18 {
        lemma_ld_st_line(x, at);
    } else if kk == 0x1E {
        lemma_add_i_line(x, at);
    } else if kk == 0x29 {
        lemma_ld_f_line(x, at);
    } else if kk == 0x33 {
        lemma_ld_b_line(x, at);
    } else if kk == 0x55 {
        lemma_ld_store_line(x, at);
    } else {
        lemma_ld_load_line(x, at);
    }
}

/// Every opcode of the instruction table is encoded again by its own
/// mnemonic text.
pub proof fn lemma_mnemonic_comes_back(op: u16, at: nat)
    requires
        is_mnemonic_opcode(op),
    ensures
        comes_back(op, at),
{
    let family = family_of(op);
    lemma_opcode_parts(op);
    if family == 0x0 {
        lemma_comes_back_fixed(op, at);
    } else if family == 0x1 || family == 0x2 || family == 0xA || family == 0xB {
        lemma_comes_back_addr(op, at);
    } else if family == 0x3 || family == 0x4 || family == 0x6 || family == 0x7 || family == 0xC {
        lemma_comes_back_byte(op, at);
    } else if family == 0x5 || family == 0x9 {
        lemma_comes_back_compare(op, at);
    } else if family == 0x8 {
        lemma_comes_back_arithmetic(op, at);
    } else if family == 0xD {
        lemma_comes_back_draw(op, at);
    } else if family == 0xE {
        lemma_comes_back_key(op, at);
    } else {
        lemma_comes_back_timer_memory(op, at);
    }
}

/// A line with a keyword that encodes is followed around the circle: the
/// mnemonic text of its opcode encodes to the same two bytes.
#[verifier::rlimit(50)]
pub proof fn lemma_round_trip(line: Seq<char>, at: nat, again: nat)
    requires
        line_keyword(line) is Some,
        encode_line(line, at) is Ok,
    ensures
        encode_line(mnemonic(opcode_in(encode_line(line, at)->Ok_0)), again) is Ok,
        encode_line(mnemonic(opcode_in(encode_line(line, at)->Ok_0)), again)->Ok_0.bytes
            == encode_line(line, at)->Ok_0.bytes,
{
    let first = encode_line(line, at)->Ok_0;
    let op = opcode_in(first);
    lemma_keyword_line_opcode(line, at);
    lemma_mnemonic_comes_back(op, again);
    assert(op == first.bytes[0] * 0x100 + first.bytes[1]);
    assert(first.bytes =~= seq![(op / 0x100) as u8, (op % 0x100) as u8]);
}

/// For every two registers `x` and `y` below sixteen, the line
/// `ADD Vx, Vy` encodes to the opcode `8xy4`, and `8xy4` decodes to the
/// line `ADD Vx, Vy`.
pub proof fn lemma_add_registers_exact(x: u8, y: u8, at: nat)
    requires
        x < 16,
        y < 16,
    ensures
        encode_line(pair_line("ADD V"@, x, ", V"@, y), at) == instruction_with(
            pair_text("8"@, x as u16, y as u16, "4"@),
            (0x80 + x) as u8,
            (0x10 * y + 0x4) as u8,
            at,
        ),
        mnemonic((0x8004 + 0x100 * x + 0x10 * y) as u16) == pair_line("ADD V"@, x, ", V"@, y),
{
    lemma_add_pair_line(x, y, at);
    lemma_fields(8, x as nat, y as nat, 4);
}

/// Whatever follows the keyword and wherever the line counter stands,
/// `CLS` encodes to `00E0` and `RET` to `00EE`; and `00E0` decodes to
/// `CLS` and `00EE` to `RET`.
pub proof fn lemma_fixed_forms(line: Seq<char>, at: nat)
    ensures
        line_keyword(line) == Some(Keyword::Cls) ==> encodes_to(line, "00E0"@, 0x00, 0xE0, at),
        line_keyword(line) == Some(Keyword::Ret) ==> encodes_to(line, "00EE"@, 0x00, 0xEE, at),
        mnemonic(0x00E0) == "CLS"@,
        mnemonic(0x00EE) == "RET"@,
{
    lemma_fixed_texts(at, at);
}

} // verus!
