//! The fields of a 16-bit opcode.

use vstd::prelude::*;

verus! {

/// The first nibble: the instruction family.
pub open spec fn family_of(op: u16) -> u8 {
    (op / 0x1000) as u8
}

/// The second nibble: the register `x`.
pub open spec fn x_of(op: u16) -> u8 {
    (op / 0x100 % 0x10) as u8
}

/// The third nibble: the register `y`.
pub open spec fn y_of(op: u16) -> u8 {
    (op / 0x10 % 0x10) as u8
}

/// The fourth nibble: `n`.
pub open spec fn n_of(op: u16) -> u8 {
    (op % 0x10) as u8
}

/// The low byte: `kk`.
pub open spec fn kk_of(op: u16) -> u8 {
    (op % 0x100) as u8
}

/// The low twelve bits: `nnn`.
pub open spec fn nnn_of(op: u16) -> u16 {
    op % 0x1000
}

/// The opcode with the high byte `hi` and the low byte `lo`.
pub open spec fn opcode_of(hi: u8, lo: u8) -> u16 {
    (hi * 0x100 + lo) as u16
}

/// The first nibble of `op`.
pub fn family(op: u16) -> (r: u8)
    ensures
        r == family_of(op),
{
    assert((op & 0xF000) >> 12 == op / 0x1000) by (bit_vector);
    ((op & 0xF000) >> 12) as u8
}

/// The second nibble of `op`.
pub fn x(op: u16) -> (r: u8)
    ensures
        r == x_of(op),
{
    assert((op & 0x0F00) >> 8 == op / 0x100 % 0x10) by (bit_vector);
    ((op & 0x0F00) >> 8) as u8
}

/// The third nibble of `op`.
pub fn y(op: u16) -> (r: u8)
    ensures
        r == y_of(op),
{
    assert((op & 0x00F0) >> 4 == op / 0x10 % 0x10) by (bit_vector);
    ((op & 0x00F0) >> 4) as u8
}

/// The fourth nibble of `op`.
pub fn n(op: u16) -> (r: u8)
    ensures
        r == n_of(op),
{
    assert(op & 0x000F == op % 0x10) by (bit_vector);
    (op & 0x000F) as u8
}

/// The low byte of `op`.
pub fn kk(op: u16) -> (r: u8)
    ensures
        r == kk_of(op),
{
    assert(op & 0x00FF == op % 0x100) by (bit_vector);
    (op & 0x00FF) as u8
}

/// The low twelve bits of `op`.
pub fn nnn(op: u16) -> (r: u16)
    ensures
        r == nnn_of(op),
{
    assert(op & 0x0FFF == op % 0x1000) by (bit_vector);
    op & 0x0FFF
}

/// The opcode made of two bytes, high byte first.
pub fn join(hi: u8, lo: u8) -> (r: u16)
    ensures
        r == opcode_of(hi, lo),
{
    assert((hi as u16) << 8 | (lo as u16) == (hi as u16) * 0x100 + (lo as u16)) by (bit_vector);
    (hi as u16) << 8 | (lo as u16)
}

} // verus!
