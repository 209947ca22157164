//! Two bytes written as four hexadecimal digits.

use vstd::prelude::*;

verus! {

/// Why a text is not the hexadecimal form of two bytes.
#[derive(Clone, Copy, Debug, PartialEq, Eq)]
pub enum HexFault {
    /// The byte `c`, at position `index`, is not a hexadecimal digit.
    InvalidHexCharacter { c: char, index: usize },
    /// The text has an odd number of bytes.
    OddLength,
    /// The text has an even number of bytes, but not four.
    InvalidStringLength,
}

/// The value of the hexadecimal digit whose ASCII code is `b`, in either
/// case, if `b` is such a code.
pub open spec fn hex_digit_value(b: u8) -> Option<u8> {
    if 48 <= b <= 57 {
        Some((b - 48) as u8)
    } else if 97 <= b <= 102 {
        Some((b - 87) as u8)
    } else if 65 <= b <= 70 {
        Some((b - 55) as u8)
    } else {
        None
    }
}

/// The fault that an invalid digit at `index` raises.
pub open spec fn invalid_at(data: Seq<u8>, index: int) -> Option<HexFault> {
    Some(HexFault::InvalidHexCharacter { c: data[index] as char, index: index as usize })
}

/// Why `data` does not decode to two bytes, or `None` if it does. The
/// length is judged first, then the digits from left to right.
pub open spec fn hex_pair_fault(data: Seq<u8>) -> Option<HexFault> {
    if data.len() % 2 != 0 {
        Some(HexFault::OddLength)
    } else if data.len() != 4 {
        Some(HexFault::InvalidStringLength)
    } else if hex_digit_value(data[0]) is None {
        invalid_at(data, 0)
    } else if hex_digit_value(data[1]) is None {
        invalid_at(data, 1)
    } else if hex_digit_value(data[2]) is None {
        invalid_at(data, 2)
    } else if hex_digit_value(data[3]) is None {
        invalid_at(data, 3)
    } else {
        None
    }
}

/// The byte that the digits at `2 * k` and `2 * k + 1` of `data` denote.
pub open spec fn hex_byte_at(data: Seq<u8>, k: int) -> u8 {
    (16 * hex_digit_value(data[2 * k]).unwrap() + hex_digit_value(data[2 * k + 1]).unwrap()) as u8
}

/// The two bytes that four hexadecimal digits denote.
pub open spec fn hex_pair_bytes(data: Seq<u8>) -> Seq<u8> {
    seq![hex_byte_at(data, 0), hex_byte_at(data, 1)]
}

/// Calls `hex::decode_to_slice` on `data` with a buffer of two bytes. The
/// contract restates that function: it rejects an odd length, then a
/// length other than twice the buffer's, then the first byte that is not
/// a hexadecimal digit, and otherwise fills the buffer with one byte for
/// each pair of digits, the first digit of a pair counting sixteenfold.
#[verifier::external_body]
pub(crate) fn decode_hex_pair(data: &[u8]) -> (r: Result<[u8; 2], HexFault>)
    ensures
        match r {
            Ok(pair) => hex_pair_fault(data@) is None && pair@ == hex_pair_bytes(data@),
            Err(fault) => hex_pair_fault(data@) == Some(fault),
        },
{
    let mut out: [u8; 2] = [0u8; 2];
    match hex::decode_to_slice(data, &mut out) {
        Ok(()) => Ok(out),
        Err(hex::FromHexError::InvalidHexCharacter { c, index }) => Err(
            HexFault::InvalidHexCharacter { c, index },
        ),
        Err(hex::FromHexError::OddLength) => Err(HexFault::OddLength),
        Err(hex::FromHexError::InvalidStringLength) => Err(HexFault::InvalidStringLength),
    }
}

} // verus!
