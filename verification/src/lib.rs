//! A codec between CHIP-8 mnemonic text and 16-bit opcodes.
//!
//! The assembler turns lines of mnemonic text into two-byte opcodes; the
//! disassembler turns the bytes of a program back into mnemonic text. What
//! the two have to do with each other is proved in `roundtrip`.

use vstd::prelude::*;

pub mod assembler;
pub mod disassembler;
pub mod forms;
pub mod hexpair;
pub mod hextext;
pub mod linewords;
pub mod literals;
pub mod numeral;
pub mod opcode;
pub mod roundtrip;
pub mod table;
pub mod text;

verus! {

/// Where a program is loaded in memory.
pub const START_ROM: usize = 512;

} // verus!
