//! The disassembler: from the bytes of a program to mnemonic text.

use crate::numeral::{decimal_text, hex_text_padded, push_decimal, push_hex_padded};
use crate::opcode::{family_of, kk_of, n_of, nnn_of, opcode_of, x_of, y_of};
use crate::text::{before_first, cut_before};
use crate::START_ROM;
use vstd::prelude::*;
use vstd::string::StringExecFns;

verus! {

/// Mnemonic text with an address: `head`, then `nnn` in decimal.
pub open spec fn addr_line(head: Seq<char>, nnn: u16) -> Seq<char> {
    head + decimal_text(nnn as nat)
}

/// Mnemonic text with one register: `head`, `x` in decimal, `tail`.
pub open spec fn reg_line(head: Seq<char>, x: u8, tail: Seq<char>) -> Seq<char> {
    head + decimal_text(x as nat) + tail
}

/// Mnemonic text with two numbers: `head`, `x` in decimal, `mid`, `v` in
/// decimal.
pub open spec fn pair_line(head: Seq<char>, x: u8, mid: Seq<char>, v: u8) -> Seq<char> {
    head + decimal_text(x as nat) + mid + decimal_text(v as nat)
}

/// The opcode written as four hexadecimal digits: what stands for an
/// opcode that no instruction claims.
pub open spec fn raw_line(op: u16) -> Seq<char> {
    hex_text_padded(op as nat, 4)
}

/// The text of the family `8xy_`, chosen by the last nibble.
pub open spec fn arithmetic_line(op: u16) -> Seq<char> {
    let x = x_of(op);
    let y = y_of(op);
    let n = n_of(op);
    if n == 0x0 {
        pair_line("LD V"@, x, ", V"@, y)
    } else if n == 0x1 {
        pair_line("OR V"@, x, ", V"@, y)
    } else if n == 0x2 {
        pair_line("AND V"@, x, ", V"@, y)
    } else if n == 0x3 {
        pair_line("XOR V"@, x, ", V"@, y)
    } else if n == 0x4 {
        pair_line("ADD V"@, x, ", V"@, y)
    } else if n == 0x5 {
        pair_line("SUB V"@, x, ", V"@, y)
    } else if n == 0x6 {
        pair_line("SHR V"@, x, ", V"@, y)
    } else if n == 0x7 {
        pair_line("SUBN V"@, x, " V"@, y)
    } else if n == 0xE {
        pair_line("SHL V"@, x, ", V"@, y)
    } else {
        raw_line(op)
    }
}

/// The text of the family `Fx__`, chosen by the low byte.
pub open spec fn timer_memory_line(op: u16) -> Seq<char> {
    let x = x_of(op);
    let kk = kk_of(op);
    if kk == 0x07 {
        reg_line("LD V"@, x, ", DT"@)
    } else if kk == 0x0A {
        reg_line("LD V"@, x, ", K"@)
    } else if kk == 0x15 {
        reg_line("LD DT, V"@, x, ""@)
    } else if kk == 0x18 {
        reg_line("LD ST, V"@, x, ""@)
    } else if kk == 0x1E {
        reg_line("ADD I, V"@, x, ""@)
    } else if kk == 0x29 {
        reg_line("LD F, V"@, x, ""@)
    } else if kk == 0x33 {
        reg_line("LD B, V"@, x, ""@)
    } else if kk == 0x55 {
        reg_line("LD I, V"@, x, ""@)
    } else if kk == 0x65 {
        reg_line("LD V"@, x, ", I"@)
    } else {
        raw_line(op)
    }
}

/// The mnemonic text of the opcode `op`. Registers, bytes and addresses
/// are written in decimal. An opcode that no instruction claims is written
/// as four hexadecimal digits.
pub open spec fn mnemonic(op: u16) -> Seq<char> {
    let family = family_of(op);
    let x = x_of(op);
    let y = y_of(op);
    let kk = kk_of(op);
    let nnn = nnn_of(op);
    if family == 0x0 {
        if kk == 0xE0 {
            "CLS"@
        } else if kk == 0xEE {
            "RET"@
        } else {
            raw_line(op)
        }
    } else if family == 0x1 {
        addr_line("JP "@, nnn)
    } else if family == 0x2 {
        addr_line("CALL "@, nnn)
    } else if family == 0x3 {
        pair_line("SE V"@, x, ", "@, kk)
    } else if family == 0x4 {
        pair_line("SNE V"@, x, ", "@, kk)
    } else if family == 0x5 {
        pair_line("SE V"@, x, ", V"@, y)
    } else if family == 0x6 {
        pair_line("LD V"@, x, ", "@, kk)
    } else if family == 0x7 {
        pair_line("ADD V"@, x, ", "@, kk)
    } else if family == 0x8 {
        arithmetic_line(op)
    } else if family == 0x9 {
        pair_line("SNE V"@, x, ", V"@, y)
    } else if family == 0xA {
        addr_line("LD I, "@, nnn)
    } else if family == 0xB {
        addr_line("JP V0, "@, nnn)
    } else if family == 0xC {
        pair_line("RND V"@, x, ", "@, kk)
    } else if family == 0xD {
        pair_line("DRW V"@, x, ", V"@, y) + ", "@ + decimal_text(n_of(op) as nat)
    } else if family == 0xE {
        if kk == 0x9E {
            reg_line("SKP V"@, x, ""@)
        } else if kk == 0xA1 {
            reg_line("SKNP V"@, x, ""@)
        } else {
            raw_line(op)
        }
    } else {
        timer_memory_line(op)
    }
}

/// A numeral is never empty.
pub proof fn lemma_decimal_text_nonempty(n: nat)
    ensures
        decimal_text(n).len() > 0,
    decreases n,
{
    if n >= 10 {
        lemma_decimal_text_nonempty(n / 10);
    }
}

/// Every opcode has a text, and the text is never empty.
pub proof fn lemma_mnemonic_nonempty(op: u16)
    ensures
        mnemonic(op).len() > 0,
{
    reveal_strlit("CLS");
    reveal_strlit("RET");
    crate::numeral::lemma_hex_text_len(op as nat);
    lemma_decimal_text_nonempty(nnn_of(op) as nat);
    lemma_decimal_text_nonempty(x_of(op) as nat);
    lemma_decimal_text_nonempty(y_of(op) as nat);
    lemma_decimal_text_nonempty(kk_of(op) as nat);
    lemma_decimal_text_nonempty(n_of(op) as nat);
}

/// The text `head`, then `nnn` in decimal.
pub fn addr_string(head: &str, nnn: u16) -> (s: String)
    ensures
        s@ == addr_line(head@, nnn),
{
    let mut s = String::from_str(head);
    push_decimal(&mut s, nnn);
    s
}

/// The text `head`, `x` in decimal, `tail`.
pub fn reg_string(head: &str, x: u8, tail: &str) -> (s: String)
    ensures
        s@ == reg_line(head@, x, tail@),
{
    let mut s = String::from_str(head);
    push_decimal(&mut s, x as u16);
    s.append(tail);
    s
}

/// The text `head`, `x` in decimal, `mid`, `v` in decimal.
pub fn pair_string(head: &str, x: u8, mid: &str, v: u8) -> (s: String)
    ensures
        s@ == pair_line(head@, x, mid@, v),
{
    let mut s = String::from_str(head);
    push_decimal(&mut s, x as u16);
    s.append(mid);
    push_decimal(&mut s, v as u16);
    s
}

/// The opcode as four hexadecimal digits.
pub fn raw_string(op: u16) -> (s: String)
    ensures
        s@ == raw_line(op),
{
    let mut s = String::new();
    push_hex_padded(&mut s, op, 4);
    assert(s@ =~= raw_line(op));
    s
}

/// One decoded position of a program: the address, the opcode found there
/// and its mnemonic text.
#[derive(Debug, PartialEq, Eq)]
pub struct Decoded {
    pub address: usize,
    pub opcode: u16,
    pub instruction: String,
}

/// What a `Decoded` holds, as plain values.
pub struct DecodedView {
    pub address: nat,
    pub opcode: u16,
    pub instruction: Seq<char>,
}

impl View for Decoded {
    type V = DecodedView;

    open spec fn view(&self) -> DecodedView {
        DecodedView {
            address: self.address as nat,
            opcode: self.opcode,
            instruction: self.instruction@,
        }
    }
}

/// The views of a sequence of decoded positions.
pub open spec fn decoded_views(s: Seq<Decoded>) -> Seq<DecodedView> {
    s.map_values(|d: Decoded| d@)
}

/// The opcode that memory holds at `address`, high byte first.
pub open spec fn opcode_at(ram: Seq<u8>, address: int) -> u16 {
    opcode_of(ram[address], ram[address + 1])
}

/// The `k`-th decoded position of a program in memory.
pub open spec fn decoded_at(ram: Seq<u8>, k: int) -> DecodedView {
    let address = START_ROM + 2 * k;
    DecodedView {
        address: address as nat,
        opcode: opcode_at(ram, address),
        instruction: mnemonic(opcode_at(ram, address)),
    }
}

/// What a sweep over memory of `size` bytes decodes: every even address
/// from `START_ROM` on that still has a byte after it, in rising order.
pub open spec fn swept(ram: Seq<u8>, size: nat) -> Seq<DecodedView> {
    Seq::new(((size - START_ROM) / 2) as nat, |k: int| decoded_at(ram, k))
}

/// The texts `items` with `sep` between each two of them.
pub open spec fn joined(items: Seq<Seq<char>>, sep: Seq<char>) -> Seq<char>
    decreases items.len(),
{
    if items.len() == 0 {
        Seq::empty()
    } else if items.len() == 1 {
        items[0]
    } else {
        joined(items.drop_last(), sep) + sep + items.last()
    }
}

/// The mnemonic texts of the decoded positions `s`.
pub open spec fn instructions_of(s: Seq<DecodedView>) -> Seq<Seq<char>> {
    s.map_values(|d: DecodedView| d.instruction)
}

/// The listing of the decoded positions `s`: their mnemonic texts with a
/// line feed between each two, and a line feed at the end.
pub open spec fn listing_of(s: Seq<DecodedView>) -> Seq<char> {
    joined(instructions_of(s), "\n"@) + "\n"@
}

/// The listing of what a sweep decoded, as it is written out.
pub fn listing(entries: &Vec<Decoded>) -> (text: String)
    ensures
        text@ == listing_of(decoded_views(entries@)),
{
    let mut text = String::new();
    let ghost items = instructions_of(decoded_views(entries@));
    let mut k: usize = 0;
    assert(items.take(0) =~= Seq::<Seq<char>>::empty());
    while k < entries.len()
        invariant
            k <= entries.len(),
            items == instructions_of(decoded_views(entries@)),
            text@ == joined(items.take(k as int), "\n"@),
        decreases entries.len() - k,
    {
        proof {
            assert(items.take(k + 1).drop_last() =~= items.take(k as int));
            assert(items.take(k + 1).last() == entries@[k as int].instruction@);
        }
        if k > 0 {
            text.append("\n");
        }
        text.append(entries[k].instruction.as_str());
        k = k + 1;
        assert(text@ =~= joined(items.take(k as int), "\n"@));
    }
    assert(items.take(k as int) =~= items);
    text.append("\n");
    text
}

/// Reads a program out of memory.
pub struct Disassembler {
    pub ram: Vec<u8>,
    pub rom_size: usize,
    pub rom_path: String,
}

impl Disassembler {
    /// Memory holds the program from `START_ROM` up to `rom_size`.
    pub open spec fn wf(&self) -> bool {
        START_ROM <= self.rom_size == self.ram@.len()
    }

    /// A disassembler for the program `rom`, which was read from
    /// `rom_path`. The program is loaded at `START_ROM`; memory below it
    /// is zero.
    pub fn new(rom_path: String, rom: Vec<u8>) -> (r: Self)
        requires
            rom@.len() + START_ROM <= usize::MAX,
        ensures
            r.wf(),
            r.rom_path == rom_path,
            r.rom_size == rom@.len() + START_ROM,
            r.ram@ == Seq::new(START_ROM as nat, |i: int| 0u8) + rom@,
    {
        let mut ram: Vec<u8> = Vec::new();
        let mut i: usize = 0;
        while i < START_ROM
            invariant
                i <= START_ROM,
                ram@ == Seq::new(i as nat, |j: int| 0u8),
            decreases START_ROM - i,
        {
            ram.push(0u8);
            i = i + 1;
            assert(ram@ =~= Seq::new(i as nat, |j: int| 0u8));
        }
        ram.extend_from_slice(rom.as_slice());
        let rom_size = rom.len() + START_ROM;
        Self { ram, rom_size, rom_path }
    }

    /// The opcode at the address `idx`.
    pub fn fetch_op(&self, idx: usize) -> (op: u16)
        requires
            idx + 1 < self.ram.len(),
        ensures
            op == opcode_at(self.ram@, idx as int),
    {
        let hi_byte = self.ram[idx];
        let lo_byte = self.ram[idx + 1];
        crate::opcode::join(hi_byte, lo_byte)
    }

    /// The mnemonic text of `opcode`. Every opcode has one.
    pub fn decode_op(&self, opcode: u16) -> (text: String)
        ensures
            text@ == mnemonic(opcode),
            text@.len() > 0,
    {
        proof {
            lemma_mnemonic_nonempty(opcode);
        }
        let family = crate::opcode::family(opcode);
        let x = crate::opcode::x(opcode);
        let y = crate::opcode::y(opcode);
        let n = crate::opcode::n(opcode);
        let kk = crate::opcode::kk(opcode);
        let nnn = crate::opcode::nnn(opcode);
        match family {
            0x00 => match kk {
                0xE0 => String::from_str("CLS"),
                0xEE => String::from_str("RET"),
                _ => raw_string(opcode),
            },
            0x01 => addr_string("JP ", nnn),
            0x02 => addr_string("CALL ", nnn),
            0x03 => pair_string("SE V", x, ", ", kk),
            0x04 => pair_string("SNE V", x, ", ", kk),
            0x05 => pair_string("SE V", x, ", V", y),
            0x06 => pair_string("LD V", x, ", ", kk),
            0x07 => pair_string("ADD V", x, ", ", kk),
            0x08 => match n {
                0x00 => pair_string("LD V", x, ", V", y),
                0x01 => pair_string("OR V", x, ", V", y),
                0x02 => pair_string("AND V", x, ", V", y),
                0x03 => pair_string("XOR V", x, ", V", y),
                0x04 => pair_string("ADD V", x, ", V", y),
                0x05 => pair_string("SUB V", x, ", V", y),
                0x06 => pair_string("SHR V", x, ", V", y),
                0x07 => pair_string("SUBN V", x, " V", y),
                0x0E => pair_string("SHL V", x, ", V", y),
                _ => raw_string(opcode),
            },
            0x09 => pair_string("SNE V", x, ", V", y),
            0x0A => addr_string("LD I, ", nnn),
            0x0B => addr_string("JP V0, ", nnn),
            0x0C => pair_string("RND V", x, ", ", kk),
            0x0D => {
                let mut text = pair_string("DRW V", x, ", V", y);
                text.append(", ");
                push_decimal(&mut text, n as u16);
                text
            },
            0x0E => match kk {
                0x9E => reg_string("SKP V", x, ""),
                0xA1 => reg_string("SKNP V", x, ""),
                _ => raw_string(opcode),
            },
            _ => match kk {
                0x07 => reg_string("LD V", x, ", DT"),
                0x0A => reg_string("LD V", x, ", K"),
                0x15 => reg_string("LD DT, V", x, ""),
                0x18 => reg_string("LD ST, V", x, ""),
                0x1E => reg_string("ADD I, V", x, ""),
                0x29 => reg_string("LD F, V", x, ""),
                0x33 => reg_string("LD B, V", x, ""),
                0x55 => reg_string("LD I, V", x, ""),
                0x65 => reg_string("LD V", x, ", I"),
                _ => raw_string(opcode),
            },
        }
    }

    /// Sweeps memory from `START_ROM` to the end of the program and
    /// decodes what stands at each even address that has a byte after it.
    pub fn run(&self) -> (out: Vec<Decoded>)
        requires
            self.wf(),
        ensures
            decoded_views(out@) == swept(self.ram@, self.rom_size as nat),
    {
        let mut out: Vec<Decoded> = Vec::new();
        let ghost count = (self.rom_size - START_ROM) / 2;
        let mut idx: usize = START_ROM;
        while idx < self.rom_size
            invariant
                self.wf(),
                START_ROM <= idx <= self.rom_size,
                count == (self.rom_size - START_ROM) / 2,
                out@.len() == if (idx - START_ROM + 1) / 2 <= count {
                    (idx - START_ROM + 1) / 2
                } else {
                    count
                },
                forall|k: int|
                    0 <= k < out@.len() ==> (#[trigger] out@[k])@ == decoded_at(self.ram@, k),
            decreases self.rom_size - idx,
        {
            assert(idx & 1 == 0 <==> idx % 2 == 0) by (bit_vector);
            if idx & 1 == 0 && idx + 1 < self.rom_size {
                let opcode = self.fetch_op(idx);
                let instruction = self.decode_op(opcode);
                out.push(Decoded { address: idx, opcode, instruction });
            }
            idx = idx + 1;
        }
        assert(decoded_views(out@) =~= swept(self.ram@, self.rom_size as nat));
        out
    }

    /// Where the listing is to be written: the program's path up to its
    /// first `.ch8`, then `.chasm`.
    pub fn parse_path(&self) -> (path: String)
        ensures
            path@ == before_first(self.rom_path@, ".ch8"@) + ".chasm"@,
    {
        let mut path = String::from_str(cut_before(self.rom_path.as_str(), ".ch8"));
        path.append(".chasm");
        path
    }
}

} // verus!
