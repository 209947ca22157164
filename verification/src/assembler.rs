//! The assembler: from lines of mnemonic text to instructions.

use crate::hexpair::{decode_hex_pair, hex_pair_bytes, hex_pair_fault, HexFault};
use crate::numeral::{
    hex_text, hex_text_padded, number_from, parse_decimal, push_hex, push_hex_padded,
};
use crate::START_ROM;
use crate::text::{
    before_first, chars_of, cut_before, lines, owned_texts, split_lines, split_words, text_eq,
    texts, words,
};
use vstd::prelude::*;
use vstd::slice::slice_subrange;
use vstd::string::StringExecFns;
use vstd::string::StringSliceAdditionalSpecFns;
use vstd::utf8::encode_utf8;

verus! {

/// The instruction keywords.
#[derive(Clone, Copy, Debug, PartialEq, Eq)]
pub enum Keyword {
    Jp,
    Call,
    Ret,
    Cls,
    Se,
    Sne,
    Ld,
    Add,
    Or,
    And,
    Xor,
    Sub,
    Shr,
    Subn,
    Shl,
    Rnd,
    Drw,
    Skp,
    Sknp,
}

/// Why a line gave no instruction. `line` is where the assembler's line
/// counter stood: one more than the number of lines encoded before.
#[derive(Debug, PartialEq, Eq)]
pub enum ParseError {
    /// The operands fit no form of the keyword.
    MalformedOperand { keyword: Keyword, operands: Vec<String>, line: usize },
    /// The text that stands for the line's opcode is not four hexadecimal
    /// digits.
    UnencodableLine { text: String, fault: HexFault, line: usize },
}

/// What a `ParseError` holds, as plain values.
pub enum ParseErrorView {
    MalformedOperand { keyword: Keyword, operands: Seq<Seq<char>>, line: nat },
    UnencodableLine { text: Seq<char>, fault: HexFault, line: nat },
}

impl View for ParseError {
    type V = ParseErrorView;

    open spec fn view(&self) -> ParseErrorView {
        match *self {
            ParseError::MalformedOperand { keyword, operands, line } => {
                ParseErrorView::MalformedOperand {
                    keyword,
                    operands: owned_texts(operands@),
                    line: line as nat,
                }
            },
            ParseError::UnencodableLine { text, fault, line } => ParseErrorView::UnencodableLine {
                text: text@,
                fault,
                line: line as nat,
            },
        }
    }
}

/// One encoded instruction: the text of its opcode, the two bytes of the
/// opcode, high byte first, and the address it is meant for.
#[derive(Debug, PartialEq, Eq)]
pub struct Instruction {
    pub opcode: String,
    pub bytes: Vec<u8>,
    pub address: u16,
}

/// What an `Instruction` holds, as plain values.
pub struct InstructionView {
    pub opcode: Seq<char>,
    pub bytes: Seq<u8>,
    pub address: u16,
}

impl View for Instruction {
    type V = InstructionView;

    open spec fn view(&self) -> InstructionView {
        InstructionView { opcode: self.opcode@, bytes: self.bytes@, address: self.address }
    }
}

impl Instruction {
    /// An instruction made of the given parts.
    pub fn new(opcode: String, bytes: Vec<u8>, address: u16) -> (r: Self)
        ensures
            r.opcode == opcode,
            r.bytes == bytes,
            r.address == address,
    {
        Self { opcode, bytes, address }
    }
}

/// A line that gave no instruction: its number in the source text,
/// counted from one, and the failure.
#[derive(Debug, PartialEq, Eq)]
pub struct Diagnostic {
    pub source_line: usize,
    pub error: ParseError,
}

/// What a `Diagnostic` holds, as plain values.
pub struct DiagnosticView {
    pub source_line: nat,
    pub error: ParseErrorView,
}

impl View for Diagnostic {
    type V = DiagnosticView;

    open spec fn view(&self) -> DiagnosticView {
        DiagnosticView { source_line: self.source_line as nat, error: self.error@ }
    }
}

/// The views of a sequence of instructions.
pub open spec fn instruction_views(s: Seq<Instruction>) -> Seq<InstructionView> {
    s.map_values(|i: Instruction| i@)
}

/// The views of a sequence of diagnostics.
pub open spec fn diagnostic_views(s: Seq<Diagnostic>) -> Seq<DiagnosticView> {
    s.map_values(|d: Diagnostic| d@)
}

/// The keyword that `word` spells, if any.
pub open spec fn keyword_of(word: Seq<char>) -> Option<Keyword> {
    if word == "JP"@ {
        Some(Keyword::Jp)
    } else if word == "CALL"@ {
        Some(Keyword::Call)
    } else if word == "RET"@ {
        Some(Keyword::Ret)
    } else if word == "CLS"@ {
        Some(Keyword::Cls)
    } else if word == "SE"@ {
        Some(Keyword::Se)
    } else if word == "SNE"@ {
        Some(Keyword::Sne)
    } else if word == "LD"@ {
        Some(Keyword::Ld)
    } else if word == "ADD"@ {
        Some(Keyword::Add)
    } else if word == "OR"@ {
        Some(Keyword::Or)
    } else if word == "AND"@ {
        Some(Keyword::And)
    } else if word == "XOR"@ {
        Some(Keyword::Xor)
    } else if word == "SUB"@ {
        Some(Keyword::Sub)
    } else if word == "SHR"@ {
        Some(Keyword::Shr)
    } else if word == "SUBN"@ {
        Some(Keyword::Subn)
    } else if word == "SHL"@ {
        Some(Keyword::Shl)
    } else if word == "RND"@ {
        Some(Keyword::Rnd)
    } else if word == "DRW"@ {
        Some(Keyword::Drw)
    } else if word == "SKP"@ {
        Some(Keyword::Skp)
    } else if word == "SKNP"@ {
        Some(Keyword::Sknp)
    } else {
        None
    }
}

/// The number of the register that `word` names: the letter `V`, then a
/// decimal literal. Any other word names no register.
pub open spec fn register_of(word: Seq<char>) -> Option<u16> {
    if word.len() > 0 && word[0] == 'V' {
        parse_decimal(word.drop_first())
    } else {
        None
    }
}

/// Opcode text for an address: `head`, then `nnn` in hexadecimal with at
/// least three digits.
pub open spec fn addr_text(head: Seq<char>, nnn: u16) -> Seq<char> {
    head + hex_text_padded(nnn as nat, 3)
}

/// Opcode text for one register: `head`, `x` in hexadecimal, `tail`.
pub open spec fn reg_text(head: Seq<char>, x: u16, tail: Seq<char>) -> Seq<char> {
    head + hex_text(x as nat) + tail
}

/// Opcode text for two registers: `head`, `x` and `y` in hexadecimal,
/// `tail`.
pub open spec fn pair_text(head: Seq<char>, x: u16, y: u16, tail: Seq<char>) -> Seq<char> {
    head + hex_text(x as nat) + hex_text(y as nat) + tail
}

/// Opcode text for a register and a byte: `head`, `x` in hexadecimal,
/// `kk` in hexadecimal with at least two digits.
pub open spec fn byte_text(head: Seq<char>, x: u16, kk: u16) -> Seq<char> {
    head + hex_text(x as nat) + hex_text_padded(kk as nat, 2)
}

/// `op .. addr ..`: the operand at `index` is a literal.
pub open spec fn addr_form(ops: Seq<Seq<char>>, index: int, head: Seq<char>) -> Option<
    Seq<char>,
> {
    if ops.len() <= index {
        None
    } else {
        match parse_decimal(ops[index]) {
            Some(nnn) => Some(addr_text(head, nnn)),
            None => None,
        }
    }
}

/// `op .. Vx ..`: the operand at `index` is a register.
pub open spec fn reg_form(
    ops: Seq<Seq<char>>,
    index: int,
    head: Seq<char>,
    tail: Seq<char>,
) -> Option<Seq<char>> {
    if ops.len() <= index {
        None
    } else {
        match register_of(ops[index]) {
            Some(x) => Some(reg_text(head, x, tail)),
            None => None,
        }
    }
}

/// `op Vx, Vy`: the first two operands are registers.
pub open spec fn pair_form(ops: Seq<Seq<char>>, head: Seq<char>, tail: Seq<char>) -> Option<
    Seq<char>,
> {
    if ops.len() < 2 {
        None
    } else {
        match (register_of(ops[0]), register_of(ops[1])) {
            (Some(x), Some(y)) => Some(pair_text(head, x, y, tail)),
            _ => None,
        }
    }
}

/// `op Vx, Vy` or `op Vx, kk`: the first operand is a register; the second
/// is a register, which gives the form headed by `pair_head`, or else a
/// literal, which gives the form headed by `byte_head`.
pub open spec fn pair_or_byte_form(
    ops: Seq<Seq<char>>,
    pair_head: Seq<char>,
    pair_tail: Seq<char>,
    byte_head: Seq<char>,
) -> Option<Seq<char>> {
    if ops.len() < 2 {
        None
    } else {
        match (register_of(ops[0]), register_of(ops[1])) {
            (Some(x), Some(y)) => Some(pair_text(pair_head, x, y, pair_tail)),
            (Some(x), None) => match parse_decimal(ops[1]) {
                Some(kk) => Some(byte_text(byte_head, x, kk)),
                None => None,
            },
            _ => None,
        }
    }
}

/// `JP addr` gives `1nnn`; `JP V0, addr` gives `Bnnn`. The two are told
/// apart by the number of operands alone.
pub open spec fn jp_text(ops: Seq<Seq<char>>) -> Option<Seq<char>> {
    if ops.len() == 1 {
        addr_form(ops, 0, "1"@)
    } else if ops.len() == 2 {
        addr_form(ops, 1, "B"@)
    } else {
        None
    }
}

/// `CALL addr` gives `2nnn`.
pub open spec fn call_text(ops: Seq<Seq<char>>) -> Option<Seq<char>> {
    addr_form(ops, 0, "2"@)
}

/// `SE Vx, Vy` gives `5xy0`; `SE Vx, kk` gives `3xkk`.
pub open spec fn se_text(ops: Seq<Seq<char>>) -> Option<Seq<char>> {
    pair_or_byte_form(ops, "5"@, "0"@, "3"@)
}

/// `SNE Vx, Vy` gives `9xy0`; `SNE Vx, kk` gives `4xkk`.
pub open spec fn sne_text(ops: Seq<Seq<char>>) -> Option<Seq<char>> {
    pair_or_byte_form(ops, "9"@, "0"@, "4"@)
}

/// The forms of `LD`, chosen by the first operand: `I, Vx` gives `Fx55`
/// and `I, addr` gives `Annn`; `DT, Vx` gives `Fx15`; `ST, Vx` gives
/// `Fx18`; `F, Vx` gives `Fx29`; `B, Vx` gives `Fx33`; and after a
/// register, `DT` gives `Fx07`, `K` gives `Fx0A`, `I` gives `Fx65`, a
/// register gives `8xy0` and a literal gives `6xkk`.
pub open spec fn ld_text(ops: Seq<Seq<char>>) -> Option<Seq<char>> {
    if ops.len() < 2 {
        None
    } else if ops[0] == "I"@ {
        match register_of(ops[1]) {
            Some(x) => Some(reg_text("F"@, x, "55"@)),
            None => addr_form(ops, 1, "A"@),
        }
    } else if ops[0] == "DT"@ {
        reg_form(ops, 1, "F"@, "15"@)
    } else if ops[0] == "ST"@ {
        reg_form(ops, 1, "F"@, "18"@)
    } else if ops[0] == "F"@ {
        reg_form(ops, 1, "F"@, "29"@)
    } else if ops[0] == "B"@ {
        reg_form(ops, 1, "F"@, "33"@)
    } else if ops[1] == "DT"@ {
        reg_form(ops, 0, "F"@, "07"@)
    } else if ops[1] == "K"@ {
        reg_form(ops, 0, "F"@, "0A"@)
    } else if ops[1] == "I"@ {
        reg_form(ops, 0, "F"@, "65"@)
    } else {
        pair_or_byte_form(ops, "8"@, "0"@, "6"@)
    }
}

/// `ADD I, Vx` gives `Fx1E`; `ADD Vx, Vy` gives `8xy4`; `ADD Vx, kk` gives
/// `7xkk`.
pub open spec fn add_text(ops: Seq<Seq<char>>) -> Option<Seq<char>> {
    if ops.len() < 2 {
        None
    } else if ops[0] == "I"@ {
        reg_form(ops, 1, "F"@, "1E"@)
    } else {
        pair_or_byte_form(ops, "8"@, "4"@, "7"@)
    }
}

/// `RND Vx, kk` gives `Cxkk`.
pub open spec fn rnd_text(ops: Seq<Seq<char>>) -> Option<Seq<char>> {
    if ops.len() < 2 {
        None
    } else {
        match (register_of(ops[0]), parse_decimal(ops[1])) {
            (Some(x), Some(kk)) => Some(byte_text("C"@, x, kk)),
            _ => None,
        }
    }
}

/// `DRW Vx, Vy, n` gives `Dxyn`.
pub open spec fn drw_text(ops: Seq<Seq<char>>) -> Option<Seq<char>> {
    if ops.len() < 3 {
        None
    } else {
        match (register_of(ops[0]), register_of(ops[1]), parse_decimal(ops[2])) {
            (Some(x), Some(y), Some(n)) => Some(pair_text("D"@, x, y, hex_text(n as nat))),
            _ => None,
        }
    }
}

/// The opcode text for `keyword` with the operands `ops`, or `None` where
/// the operands fit no form of the keyword. `RET` and `CLS` take whatever
/// follows them.
pub open spec fn keyword_text(keyword: Keyword, ops: Seq<Seq<char>>) -> Option<Seq<char>> {
    match keyword {
        Keyword::Jp => jp_text(ops),
        Keyword::Call => call_text(ops),
        Keyword::Ret => Some("00EE"@),
        Keyword::Cls => Some("00E0"@),
        Keyword::Se => se_text(ops),
        Keyword::Sne => sne_text(ops),
        Keyword::Ld => ld_text(ops),
        Keyword::Add => add_text(ops),
        Keyword::Or => pair_form(ops, "8"@, "1"@),
        Keyword::And => pair_form(ops, "8"@, "2"@),
        Keyword::Xor => pair_form(ops, "8"@, "3"@),
        Keyword::Sub => pair_form(ops, "8"@, "5"@),
        Keyword::Shr => pair_form(ops, "8"@, "6"@),
        Keyword::Subn => pair_form(ops, "8"@, "7"@),
        Keyword::Shl => pair_form(ops, "8"@, "E"@),
        Keyword::Rnd => rnd_text(ops),
        Keyword::Drw => drw_text(ops),
        Keyword::Skp => reg_form(ops, 0, "E"@, "9E"@),
        Keyword::Sknp => reg_form(ops, 0, "E"@, "A1"@),
    }
}

/// The keyword of a line, if its first word is one.
pub open spec fn line_keyword(line: Seq<char>) -> Option<Keyword> {
    if words(line).len() == 0 {
        None
    } else {
        keyword_of(words(line)[0])
    }
}

/// The operands of a line: its words after the first.
pub open spec fn line_operands(line: Seq<char>) -> Seq<Seq<char>> {
    words(line).skip(1)
}

/// The opcode text that a line stands for. A line that begins with a
/// keyword is turned into text by the keyword's forms; any other line stands
/// for itself, so that an opcode may be written out in hexadecimal.
pub open spec fn opcode_text(line: Seq<char>) -> Option<Seq<char>> {
    match line_keyword(line) {
        Some(keyword) => keyword_text(keyword, line_operands(line)),
        None => Some(line),
    }
}

/// The address of the instruction that is encoded when the line counter
/// stands at `line`: two bytes per instruction from `START_ROM` on, kept
/// to sixteen bits.
pub open spec fn rom_address(line: nat) -> u16 {
    ((START_ROM - 2 + 2 * line) % 0x10000) as u16
}

/// The instruction that opcode text gives at line counter `line`, or the
/// failure where the text is not four hexadecimal digits. `at` is the line
/// that a failure is reported for.
pub open spec fn instruction_of(text: Seq<char>, line: nat, at: nat) -> Result<
    InstructionView,
    ParseErrorView,
> {
    match hex_pair_fault(encode_utf8(text)) {
        None => Ok(
            InstructionView {
                opcode: text,
                bytes: hex_pair_bytes(encode_utf8(text)),
                address: rom_address(line),
            },
        ),
        Some(fault) => Err(ParseErrorView::UnencodableLine { text, fault, line: at }),
    }
}

/// What encoding `line` gives when the line counter stands at `at`: the
/// instruction of the line's opcode text, or the failure. A byte is
/// written with two digits and an address with three, zeros filling the
/// left. A number that needs more digits than its field has makes text
/// that is longer than four digits, and the line fails as unencodable.
pub open spec fn encode_line(line: Seq<char>, at: nat) -> Result<InstructionView, ParseErrorView> {
    match opcode_text(line) {
        Some(text) => instruction_of(text, at, at),
        None => Err(
            ParseErrorView::MalformedOperand {
                keyword: line_keyword(line).unwrap(),
                operands: line_operands(line),
                line: at,
            },
        ),
    }
}

/// The instructions that `lines` give, in order, when the line counter
/// stands at `start` before the first of them. The counter advances by one
/// with each instruction and stays where a line fails.
pub open spec fn assembled(lines: Seq<Seq<char>>, start: nat) -> Seq<InstructionView>
    decreases lines.len(),
{
    if lines.len() == 0 {
        Seq::empty()
    } else {
        let before = assembled(lines.drop_last(), start);
        match encode_line(lines.last(), start + before.len()) {
            Ok(i) => before.push(i),
            Err(_) => before,
        }
    }
}

/// The lines among `lines` that give no instruction, in order, each with
/// its number and its failure.
pub open spec fn rejected(lines: Seq<Seq<char>>, start: nat) -> Seq<DiagnosticView>
    decreases lines.len(),
{
    if lines.len() == 0 {
        Seq::empty()
    } else {
        let before = rejected(lines.drop_last(), start);
        match encode_line(lines.last(), start + assembled(lines.drop_last(), start).len()) {
            Ok(_) => before,
            Err(error) => before.push(DiagnosticView { source_line: lines.len(), error }),
        }
    }
}

/// No more instructions come out than lines go in.
pub proof fn lemma_assembled_len(lines: Seq<Seq<char>>, start: nat)
    ensures
        assembled(lines, start).len() <= lines.len(),
    decreases lines.len(),
{
    if lines.len() > 0 {
        lemma_assembled_len(lines.drop_last(), start);
    }
}

/// The bytes of the instructions `s`, one instruction after the other.
pub open spec fn image(s: Seq<InstructionView>) -> Seq<u8>
    decreases s.len(),
{
    if s.len() == 0 {
        Seq::empty()
    } else {
        image(s.drop_last()) + s.last().bytes
    }
}

/// The bytes that `line` adds to a program: the two bytes of its opcode,
/// or none where the line fails. Where the line counter stands has no
/// part in them.
pub open spec fn line_bytes(line: Seq<char>) -> Seq<u8> {
    match encode_line(line, 0) {
        Ok(i) => i.bytes,
        Err(_) => Seq::empty(),
    }
}

/// The bytes of a program: what each of its lines adds, one line after
/// the other.
pub open spec fn program_bytes(lines: Seq<Seq<char>>) -> Seq<u8>
    decreases lines.len(),
{
    if lines.len() == 0 {
        Seq::empty()
    } else {
        program_bytes(lines.drop_last()) + line_bytes(lines.last())
    }
}

/// Whether a line encodes, and to which two bytes, is the same wherever
/// the line counter stands.
pub proof fn lemma_line_bytes(line: Seq<char>, at: nat)
    ensures
        match encode_line(line, at) {
            Ok(i) => i.bytes.len() == 2 && i.bytes == line_bytes(line),
            Err(_) => line_bytes(line).len() == 0,
        },
{
}

/// The instructions that lines give hold, byte for byte, what every line
/// that encodes adds, in the order of the lines. A line that fails adds
/// nothing, and the lines after it are read all the same.
pub proof fn lemma_assembled_bytes(lines: Seq<Seq<char>>, start: nat)
    ensures
        image(assembled(lines, start)) == program_bytes(lines),
    decreases lines.len(),
{
    if lines.len() > 0 {
        let before = assembled(lines.drop_last(), start);
        lemma_assembled_bytes(lines.drop_last(), start);
        lemma_line_bytes(lines.last(), start + before.len());
        match encode_line(lines.last(), start + before.len()) {
            Ok(i) => {
                assert(before.push(i).drop_last() =~= before);
            },
            Err(_) => {
                assert(program_bytes(lines.drop_last()) + Seq::<u8>::empty() =~= program_bytes(
                    lines.drop_last(),
                ));
            },
        }
    }
}

/// The bytes of instructions put one after the other are the bytes of the
/// first followed by the bytes of the second.
pub proof fn lemma_image_concat(first: Seq<InstructionView>, second: Seq<InstructionView>)
    ensures
        image(first + second) == image(first) + image(second),
    decreases second.len(),
{
    if second.len() == 0 {
        assert(first + second =~= first);
        assert(image(first) + image(second) =~= image(first));
    } else {
        lemma_image_concat(first, second.drop_last());
        assert((first + second).drop_last() =~= first + second.drop_last());
        assert((first + second).last() == second.last());
        assert(image(first) + (image(second.drop_last()) + second.last().bytes) =~= image(first)
            + image(second.drop_last()) + second.last().bytes);
    }
}

/// A line that fails leaves no trace: the lines around it give the
/// instructions that they give without it.
#[verifier::rlimit(50)]
pub proof fn lemma_failed_line_is_skipped(
    before: Seq<Seq<char>>,
    line: Seq<char>,
    after: Seq<Seq<char>>,
    start: nat,
)
    requires
        encode_line(line, start + assembled(before, start).len()) is Err,
    ensures
        assembled(before.push(line) + after, start) == assembled(before + after, start),
    decreases after.len(),
{
    if after.len() == 0 {
        assert(before.push(line) + after =~= before.push(line));
        assert(before + after =~= before);
        assert(before.push(line).drop_last() =~= before);
    } else {
        let with = before.push(line) + after;
        let without = before + after;
        lemma_failed_line_is_skipped(before, line, after.drop_last(), start);
        assert(with.drop_last() =~= before.push(line) + after.drop_last());
        assert(without.drop_last() =~= before + after.drop_last());
        assert(with.last() == without.last());
    }
}

/// Instructions are placed by their position alone: the one at index `k`
/// has two bytes and the address of the line counter `start + k`, so that
/// the bytes of the program follow one another without a gap.
pub proof fn lemma_assembled_in_place(lines: Seq<Seq<char>>, start: nat)
    ensures
        forall|k: int|
            0 <= k < assembled(lines, start).len() ==> {
                &&& (#[trigger] assembled(lines, start)[k]).bytes.len() == 2
                &&& assembled(lines, start)[k].address == rom_address(start + k as nat)
            },
        image(assembled(lines, start)).len() == 2 * assembled(lines, start).len(),
    decreases lines.len(),
{
    if lines.len() > 0 {
        lemma_assembled_in_place(lines.drop_last(), start);
        let before = assembled(lines.drop_last(), start);
        let all = assembled(lines, start);
        if encode_line(lines.last(), start + before.len()) is Ok {
            assert(all.drop_last() =~= before);
        }
    }
}

/// Whether `r` is the outcome that the forms of `keyword` fix for the
/// operands `ops`: the expected text, or else a malformed-operand failure
/// that carries the keyword, the operands and the line counter.
pub open spec fn form_outcome(
    r: Result<String, ParseError>,
    expected: Option<Seq<char>>,
    keyword: Keyword,
    ops: Seq<Seq<char>>,
    line: usize,
) -> bool {
    match r {
        Ok(text) => expected == Some(text@),
        Err(e) => expected is None && e@ == (ParseErrorView::MalformedOperand {
            keyword,
            operands: ops,
            line: line as nat,
        }),
    }
}

/// The keyword that `word` spells, if any.
pub fn keyword(word: &str) -> (r: Option<Keyword>)
    ensures
        r == keyword_of(word@),
{
    if text_eq(word, "JP") {
        Some(Keyword::Jp)
    } else if text_eq(word, "CALL") {
        Some(Keyword::Call)
    } else if text_eq(word, "RET") {
        Some(Keyword::Ret)
    } else if text_eq(word, "CLS") {
        Some(Keyword::Cls)
    } else if text_eq(word, "SE") {
        Some(Keyword::Se)
    } else if text_eq(word, "SNE") {
        Some(Keyword::Sne)
    } else if text_eq(word, "LD") {
        Some(Keyword::Ld)
    } else if text_eq(word, "ADD") {
        Some(Keyword::Add)
    } else if text_eq(word, "OR") {
        Some(Keyword::Or)
    } else if text_eq(word, "AND") {
        Some(Keyword::And)
    } else if text_eq(word, "XOR") {
        Some(Keyword::Xor)
    } else if text_eq(word, "SUB") {
        Some(Keyword::Sub)
    } else if text_eq(word, "SHR") {
        Some(Keyword::Shr)
    } else if text_eq(word, "SUBN") {
        Some(Keyword::Subn)
    } else if text_eq(word, "SHL") {
        Some(Keyword::Shl)
    } else if text_eq(word, "RND") {
        Some(Keyword::Rnd)
    } else if text_eq(word, "DRW") {
        Some(Keyword::Drw)
    } else if text_eq(word, "SKP") {
        Some(Keyword::Skp)
    } else if text_eq(word, "SKNP") {
        Some(Keyword::Sknp)
    } else {
        None
    }
}

/// Owned copies of `words`.
pub fn to_owned_words(words: &[&str]) -> (out: Vec<String>)
    ensures
        owned_texts(out@) == texts(words@),
{
    let mut out: Vec<String> = Vec::new();
    let mut i: usize = 0;
    while i < words.len()
        invariant
            i <= words.len(),
            out.len() == i,
            owned_texts(out@) == texts(words@).take(i as int),
        decreases words.len() - i,
    {
        let word = String::from_str(words[i]);
        proof {
            let grown = owned_texts(out@.push(word));
            let wanted = texts(words@).take(i + 1);
            assert(grown.len() == wanted.len());
            assert forall|j: int| 0 <= j < grown.len() implies grown[j] == wanted[j] by {
                if j < i {
                    assert(owned_texts(out@)[j] == texts(words@).take(i as int)[j]);
                }
            }
            assert(grown =~= wanted);
        }
        out.push(word);
        i = i + 1;
    }
    assert(texts(words@).take(i as int) =~= texts(words@));
    out
}

/// The text `head`, then `nnn` in hexadecimal with at least three digits.
pub fn addr_string(head: &str, nnn: u16) -> (s: String)
    ensures
        s@ == addr_text(head@, nnn),
{
    let mut s = String::from_str(head);
    push_hex_padded(&mut s, nnn, 3);
    s
}

/// The text `head`, `x` in hexadecimal, `tail`.
pub fn reg_string(head: &str, x: u16, tail: &str) -> (s: String)
    ensures
        s@ == reg_text(head@, x, tail@),
{
    let mut s = String::from_str(head);
    push_hex(&mut s, x);
    s.append(tail);
    s
}

/// The text `head`, `x` and `y` in hexadecimal, `tail`.
pub fn pair_string(head: &str, x: u16, y: u16, tail: &str) -> (s: String)
    ensures
        s@ == pair_text(head@, x, y, tail@),
{
    let mut s = String::from_str(head);
    push_hex(&mut s, x);
    push_hex(&mut s, y);
    s.append(tail);
    s
}

/// The text `head`, `x` in hexadecimal, `kk` in hexadecimal with at least
/// two digits.
pub fn byte_string(head: &str, x: u16, kk: u16) -> (s: String)
    ensures
        s@ == byte_text(head@, x, kk),
{
    let mut s = String::from_str(head);
    push_hex(&mut s, x);
    push_hex_padded(&mut s, kk, 2);
    s
}

/// The address for the line counter `line`.
pub fn address_at(line: usize) -> (a: u16)
    ensures
        a == rom_address(line as nat),
{
    let low: usize = line % 0x8000;
    let a: usize = (START_ROM - 2 + 2 * low) % 0x10000;
    assert(a == (START_ROM - 2 + 2 * line) % 0x10000) by {
        let q = line as int / 0x8000;
        assert(line == 0x8000 * q + low);
        assert(START_ROM - 2 + 2 * line == 0x10000 * q + (START_ROM - 2 + 2 * low));
        vstd::arithmetic::div_mod::lemma_mod_multiples_vanish(
            q,
            START_ROM - 2 + 2 * low,
            0x10000,
        );
    }
    a as u16
}

/// Assembles a source text line by line. The line counter and the address
/// advance with every line that encodes; what the other lines failed on is
/// kept in `diagnostics`.
pub struct Assembler {
    pub source_path: String,
    pub source_code: String,
    pub instructions: Vec<Instruction>,
    pub diagnostics: Vec<Diagnostic>,
    pub line: usize,
    pub address: usize,
}

impl Assembler {
    /// The failure of `keyword` on the operands `words` at the current
    /// line counter.
    pub fn malformed(&self, keyword: Keyword, words: &[&str]) -> (e: ParseError)
        ensures
            e@ == (ParseErrorView::MalformedOperand {
                keyword,
                operands: texts(words@),
                line: self.line as nat,
            }),
    {
        ParseError::MalformedOperand { keyword, operands: to_owned_words(words), line: self.line }
    }

    /// Turns opcode text into an instruction for the line counter `line`.
    /// A failure is reported for the assembler's own line counter.
    pub fn build_instruction(&self, opcode: String, line: usize) -> (r: Result<
        Instruction,
        ParseError,
    >)
        ensures
            match r {
                Ok(i) => instruction_of(opcode@, line as nat, self.line as nat) == Ok::<
                    InstructionView,
                    ParseErrorView,
                >(i@),
                Err(e) => instruction_of(opcode@, line as nat, self.line as nat) == Err::<
                    InstructionView,
                    ParseErrorView,
                >(e@),
            },
    {
        match decode_hex_pair(opcode.as_str().as_bytes()) {
            Ok(pair) => {
                let mut bytes: Vec<u8> = Vec::new();
                bytes.push(pair[0]);
                bytes.push(pair[1]);
                assert(bytes@ =~= hex_pair_bytes(encode_utf8(opcode@)));
                Ok(Instruction::new(opcode, bytes, address_at(line)))
            },
            Err(fault) => Err(ParseError::UnencodableLine { text: opcode, fault, line: self.line }),
        }
    }

    /// The number that a decimal literal denotes.
    pub fn parse_digit(&self, word: &str) -> (r: Option<u16>)
        ensures
            r == parse_decimal(word@),
    {
        let chars = chars_of(word);
        assert(chars@.skip(0) =~= chars@);
        number_from(&chars, 0)
    }

    /// The number of the register that a word names.
    pub fn parse_register(&self, word: &str) -> (r: Option<u16>)
        ensures
            r == register_of(word@),
    {
        let chars = chars_of(word);
        if chars.len() > 0 && chars[0] == 'V' {
            assert(chars@.skip(1) =~= chars@.drop_first());
            number_from(&chars, 1)
        } else {
            None
        }
    }

    /// `op .. addr ..`: the operand at `index` must be a literal.
    pub fn addr_operand(&self, keyword: Keyword, words: &[&str], index: usize, head: &str) -> (r:
        Result<String, ParseError>)
        ensures
            form_outcome(
                r,
                addr_form(texts(words@), index as int, head@),
                keyword,
                texts(words@),
                self.line,
            ),
    {
        if words.len() <= index {
            return Err(self.malformed(keyword, words));
        }
        match self.parse_digit(words[index]) {
            Some(nnn) => Ok(addr_string(head, nnn)),
            None => Err(self.malformed(keyword, words)),
        }
    }

    /// `op .. Vx ..`: the operand at `index` must be a register.
    pub fn reg_operand(
        &self,
        keyword: Keyword,
        words: &[&str],
        index: usize,
        head: &str,
        tail: &str,
    ) -> (r: Result<String, ParseError>)
        ensures
            form_outcome(
                r,
                reg_form(texts(words@), index as int, head@, tail@),
                keyword,
                texts(words@),
                self.line,
            ),
    {
        if words.len() <= index {
            return Err(self.malformed(keyword, words));
        }
        match self.parse_register(words[index]) {
            Some(x) => Ok(reg_string(head, x, tail)),
            None => Err(self.malformed(keyword, words)),
        }
    }

    /// `op Vx, Vy`: the first two operands must be registers.
    pub fn pair_operands(&self, keyword: Keyword, words: &[&str], head: &str, tail: &str) -> (r:
        Result<String, ParseError>)
        ensures
            form_outcome(
                r,
                pair_form(texts(words@), head@, tail@),
                keyword,
                texts(words@),
                self.line,
            ),
    {
        if words.len() < 2 {
            return Err(self.malformed(keyword, words));
        }
        match (self.parse_register(words[0]), self.parse_register(words[1])) {
            (Some(x), Some(y)) => Ok(pair_string(head, x, y, tail)),
            _ => Err(self.malformed(keyword, words)),
        }
    }

    /// `op Vx, Vy` or `op Vx, kk`: a register, then a register or a
    /// literal.
    pub fn pair_or_byte_operands(
        &self,
        keyword: Keyword,
        words: &[&str],
        pair_head: &str,
        pair_tail: &str,
        byte_head: &str,
    ) -> (r: Result<String, ParseError>)
        ensures
            form_outcome(
                r,
                pair_or_byte_form(texts(words@), pair_head@, pair_tail@, byte_head@),
                keyword,
                texts(words@),
                self.line,
            ),
    {
        if words.len() < 2 {
            return Err(self.malformed(keyword, words));
        }
        match (self.parse_register(words[0]), self.parse_register(words[1])) {
            (Some(x), Some(y)) => Ok(pair_string(pair_head, x, y, pair_tail)),
            (Some(x), None) => match self.parse_digit(words[1]) {
                Some(kk) => Ok(byte_string(byte_head, x, kk)),
                None => Err(self.malformed(keyword, words)),
            },
            _ => Err(self.malformed(keyword, words)),
        }
    }

    /// `JP addr` or `JP V0, addr`.
    pub fn parse_jp(&self, words: &[&str]) -> (r: Result<String, ParseError>)
        ensures
            form_outcome(r, jp_text(texts(words@)), Keyword::Jp, texts(words@), self.line),
    {
        if words.len() == 1 {
            self.addr_operand(Keyword::Jp, words, 0, "1")
        } else if words.len() == 2 {
            self.addr_operand(Keyword::Jp, words, 1, "B")
        } else {
            Err(self.malformed(Keyword::Jp, words))
        }
    }

    /// `CALL addr`.
    pub fn parse_call(&self, words: &[&str]) -> (r: Result<String, ParseError>)
        ensures
            form_outcome(r, call_text(texts(words@)), Keyword::Call, texts(words@), self.line),
    {
        self.addr_operand(Keyword::Call, words, 0, "2")
    }

    /// `SNE Vx, Vy` or `SNE Vx, kk`.
    pub fn parse_sne(&self, words: &[&str]) -> (r: Result<String, ParseError>)
        ensures
            form_outcome(r, sne_text(texts(words@)), Keyword::Sne, texts(words@), self.line),
    {
        self.pair_or_byte_operands(Keyword::Sne, words, "9", "0", "4")
    }

    /// `SE Vx, Vy` or `SE Vx, kk`.
    pub fn parse_se(&self, words: &[&str]) -> (r: Result<String, ParseError>)
        ensures
            form_outcome(r, se_text(texts(words@)), Keyword::Se, texts(words@), self.line),
    {
        self.pair_or_byte_operands(Keyword::Se, words, "5", "0", "3")
    }

    /// The forms of `LD`, chosen by the first operand and then by the
    /// second.
    pub fn parse_ld(&self, words: &[&str]) -> (r: Result<String, ParseError>)
        ensures
            form_outcome(r, ld_text(texts(words@)), Keyword::Ld, texts(words@), self.line),
    {
        if words.len() < 2 {
            return Err(self.malformed(Keyword::Ld, words));
        }
        let first = words[0];
        let second = words[1];
        if text_eq(first, "I") {
            match self.parse_register(second) {
                Some(x) => Ok(reg_string("F", x, "55")),
                None => self.addr_operand(Keyword::Ld, words, 1, "A"),
            }
        } else if text_eq(first, "DT") {
            self.reg_operand(Keyword::Ld, words, 1, "F", "15")
        } else if text_eq(first, "ST") {
            self.reg_operand(Keyword::Ld, words, 1, "F", "18")
        } else if text_eq(first, "F") {
            self.reg_operand(Keyword::Ld, words, 1, "F", "29")
        } else if text_eq(first, "B") {
            self.reg_operand(Keyword::Ld, words, 1, "F", "33")
        } else if text_eq(second, "DT") {
            self.reg_operand(Keyword::Ld, words, 0, "F", "07")
        } else if text_eq(second, "K") {
            self.reg_operand(Keyword::Ld, words, 0, "F", "0A")
        } else if text_eq(second, "I") {
            self.reg_operand(Keyword::Ld, words, 0, "F", "65")
        } else {
            self.pair_or_byte_operands(Keyword::Ld, words, "8", "0", "6")
        }
    }

    /// `OR Vx, Vy`.
    pub fn parse_or(&self, words: &[&str]) -> (r: Result<String, ParseError>)
        ensures
            form_outcome(
                r,
                keyword_text(Keyword::Or, texts(words@)),
                Keyword::Or,
                texts(words@),
                self.line,
            ),
    {
        self.pair_operands(Keyword::Or, words, "8", "1")
    }

    /// `AND Vx, Vy`.
    pub fn parse_and(&self, words: &[&str]) -> (r: Result<String, ParseError>)
        ensures
            form_outcome(
                r,
                keyword_text(Keyword::And, texts(words@)),
                Keyword::And,
                texts(words@),
                self.line,
            ),
    {
        self.pair_operands(Keyword::And, words, "8", "2")
    }

    /// `XOR Vx, Vy`.
    pub fn parse_xor(&self, words: &[&str]) -> (r: Result<String, ParseError>)
        ensures
            form_outcome(
                r,
                keyword_text(Keyword::Xor, texts(words@)),
                Keyword::Xor,
                texts(words@),
                self.line,
            ),
    {
        self.pair_operands(Keyword::Xor, words, "8", "3")
    }

    /// `RND Vx, kk`.
    pub fn parse_rnd(&self, words: &[&str]) -> (r: Result<String, ParseError>)
        ensures
            form_outcome(r, rnd_text(texts(words@)), Keyword::Rnd, texts(words@), self.line),
    {
        if words.len() < 2 {
            return Err(self.malformed(Keyword::Rnd, words));
        }
        match (self.parse_register(words[0]), self.parse_digit(words[1])) {
            (Some(x), Some(kk)) => Ok(byte_string("C", x, kk)),
            _ => Err(self.malformed(Keyword::Rnd, words)),
        }
    }

    /// `DRW Vx, Vy, n`.
    pub fn parse_drw(&self, words: &[&str]) -> (r: Result<String, ParseError>)
        ensures
            form_outcome(r, drw_text(texts(words@)), Keyword::Drw, texts(words@), self.line),
    {
        if words.len() < 3 {
            return Err(self.malformed(Keyword::Drw, words));
        }
        match (
            self.parse_register(words[0]),
            self.parse_register(words[1]),
            self.parse_digit(words[2]),
        ) {
            (Some(x), Some(y), Some(n)) => {
                let mut s = pair_string("D", x, y, "");
                push_hex(&mut s, n);
                proof {
                    reveal_strlit("");
                    assert(s@ =~= pair_text("D"@, x, y, hex_text(n as nat)));
                }
                Ok(s)
            },
            _ => Err(self.malformed(Keyword::Drw, words)),
        }
    }

    /// `SKP Vx`.
    pub fn parse_skp(&self, words: &[&str]) -> (r: Result<String, ParseError>)
        ensures
            form_outcome(
                r,
                keyword_text(Keyword::Skp, texts(words@)),
                Keyword::Skp,
                texts(words@),
                self.line,
            ),
    {
        self.reg_operand(Keyword::Skp, words, 0, "E", "9E")
    }

    /// `SKNP Vx`, given its first operand.
    pub fn parse_sknp(&self, word: &str) -> (r: Result<String, ParseError>)
        ensures
            form_outcome(
                r,
                keyword_text(Keyword::Sknp, seq![word@]),
                Keyword::Sknp,
                seq![word@],
                self.line,
            ),
    {
        match self.parse_register(word) {
            Some(x) => Ok(reg_string("E", x, "A1")),
            None => {
                let mut operands: Vec<String> = Vec::new();
                operands.push(String::from_str(word));
                assert(owned_texts(operands@) =~= seq![word@]);
                Err(
                    ParseError::MalformedOperand {
                        keyword: Keyword::Sknp,
                        operands,
                        line: self.line,
                    },
                )
            },
        }
    }

    /// `ADD I, Vx`, `ADD Vx, Vy` or `ADD Vx, kk`.
    pub fn parse_add(&self, words: &[&str]) -> (r: Result<String, ParseError>)
        ensures
            form_outcome(r, add_text(texts(words@)), Keyword::Add, texts(words@), self.line),
    {
        if words.len() < 2 {
            return Err(self.malformed(Keyword::Add, words));
        }
        if text_eq(words[0], "I") {
            self.reg_operand(Keyword::Add, words, 1, "F", "1E")
        } else {
            self.pair_or_byte_operands(Keyword::Add, words, "8", "4", "7")
        }
    }

    /// `SUB Vx, Vy`.
    pub fn parse_sub(&self, words: &[&str]) -> (r: Result<String, ParseError>)
        ensures
            form_outcome(
                r,
                keyword_text(Keyword::Sub, texts(words@)),
                Keyword::Sub,
                texts(words@),
                self.line,
            ),
    {
        self.pair_operands(Keyword::Sub, words, "8", "5")
    }

    /// `SHR Vx, Vy`.
    pub fn parse_shr(&self, words: &[&str]) -> (r: Result<String, ParseError>)
        ensures
            form_outcome(
                r,
                keyword_text(Keyword::Shr, texts(words@)),
                Keyword::Shr,
                texts(words@),
                self.line,
            ),
    {
        self.pair_operands(Keyword::Shr, words, "8", "6")
    }

    /// `SUBN Vx, Vy`.
    pub fn parse_subn(&self, words: &[&str]) -> (r: Result<String, ParseError>)
        ensures
            form_outcome(
                r,
                keyword_text(Keyword::Subn, texts(words@)),
                Keyword::Subn,
                texts(words@),
                self.line,
            ),
    {
        self.pair_operands(Keyword::Subn, words, "8", "7")
    }

    /// `SHL Vx, Vy`.
    pub fn parse_shl(&self, words: &[&str]) -> (r: Result<String, ParseError>)
        ensures
            form_outcome(
                r,
                keyword_text(Keyword::Shl, texts(words@)),
                Keyword::Shl,
                texts(words@),
                self.line,
            ),
    {
        self.pair_operands(Keyword::Shl, words, "8", "E")
    }

    /// Encodes one line of source text at the current line counter.
    pub fn parse_instruction(&self, line: &str) -> (r: Result<Instruction, ParseError>)
        ensures
            match r {
                Ok(i) => encode_line(line@, self.line as nat) == Ok::<
                    InstructionView,
                    ParseErrorView,
                >(i@),
                Err(e) => encode_line(line@, self.line as nat) == Err::<
                    InstructionView,
                    ParseErrorView,
                >(e@),
            },
    {
        let words = split_words(line);
        if words.len() == 0 {
            return self.build_instruction(String::from_str(line), self.line);
        }
        let ops = slice_subrange(words.as_slice(), 1, words.len());
        assert(texts(ops@) =~= line_operands(line@));
        assert(texts(words@)[0] == words@[0]@);
        let opcode = match keyword(words[0]) {
            Some(Keyword::Jp) => self.parse_jp(ops),
            Some(Keyword::Call) => self.parse_call(ops),
            Some(Keyword::Ret) => Ok(String::from_str("00EE")),
            Some(Keyword::Cls) => Ok(String::from_str("00E0")),
            Some(Keyword::Se) => self.parse_se(ops),
            Some(Keyword::Sne) => self.parse_sne(ops),
            Some(Keyword::Ld) => self.parse_ld(ops),
            Some(Keyword::Add) => self.parse_add(ops),
            Some(Keyword::Or) => self.parse_or(ops),
            Some(Keyword::And) => self.parse_and(ops),
            Some(Keyword::Xor) => self.parse_xor(ops),
            Some(Keyword::Sub) => self.parse_sub(ops),
            Some(Keyword::Shr) => self.parse_shr(ops),
            Some(Keyword::Subn) => self.parse_subn(ops),
            Some(Keyword::Shl) => self.parse_shl(ops),
            Some(Keyword::Rnd) => self.parse_rnd(ops),
            Some(Keyword::Drw) => self.parse_drw(ops),
            Some(Keyword::Skp) => self.parse_skp(ops),
            Some(Keyword::Sknp) => if ops.len() == 0 {
                Err(self.malformed(Keyword::Sknp, ops))
            } else {
                match self.parse_sknp(ops[0]) {
                    Ok(text) => Ok(text),
                    Err(_) => Err(self.malformed(Keyword::Sknp, ops)),
                }
            },
            None => Ok(String::from_str(line)),
        };
        match opcode {
            Ok(text) => self.build_instruction(text, self.line),
            Err(e) => Err(e),
        }
    }

    /// An assembler for the source text `source_code`, which was read from
    /// `source_path`. The line counter stands at one and the address at
    /// `START_ROM`.
    pub fn new(source_path: String, source_code: String) -> (r: Self)
        ensures
            r.source_path == source_path,
            r.source_code == source_code,
            r.instructions@.len() == 0,
            r.diagnostics@.len() == 0,
            r.line == 1,
            r.address == START_ROM,
    {
        Self {
            source_path,
            source_code,
            instructions: Vec::new(),
            diagnostics: Vec::new(),
            line: 1,
            address: START_ROM,
        }
    }

    /// Whether the two counters have room for one instruction for every
    /// line of the source text: what `parse_lines` and `run` ask for.
    pub fn has_room(&self) -> (ok: bool)
        ensures
            ok == (self.line + lines(self.source_code@).len() <= usize::MAX && self.address + 2
                * lines(self.source_code@).len() <= usize::MAX),
    {
        let source_lines = split_lines(self.source_code.as_str());
        let n = source_lines.len();
        assert(texts(source_lines@).len() == n);
        n <= usize::MAX - self.line && n <= (usize::MAX - self.address) / 2
    }

    /// Encodes the source text line by line. A line that encodes adds an
    /// instruction and advances the line counter by one and the address by
    /// two; a line that fails adds a diagnostic and nothing else, and the
    /// lines after it are read all the same. The two counters must have
    /// room for the lines; `has_room` tells.
    pub fn parse_lines(&mut self)
        requires
            old(self).line + lines(old(self).source_code@).len() <= usize::MAX,
            old(self).address + 2 * lines(old(self).source_code@).len() <= usize::MAX,
        ensures
            final(self).source_path == old(self).source_path,
            final(self).source_code == old(self).source_code,
            instruction_views(final(self).instructions@) == instruction_views(
                old(self).instructions@,
            ) + assembled(lines(old(self).source_code@), old(self).line as nat),
            diagnostic_views(final(self).diagnostics@) == diagnostic_views(old(self).diagnostics@)
                + rejected(lines(old(self).source_code@), old(self).line as nat),
            final(self).line == old(self).line + assembled(
                lines(old(self).source_code@),
                old(self).line as nat,
            ).len(),
            final(self).address == old(self).address + 2 * assembled(
                lines(old(self).source_code@),
                old(self).line as nat,
            ).len(),
            image(instruction_views(final(self).instructions@)) == image(
                instruction_views(old(self).instructions@),
            ) + program_bytes(lines(old(self).source_code@)),
    {
        let source = self.source_code.clone();
        let source_lines = split_lines(source.as_str());
        let ghost all = lines(old(self).source_code@);
        let ghost start = old(self).line as nat;
        let ghost had = instruction_views(old(self).instructions@);
        let ghost noted = diagnostic_views(old(self).diagnostics@);
        let mut k: usize = 0;
        assert(all.take(0) =~= Seq::<Seq<char>>::empty());
        assert(had + assembled(all.take(0), start) =~= had);
        assert(noted + rejected(all.take(0), start) =~= noted);
        while k < source_lines.len()
            invariant
                k <= source_lines.len(),
                texts(source_lines@) == all,
                self.source_path == old(self).source_path,
                self.source_code == old(self).source_code,
                start == old(self).line,
                start + all.len() <= usize::MAX,
                old(self).address + 2 * all.len() <= usize::MAX,
                instruction_views(self.instructions@) == had + assembled(all.take(k as int), start),
                diagnostic_views(self.diagnostics@) == noted + rejected(all.take(k as int), start),
                self.line == start + assembled(all.take(k as int), start).len(),
                self.address == old(self).address + 2 * assembled(all.take(k as int), start).len(),
            decreases source_lines.len() - k,
        {
            proof {
                assert(all.take(k + 1).drop_last() =~= all.take(k as int));
                assert(all.take(k + 1).last() == source_lines@[k as int]@);
                lemma_assembled_len(all.take(k as int), start);
            }
            match self.parse_instruction(source_lines[k]) {
                Ok(instruction) => {
                    proof {
                        let sofar = assembled(all.take(k as int), start);
                        assert(assembled(all.take(k + 1), start) == sofar.push(instruction@));
                        assert(instruction_views(self.instructions@.push(instruction))
                            =~= instruction_views(self.instructions@).push(instruction@));
                        assert((had + sofar).push(instruction@) =~= had + sofar.push(
                            instruction@,
                        ));
                    }
                    self.instructions.push(instruction);
                    self.line = self.line + 1;
                    self.address = self.address + 2;
                },
                Err(error) => {
                    let diagnostic = Diagnostic { source_line: k + 1, error };
                    proof {
                        let sofar = rejected(all.take(k as int), start);
                        assert(rejected(all.take(k + 1), start) == sofar.push(diagnostic@));
                        assert(diagnostic_views(self.diagnostics@.push(diagnostic))
                            =~= diagnostic_views(self.diagnostics@).push(diagnostic@));
                        assert((noted + sofar).push(diagnostic@) =~= noted + sofar.push(
                            diagnostic@,
                        ));
                    }
                    self.diagnostics.push(diagnostic);
                },
            }
            k = k + 1;
        }
        assert(all.take(k as int) =~= all);
        proof {
            lemma_image_concat(had, assembled(all, start));
            lemma_assembled_bytes(all, start);
        }
    }

    /// The bytes of the instructions gathered so far, in order.
    pub fn rom_bytes(&self) -> (rom: Vec<u8>)
        ensures
            rom@ == image(instruction_views(self.instructions@)),
    {
        let mut rom: Vec<u8> = Vec::new();
        let ghost all = instruction_views(self.instructions@);
        let mut k: usize = 0;
        assert(all.take(0) =~= Seq::<InstructionView>::empty());
        while k < self.instructions.len()
            invariant
                k <= self.instructions.len(),
                all == instruction_views(self.instructions@),
                rom@ == image(all.take(k as int)),
            decreases self.instructions.len() - k,
        {
            proof {
                assert(all.take(k + 1).drop_last() =~= all.take(k as int));
                assert(all.take(k + 1).last().bytes == self.instructions@[k as int].bytes@);
            }
            rom.extend_from_slice(self.instructions[k].bytes.as_slice());
            k = k + 1;
        }
        assert(all.take(k as int) =~= all);
        rom
    }

    /// Assembles the source text and gives the bytes of the program.
    pub fn run(&mut self) -> (rom: Vec<u8>)
        requires
            old(self).line + lines(old(self).source_code@).len() <= usize::MAX,
            old(self).address + 2 * lines(old(self).source_code@).len() <= usize::MAX,
        ensures
            final(self).source_path == old(self).source_path,
            final(self).source_code == old(self).source_code,
            instruction_views(final(self).instructions@) == instruction_views(
                old(self).instructions@,
            ) + assembled(lines(old(self).source_code@), old(self).line as nat),
            diagnostic_views(final(self).diagnostics@) == diagnostic_views(old(self).diagnostics@)
                + rejected(lines(old(self).source_code@), old(self).line as nat),
            final(self).line == old(self).line + assembled(
                lines(old(self).source_code@),
                old(self).line as nat,
            ).len(),
            final(self).address == old(self).address + 2 * assembled(
                lines(old(self).source_code@),
                old(self).line as nat,
            ).len(),
            rom@ == image(instruction_views(final(self).instructions@)),
            rom@ == image(instruction_views(old(self).instructions@)) + program_bytes(
                lines(old(self).source_code@),
            ),
    {
        self.parse_lines();
        self.rom_bytes()
    }

    /// Where the program is to be written: the source path up to its
    /// first `.chasm`, then `_a.ch8`.
    pub fn parse_path(&self) -> (path: String)
        ensures
            path@ == before_first(self.source_path@, ".chasm"@) + "_a.ch8"@,
    {
        let mut path = String::from_str(cut_before(self.source_path.as_str(), ".chasm"));
        path.append("_a.ch8");
        path
    }
}

} // verus!
