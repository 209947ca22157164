//! Opcode text as hexadecimal digits: which texts are instructions, and
//! which bytes and which opcode they give.

use crate::assembler::{
    addr_text, byte_text, instruction_of, pair_text, reg_text, rom_address, InstructionView,
    ParseErrorView,
};
use crate::hexpair::{hex_digit_value, hex_pair_bytes, hex_pair_fault};
use crate::numeral::{digit_char, hex_text, hex_text_padded, lemma_hex_text_len};
use crate::opcode::{family_of, kk_of, n_of, nnn_of, opcode_of, x_of, y_of};
use vstd::prelude::*;
use vstd::utf8::{
    char_is_scalar, encode_scalar, encode_utf8, has_width_1_encoding, is_ascii_chars,
    is_ascii_chars_encode_utf8,
};

verus! {

/// Whether `c` is the hexadecimal digit of value `v`, in either case.
pub open spec fn is_hex_char(c: char, v: nat) -> bool {
    c as u32 <= 0x7f && hex_digit_value(c as u8) == Some(v as u8) && v < 16
}

/// Whether `c` is a hexadecimal digit, in either case.
pub open spec fn is_hex_digit(c: char) -> bool {
    c as u32 <= 0x7f && hex_digit_value(c as u8) is Some
}

/// The byte that the hexadecimal digits of values `hi` and `lo` denote.
pub open spec fn byte_of(hi: nat, lo: nat) -> u8 {
    (16 * hi + lo) as u8
}

/// The instruction that the two bytes `hi` and `lo` make at line counter
/// `line`, with `text` for its opcode.
pub open spec fn instruction_with(text: Seq<char>, hi: u8, lo: u8, line: nat) -> Result<
    InstructionView,
    ParseErrorView,
> {
    Ok(InstructionView { opcode: text, bytes: seq![hi, lo], address: rom_address(line) })
}

/// The opcode that the bytes of an instruction make.
pub open spec fn opcode_in(i: InstructionView) -> u16 {
    opcode_of(i.bytes[0], i.bytes[1])
}

/// Whether `s` is the one hexadecimal digit of value `v`.
pub open spec fn is_hex_digit_text(s: Seq<char>, v: nat) -> bool {
    s.len() == 1 && is_hex_char(s[0], v)
}

/// Whether `s` is made of the two hexadecimal digits of values `hi` and
/// `lo`.
pub open spec fn is_hex_byte_text(s: Seq<char>, hi: nat, lo: nat) -> bool {
    s.len() == 2 && is_hex_char(s[0], hi) && is_hex_char(s[1], lo)
}

/// The digits up to fifteen are written with hexadecimal digits, each with
/// its own value.
pub proof fn lemma_digit_char_hex(d: nat)
    requires
        d < 16,
    ensures
        is_hex_char(digit_char(d), d),
{
}

/// A hexadecimal numeral is ASCII text.
pub proof fn lemma_hex_text_ascii(n: nat)
    ensures
        is_ascii_chars(hex_text(n)),
    decreases n,
{
    if n < 16 {
        lemma_digit_char_hex(n);
        lemma_ascii_char(digit_char(n));
    } else {
        lemma_hex_text_ascii(n / 16);
        lemma_digit_char_hex(n % 16);
        lemma_ascii_char(digit_char(n % 16));
    }
}

/// A character with a code below 128 is ASCII.
pub proof fn lemma_ascii_char(c: char)
    ensures
        c as u32 <= 0x7f <==> '\0' <= c <= '\u{7f}',
{
}

/// Text made of four hexadecimal digits is an instruction, and its bytes
/// are what the digits denote pair by pair.
pub proof fn lemma_four_digits(
    text: Seq<char>,
    a: nat,
    b: nat,
    c: nat,
    d: nat,
    line: nat,
    at: nat,
)
    requires
        text.len() == 4,
        is_hex_char(text[0], a),
        is_hex_char(text[1], b),
        is_hex_char(text[2], c),
        is_hex_char(text[3], d),
    ensures
        instruction_of(text, line, at) == instruction_with(text, byte_of(a, b), byte_of(c, d), line),
{
    assert forall|i: int| 0 <= i < text.len() implies '\0' <= #[trigger] text[i] <= '\u{7f}' by {
        assert(i == 0 || i == 1 || i == 2 || i == 3);
        lemma_ascii_char(text[i]);
    }
    is_ascii_chars_encode_utf8(text);
    let data = encode_utf8(text);
    assert(data[0] == text[0] as u8);
    assert(data[1] == text[1] as u8);
    assert(data[2] == text[2] as u8);
    assert(data[3] == text[3] as u8);
    assert(hex_pair_fault(data) is None);
    assert(hex_pair_bytes(data) =~= seq![byte_of(a, b), byte_of(c, d)]);
}

/// ASCII text that is an instruction has four characters.
pub proof fn lemma_instruction_has_four(text: Seq<char>, line: nat, at: nat)
    requires
        is_ascii_chars(text),
        instruction_of(text, line, at) is Ok,
    ensures
        text.len() == 4,
{
    is_ascii_chars_encode_utf8(text);
}

/// Text whose bytes are all below 128 is ASCII: a character beyond ASCII
/// is written with bytes from 128 on.
pub proof fn lemma_ascii_bytes(text: Seq<char>)
    requires
        forall|i: int| 0 <= i < encode_utf8(text).len() ==> encode_utf8(text)[i] < 0x80,
    ensures
        is_ascii_chars(text),
    decreases text.len(),
{
    if text.len() > 0 {
        let first = text[0] as u32;
        let rest = text.drop_first();
        let bytes = encode_utf8(text);
        char_is_scalar(text[0]);
        assert(bytes =~= encode_scalar(first) + encode_utf8(rest));
        assert(bytes[0] == encode_scalar(first)[0]);
        assert(forall|b: u8| 0xC0u8 | b >= 0x80) by (bit_vector);
        assert(forall|b: u8| 0xE0u8 | b >= 0x80) by (bit_vector);
        assert(forall|b: u8| 0xF0u8 | b >= 0x80) by (bit_vector);
        assert(has_width_1_encoding(first));
        assert forall|i: int| 0 <= i < encode_utf8(rest).len() implies encode_utf8(rest)[i]
            < 0x80 by {
            assert(encode_utf8(rest)[i] == bytes[i + 1]);
        }
        lemma_ascii_bytes(rest);
        lemma_ascii_char(text[0]);
        assert forall|i: int| 0 <= i < text.len() implies '\0' <= #[trigger] text[i]
            <= '\u{7f}' by {
            if i > 0 {
                assert(text[i] == rest[i - 1]);
            }
        }
    }
}

/// Text is an instruction exactly when it is four hexadecimal digits.
pub proof fn lemma_instruction_text(text: Seq<char>, line: nat, at: nat)
    ensures
        instruction_of(text, line, at) is Ok <==> text.len() == 4 && is_hex_digit(text[0])
            && is_hex_digit(text[1]) && is_hex_digit(text[2]) && is_hex_digit(text[3]),
{
    let bytes = encode_utf8(text);
    if instruction_of(text, line, at) is Ok {
        assert forall|i: int| 0 <= i < bytes.len() implies bytes[i] < 0x80 by {
            assert(i == 0 || i == 1 || i == 2 || i == 3);
        }
        lemma_ascii_bytes(text);
        is_ascii_chars_encode_utf8(text);
        lemma_ascii_char(text[0]);
        lemma_ascii_char(text[1]);
        lemma_ascii_char(text[2]);
        lemma_ascii_char(text[3]);
        assert(bytes[0] == text[0] as u8);
        assert(bytes[1] == text[1] as u8);
        assert(bytes[2] == text[2] as u8);
        assert(bytes[3] == text[3] as u8);
    }
    if text.len() == 4 && is_hex_digit(text[0]) && is_hex_digit(text[1]) && is_hex_digit(text[2])
        && is_hex_digit(text[3]) {
        lemma_four_digits(
            text,
            hex_digit_value(text[0] as u8)->0 as nat,
            hex_digit_value(text[1] as u8)->0 as nat,
            hex_digit_value(text[2] as u8)->0 as nat,
            hex_digit_value(text[3] as u8)->0 as nat,
            line,
            at,
        );
    }
}

/// The digits of a hexadecimal numeral of up to three digits.
pub proof fn lemma_hex_text_digits(n: nat)
    ensures
        n < 0x10 ==> hex_text(n) == seq![digit_char(n)],
        0x10 <= n < 0x100 ==> hex_text(n) == seq![digit_char(n / 0x10), digit_char(n % 0x10)],
        0x100 <= n < 0x1000 ==> hex_text(n) == seq![
            digit_char(n / 0x100),
            digit_char(n / 0x10 % 0x10),
            digit_char(n % 0x10),
        ],
{
    if 0x10 <= n < 0x100 {
        assert(hex_text(n / 0x10) == seq![digit_char(n / 0x10)]);
        assert(hex_text(n) =~= seq![digit_char(n / 0x10), digit_char(n % 0x10)]);
    } else if 0x100 <= n < 0x1000 {
        assert(n / 0x10 / 0x10 == n / 0x100);
        assert(hex_text(n / 0x100) == seq![digit_char(n / 0x100)]);
        assert(hex_text(n / 0x10) =~= seq![digit_char(n / 0x100), digit_char(n / 0x10 % 0x10)]);
        assert(hex_text(n) =~= seq![
            digit_char(n / 0x100),
            digit_char(n / 0x10 % 0x10),
            digit_char(n % 0x10),
        ]);
    }
}

/// A byte written with at least two hexadecimal digits has exactly two,
/// and a larger number has more.
pub proof fn lemma_hex_text_padded_byte(n: nat)
    ensures
        hex_text_padded(n, 2).len() >= 2,
        is_ascii_chars(hex_text_padded(n, 2)),
        n < 0x100 <==> hex_text_padded(n, 2).len() == 2,
        n < 0x100 ==> hex_text_padded(n, 2) == seq![digit_char(n / 0x10), digit_char(n % 0x10)],
{
    lemma_hex_text_len(n);
    lemma_hex_text_digits(n);
    lemma_hex_text_ascii(n);
    if n < 0x10 {
        assert(hex_text_padded(n, 2) =~= seq![digit_char(0), digit_char(n)]);
    }
}

/// Text put together from ASCII parts is ASCII.
pub proof fn lemma_ascii_concat(a: Seq<char>, b: Seq<char>)
    requires
        is_ascii_chars(a),
        is_ascii_chars(b),
    ensures
        is_ascii_chars(a + b),
{
    assert forall|i: int| 0 <= i < (a + b).len() implies '\0' <= #[trigger] (a + b)[i]
        <= '\u{7f}' by {
        if i < a.len() {
            assert((a + b)[i] == a[i]);
        } else {
            assert((a + b)[i] == b[i - a.len()]);
        }
    }
}

/// Text of hexadecimal digits is ASCII.
pub proof fn lemma_hex_digit_text_ascii(s: Seq<char>, v: nat)
    requires
        is_hex_digit_text(s, v),
    ensures
        is_ascii_chars(s),
{
    lemma_ascii_char(s[0]);
}

/// Text of two hexadecimal digits is ASCII.
pub proof fn lemma_hex_byte_text_ascii(s: Seq<char>, hi: nat, lo: nat)
    requires
        is_hex_byte_text(s, hi, lo),
    ensures
        is_ascii_chars(s),
{
    lemma_ascii_char(s[0]);
    lemma_ascii_char(s[1]);
    assert forall|i: int| 0 <= i < s.len() implies '\0' <= #[trigger] s[i] <= '\u{7f}' by {
        assert(i == 0 || i == 1);
    }
}

/// A byte is what its two hexadecimal digits denote.
pub proof fn lemma_low_byte(v: nat)
    requires
        v < 0x100,
    ensures
        byte_of(v / 0x10, v % 0x10) == v,
        v / 0x10 < 0x10,
{
}

/// An address written with at least three hexadecimal digits has
/// exactly three where it fits in twelve bits, and more where it does not.
pub proof fn lemma_hex_text_padded_addr(n: nat)
    ensures
        hex_text_padded(n, 3).len() >= 3,
        is_ascii_chars(hex_text_padded(n, 3)),
        n < 0x1000 <==> hex_text_padded(n, 3).len() == 3,
        n < 0x1000 ==> hex_text_padded(n, 3) == seq![
            digit_char(n / 0x100),
            digit_char(n / 0x10 % 0x10),
            digit_char(n % 0x10),
        ],
{
    lemma_hex_text_len(n);
    lemma_hex_text_digits(n);
    lemma_hex_text_ascii(n);
    if n < 0x10 {
        assert(hex_text_padded(n, 3) =~= seq![digit_char(0), digit_char(0), digit_char(n)]);
    } else if n < 0x100 {
        assert(hex_text_padded(n, 3) =~= seq![
            digit_char(0),
            digit_char(n / 0x10),
            digit_char(n % 0x10),
        ]);
    }
}

/// The four characters of a digit followed by an address of twelve bits.
pub proof fn lemma_addr_text_digits(head: Seq<char>, nnn: nat)
    requires
        head.len() == 1,
        nnn <= 0xFFF,
    ensures
        head + hex_text_padded(nnn, 3) == seq![
            head[0],
            digit_char(nnn / 0x100),
            digit_char(nnn / 0x10 % 0x10),
            digit_char(nnn % 0x10),
        ],
{
    lemma_hex_text_padded_addr(nnn);
    assert(head + hex_text_padded(nnn, 3) =~= seq![
        head[0],
        digit_char(nnn / 0x100),
        digit_char(nnn / 0x10 % 0x10),
        digit_char(nnn % 0x10),
    ]);
}

/// A digit and an address of twelve bits make an instruction.
pub proof fn lemma_addr_text_encodes(head: Seq<char>, h: nat, nnn: u16, line: nat, at: nat)
    requires
        is_hex_digit_text(head, h),
        nnn <= 0xFFF,
    ensures
        instruction_of(addr_text(head, nnn), line, at) == instruction_with(
            addr_text(head, nnn),
            byte_of(h, nnn as nat / 0x100),
            (nnn % 0x100) as u8,
            line,
        ),
{
    let n = nnn as nat;
    lemma_addr_text_digits(head, n);
    lemma_digit_char_hex(n / 0x100);
    lemma_digit_char_hex(n / 0x10 % 0x10);
    lemma_digit_char_hex(n % 0x10);
    lemma_four_digits(addr_text(head, nnn), h, n / 0x100, n / 0x10 % 0x10, n % 0x10, line, at);
    lemma_low_byte(n % 0x100);
    assert(n % 0x100 / 0x10 == n / 0x10 % 0x10 && n % 0x100 % 0x10 == n % 0x10);
}

/// A digit and an address make an instruction exactly when the address
/// fits in twelve bits.
pub proof fn lemma_addr_text(head: Seq<char>, h: nat, nnn: u16, line: nat, at: nat)
    requires
        is_hex_digit_text(head, h),
    ensures
        instruction_of(addr_text(head, nnn), line, at) is Ok <==> nnn <= 0xFFF,
        nnn <= 0xFFF ==> instruction_of(addr_text(head, nnn), line, at) == instruction_with(
            addr_text(head, nnn),
            byte_of(h, nnn as nat / 0x100),
            (nnn % 0x100) as u8,
            line,
        ),
{
    let text = addr_text(head, nnn);
    if nnn <= 0xFFF {
        lemma_addr_text_encodes(head, h, nnn, line, at);
    } else if instruction_of(text, line, at) is Ok {
        lemma_hex_text_padded_addr(nnn as nat);
        lemma_hex_digit_text_ascii(head, h);
        lemma_ascii_concat(head, hex_text_padded(nnn as nat, 3));
        lemma_instruction_has_four(text, line, at);
    }
}

/// A digit, a register and two more digits make an instruction exactly
/// when the register has one hexadecimal digit.
pub proof fn lemma_reg_text(
    head: Seq<char>,
    h: nat,
    x: u16,
    tail: Seq<char>,
    hi: nat,
    lo: nat,
    line: nat,
    at: nat,
)
    requires
        is_hex_digit_text(head, h),
        is_hex_byte_text(tail, hi, lo),
    ensures
        instruction_of(reg_text(head, x, tail), line, at) is Ok <==> x < 0x10,
        x < 0x10 ==> instruction_of(reg_text(head, x, tail), line, at) == instruction_with(
            reg_text(head, x, tail),
            byte_of(h, x as nat),
            byte_of(hi, lo),
            line,
        ),
{
    let text = reg_text(head, x, tail);
    let n = x as nat;
    lemma_hex_text_len(n);
    lemma_hex_text_digits(n);
    lemma_hex_text_ascii(n);
    lemma_hex_digit_text_ascii(head, h);
    lemma_hex_byte_text_ascii(tail, hi, lo);
    lemma_ascii_concat(head, hex_text(n));
    lemma_ascii_concat(head + hex_text(n), tail);
    if instruction_of(text, line, at) is Ok {
        lemma_instruction_has_four(text, line, at);
    }
    if x < 0x10 {
        lemma_digit_char_hex(n);
        assert(text =~= seq![head[0], digit_char(n), tail[0], tail[1]]);
        lemma_four_digits(text, h, n, hi, lo, line, at);
    }
}

/// A digit, two registers and one more digit make an instruction exactly
/// when each register has one hexadecimal digit.
pub proof fn lemma_pair_text(
    head: Seq<char>,
    h: nat,
    x: u16,
    y: u16,
    tail: Seq<char>,
    t: nat,
    line: nat,
    at: nat,
)
    requires
        is_hex_digit_text(head, h),
        is_hex_digit_text(tail, t),
    ensures
        instruction_of(pair_text(head, x, y, tail), line, at) is Ok <==> x < 0x10 && y < 0x10,
        x < 0x10 && y < 0x10 ==> instruction_of(pair_text(head, x, y, tail), line, at)
            == instruction_with(
            pair_text(head, x, y, tail),
            byte_of(h, x as nat),
            byte_of(y as nat, t),
            line,
        ),
{
    let text = pair_text(head, x, y, tail);
    lemma_hex_text_len(x as nat);
    lemma_hex_text_digits(x as nat);
    lemma_hex_text_ascii(x as nat);
    lemma_hex_text_len(y as nat);
    lemma_hex_text_digits(y as nat);
    lemma_hex_text_ascii(y as nat);
    lemma_hex_digit_text_ascii(head, h);
    lemma_hex_digit_text_ascii(tail, t);
    lemma_ascii_concat(head, hex_text(x as nat));
    lemma_ascii_concat(head + hex_text(x as nat), hex_text(y as nat));
    lemma_ascii_concat(head + hex_text(x as nat) + hex_text(y as nat), tail);
    if instruction_of(text, line, at) is Ok {
        lemma_instruction_has_four(text, line, at);
    }
    if x < 0x10 && y < 0x10 {
        lemma_digit_char_hex(x as nat);
        lemma_digit_char_hex(y as nat);
        assert(text =~= seq![head[0], digit_char(x as nat), digit_char(y as nat), tail[0]]);
        lemma_four_digits(text, h, x as nat, y as nat, t, line, at);
    }
}

/// A digit, two registers and a number make an instruction exactly when
/// each of the three has one hexadecimal digit.
pub proof fn lemma_draw_text(head: Seq<char>, h: nat, x: u16, y: u16, n: u16, line: nat, at: nat)
    requires
        is_hex_digit_text(head, h),
    ensures
        instruction_of(pair_text(head, x, y, hex_text(n as nat)), line, at) is Ok <==> x < 0x10
            && y < 0x10 && n < 0x10,
        x < 0x10 && y < 0x10 && n < 0x10 ==> instruction_of(
            pair_text(head, x, y, hex_text(n as nat)),
            line,
            at,
        ) == instruction_with(
            pair_text(head, x, y, hex_text(n as nat)),
            byte_of(h, x as nat),
            byte_of(y as nat, n as nat),
            line,
        ),
{
    let tail = hex_text(n as nat);
    let text = pair_text(head, x, y, tail);
    lemma_hex_text_len(n as nat);
    lemma_hex_text_digits(n as nat);
    lemma_hex_text_ascii(n as nat);
    if n < 0x10 {
        lemma_digit_char_hex(n as nat);
        lemma_pair_text(head, h, x, y, tail, n as nat, line, at);
    } else {
        lemma_hex_text_len(x as nat);
        lemma_hex_text_ascii(x as nat);
        lemma_hex_text_len(y as nat);
        lemma_hex_text_ascii(y as nat);
        lemma_hex_digit_text_ascii(head, h);
        lemma_ascii_concat(head, hex_text(x as nat));
        lemma_ascii_concat(head + hex_text(x as nat), hex_text(y as nat));
        lemma_ascii_concat(head + hex_text(x as nat) + hex_text(y as nat), tail);
        if instruction_of(text, line, at) is Ok {
            lemma_instruction_has_four(text, line, at);
        }
    }
}

/// A digit, a register and a byte make an instruction exactly when the
/// register has one hexadecimal digit and the byte fits in two.
pub proof fn lemma_byte_text(head: Seq<char>, h: nat, x: u16, kk: u16, line: nat, at: nat)
    requires
        is_hex_digit_text(head, h),
    ensures
        instruction_of(byte_text(head, x, kk), line, at) is Ok <==> x < 0x10 && kk < 0x100,
        x < 0x10 && kk < 0x100 ==> instruction_of(byte_text(head, x, kk), line, at)
            == instruction_with(
            byte_text(head, x, kk),
            byte_of(h, x as nat),
            kk as u8,
            line,
        ),
{
    let text = byte_text(head, x, kk);
    lemma_hex_text_len(x as nat);
    lemma_hex_text_digits(x as nat);
    lemma_hex_text_ascii(x as nat);
    lemma_hex_text_padded_byte(kk as nat);
    lemma_hex_digit_text_ascii(head, h);
    lemma_ascii_concat(head, hex_text(x as nat));
    lemma_ascii_concat(head + hex_text(x as nat), hex_text_padded(kk as nat, 2));
    if instruction_of(text, line, at) is Ok {
        lemma_instruction_has_four(text, line, at);
    }
    if x < 0x10 && kk < 0x100 {
        lemma_digit_char_hex(x as nat);
        lemma_digit_char_hex(kk as nat / 0x10);
        lemma_digit_char_hex(kk as nat % 0x10);
        assert(text =~= seq![
            head[0],
            digit_char(x as nat),
            digit_char(kk as nat / 0x10),
            digit_char(kk as nat % 0x10),
        ]);
        lemma_four_digits(text, h, x as nat, kk as nat / 0x10, kk as nat % 0x10, line, at);
        lemma_low_byte(kk as nat);
    }
}

/// The fields of the opcode whose digits have the values `h`, `x`, `y`
/// and `n`.
pub proof fn lemma_fields(h: nat, x: nat, y: nat, n: nat)
    requires
        h < 16,
        x < 16,
        y < 16,
        n < 16,
    ensures
        ({
            let op = opcode_of(byte_of(h, x), byte_of(y, n));
            &&& op == 0x1000 * h + 0x100 * x + 0x10 * y + n
            &&& family_of(op) == h
            &&& x_of(op) == x
            &&& y_of(op) == y
            &&& n_of(op) == n
            &&& kk_of(op) == 0x10 * y + n
            &&& nnn_of(op) == 0x100 * x + 0x10 * y + n
            &&& (op / 0x100) as u8 == byte_of(h, x)
            &&& (op % 0x100) as u8 == byte_of(y, n)
        }),
{
    let op = opcode_of(byte_of(h, x), byte_of(y, n));
    let v: nat = 0x1000 * h + 0x100 * x + 0x10 * y + n;
    assert(op == v);
    assert(v / 0x1000 == h);
    assert(v / 0x100 == 0x10 * h + x);
    assert(v / 0x10 == 0x100 * h + 0x10 * x + y);
    assert(v % 0x10 == n);
    assert(v % 0x100 == 0x10 * y + n);
    assert(v % 0x1000 == 0x100 * x + 0x10 * y + n);
    assert((0x10 * h + x) % 0x10 == x);
    assert((0x100 * h + 0x10 * x + y) % 0x10 == y);
}

/// The fields of the opcode whose first digit has the value `h`, whose
/// second has the value `x` and whose low byte is `kk`.
pub proof fn lemma_byte_fields(h: nat, x: nat, kk: nat)
    requires
        h < 16,
        x < 16,
        kk < 0x100,
    ensures
        ({
            let op = opcode_of(byte_of(h, x), kk as u8);
            &&& op == 0x1000 * h + 0x100 * x + kk
            &&& family_of(op) == h
            &&& x_of(op) == x
            &&& kk_of(op) == kk
            &&& n_of(op) == kk % 0x10
            &&& nnn_of(op) == 0x100 * x + kk
        }),
{
    lemma_low_byte(kk);
    lemma_fields(h, x, kk / 0x10, kk % 0x10);
}

/// The fields of the opcode whose first digit has the value `h` and whose
/// address is `nnn`.
pub proof fn lemma_addr_fields(h: nat, nnn: nat)
    requires
        h < 16,
        nnn < 0x1000,
    ensures
        ({
            let op = opcode_of(byte_of(h, nnn / 0x100), (nnn % 0x100) as u8);
            &&& op == 0x1000 * h + nnn
            &&& family_of(op) == h
            &&& nnn_of(op) == nnn
            &&& x_of(op) == nnn / 0x100
        }),
{
    assert(nnn == 0x100 * (nnn / 0x100) + nnn % 0x100);
    lemma_byte_fields(h, nnn / 0x100, nnn % 0x100);
}

/// An opcode is made of its fields.
pub proof fn lemma_opcode_parts(op: u16)
    ensures
        family_of(op) < 16,
        x_of(op) < 16,
        y_of(op) < 16,
        n_of(op) < 16,
        op == 0x1000 * family_of(op) + 0x100 * x_of(op) + 0x10 * y_of(op) + n_of(op),
        kk_of(op) == 0x10 * y_of(op) + n_of(op),
        nnn_of(op) == 0x100 * x_of(op) + kk_of(op),
        nnn_of(op) < 0x1000,
        nnn_of(op) as nat / 0x100 == x_of(op),
        nnn_of(op) % 0x100 == kk_of(op),
        byte_of(family_of(op) as nat, x_of(op) as nat) == (op / 0x100) as u8,
        byte_of(y_of(op) as nat, n_of(op) as nat) == (op % 0x100) as u8,
        kk_of(op) == (op % 0x100) as u8,
{
    assert(op / 0x1000 < 16 && op == 0x1000 * (op / 0x1000) + 0x100 * (op / 0x100 % 0x10) + 0x10
        * (op / 0x10 % 0x10) + op % 0x10) by (bit_vector);
    assert(op % 0x100 == 0x10 * (op / 0x10 % 0x10) + op % 0x10) by (bit_vector);
    assert(op % 0x1000 == 0x100 * (op / 0x100 % 0x10) + op % 0x100) by (bit_vector);
    assert(op % 0x1000 / 0x100 == op / 0x100 % 0x10 && op % 0x1000 % 0x100 == op % 0x100)
        by (bit_vector);
    lemma_fields(family_of(op) as nat, x_of(op) as nat, y_of(op) as nat, n_of(op) as nat);
}

} // verus!
