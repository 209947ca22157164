//! The words of mnemonic lines.

use crate::assembler::{keyword_of, line_keyword, line_operands, register_of};
use crate::disassembler::{addr_line, pair_line, reg_line};
use crate::numeral::{
    decimal_text, is_decimal_digit, lemma_decimal_text_value, lemma_parse_decimal_text,
    parse_decimal,
};
use crate::text::{
    all_separators, lemma_words_append, lemma_words_single, no_separator, words,
};
use vstd::prelude::*;

verus! {

/// The word that names the register `x`: the letter `V`, then `x` in
/// decimal.
pub open spec fn register_word(x: nat) -> Seq<char> {
    seq!['V'] + decimal_text(x)
}

/// A decimal numeral is a word that reads as its number and names no
/// register; with the letter `V` before it, it names the register of
/// that number.
pub proof fn lemma_operands(v: u16)
    ensures
        decimal_text(v as nat).len() > 0,
        no_separator(decimal_text(v as nat)),
        is_decimal_digit(decimal_text(v as nat)[0]),
        parse_decimal(decimal_text(v as nat)) == Some(v),
        register_of(decimal_text(v as nat)) is None,
        register_word(v as nat).len() > 1,
        register_word(v as nat)[0] == 'V',
        no_separator(register_word(v as nat)),
        register_of(register_word(v as nat)) == Some(v),
{
    let d = decimal_text(v as nat);
    let r = register_word(v as nat);
    lemma_decimal_text_value(v as nat);
    lemma_parse_decimal_text(v);
    assert(is_decimal_digit(d[0]));
    assert forall|i: int| 0 <= i < d.len() implies !crate::text::is_separator(#[trigger] d[i]) by {
        assert(is_decimal_digit(d[i]));
    }
    assert forall|i: int| 0 <= i < r.len() implies !crate::text::is_separator(#[trigger] r[i]) by {
        if i > 0 {
            assert(r[i] == d[i - 1]);
        }
    }
    assert(r.drop_first() =~= d);
}

/// A name and one operand are two words.
pub proof fn lemma_line_of_two(name: Seq<char>, gap: Seq<char>, first: Seq<char>)
    requires
        name.len() > 0,
        no_separator(name),
        gap.len() > 0,
        all_separators(gap),
        first.len() > 0,
        no_separator(first),
    ensures
        words(name + gap + first) == seq![name, first],
        line_keyword(name + gap + first) == keyword_of(name),
        line_operands(name + gap + first) == seq![first],
{
    lemma_words_single(name);
    lemma_words_append(name, gap, first);
    assert(seq![name].push(first) =~= seq![name, first]);
    assert(seq![name, first].skip(1) =~= seq![first]);
}

/// A name and two operands are three words.
pub proof fn lemma_line_of_three(
    name: Seq<char>,
    gap: Seq<char>,
    first: Seq<char>,
    gap2: Seq<char>,
    second: Seq<char>,
)
    requires
        name.len() > 0,
        no_separator(name),
        gap.len() > 0,
        all_separators(gap),
        first.len() > 0,
        no_separator(first),
        gap2.len() > 0,
        all_separators(gap2),
        second.len() > 0,
        no_separator(second),
    ensures
        words(name + gap + first + gap2 + second) == seq![name, first, second],
        line_keyword(name + gap + first + gap2 + second) == keyword_of(name),
        line_operands(name + gap + first + gap2 + second) == seq![first, second],
{
    lemma_line_of_two(name, gap, first);
    lemma_words_append(name + gap + first, gap2, second);
    assert(seq![name, first].push(second) =~= seq![name, first, second]);
    assert(seq![name, first, second].skip(1) =~= seq![first, second]);
}

/// A name and three operands are four words.
pub proof fn lemma_line_of_four(
    name: Seq<char>,
    gap: Seq<char>,
    first: Seq<char>,
    gap2: Seq<char>,
    second: Seq<char>,
    gap3: Seq<char>,
    third: Seq<char>,
)
    requires
        name.len() > 0,
        no_separator(name),
        gap.len() > 0,
        all_separators(gap),
        first.len() > 0,
        no_separator(first),
        gap2.len() > 0,
        all_separators(gap2),
        second.len() > 0,
        no_separator(second),
        gap3.len() > 0,
        all_separators(gap3),
        third.len() > 0,
        no_separator(third),
    ensures
        words(name + gap + first + gap2 + second + gap3 + third) == seq![
            name,
            first,
            second,
            third,
        ],
        line_keyword(name + gap + first + gap2 + second + gap3 + third) == keyword_of(name),
        line_operands(name + gap + first + gap2 + second + gap3 + third) == seq![
            first,
            second,
            third,
        ],
{
    lemma_line_of_three(name, gap, first, gap2, second);
    lemma_words_append(name + gap + first + gap2 + second, gap3, third);
    assert(seq![name, first, second].push(third) =~= seq![name, first, second, third]);
    assert(seq![name, first, second, third].skip(1) =~= seq![first, second, third]);
}

/// The words of a mnemonic line with a register and a second number,
/// which is a register too where `reg` holds.
pub proof fn lemma_words_pair_line(
    name: Seq<char>,
    head: Seq<char>,
    x: u8,
    gap: Seq<char>,
    mid: Seq<char>,
    v: u8,
    reg: bool,
)
    requires
        name.len() > 0,
        no_separator(name),
        head == name + seq![' ', 'V'],
        gap.len() > 0,
        all_separators(gap),
        mid == if reg {
            gap + seq!['V']
        } else {
            gap
        },
    ensures
        line_keyword(pair_line(head, x, mid, v)) == keyword_of(name),
        line_operands(pair_line(head, x, mid, v)) == seq![
            register_word(x as nat),
            if reg {
                register_word(v as nat)
            } else {
                decimal_text(v as nat)
            },
        ],
{
    lemma_operands(x as u16);
    lemma_operands(v as u16);
    let first = register_word(x as nat);
    let second = if reg {
        register_word(v as nat)
    } else {
        decimal_text(v as nat)
    };
    assert(pair_line(head, x, mid, v) =~= name + seq![' '] + first + gap + second);
    lemma_line_of_three(name, seq![' '], first, gap, second);
}

/// The words of a mnemonic line with an address.
pub proof fn lemma_words_addr_line(name: Seq<char>, head: Seq<char>, nnn: u16)
    requires
        name.len() > 0,
        no_separator(name),
        head == name + seq![' '],
    ensures
        line_keyword(addr_line(head, nnn)) == keyword_of(name),
        line_operands(addr_line(head, nnn)) == seq![decimal_text(nnn as nat)],
{
    lemma_operands(nnn);
    assert(addr_line(head, nnn) =~= name + seq![' '] + decimal_text(nnn as nat));
    lemma_line_of_two(name, seq![' '], decimal_text(nnn as nat));
}

/// The words of a mnemonic line with a fixed word and an address.
pub proof fn lemma_words_word_addr_line(
    name: Seq<char>,
    word: Seq<char>,
    head: Seq<char>,
    nnn: u16,
)
    requires
        name.len() > 0,
        no_separator(name),
        word.len() > 0,
        no_separator(word),
        head == name + seq![' '] + word + seq![',', ' '],
    ensures
        line_keyword(addr_line(head, nnn)) == keyword_of(name),
        line_operands(addr_line(head, nnn)) == seq![word, decimal_text(nnn as nat)],
{
    lemma_operands(nnn);
    assert(addr_line(head, nnn) =~= name + seq![' '] + word + seq![',', ' '] + decimal_text(
        nnn as nat,
    ));
    lemma_line_of_three(name, seq![' '], word, seq![',', ' '], decimal_text(nnn as nat));
}

/// The words of a mnemonic line with one register.
pub proof fn lemma_words_reg_line(name: Seq<char>, head: Seq<char>, x: u8, tail: Seq<char>)
    requires
        name.len() > 0,
        no_separator(name),
        head == name + seq![' ', 'V'],
        tail.len() == 0,
    ensures
        line_keyword(reg_line(head, x, tail)) == keyword_of(name),
        line_operands(reg_line(head, x, tail)) == seq![register_word(x as nat)],
{
    lemma_operands(x as u16);
    assert(reg_line(head, x, tail) =~= name + seq![' '] + register_word(x as nat));
    lemma_line_of_two(name, seq![' '], register_word(x as nat));
}

/// The words of a mnemonic line with a register and then a fixed word.
pub proof fn lemma_words_reg_word_line(
    name: Seq<char>,
    head: Seq<char>,
    x: u8,
    tail: Seq<char>,
    word: Seq<char>,
)
    requires
        name.len() > 0,
        no_separator(name),
        word.len() > 0,
        no_separator(word),
        head == name + seq![' ', 'V'],
        tail == seq![',', ' '] + word,
    ensures
        line_keyword(reg_line(head, x, tail)) == keyword_of(name),
        line_operands(reg_line(head, x, tail)) == seq![register_word(x as nat), word],
{
    lemma_operands(x as u16);
    assert(reg_line(head, x, tail) =~= name + seq![' '] + register_word(x as nat) + seq![
        ',',
        ' ',
    ] + word);
    lemma_line_of_three(name, seq![' '], register_word(x as nat), seq![',', ' '], word);
}

/// The words of a mnemonic line with a fixed word and then a register.
pub proof fn lemma_words_word_reg_line(
    name: Seq<char>,
    word: Seq<char>,
    head: Seq<char>,
    x: u8,
    tail: Seq<char>,
)
    requires
        name.len() > 0,
        no_separator(name),
        word.len() > 0,
        no_separator(word),
        head == name + seq![' '] + word + seq![',', ' ', 'V'],
        tail.len() == 0,
    ensures
        line_keyword(reg_line(head, x, tail)) == keyword_of(name),
        line_operands(reg_line(head, x, tail)) == seq![word, register_word(x as nat)],
{
    lemma_operands(x as u16);
    assert(reg_line(head, x, tail) =~= name + seq![' '] + word + seq![',', ' ']
        + register_word(x as nat));
    lemma_line_of_three(name, seq![' '], word, seq![',', ' '], register_word(x as nat));
}

/// The words of a mnemonic line with two registers and a number.
#[verifier::rlimit(50)]
pub proof fn lemma_words_draw_line(
    name: Seq<char>,
    head: Seq<char>,
    x: u8,
    gap: Seq<char>,
    mid: Seq<char>,
    y: u8,
    n: u8,
)
    requires
        name.len() > 0,
        no_separator(name),
        head == name + seq![' ', 'V'],
        gap.len() > 0,
        all_separators(gap),
        mid == gap + seq!['V'],
    ensures
        line_keyword(pair_line(head, x, mid, y) + gap + decimal_text(n as nat)) == keyword_of(name),
        line_operands(pair_line(head, x, mid, y) + gap + decimal_text(n as nat)) == seq![
            register_word(x as nat),
            register_word(y as nat),
            decimal_text(n as nat),
        ],
{
    lemma_operands(x as u16);
    lemma_operands(y as u16);
    lemma_operands(n as u16);
    let first = register_word(x as nat);
    let second = register_word(y as nat);
    let third = decimal_text(n as nat);
    assert(pair_line(head, x, mid, y) + gap + third =~= name + seq![' '] + first + gap + second
        + gap + third);
    lemma_line_of_four(name, seq![' '], first, gap, second, gap, third);
}

} // verus!
