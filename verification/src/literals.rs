//! What the string literals of the instruction table hold.

use crate::assembler::{keyword_of, Keyword};
use crate::hextext::{is_hex_byte_text, is_hex_digit_text};
use crate::numeral::is_decimal_digit;
use crate::text::{all_separators, no_separator};
use vstd::prelude::*;

verus! {

/// Each keyword is spelled by its own word and by no other.
pub proof fn lemma_keywords()
    ensures
        keyword_of("JP"@) == Some(Keyword::Jp),
        keyword_of("CALL"@) == Some(Keyword::Call),
        keyword_of("RET"@) == Some(Keyword::Ret),
        keyword_of("CLS"@) == Some(Keyword::Cls),
        keyword_of("SE"@) == Some(Keyword::Se),
        keyword_of("SNE"@) == Some(Keyword::Sne),
        keyword_of("LD"@) == Some(Keyword::Ld),
        keyword_of("ADD"@) == Some(Keyword::Add),
        keyword_of("OR"@) == Some(Keyword::Or),
        keyword_of("AND"@) == Some(Keyword::And),
        keyword_of("XOR"@) == Some(Keyword::Xor),
        keyword_of("SUB"@) == Some(Keyword::Sub),
        keyword_of("SHR"@) == Some(Keyword::Shr),
        keyword_of("SUBN"@) == Some(Keyword::Subn),
        keyword_of("SHL"@) == Some(Keyword::Shl),
        keyword_of("RND"@) == Some(Keyword::Rnd),
        keyword_of("DRW"@) == Some(Keyword::Drw),
        keyword_of("SKP"@) == Some(Keyword::Skp),
        keyword_of("SKNP"@) == Some(Keyword::Sknp),
{
    reveal_strlit("JP");
    assert("JP"@ =~= seq!['J', 'P']);
    reveal_strlit("CALL");
    assert("CALL"@ =~= seq!['C', 'A', 'L', 'L']);
    reveal_strlit("RET");
    assert("RET"@ =~= seq!['R', 'E', 'T']);
    reveal_strlit("CLS");
    assert("CLS"@ =~= seq!['C', 'L', 'S']);
    reveal_strlit("SE");
    assert("SE"@ =~= seq!['S', 'E']);
    reveal_strlit("SNE");
    assert("SNE"@ =~= seq!['S', 'N', 'E']);
    reveal_strlit("LD");
    assert("LD"@ =~= seq!['L', 'D']);
    reveal_strlit("ADD");
    assert("ADD"@ =~= seq!['A', 'D', 'D']);
    reveal_strlit("OR");
    assert("OR"@ =~= seq!['O', 'R']);
    reveal_strlit("AND");
    assert("AND"@ =~= seq!['A', 'N', 'D']);
    reveal_strlit("XOR");
    assert("XOR"@ =~= seq!['X', 'O', 'R']);
    reveal_strlit("SUB");
    assert("SUB"@ =~= seq!['S', 'U', 'B']);
    reveal_strlit("SHR");
    assert("SHR"@ =~= seq!['S', 'H', 'R']);
    reveal_strlit("SUBN");
    assert("SUBN"@ =~= seq!['S', 'U', 'B', 'N']);
    reveal_strlit("SHL");
    assert("SHL"@ =~= seq!['S', 'H', 'L']);
    reveal_strlit("RND");
    assert("RND"@ =~= seq!['R', 'N', 'D']);
    reveal_strlit("DRW");
    assert("DRW"@ =~= seq!['D', 'R', 'W']);
    reveal_strlit("SKP");
    assert("SKP"@ =~= seq!['S', 'K', 'P']);
    reveal_strlit("SKNP");
    assert("SKNP"@ =~= seq!['S', 'K', 'N', 'P']);
}

/// The keyword `JP` and the heads of its mnemonic lines.
pub proof fn lemma_jp_words()
    ensures
        keyword_of("JP"@) == Some(Keyword::Jp),
        "JP"@.len() > 0,
        no_separator("JP"@),
        "JP "@ == "JP"@ + seq![' '],
        "JP V0, "@ == "JP"@ + seq![' '] + seq!['V', '0'] + seq![',', ' '],
{
    lemma_keywords();
    reveal_strlit("JP");
    reveal_strlit("JP ");
    reveal_strlit("JP V0, ");
    assert("JP "@ =~= "JP"@ + seq![' ']);
    assert("JP V0, "@ =~= "JP"@ + seq![' '] + seq!['V', '0'] + seq![',', ' ']);
}

/// The keyword `CALL` and the heads of its mnemonic lines.
pub proof fn lemma_call_words()
    ensures
        keyword_of("CALL"@) == Some(Keyword::Call),
        "CALL"@.len() > 0,
        no_separator("CALL"@),
        "CALL "@ == "CALL"@ + seq![' '],
{
    lemma_keywords();
    reveal_strlit("CALL");
    reveal_strlit("CALL ");
    assert("CALL "@ =~= "CALL"@ + seq![' ']);
}

/// The keyword `RET`.
pub proof fn lemma_ret_words()
    ensures
        keyword_of("RET"@) == Some(Keyword::Ret),
        "RET"@.len() > 0,
        no_separator("RET"@),
{
    lemma_keywords();
    reveal_strlit("RET");
}

/// The keyword `CLS`.
pub proof fn lemma_cls_words()
    ensures
        keyword_of("CLS"@) == Some(Keyword::Cls),
        "CLS"@.len() > 0,
        no_separator("CLS"@),
{
    lemma_keywords();
    reveal_strlit("CLS");
}

/// The keyword `SE` and the heads of its mnemonic lines.
pub proof fn lemma_se_words()
    ensures
        keyword_of("SE"@) == Some(Keyword::Se),
        "SE"@.len() > 0,
        no_separator("SE"@),
        "SE V"@ == "SE"@ + seq![' ', 'V'],
{
    lemma_keywords();
    reveal_strlit("SE");
    reveal_strlit("SE V");
    assert("SE V"@ =~= "SE"@ + seq![' ', 'V']);
}

/// The keyword `SNE` and the heads of its mnemonic lines.
pub proof fn lemma_sne_words()
    ensures
        keyword_of("SNE"@) == Some(Keyword::Sne),
        "SNE"@.len() > 0,
        no_separator("SNE"@),
        "SNE V"@ == "SNE"@ + seq![' ', 'V'],
{
    lemma_keywords();
    reveal_strlit("SNE");
    reveal_strlit("SNE V");
    assert("SNE V"@ =~= "SNE"@ + seq![' ', 'V']);
}

/// The keyword `LD` and the heads of its mnemonic lines.
pub proof fn lemma_ld_words()
    ensures
        keyword_of("LD"@) == Some(Keyword::Ld),
        "LD"@.len() > 0,
        no_separator("LD"@),
        "LD V"@ == "LD"@ + seq![' ', 'V'],
        "LD I, "@ == "LD"@ + seq![' '] + "I"@ + seq![',', ' '],
        "LD DT, V"@ == "LD"@ + seq![' '] + "DT"@ + seq![',', ' ', 'V'],
        "LD ST, V"@ == "LD"@ + seq![' '] + "ST"@ + seq![',', ' ', 'V'],
        "LD F, V"@ == "LD"@ + seq![' '] + "F"@ + seq![',', ' ', 'V'],
        "LD B, V"@ == "LD"@ + seq![' '] + "B"@ + seq![',', ' ', 'V'],
        "LD I, V"@ == "LD"@ + seq![' '] + "I"@ + seq![',', ' ', 'V'],
{
    lemma_keywords();
    reveal_strlit("LD");
    reveal_strlit("I");
    reveal_strlit("DT");
    reveal_strlit("ST");
    reveal_strlit("F");
    reveal_strlit("B");
    reveal_strlit("LD V");
    reveal_strlit("LD I, ");
    reveal_strlit("LD DT, V");
    reveal_strlit("LD ST, V");
    reveal_strlit("LD F, V");
    reveal_strlit("LD B, V");
    reveal_strlit("LD I, V");
    assert("LD V"@ =~= "LD"@ + seq![' ', 'V']);
    assert("LD I, "@ =~= "LD"@ + seq![' '] + "I"@ + seq![',', ' ']);
    assert("LD DT, V"@ =~= "LD"@ + seq![' '] + "DT"@ + seq![',', ' ', 'V']);
    assert("LD ST, V"@ =~= "LD"@ + seq![' '] + "ST"@ + seq![',', ' ', 'V']);
    assert("LD F, V"@ =~= "LD"@ + seq![' '] + "F"@ + seq![',', ' ', 'V']);
    assert("LD B, V"@ =~= "LD"@ + seq![' '] + "B"@ + seq![',', ' ', 'V']);
    assert("LD I, V"@ =~= "LD"@ + seq![' '] + "I"@ + seq![',', ' ', 'V']);
}

/// The keyword `ADD` and the heads of its mnemonic lines.
pub proof fn lemma_add_words()
    ensures
        keyword_of("ADD"@) == Some(Keyword::Add),
        "ADD"@.len() > 0,
        no_separator("ADD"@),
        "ADD V"@ == "ADD"@ + seq![' ', 'V'],
        "ADD I, V"@ == "ADD"@ + seq![' '] + "I"@ + seq![',', ' ', 'V'],
{
    lemma_keywords();
    reveal_strlit("ADD");
    reveal_strlit("I");
    reveal_strlit("ADD V");
    reveal_strlit("ADD I, V");
    assert("ADD V"@ =~= "ADD"@ + seq![' ', 'V']);
    assert("ADD I, V"@ =~= "ADD"@ + seq![' '] + "I"@ + seq![',', ' ', 'V']);
}

/// The keyword `OR` and the heads of its mnemonic lines.
pub proof fn lemma_or_words()
    ensures
        keyword_of("OR"@) == Some(Keyword::Or),
        "OR"@.len() > 0,
        no_separator("OR"@),
        "OR V"@ == "OR"@ + seq![' ', 'V'],
{
    lemma_keywords();
    reveal_strlit("OR");
    reveal_strlit("OR V");
    assert("OR V"@ =~= "OR"@ + seq![' ', 'V']);
}

/// The keyword `AND` and the heads of its mnemonic lines.
pub proof fn lemma_and_words()
    ensures
        keyword_of("AND"@) == Some(Keyword::And),
        "AND"@.len() > 0,
        no_separator("AND"@),
        "AND V"@ == "AND"@ + seq![' ', 'V'],
{
    lemma_keywords();
    reveal_strlit("AND");
    reveal_strlit("AND V");
    assert("AND V"@ =~= "AND"@ + seq![' ', 'V']);
}

/// The keyword `XOR` and the heads of its mnemonic lines.
pub proof fn lemma_xor_words()
    ensures
        keyword_of("XOR"@) == Some(Keyword::Xor),
        "XOR"@.len() > 0,
        no_separator("XOR"@),
        "XOR V"@ == "XOR"@ + seq![' ', 'V'],
{
    lemma_keywords();
    reveal_strlit("XOR");
    reveal_strlit("XOR V");
    assert("XOR V"@ =~= "XOR"@ + seq![' ', 'V']);
}

/// The keyword `SUB` and the heads of its mnemonic lines.
pub proof fn lemma_sub_words()
    ensures
        keyword_of("SUB"@) == Some(Keyword::Sub),
        "SUB"@.len() > 0,
        no_separator("SUB"@),
        "SUB V"@ == "SUB"@ + seq![' ', 'V'],
{
    lemma_keywords();
    reveal_strlit("SUB");
    reveal_strlit("SUB V");
    assert("SUB V"@ =~= "SUB"@ + seq![' ', 'V']);
}

/// The keyword `SHR` and the heads of its mnemonic lines.
pub proof fn lemma_shr_words()
    ensures
        keyword_of("SHR"@) == Some(Keyword::Shr),
        "SHR"@.len() > 0,
        no_separator("SHR"@),
        "SHR V"@ == "SHR"@ + seq![' ', 'V'],
{
    lemma_keywords();
    reveal_strlit("SHR");
    reveal_strlit("SHR V");
    assert("SHR V"@ =~= "SHR"@ + seq![' ', 'V']);
}

/// The keyword `SUBN` and the heads of its mnemonic lines.
pub proof fn lemma_subn_words()
    ensures
        keyword_of("SUBN"@) == Some(Keyword::Subn),
        "SUBN"@.len() > 0,
        no_separator("SUBN"@),
        "SUBN V"@ == "SUBN"@ + seq![' ', 'V'],
{
    lemma_keywords();
    reveal_strlit("SUBN");
    reveal_strlit("SUBN V");
    assert("SUBN V"@ =~= "SUBN"@ + seq![' ', 'V']);
}

/// The keyword `SHL` and the heads of its mnemonic lines.
pub proof fn lemma_shl_words()
    ensures
        keyword_of("SHL"@) == Some(Keyword::Shl),
        "SHL"@.len() > 0,
        no_separator("SHL"@),
        "SHL V"@ == "SHL"@ + seq![' ', 'V'],
{
    lemma_keywords();
    reveal_strlit("SHL");
    reveal_strlit("SHL V");
    assert("SHL V"@ =~= "SHL"@ + seq![' ', 'V']);
}

/// The keyword `RND` and the heads of its mnemonic lines.
pub proof fn lemma_rnd_words()
    ensures
        keyword_of("RND"@) == Some(Keyword::Rnd),
        "RND"@.len() > 0,
        no_separator("RND"@),
        "RND V"@ == "RND"@ + seq![' ', 'V'],
{
    lemma_keywords();
    reveal_strlit("RND");
    reveal_strlit("RND V");
    assert("RND V"@ =~= "RND"@ + seq![' ', 'V']);
}

/// The keyword `DRW` and the heads of its mnemonic lines.
pub proof fn lemma_drw_words()
    ensures
        keyword_of("DRW"@) == Some(Keyword::Drw),
        "DRW"@.len() > 0,
        no_separator("DRW"@),
        "DRW V"@ == "DRW"@ + seq![' ', 'V'],
{
    lemma_keywords();
    reveal_strlit("DRW");
    reveal_strlit("DRW V");
    assert("DRW V"@ =~= "DRW"@ + seq![' ', 'V']);
}

/// The keyword `SKP` and the heads of its mnemonic lines.
pub proof fn lemma_skp_words()
    ensures
        keyword_of("SKP"@) == Some(Keyword::Skp),
        "SKP"@.len() > 0,
        no_separator("SKP"@),
        "SKP V"@ == "SKP"@ + seq![' ', 'V'],
{
    lemma_keywords();
    reveal_strlit("SKP");
    reveal_strlit("SKP V");
    assert("SKP V"@ =~= "SKP"@ + seq![' ', 'V']);
}

/// The keyword `SKNP` and the heads of its mnemonic lines.
pub proof fn lemma_sknp_words()
    ensures
        keyword_of("SKNP"@) == Some(Keyword::Sknp),
        "SKNP"@.len() > 0,
        no_separator("SKNP"@),
        "SKNP V"@ == "SKNP"@ + seq![' ', 'V'],
{
    lemma_keywords();
    reveal_strlit("SKNP");
    reveal_strlit("SKNP V");
    assert("SKNP V"@ =~= "SKNP"@ + seq![' ', 'V']);
}

/// The fixed words that stand among the operands: what they hold, that
/// they are words, and that they differ from one another.
pub proof fn lemma_fixed_words()
    ensures
        "I"@ == seq!['I'],
        "DT"@ == seq!['D', 'T'],
        "ST"@ == seq!['S', 'T'],
        "F"@ == seq!['F'],
        "B"@ == seq!['B'],
        "K"@ == seq!['K'],
        no_separator("I"@) && no_separator("DT"@) && no_separator("ST"@),
        no_separator("F"@) && no_separator("B"@) && no_separator("K"@),
        "I"@ != "DT"@ && "I"@ != "ST"@ && "I"@ != "F"@ && "I"@ != "B"@ && "I"@ != "K"@,
        "DT"@ != "ST"@ && "DT"@ != "F"@ && "DT"@ != "B"@ && "DT"@ != "K"@,
        "ST"@ != "F"@ && "ST"@ != "B"@,
        "F"@ != "B"@,
{
    reveal_strlit("I");
    reveal_strlit("DT");
    reveal_strlit("ST");
    reveal_strlit("F");
    reveal_strlit("B");
    reveal_strlit("K");
    assert("I"@[0] == 'I' && "F"@[0] == 'F' && "B"@[0] == 'B' && "K"@[0] == 'K');
    assert("I"@ =~= seq!['I']);
    assert("DT"@ =~= seq!['D', 'T']);
    assert("ST"@ =~= seq!['S', 'T']);
    assert("F"@ =~= seq!['F']);
    assert("B"@ =~= seq!['B']);
    assert("K"@ =~= seq!['K']);
}

/// A register word or a numeral is none of the fixed words.
pub proof fn lemma_not_fixed_word(w: Seq<char>)
    requires
        w.len() > 0,
        w[0] == 'V' || is_decimal_digit(w[0]),
    ensures
        w != "I"@,
        w != "DT"@,
        w != "ST"@,
        w != "F"@,
        w != "B"@,
        w != "K"@,
{
    lemma_fixed_words();
    assert(seq!['I'][0] == 'I');
    assert(seq!['D', 'T'][0] == 'D');
    assert(seq!['S', 'T'][0] == 'S');
    assert(seq!['F'][0] == 'F');
    assert(seq!['B'][0] == 'B');
    assert(seq!['K'][0] == 'K');
}

/// What stands between and after the operands of a mnemonic line.
pub proof fn lemma_gaps()
    ensures
        ", "@ == seq![',', ' '],
        ", "@.len() > 0,
        all_separators(", "@),
        ", V"@ == ", "@ + seq!['V'],
        " V"@ == seq![' '] + seq!['V'],
        ""@.len() == 0,
        ", DT"@ == seq![',', ' '] + "DT"@,
        ", K"@ == seq![',', ' '] + "K"@,
        ", I"@ == seq![',', ' '] + "I"@,
{
    reveal_strlit("I");
    reveal_strlit("DT");
    reveal_strlit("K");
    reveal_strlit(", ");
    reveal_strlit(", V");
    reveal_strlit(" V");
    reveal_strlit("");
    reveal_strlit(", DT");
    reveal_strlit(", K");
    reveal_strlit(", I");
    assert(", "@ =~= seq![',', ' ']);
    assert(", V"@ =~= ", "@ + seq!['V']);
    assert(" V"@ =~= seq![' '] + seq!['V']);
    assert(", DT"@ =~= seq![',', ' '] + "DT"@);
    assert(", K"@ =~= seq![',', ' '] + "K"@);
    assert(", I"@ =~= seq![',', ' '] + "I"@);
}

/// The digits and pairs of digits that the opcode texts are framed with.
pub proof fn lemma_frames()
    ensures
        is_hex_digit_text("0"@, 0),
        is_hex_digit_text("1"@, 1),
        is_hex_digit_text("2"@, 2),
        is_hex_digit_text("3"@, 3),
        is_hex_digit_text("4"@, 4),
        is_hex_digit_text("5"@, 5),
        is_hex_digit_text("6"@, 6),
        is_hex_digit_text("7"@, 7),
        is_hex_digit_text("8"@, 8),
        is_hex_digit_text("9"@, 9),
        is_hex_digit_text("A"@, 0xA),
        is_hex_digit_text("B"@, 0xB),
        is_hex_digit_text("C"@, 0xC),
        is_hex_digit_text("D"@, 0xD),
        is_hex_digit_text("E"@, 0xE),
        is_hex_digit_text("F"@, 0xF),
        is_hex_byte_text("07"@, 0x0, 0x7),
        is_hex_byte_text("0A"@, 0x0, 0xA),
        is_hex_byte_text("15"@, 0x1, 0x5),
        is_hex_byte_text("18"@, 0x1, 0x8),
        is_hex_byte_text("1E"@, 0x1, 0xE),
        is_hex_byte_text("29"@, 0x2, 0x9),
        is_hex_byte_text("33"@, 0x3, 0x3),
        is_hex_byte_text("55"@, 0x5, 0x5),
        is_hex_byte_text("65"@, 0x6, 0x5),
        is_hex_byte_text("9E"@, 0x9, 0xE),
        is_hex_byte_text("A1"@, 0xA, 0x1),
{
    reveal_strlit("0");
    reveal_strlit("1");
    reveal_strlit("2");
    reveal_strlit("3");
    reveal_strlit("4");
    reveal_strlit("5");
    reveal_strlit("6");
    reveal_strlit("7");
    reveal_strlit("8");
    reveal_strlit("9");
    reveal_strlit("A");
    reveal_strlit("B");
    reveal_strlit("C");
    reveal_strlit("D");
    reveal_strlit("E");
    reveal_strlit("F");
    reveal_strlit("07");
    reveal_strlit("0A");
    reveal_strlit("15");
    reveal_strlit("18");
    reveal_strlit("1E");
    reveal_strlit("29");
    reveal_strlit("33");
    reveal_strlit("55");
    reveal_strlit("65");
    reveal_strlit("9E");
    reveal_strlit("A1");
}

} // verus!
