use chip8_codec::numeral::{number_from, push_decimal, push_hex, push_hex_padded};
use chip8_codec::text::{chars_of, cut_before, split_lines, split_words, text_eq};

#[test]
fn chars_are_the_characters_in_order() {
    assert_eq!(chars_of(""), Vec::<char>::new());
    assert_eq!(chars_of("aé,"), vec!['a', 'é', ',']);
}

#[test]
fn text_equality() {
    assert!(text_eq("", ""));
    assert!(text_eq("JP", "JP"));
    assert!(!text_eq("JP", "JPX"));
    assert!(!text_eq("JP", "JQ"));
    assert!(text_eq("é", "é"));
    assert!(!text_eq("é", "e"));
}

#[test]
fn words_of_a_line() {
    assert_eq!(split_words(""), Vec::<&str>::new());
    assert_eq!(split_words(" , ,"), Vec::<&str>::new());
    assert_eq!(split_words("CLS"), vec!["CLS"]);
    assert_eq!(split_words("SE V3, 5"), vec!["SE", "V3", "5"]);
    assert_eq!(split_words(",,SE,,V3  5 "), vec!["SE", "V3", "5"]);
    assert_eq!(split_words("a\tb c"), vec!["a\tb", "c"]);
    assert_eq!(split_words("é è"), vec!["é", "è"]);
}

#[test]
fn words_agree_with_the_standard_split() {
    for line in ["", " ", ",", "a", "a b", "a,b", " a ,, b ", "JP V0, 512", "x,,", ",,x", "é , è"] {
        let expected: Vec<&str> =
            line.split(&[' ', ','][..]).filter(|w| !w.is_empty()).collect();
        assert_eq!(split_words(line), expected);
    }
}

#[test]
fn lines_of_a_text() {
    assert_eq!(split_lines(""), Vec::<&str>::new());
    assert_eq!(split_lines("a"), vec!["a"]);
    assert_eq!(split_lines("a\n"), vec!["a"]);
    assert_eq!(split_lines("\n"), vec![""]);
    assert_eq!(split_lines("a\nb"), vec!["a", "b"]);
    assert_eq!(split_lines("a\r\nb\r\n"), vec!["a", "b"]);
    assert_eq!(split_lines("a\n\nb"), vec!["a", "", "b"]);
    assert_eq!(split_lines("foo\nbar\n\r\nbaz\r"), vec!["foo", "bar", "", "baz\r"]);
    assert_eq!(split_lines("a\rb\n"), vec!["a\rb"]);
    assert_eq!(split_lines("a\r\r\n"), vec!["a\r"]);
}

#[test]
fn lines_agree_with_the_standard_lines() {
    for text in [
        "", "\n", "\r", "\r\n", "a", "a\n", "a\r", "a\r\n", "\na", "\n\n", "a\nb", "a\r\nb",
        "a\n\rb", "a\r\r\nb\n", "é\nè\r\n", "x\n\n\ny\r",
    ] {
        let expected: Vec<&str> = text.lines().collect();
        assert_eq!(split_lines(text), expected);
    }
}

#[test]
fn the_part_before_a_marker() {
    assert_eq!(cut_before("game.chasm", ".chasm"), "game");
    assert_eq!(cut_before("game", ".chasm"), "game");
    assert_eq!(cut_before("", ".x"), "");
    assert_eq!(cut_before(".x", ".x"), "");
    assert_eq!(cut_before("a.x.x", ".x"), "a");
    assert_eq!(cut_before("aab", "ab"), "a");
    assert_eq!(cut_before("ab", "abc"), "ab");
    assert_eq!(cut_before("abc", ""), "");
}

#[test]
fn numbers_are_read_from_a_position() {
    let chars: Vec<char> = "V12".chars().collect();
    assert_eq!(number_from(&chars, 1), Some(12));
    assert_eq!(number_from(&chars, 0), None);
    assert_eq!(number_from(&chars, 2), Some(2));
    assert_eq!(number_from(&chars, 3), None);
}

#[test]
fn numbers_are_written_in_decimal_and_in_hexadecimal() {
    let mut s = String::from(">");
    push_decimal(&mut s, 0);
    s.push(' ');
    push_decimal(&mut s, 4095);
    s.push(' ');
    push_decimal(&mut s, 65535);
    assert_eq!(s, ">0 4095 65535");

    let mut s = String::new();
    push_hex(&mut s, 0);
    s.push(' ');
    push_hex(&mut s, 0xABC);
    s.push(' ');
    push_hex(&mut s, 0xFFFF);
    assert_eq!(s, "0 abc ffff");

    let mut s = String::new();
    push_hex_padded(&mut s, 5, 2);
    s.push(' ');
    push_hex_padded(&mut s, 0x1FF, 2);
    s.push(' ');
    push_hex_padded(&mut s, 0xE0, 4);
    s.push(' ');
    push_hex_padded(&mut s, 7, 0);
    assert_eq!(s, "05 1ff 00e0 7");
}
