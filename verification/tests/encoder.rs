use chip8_codec::assembler::{keyword, Assembler, Diagnostic, Instruction, Keyword, ParseError};
use chip8_codec::hexpair::HexFault;

fn assembler() -> Assembler {
    Assembler::new(String::from("prog.chasm"), String::new())
}

fn encode(line: &str) -> Result<Instruction, ParseError> {
    assembler().parse_instruction(line)
}

fn opcode_of(line: &str) -> String {
    encode(line).unwrap().opcode
}

fn bytes_of(line: &str) -> Vec<u8> {
    encode(line).unwrap().bytes
}

fn malformed(keyword: Keyword, operands: &[&str], line: usize) -> ParseError {
    ParseError::MalformedOperand {
        keyword,
        operands: operands.iter().map(|w| String::from(*w)).collect(),
        line,
    }
}

fn unencodable(text: &str, fault: HexFault, line: usize) -> ParseError {
    ParseError::UnencodableLine { text: String::from(text), fault, line }
}

#[test]
fn new_instruction_keeps_its_parts() {
    let i = Instruction::new(String::from("1200"), vec![0x12, 0x00], 0x200);
    assert_eq!(i.opcode, "1200");
    assert_eq!(i.bytes, vec![0x12, 0x00]);
    assert_eq!(i.address, 0x200);
}

#[test]
fn new_assembler_starts_at_line_one_and_load_base() {
    let a = Assembler::new(String::from("a.chasm"), String::from("CLS\n"));
    assert_eq!(a.source_path, "a.chasm");
    assert_eq!(a.source_code, "CLS\n");
    assert!(a.instructions.is_empty());
    assert!(a.diagnostics.is_empty());
    assert_eq!(a.line, 1);
    assert_eq!(a.address, 0x200);
}

#[test]
fn keywords_are_recognised_exactly() {
    assert_eq!(keyword("JP"), Some(Keyword::Jp));
    assert_eq!(keyword("CALL"), Some(Keyword::Call));
    assert_eq!(keyword("RET"), Some(Keyword::Ret));
    assert_eq!(keyword("CLS"), Some(Keyword::Cls));
    assert_eq!(keyword("SE"), Some(Keyword::Se));
    assert_eq!(keyword("SNE"), Some(Keyword::Sne));
    assert_eq!(keyword("LD"), Some(Keyword::Ld));
    assert_eq!(keyword("ADD"), Some(Keyword::Add));
    assert_eq!(keyword("OR"), Some(Keyword::Or));
    assert_eq!(keyword("AND"), Some(Keyword::And));
    assert_eq!(keyword("XOR"), Some(Keyword::Xor));
    assert_eq!(keyword("SUB"), Some(Keyword::Sub));
    assert_eq!(keyword("SHR"), Some(Keyword::Shr));
    assert_eq!(keyword("SUBN"), Some(Keyword::Subn));
    assert_eq!(keyword("SHL"), Some(Keyword::Shl));
    assert_eq!(keyword("RND"), Some(Keyword::Rnd));
    assert_eq!(keyword("DRW"), Some(Keyword::Drw));
    assert_eq!(keyword("SKP"), Some(Keyword::Skp));
    assert_eq!(keyword("SKNP"), Some(Keyword::Sknp));
    assert_eq!(keyword("jp"), None);
    assert_eq!(keyword("JPX"), None);
    assert_eq!(keyword(""), None);
    assert_eq!(keyword("00E0"), None);
}

#[test]
fn decimal_literals() {
    let a = assembler();
    assert_eq!(a.parse_digit("0"), Some(0));
    assert_eq!(a.parse_digit("512"), Some(512));
    assert_eq!(a.parse_digit("007"), Some(7));
    assert_eq!(a.parse_digit("65535"), Some(65535));
    assert_eq!(a.parse_digit("0000000000000000000065535"), Some(65535));
    assert_eq!(a.parse_digit("+5"), Some(5));
    assert_eq!(a.parse_digit("65536"), None);
    assert_eq!(a.parse_digit("99999999999999999999"), None);
    assert_eq!(a.parse_digit(""), None);
    assert_eq!(a.parse_digit("+"), None);
    assert_eq!(a.parse_digit("++5"), None);
    assert_eq!(a.parse_digit("-1"), None);
    assert_eq!(a.parse_digit("-0"), None);
    assert_eq!(a.parse_digit("5a"), None);
    assert_eq!(a.parse_digit("0x10"), None);
    assert_eq!(a.parse_digit("V1"), None);
    assert_eq!(a.parse_digit("\u{0663}"), None);
}

#[test]
fn decimal_literals_agree_with_the_standard_parser() {
    let a = assembler();
    for word in ["0", "1", "+1", "-1", "65535", "65536", "", "+", "-", "00", "1 ", " 1", "1_0", "٣"] {
        assert_eq!(a.parse_digit(word), word.parse::<u16>().ok());
    }
    let mut n: u32 = 0;
    while n <= 70000 {
        let word = format!("{}", n);
        assert_eq!(a.parse_digit(&word), word.parse::<u16>().ok());
        n += 7;
    }
}

#[test]
fn register_words() {
    let a = assembler();
    assert_eq!(a.parse_register("V0"), Some(0));
    assert_eq!(a.parse_register("V3"), Some(3));
    assert_eq!(a.parse_register("V15"), Some(15));
    assert_eq!(a.parse_register("V16"), Some(16));
    assert_eq!(a.parse_register("V+3"), Some(3));
    assert_eq!(a.parse_register("V"), None);
    assert_eq!(a.parse_register("v3"), None);
    assert_eq!(a.parse_register("VF"), None);
    assert_eq!(a.parse_register("3"), None);
    assert_eq!(a.parse_register(""), None);
    assert_eq!(a.parse_register("I"), None);
    assert_eq!(a.parse_register("V65536"), None);
}

#[test]
fn jp_forms() {
    assert_eq!(opcode_of("JP 512"), "1200");
    assert_eq!(bytes_of("JP 512"), vec![0x12, 0x00]);
    assert_eq!(opcode_of("JP V0, 512"), "B200");
    assert_eq!(bytes_of("JP V0, 512"), vec![0xB2, 0x00]);
    assert_eq!(opcode_of("JP 4095"), "1fff");
    assert_eq!(bytes_of("JP 4095"), vec![0x1F, 0xFF]);
    assert_eq!(opcode_of("JP anything, 256"), "B100");
}

#[test]
fn addresses_are_written_with_three_digits() {
    assert_eq!(opcode_of("JP 0"), "1000");
    assert_eq!(bytes_of("JP 0"), vec![0x10, 0x00]);
    assert_eq!(opcode_of("JP 5"), "1005");
    assert_eq!(bytes_of("JP 5"), vec![0x10, 0x05]);
    assert_eq!(opcode_of("JP 255"), "10ff");
    assert_eq!(bytes_of("JP 255"), vec![0x10, 0xFF]);
    assert_eq!(opcode_of("JP 256"), "1100");
    assert_eq!(opcode_of("JP V0, 5"), "B005");
    assert_eq!(bytes_of("JP V0, 5"), vec![0xB0, 0x05]);
    assert_eq!(opcode_of("CALL 15"), "200f");
    assert_eq!(bytes_of("CALL 15"), vec![0x20, 0x0F]);
    assert_eq!(opcode_of("LD I, 5"), "A005");
    assert_eq!(bytes_of("LD I, 5"), vec![0xA0, 0x05]);
    let a = assembler();
    assert_eq!(a.parse_jp(&["5"]).unwrap(), "1005");
    assert_eq!(a.parse_ld(&["I", "5"]).unwrap(), "A005");
    assert_eq!(a.parse_call(&["16"]).unwrap(), "2010");
    assert_eq!(a.parse_jp(&["4096"]).unwrap(), "11000");
}

#[test]
fn call_form() {
    assert_eq!(opcode_of("CALL 768"), "2300");
    assert_eq!(bytes_of("CALL 768"), vec![0x23, 0x00]);
    assert_eq!(opcode_of("CALL 768 and more"), "2300");
}

#[test]
fn se_register_and_byte_forms_differ() {
    assert_eq!(opcode_of("SE V3, V5"), "5350");
    assert_eq!(bytes_of("SE V3, V5"), vec![0x53, 0x50]);
    assert_eq!(opcode_of("SE V3, 5"), "3305");
    assert_eq!(bytes_of("SE V3, 5"), vec![0x33, 0x05]);
}

#[test]
fn sne_forms() {
    assert_eq!(opcode_of("SNE V10, V11"), "9ab0");
    assert_eq!(bytes_of("SNE V10, V11"), vec![0x9A, 0xB0]);
    assert_eq!(opcode_of("SNE V1, 255"), "41ff");
    assert_eq!(bytes_of("SNE V1, 255"), vec![0x41, 0xFF]);
}

#[test]
fn ld_forms() {
    assert_eq!(opcode_of("LD I, V2"), "F255");
    assert_eq!(opcode_of("LD I, 768"), "A300");
    assert_eq!(opcode_of("LD DT, V3"), "F315");
    assert_eq!(opcode_of("LD ST, V4"), "F418");
    assert_eq!(opcode_of("LD F, V5"), "F529");
    assert_eq!(opcode_of("LD B, V6"), "F633");
    assert_eq!(opcode_of("LD V7, DT"), "F707");
    assert_eq!(opcode_of("LD V8, K"), "F80A");
    assert_eq!(opcode_of("LD V9, I"), "F965");
    assert_eq!(opcode_of("LD V10, V11"), "8ab0");
    assert_eq!(opcode_of("LD V12, 171"), "6cab");
    assert_eq!(bytes_of("LD I, V2"), vec![0xF2, 0x55]);
    assert_eq!(bytes_of("LD I, 768"), vec![0xA3, 0x00]);
    assert_eq!(bytes_of("LD V8, K"), vec![0xF8, 0x0A]);
    assert_eq!(bytes_of("LD V12, 171"), vec![0x6C, 0xAB]);
}

#[test]
fn add_forms() {
    assert_eq!(opcode_of("ADD I, V1"), "F11E");
    assert_eq!(bytes_of("ADD I, V1"), vec![0xF1, 0x1E]);
    assert_eq!(opcode_of("ADD V1, V2"), "8124");
    assert_eq!(bytes_of("ADD V1, V2"), vec![0x81, 0x24]);
    assert_eq!(opcode_of("ADD V1, 2"), "7102");
    assert_eq!(bytes_of("ADD V1, 2"), vec![0x71, 0x02]);
}

#[test]
fn register_pair_forms() {
    assert_eq!(opcode_of("OR V1, V2"), "8121");
    assert_eq!(opcode_of("AND V1, V2"), "8122");
    assert_eq!(opcode_of("XOR V1, V2"), "8123");
    assert_eq!(opcode_of("SUB V1, V2"), "8125");
    assert_eq!(opcode_of("SHR V1, V2"), "8126");
    assert_eq!(opcode_of("SUBN V1, V2"), "8127");
    assert_eq!(opcode_of("SHL V1, V2"), "812E");
    assert_eq!(bytes_of("SHL V1, V2"), vec![0x81, 0x2E]);
    assert_eq!(bytes_of("SUBN V1 V2"), vec![0x81, 0x27]);
}

#[test]
fn rnd_drw_and_key_forms() {
    assert_eq!(opcode_of("RND V1, 15"), "C10f");
    assert_eq!(bytes_of("RND V1, 15"), vec![0xC1, 0x0F]);
    assert_eq!(opcode_of("DRW V1, V2, 5"), "D125");
    assert_eq!(bytes_of("DRW V1, V2, 15"), vec![0xD1, 0x2F]);
    assert_eq!(opcode_of("SKP V12"), "Ec9E");
    assert_eq!(bytes_of("SKP V12"), vec![0xEC, 0x9E]);
    assert_eq!(opcode_of("SKNP V1"), "E1A1");
    assert_eq!(bytes_of("SKNP V1"), vec![0xE1, 0xA1]);
}

#[test]
fn cls_and_ret_take_whatever_follows() {
    assert_eq!(opcode_of("CLS"), "00E0");
    assert_eq!(bytes_of("CLS"), vec![0x00, 0xE0]);
    assert_eq!(opcode_of("RET"), "00EE");
    assert_eq!(bytes_of("RET"), vec![0x00, 0xEE]);
    assert_eq!(bytes_of("CLS V1, 7"), vec![0x00, 0xE0]);
    assert_eq!(bytes_of("  RET , anything"), vec![0x00, 0xEE]);
    let mut a = Assembler::new(String::from("p.chasm"), String::from("JP 512\nCLS\nRET"));
    a.parse_lines();
    assert_eq!(a.instructions[1].bytes, vec![0x00, 0xE0]);
    assert_eq!(a.instructions[2].bytes, vec![0x00, 0xEE]);
}

#[test]
fn words_are_split_at_spaces_and_commas() {
    assert_eq!(bytes_of("SE V3,V5"), vec![0x53, 0x50]);
    assert_eq!(bytes_of("SE,V3 V5"), vec![0x53, 0x50]);
    assert_eq!(bytes_of(" ,, SE ,, V3 ,, V5 ,, "), vec![0x53, 0x50]);
    assert!(encode("SE\tV3, V5").is_err());
}

#[test]
fn raw_opcodes_pass_through() {
    let i = encode("00E0").unwrap();
    assert_eq!(i.opcode, "00E0");
    assert_eq!(i.bytes, vec![0x00, 0xE0]);
    let i = encode("a1B2").unwrap();
    assert_eq!(i.opcode, "a1B2");
    assert_eq!(i.bytes, vec![0xA1, 0xB2]);
    let i = encode("ffff").unwrap();
    assert_eq!(i.bytes, vec![0xFF, 0xFF]);
}

#[test]
fn hex_decoding_is_not_the_identity() {
    let a = assembler();
    let i = a.build_instruction(String::from("1234"), 1).unwrap();
    assert_eq!(i.bytes, vec![0x12, 0x34]);
    assert_ne!(i.bytes, String::from("1234").into_bytes());
    let i = a.build_instruction(String::from("AbCd"), 1).unwrap();
    assert_eq!(i.bytes, vec![0xAB, 0xCD]);
}

#[test]
fn malformed_operands_are_reported_with_keyword_operands_and_line() {
    assert_eq!(encode("JP"), Err(malformed(Keyword::Jp, &[], 1)));
    assert_eq!(encode("JP V0"), Err(malformed(Keyword::Jp, &["V0"], 1)));
    assert_eq!(encode("JP 1 2 3"), Err(malformed(Keyword::Jp, &["1", "2", "3"], 1)));
    assert_eq!(encode("CALL"), Err(malformed(Keyword::Call, &[], 1)));
    assert_eq!(encode("CALL V1"), Err(malformed(Keyword::Call, &["V1"], 1)));
    assert_eq!(encode("SE V1"), Err(malformed(Keyword::Se, &["V1"], 1)));
    assert_eq!(encode("SE 1, V1"), Err(malformed(Keyword::Se, &["1", "V1"], 1)));
    assert_eq!(encode("SE V1, x"), Err(malformed(Keyword::Se, &["V1", "x"], 1)));
    assert_eq!(encode("SNE V1, x"), Err(malformed(Keyword::Sne, &["V1", "x"], 1)));
    assert_eq!(encode("LD"), Err(malformed(Keyword::Ld, &[], 1)));
    assert_eq!(encode("LD I"), Err(malformed(Keyword::Ld, &["I"], 1)));
    assert_eq!(encode("LD I, x"), Err(malformed(Keyword::Ld, &["I", "x"], 1)));
    assert_eq!(encode("LD DT, 5"), Err(malformed(Keyword::Ld, &["DT", "5"], 1)));
    assert_eq!(encode("LD ST, 5"), Err(malformed(Keyword::Ld, &["ST", "5"], 1)));
    assert_eq!(encode("LD F, 5"), Err(malformed(Keyword::Ld, &["F", "5"], 1)));
    assert_eq!(encode("LD B, 5"), Err(malformed(Keyword::Ld, &["B", "5"], 1)));
    assert_eq!(encode("LD 5, DT"), Err(malformed(Keyword::Ld, &["5", "DT"], 1)));
    assert_eq!(encode("LD V1, x"), Err(malformed(Keyword::Ld, &["V1", "x"], 1)));
    assert_eq!(encode("LD x, 1"), Err(malformed(Keyword::Ld, &["x", "1"], 1)));
    assert_eq!(encode("ADD I, 5"), Err(malformed(Keyword::Add, &["I", "5"], 1)));
    assert_eq!(encode("ADD V1"), Err(malformed(Keyword::Add, &["V1"], 1)));
    assert_eq!(encode("OR V1, 2"), Err(malformed(Keyword::Or, &["V1", "2"], 1)));
    assert_eq!(encode("AND V1"), Err(malformed(Keyword::And, &["V1"], 1)));
    assert_eq!(encode("XOR 1, V2"), Err(malformed(Keyword::Xor, &["1", "V2"], 1)));
    assert_eq!(encode("SUB V1, 2"), Err(malformed(Keyword::Sub, &["V1", "2"], 1)));
    assert_eq!(encode("SHR V1"), Err(malformed(Keyword::Shr, &["V1"], 1)));
    assert_eq!(encode("SUBN V1, 2"), Err(malformed(Keyword::Subn, &["V1", "2"], 1)));
    assert_eq!(encode("SHL V1"), Err(malformed(Keyword::Shl, &["V1"], 1)));
    assert_eq!(encode("RND V1, V2"), Err(malformed(Keyword::Rnd, &["V1", "V2"], 1)));
    assert_eq!(encode("RND V1"), Err(malformed(Keyword::Rnd, &["V1"], 1)));
    assert_eq!(encode("DRW V1, V2"), Err(malformed(Keyword::Drw, &["V1", "V2"], 1)));
    assert_eq!(encode("DRW V1, V2, V3"), Err(malformed(Keyword::Drw, &["V1", "V2", "V3"], 1)));
    assert_eq!(encode("SKP"), Err(malformed(Keyword::Skp, &[], 1)));
    assert_eq!(encode("SKP 1"), Err(malformed(Keyword::Skp, &["1"], 1)));
    assert_eq!(encode("SKNP"), Err(malformed(Keyword::Sknp, &[], 1)));
    assert_eq!(encode("SKNP K"), Err(malformed(Keyword::Sknp, &["K"], 1)));
}

#[test]
fn text_that_is_not_four_hex_digits_is_unencodable() {
    assert_eq!(encode("JP 4096"), Err(unencodable("11000", HexFault::OddLength, 1)));
    assert_eq!(encode("JP 65535"), Err(unencodable("1ffff", HexFault::OddLength, 1)));
    assert_eq!(encode("CALL 4096"), Err(unencodable("21000", HexFault::OddLength, 1)));
    assert_eq!(encode("LD I, 4096"), Err(unencodable("A1000", HexFault::OddLength, 1)));
    assert_eq!(encode("JP V0, 4096"), Err(unencodable("B1000", HexFault::OddLength, 1)));
    assert_eq!(encode("SE V16, 5"), Err(unencodable("31005", HexFault::OddLength, 1)));
    assert_eq!(encode("SE V3, 256"), Err(unencodable("33100", HexFault::OddLength, 1)));
    assert_eq!(
        encode("DRW V16, V16, 16"),
        Err(unencodable("D101010", HexFault::OddLength, 1))
    );
    assert_eq!(
        encode("LD I, V256"),
        Err(unencodable("F10055", HexFault::InvalidStringLength, 1))
    );
    assert_eq!(
        encode("00ZZ"),
        Err(unencodable("00ZZ", HexFault::InvalidHexCharacter { c: 'Z', index: 2 }, 1))
    );
    assert_eq!(
        encode("g000"),
        Err(unencodable("g000", HexFault::InvalidHexCharacter { c: 'g', index: 0 }, 1))
    );
    assert_eq!(
        encode("NOP "),
        Err(unencodable("NOP ", HexFault::InvalidHexCharacter { c: 'N', index: 0 }, 1))
    );
    assert_eq!(encode("HALT NOW"), Err(unencodable("HALT NOW", HexFault::InvalidStringLength, 1)));
    assert_eq!(encode(""), Err(unencodable("", HexFault::InvalidStringLength, 1)));
    assert_eq!(encode(" , "), Err(unencodable(" , ", HexFault::OddLength, 1)));
    assert_eq!(
        encode("é12"),
        Err(unencodable("é12", HexFault::InvalidHexCharacter { c: '\u{c3}', index: 0 }, 1))
    );
    assert_eq!(encode("é123"), Err(unencodable("é123", HexFault::OddLength, 1)));
}

#[test]
fn addresses_advance_by_two_from_the_load_base() {
    let a = assembler();
    assert_eq!(a.build_instruction(String::from("00E0"), 1).unwrap().address, 0x200);
    assert_eq!(a.build_instruction(String::from("00E0"), 2).unwrap().address, 0x202);
    assert_eq!(a.build_instruction(String::from("00E0"), 3).unwrap().address, 0x204);
    assert_eq!(a.build_instruction(String::from("00E0"), 32512).unwrap().address, 0xFFFE);
    assert_eq!(a.build_instruction(String::from("00E0"), 32513).unwrap().address, 0x0000);
    assert_eq!(a.build_instruction(String::from("00E0"), 0).unwrap().address, 0x1FE);
    assert_eq!(a.build_instruction(String::from("00E0"), usize::MAX).unwrap().address, 0x1FC);
}

#[test]
fn a_malformed_line_is_skipped_and_the_rest_is_kept() {
    let mut a = Assembler::new(String::from("prog.chasm"), String::from("CLS\nJP\nRET\n"));
    a.parse_lines();
    assert_eq!(a.instructions.len(), 2);
    assert_eq!(a.instructions[0], Instruction::new(String::from("00E0"), vec![0x00, 0xE0], 0x200));
    assert_eq!(a.instructions[1], Instruction::new(String::from("00EE"), vec![0x00, 0xEE], 0x202));
    assert_eq!(a.rom_bytes(), vec![0x00, 0xE0, 0x00, 0xEE]);
    assert_eq!(a.line, 3);
    assert_eq!(a.address, 0x204);
    assert_eq!(
        a.diagnostics,
        vec![Diagnostic { source_line: 2, error: malformed(Keyword::Jp, &[], 2) }]
    );
}

#[test]
fn the_line_counter_stays_where_a_line_fails() {
    let source = "JP\nCLS\nbad line\n\nSE V1\nRET";
    let mut a = Assembler::new(String::from("prog.chasm"), String::from(source));
    let rom = a.run();
    assert_eq!(rom, vec![0x00, 0xE0, 0x00, 0xEE]);
    assert_eq!(a.line, 3);
    assert_eq!(a.address, 0x204);
    assert_eq!(a.source_code, source);
    assert_eq!(a.source_path, "prog.chasm");
    assert_eq!(
        a.diagnostics,
        vec![
            Diagnostic { source_line: 1, error: malformed(Keyword::Jp, &[], 1) },
            Diagnostic {
                source_line: 3,
                error: unencodable("bad line", HexFault::InvalidStringLength, 2),
            },
            Diagnostic { source_line: 4, error: unencodable("", HexFault::InvalidStringLength, 2) },
            Diagnostic { source_line: 5, error: malformed(Keyword::Se, &["V1"], 2) },
        ]
    );
}

#[test]
fn parsing_twice_appends_again() {
    let mut a = Assembler::new(String::from("prog.chasm"), String::from("CLS\nRET"));
    a.parse_lines();
    a.parse_lines();
    assert_eq!(a.rom_bytes(), vec![0x00, 0xE0, 0x00, 0xEE, 0x00, 0xE0, 0x00, 0xEE]);
    assert_eq!(a.instructions[3].address, 0x206);
    assert_eq!(a.line, 5);
    assert_eq!(a.address, 0x208);
}

#[test]
fn lines_end_at_line_feeds_with_or_without_carriage_return() {
    let mut a = Assembler::new(String::from("p.chasm"), String::from("CLS\r\nRET\r\n"));
    a.parse_lines();
    assert_eq!(a.rom_bytes(), vec![0x00, 0xE0, 0x00, 0xEE]);
    assert!(a.diagnostics.is_empty());

    let mut a = Assembler::new(String::from("p.chasm"), String::from("CLS\nRET\r"));
    a.parse_lines();
    assert_eq!(a.rom_bytes(), vec![0x00, 0xE0]);
    assert_eq!(
        a.diagnostics,
        vec![Diagnostic {
            source_line: 2,
            error: unencodable("RET\r", HexFault::InvalidHexCharacter { c: 'R', index: 0 }, 2),
        }]
    );

    let mut a = Assembler::new(String::from("p.chasm"), String::new());
    a.parse_lines();
    assert!(a.instructions.is_empty());
    assert!(a.diagnostics.is_empty());

    let mut a = Assembler::new(String::from("p.chasm"), String::from("\n"));
    a.parse_lines();
    assert!(a.instructions.is_empty());
    assert_eq!(a.diagnostics.len(), 1);
}

#[test]
fn a_whole_program_assembles_in_order() {
    let source = "CLS\nLD V0, 10\nLD I, 768\nDRW V0, V1, 5\nADD V0, 1\nSE V0, 64\nJP 514\nRET\n";
    let mut a = Assembler::new(String::from("demo.chasm"), String::from(source));
    let rom = a.run();
    assert_eq!(
        rom,
        vec![
            0x00, 0xE0, 0x60, 0x0A, 0xA3, 0x00, 0xD0, 0x15, 0x70, 0x01, 0x30, 0x40, 0x12, 0x02,
            0x00, 0xEE
        ]
    );
    assert_eq!(a.instructions.len(), 8);
    let mut k = 0;
    while k < a.instructions.len() {
        assert_eq!(a.instructions[k].address as usize, 0x200 + 2 * k);
        k += 1;
    }
    assert!(a.diagnostics.is_empty());
}

#[test]
fn the_output_path_replaces_the_source_extension() {
    let path = |p: &str| Assembler::new(String::from(p), String::new()).parse_path();
    assert_eq!(path("game.chasm"), "game_a.ch8");
    assert_eq!(path("dir/game.chasm"), "dir/game_a.ch8");
    assert_eq!(path("game"), "game_a.ch8");
    assert_eq!(path("a.chasm.chasm"), "a_a.ch8");
    assert_eq!(path(".chasm"), "_a.ch8");
    assert_eq!(path(""), "_a.ch8");
    assert_eq!(path("a.chas"), "a.chas_a.ch8");
    assert_eq!(path("é.chasm.bak"), "é_a.ch8");
}

#[test]
fn the_counters_need_room_for_every_line() {
    let a = Assembler::new(String::from("p.chasm"), String::from("CLS\nRET\n"));
    assert!(a.has_room());
    let mut full = Assembler::new(String::from("p.chasm"), String::from("CLS\nRET"));
    full.line = usize::MAX - 1;
    assert!(!full.has_room());
    full.line = usize::MAX - 2;
    assert!(full.has_room());
    full.address = usize::MAX - 3;
    assert!(!full.has_room());
    full.address = usize::MAX - 4;
    assert!(full.has_room());
    let mut empty = Assembler::new(String::from("p.chasm"), String::new());
    empty.line = usize::MAX;
    empty.address = usize::MAX;
    assert!(empty.has_room());
}

#[test]
fn operand_parsers_take_the_words_after_the_keyword() {
    let a = assembler();
    assert_eq!(a.parse_jp(&["512"]).unwrap(), "1200");
    assert_eq!(a.parse_jp(&["V0", "512"]).unwrap(), "B200");
    assert_eq!(a.parse_call(&["512"]).unwrap(), "2200");
    assert_eq!(a.parse_se(&["V1", "V2"]).unwrap(), "5120");
    assert_eq!(a.parse_sne(&["V1", "2"]).unwrap(), "4102");
    assert_eq!(a.parse_ld(&["V1", "K"]).unwrap(), "F10A");
    assert_eq!(a.parse_add(&["I", "V1"]).unwrap(), "F11E");
    assert_eq!(a.parse_or(&["V1", "V2"]).unwrap(), "8121");
    assert_eq!(a.parse_and(&["V1", "V2"]).unwrap(), "8122");
    assert_eq!(a.parse_xor(&["V1", "V2"]).unwrap(), "8123");
    assert_eq!(a.parse_sub(&["V1", "V2"]).unwrap(), "8125");
    assert_eq!(a.parse_shr(&["V1", "V2"]).unwrap(), "8126");
    assert_eq!(a.parse_subn(&["V1", "V2"]).unwrap(), "8127");
    assert_eq!(a.parse_shl(&["V1", "V2"]).unwrap(), "812E");
    assert_eq!(a.parse_rnd(&["V1", "2"]).unwrap(), "C102");
    assert_eq!(a.parse_drw(&["V1", "V2", "3"]).unwrap(), "D123");
    assert_eq!(a.parse_skp(&["V1"]).unwrap(), "E19E");
    assert_eq!(a.parse_sknp("V1").unwrap(), "E1A1");
    assert_eq!(a.parse_sknp("1"), Err(malformed(Keyword::Sknp, &["1"], 1)));
    assert_eq!(a.parse_jp(&[]), Err(malformed(Keyword::Jp, &[], 1)));
    assert_eq!(a.parse_drw(&["V1", "V2"]), Err(malformed(Keyword::Drw, &["V1", "V2"], 1)));
    assert_eq!(a.parse_se(&["V300", "V2"]).unwrap(), "512c20");
    assert_eq!(encode("SKNP 1 2"), Err(malformed(Keyword::Sknp, &["1", "2"], 1)));
    assert_eq!(bytes_of("SKNP V1 junk"), vec![0xE1, 0xA1]);
}
