use chip8_codec::assembler::Assembler;
use chip8_codec::disassembler::{listing, Decoded, Disassembler};

fn disassembler(rom: Vec<u8>) -> Disassembler {
    Disassembler::new(String::from("prog.ch8"), rom)
}

fn decode(op: u16) -> String {
    disassembler(Vec::new()).decode_op(op)
}

fn in_table(op: u16) -> bool {
    let kk = op & 0xFF;
    let n = op & 0xF;
    match op >> 12 {
        0x0 => op == 0x00E0 || op == 0x00EE,
        0x5 | 0x9 => n == 0,
        0x8 => n <= 7 || n == 0xE,
        0xE => kk == 0x9E || kk == 0xA1,
        0xF => matches!(kk, 0x07 | 0x0A | 0x15 | 0x18 | 0x1E | 0x29 | 0x33 | 0x55 | 0x65),
        _ => true,
    }
}

#[test]
fn minimal_rom_decodes_to_cls_at_512() {
    let out = disassembler(vec![0x00, 0xE0]).run();
    assert_eq!(
        out,
        vec![Decoded { address: 512, opcode: 0x00E0, instruction: String::from("CLS") }]
    );
}

#[test]
fn new_disassembler_loads_the_rom_at_512() {
    let d = Disassembler::new(String::from("x.ch8"), vec![1, 2, 3]);
    assert_eq!(d.rom_path, "x.ch8");
    assert_eq!(d.rom_size, 515);
    assert_eq!(d.ram.len(), 515);
    assert!(d.ram[..512].iter().all(|b| *b == 0));
    assert_eq!(&d.ram[512..], &[1, 2, 3]);
}

#[test]
fn fetch_joins_two_bytes_high_byte_first() {
    let d = disassembler(vec![0x12, 0x34, 0xAB, 0xCD]);
    assert_eq!(d.fetch_op(512), 0x1234);
    assert_eq!(d.fetch_op(513), 0x34AB);
    assert_eq!(d.fetch_op(514), 0xABCD);
    assert_eq!(d.fetch_op(0), 0x0000);
}

#[test]
fn every_family_has_its_text() {
    assert_eq!(decode(0x00E0), "CLS");
    assert_eq!(decode(0x00EE), "RET");
    assert_eq!(decode(0x1200), "JP 512");
    assert_eq!(decode(0x1005), "JP 5");
    assert_eq!(decode(0x2FFF), "CALL 4095");
    assert_eq!(decode(0x3A05), "SE V10, 5");
    assert_eq!(decode(0x41FF), "SNE V1, 255");
    assert_eq!(decode(0x5350), "SE V3, V5");
    assert_eq!(decode(0x535F), "SE V3, V5");
    assert_eq!(decode(0x6CAB), "LD V12, 171");
    assert_eq!(decode(0x7102), "ADD V1, 2");
    assert_eq!(decode(0x8120), "LD V1, V2");
    assert_eq!(decode(0x8121), "OR V1, V2");
    assert_eq!(decode(0x8122), "AND V1, V2");
    assert_eq!(decode(0x8123), "XOR V1, V2");
    assert_eq!(decode(0x8124), "ADD V1, V2");
    assert_eq!(decode(0x8125), "SUB V1, V2");
    assert_eq!(decode(0x8126), "SHR V1, V2");
    assert_eq!(decode(0x8127), "SUBN V1 V2");
    assert_eq!(decode(0x812E), "SHL V1, V2");
    assert_eq!(decode(0x9AB0), "SNE V10, V11");
    assert_eq!(decode(0xA300), "LD I, 768");
    assert_eq!(decode(0xB200), "JP V0, 512");
    assert_eq!(decode(0xC10F), "RND V1, 15");
    assert_eq!(decode(0xD12F), "DRW V1, V2, 15");
    assert_eq!(decode(0xEC9E), "SKP V12");
    assert_eq!(decode(0xE1A1), "SKNP V1");
    assert_eq!(decode(0xF707), "LD V7, DT");
    assert_eq!(decode(0xF80A), "LD V8, K");
    assert_eq!(decode(0xF315), "LD DT, V3");
    assert_eq!(decode(0xF418), "LD ST, V4");
    assert_eq!(decode(0xF11E), "ADD I, V1");
    assert_eq!(decode(0xF529), "LD F, V5");
    assert_eq!(decode(0xF633), "LD B, V6");
    assert_eq!(decode(0xF255), "LD I, V2");
    assert_eq!(decode(0xF965), "LD V9, I");
}

#[test]
fn unclaimed_opcodes_fall_back_to_four_hex_digits() {
    assert_eq!(decode(0x0000), "0000");
    assert_eq!(decode(0x0123), "0123");
    assert_eq!(decode(0x00E1), "00e1");
    assert_eq!(decode(0x01E0), "CLS");
    assert_eq!(decode(0x8128), "8128");
    assert_eq!(decode(0x812F), "812f");
    assert_eq!(decode(0xE000), "e000");
    assert_eq!(decode(0xE19F), "e19f");
    assert_eq!(decode(0xF000), "f000");
    assert_eq!(decode(0xFFFF), "ffff");
}

#[test]
fn every_opcode_decodes_to_some_text() {
    let d = disassembler(Vec::new());
    let mut op: u32 = 0;
    while op <= 0xFFFF {
        assert!(!d.decode_op(op as u16).is_empty());
        op += 1;
    }
}

#[test]
fn table_opcodes_come_back_from_their_text() {
    let d = disassembler(Vec::new());
    let a = Assembler::new(String::from("p.chasm"), String::new());
    let mut op: u32 = 0;
    while op <= 0xFFFF {
        let code = op as u16;
        if in_table(code) {
            let text = d.decode_op(code);
            let again = a.parse_instruction(&text).unwrap();
            assert_eq!(again.bytes, vec![(code >> 8) as u8, (code & 0xFF) as u8]);
        }
        op += 1;
    }
}

#[test]
fn shifts_come_back_with_both_registers() {
    let a = Assembler::new(String::from("p.chasm"), String::new());
    assert_eq!(a.parse_instruction("SHR V1, V2").unwrap().bytes, vec![0x81, 0x26]);
    assert_eq!(decode(0x8126), "SHR V1, V2");
    assert_eq!(a.parse_instruction(&decode(0x8126)).unwrap().bytes, vec![0x81, 0x26]);
    assert_eq!(a.parse_instruction("SHL V1, V2").unwrap().bytes, vec![0x81, 0x2E]);
    assert_eq!(decode(0x812E), "SHL V1, V2");
    assert_eq!(a.parse_instruction(&decode(0x812E)).unwrap().bytes, vec![0x81, 0x2E]);
    assert_eq!(decode(0x8FA6), "SHR V15, V10");
    assert_eq!(a.parse_instruction("SHR V15, V10").unwrap().bytes, vec![0x8F, 0xA6]);
    assert!(a.parse_instruction("SHR V1").is_err());
    assert!(a.parse_instruction("SHL V1").is_err());
}

#[test]
fn small_addresses_come_back() {
    let a = Assembler::new(String::from("p.chasm"), String::new());
    for op in [0x1000u16, 0x1005, 0x10FF, 0x2001, 0x200F, 0xA000, 0xA005, 0xA0FF, 0xB000, 0xB07F] {
        let text = decode(op);
        let again = a.parse_instruction(&text).unwrap();
        assert_eq!(again.bytes, vec![(op >> 8) as u8, (op & 0xFF) as u8]);
    }
    assert_eq!(decode(0x1005), "JP 5");
    assert_eq!(a.parse_instruction("JP 5").unwrap().opcode, "1005");
}

#[test]
fn encoded_keyword_lines_come_back() {
    let a = Assembler::new(String::from("p.chasm"), String::new());
    let d = disassembler(Vec::new());
    for line in [
        "JP 512", "JP 5", "JP 0", "JP x, 3000", "JP V0, 7", "CALL 256", "CALL 15", "RET extra",
        "CLS", "SE V+3, V5", "SE V3, 005",
        "SNE V1,V2", "SNE V1 9", "LD I V2", "LD I 4095", "LD I 5", "LD DT V1", "LD ST V1",
        "LD F V1",
        "LD B V1", "LD V1 DT", "LD V1 K", "LD V1 I", "LD V1 V2", "LD V1 2", "ADD I V1",
        "ADD V1 V2", "ADD V1 2", "OR V1 V2", "AND V1 V2", "XOR V1 V2", "SUB V1 V2",
        "SHR V1 V2", "SUBN V1 V2", "SHL V1 V2", "RND V1 255", "DRW V1 V2 3", "SKP V1",
        "SKNP V1",
    ] {
        let first = a.parse_instruction(line).unwrap();
        let op = (first.bytes[0] as u16) << 8 | first.bytes[1] as u16;
        assert!(in_table(op));
        let again = a.parse_instruction(&d.decode_op(op)).unwrap();
        assert_eq!(again.bytes, first.bytes);
    }
}

#[test]
fn add_of_two_registers_is_exact_both_ways() {
    let a = Assembler::new(String::from("p.chasm"), String::new());
    let d = disassembler(Vec::new());
    let mut x: u16 = 0;
    while x < 16 {
        let mut y: u16 = 0;
        while y < 16 {
            let line = format!("ADD V{}, V{}", x, y);
            let op = 0x8004 | x << 8 | y << 4;
            let i = a.parse_instruction(&line).unwrap();
            assert_eq!(i.bytes, vec![(op >> 8) as u8, (op & 0xFF) as u8]);
            assert_eq!(i.opcode, format!("8{:x}{:x}4", x, y));
            assert_eq!(d.decode_op(op), line);
            y += 1;
        }
        x += 1;
    }
}

#[test]
fn the_sweep_takes_even_addresses_with_a_byte_after_them() {
    assert_eq!(disassembler(Vec::new()).run(), vec![]);
    assert_eq!(disassembler(vec![0x00]).run(), vec![]);
    let out = disassembler(vec![0x00, 0xE0, 0x12, 0x00, 0xFF]).run();
    assert_eq!(
        out,
        vec![
            Decoded { address: 512, opcode: 0x00E0, instruction: String::from("CLS") },
            Decoded { address: 514, opcode: 0x1200, instruction: String::from("JP 512") },
        ]
    );
}

#[test]
fn the_listing_has_one_instruction_per_line() {
    let out = disassembler(vec![0x00, 0xE0, 0x12, 0x00, 0x01, 0x23]).run();
    assert_eq!(listing(&out), "CLS\nJP 512\n0123\n");
    assert_eq!(listing(&disassembler(vec![0x00, 0xEE]).run()), "RET\n");
    assert_eq!(listing(&Vec::new()), "\n");
}

#[test]
fn an_assembled_program_disassembles_to_lines_that_assemble_again() {
    let source = "CLS\nLD V0, 10\nLD I, 768\nDRW V0, V1, 5\nADD V0, 1\nSE V0, 64\nJP 514\nRET\n";
    let mut first = Assembler::new(String::from("demo.chasm"), String::from(source));
    let rom = first.run();
    let text = listing(&disassembler(rom.clone()).run());
    assert_eq!(text, source);
    let mut second = Assembler::new(String::from("demo.chasm"), text);
    assert_eq!(second.run(), rom);
}

#[test]
fn the_listing_path_replaces_the_rom_extension() {
    let path = |p: &str| Disassembler::new(String::from(p), Vec::new()).parse_path();
    assert_eq!(path("game.ch8"), "game.chasm");
    assert_eq!(path("dir/game.ch8"), "dir/game.chasm");
    assert_eq!(path("game"), "game.chasm");
    assert_eq!(path("game_a.ch8.ch8"), "game_a.chasm");
    assert_eq!(path(".ch8"), ".chasm");
    assert_eq!(path("a.ch"), "a.ch.chasm");
}
