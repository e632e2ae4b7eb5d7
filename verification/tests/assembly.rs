use v8_cpu::assembler::{assemble, identifier};
use v8_cpu::hex::{hex_to_bytes, HexError};
use v8_cpu::image::{read_image, InputFormat, LoadError};
use v8_cpu::program::{AsmError, AsmErrorKind};
use v8_cpu::text::{is_alphabetic, is_alphanumeric, is_whitespace};
use v8_cpu::vm::{Const, Instr, Reg};

fn start(source: &str, n: usize) -> Vec<u8> {
    let image = assemble(source).unwrap();
    assert_eq!(image.len(), 256);
    assert!(image[n..].iter().all(|b| *b == 0));
    image[..n].to_vec()
}

fn error(source: &str) -> AsmError {
    assemble(source).unwrap_err()
}

fn fails(source: &str, line: usize, kind: AsmErrorKind) {
    assert_eq!(error(source), AsmError { line, kind });
}

#[test]
fn example_program_assembles() {
    assert_eq!(
        start("loadb R0, 5\nloadb R1, 3\naddi R2, R0, R1\nhalt", 8),
        vec![0x20, 0x05, 0x21, 0x03, 0x52, 0x01, 0xC0, 0x00]
    );
}

#[test]
fn assembly_is_deterministic() {
    let source = "start: loadb R0, end\n jump R0, start ; again\nend: halt";
    assert_eq!(assemble(source), assemble(source));
    assert_eq!(assemble("loadb"), assemble("loadb"));
}

#[test]
fn empty_text_is_an_empty_program() {
    assert_eq!(start("", 0), Vec::<u8>::new());
    assert_eq!(start("\n\n  \n; nothing\n", 0), Vec::<u8>::new());
}

#[test]
fn every_statement_decodes_to_its_instruction() {
    let cases: Vec<(&str, Instr)> = vec![
        ("none", Instr::Nop),
        ("loadm R3, 0x7F", Instr::LoadFromMemory(Reg(3), Const(0x7F))),
        ("loadb RA, 200", Instr::LoadWithConstant(Reg(10), Const(200))),
        ("storem rf, 0", Instr::StoreToMemory(Reg(15), Const(0))),
        ("move R1, R2", Instr::Move(Reg(2), Reg(1))),
        ("addi R1, R2, R3", Instr::AddInt(Reg(1), Reg(2), Reg(3))),
        ("addf R4, R5, R6", Instr::AddFloat(Reg(4), Reg(5), Reg(6))),
        ("or R7, R8, R9", Instr::Or(Reg(7), Reg(8), Reg(9))),
        ("and RA, RB, RC", Instr::And(Reg(10), Reg(11), Reg(12))),
        ("xor RD, RE, RF", Instr::Xor(Reg(13), Reg(14), Reg(15))),
        ("rot R0, 0x3", Instr::Rotate(Reg(0), Const(3))),
        ("jump R1, 0x10", Instr::JumpIfEqual(Reg(1), Const(0x10))),
        ("halt", Instr::Halt),
        ("loadp R1, R2", Instr::LoadFromPointer(Reg(1), Reg(2))),
        ("storep R3, R4", Instr::StoreToPointer(Reg(3), Reg(4))),
        ("jumpl R5, 255", Instr::JumpIfLess(Reg(5), Const(255))),
    ];
    for (source, instr) in cases {
        let bytes = start(source, 2);
        assert_eq!(Instr::new(bytes[0], bytes[1]), instr, "{}", source);
    }
}

#[test]
fn statements_encode_as_specified() {
    assert_eq!(start("none", 2), vec![0x00, 0x00]);
    assert_eq!(start("halt", 2), vec![0xC0, 0x00]);
    assert_eq!(start("move R1, R2", 2), vec![0x40, 0x21]);
    assert_eq!(start("loadp R1, R2", 2), vec![0xD1, 0x02]);
    assert_eq!(start("storep RF, RE", 2), vec![0xEF, 0x0E]);
    assert_eq!(start("xor R1, R2, R3", 2), vec![0x91, 0x23]);
    assert_eq!(start("jumpl RC, 0xAB", 2), vec![0xFC, 0xAB]);
    assert_eq!(start("db 0x12\ndb 7", 2), vec![0x12, 0x07]);
}

#[test]
fn mnemonics_and_registers_in_either_case() {
    assert_eq!(start("LOADB r1, 0X1f", 2), vec![0x21, 0x1F]);
    assert_eq!(start("Halt", 2), vec![0xC0, 0x00]);
}

#[test]
fn white_space_and_comments() {
    assert_eq!(start("  \t loadb \t R1 ,\t 5  ; five", 2), vec![0x21, 0x05]);
    assert_eq!(start("loadb\u{a0}R1\u{2003},\u{3000}5\u{2028}", 2), vec![0x21, 0x05]);
    assert_eq!(start("loadb R1,5;halt", 2), vec![0x21, 0x05]);
    assert_eq!(start(";loadb R1,5", 0), Vec::<u8>::new());
    assert_eq!(start("halt\r\nhalt\r\n", 4), vec![0xC0, 0x00, 0xC0, 0x00]);
}

#[test]
fn numbers_are_stored_modulo_256() {
    assert_eq!(start("db 255", 1), vec![255]);
    assert_eq!(start("db 256", 1), vec![0]);
    assert_eq!(start("db -1", 1), vec![255]);
    assert_eq!(start("db -128", 1), vec![128]);
    assert_eq!(start("db -255", 1), vec![1]);
    assert_eq!(start("db -256", 1), vec![0]);
    assert_eq!(start("db +7", 1), vec![7]);
    assert_eq!(start("db 0x100", 1), vec![0]);
    assert_eq!(start("db 0x-5", 1), vec![251]);
    assert_eq!(start("db 0x+a", 1), vec![10]);
    assert_eq!(start("db 0007", 1), vec![7]);
}

#[test]
fn numbers_out_of_range() {
    fails("db 257", 1, AsmErrorKind::ValueOutOfRange);
    fails("db -257", 1, AsmErrorKind::ValueOutOfRange);
    fails("db 0x101", 1, AsmErrorKind::ValueOutOfRange);
    fails("db 99999999999999999999999999", 1, AsmErrorKind::ValueOutOfRange);
    fails("halt\nloadb R1, -2147483648", 2, AsmErrorKind::ValueOutOfRange);
}

#[test]
fn malformed_numbers() {
    fails("db", 1, AsmErrorKind::BadNumber);
    fails("db 12x", 1, AsmErrorKind::BadNumber);
    fails("db 0x", 1, AsmErrorKind::BadNumber);
    fails("db 0xg", 1, AsmErrorKind::BadNumber);
    fails("db -", 1, AsmErrorKind::BadNumber);
    fails("db --1", 1, AsmErrorKind::BadNumber);
    fails("db _a", 1, AsmErrorKind::BadNumber);
    fails("db a0", 1, AsmErrorKind::UnknownLabel);
    fails("loadb R1,", 1, AsmErrorKind::BadNumber);
    fails("db \u{661}", 1, AsmErrorKind::BadNumber);
}

#[test]
fn malformed_registers() {
    fails("loadb 5, 5", 1, AsmErrorKind::BadRegister);
    fails("loadb R, 5", 1, AsmErrorKind::BadRegister);
    fails("loadb RG, 5", 1, AsmErrorKind::BadRegister);
    fails("loadb R10, 5", 1, AsmErrorKind::BadRegister);
    fails("loadb R0F, 5", 1, AsmErrorKind::BadRegister);
    fails("loadb R1\u{e9}, 5", 1, AsmErrorKind::BadRegister);
    fails("loadb", 1, AsmErrorKind::BadRegister);
    fails("addi R1, R2, 3", 1, AsmErrorKind::BadRegister);
    fails("move R1, x", 1, AsmErrorKind::BadRegister);
}

#[test]
fn missing_commas() {
    fails("loadb R1 5", 1, AsmErrorKind::MissingComma);
    fails("addi R1, R2 R3", 1, AsmErrorKind::MissingComma);
    fails("move R1", 1, AsmErrorKind::MissingComma);
    fails("loadb R1_, 5", 1, AsmErrorKind::MissingComma);
}

#[test]
fn trailing_input() {
    fails("halt now", 1, AsmErrorKind::TrailingInput);
    fails("loadb R1, 5, 6", 1, AsmErrorKind::TrailingInput);
    fails("none\nnone\nmove R1, R2 R3", 3, AsmErrorKind::TrailingInput);
    fails("db 1 2", 1, AsmErrorKind::TrailingInput);
}

#[test]
fn unknown_mnemonics() {
    fails("load R1, 5", 1, AsmErrorKind::UnknownMnemonic);
    fails("halt\n\nhalt;\nnope", 4, AsmErrorKind::UnknownMnemonic);
    fails("loadb, R1, 5", 1, AsmErrorKind::UnknownMnemonic);
}

#[test]
fn a_label_is_the_address_of_what_follows() {
    assert_eq!(
        start("loadb R1, here\nhere: jump R0, here\ndb here", 5),
        vec![0x21, 0x02, 0xB0, 0x02, 0x02]
    );
}

#[test]
fn forward_references_resolve() {
    assert_eq!(
        start("jump R0, end\nloadb R1, end+2\nloadb R2, end-1\nend: halt", 8),
        vec![0xB0, 0x06, 0x21, 0x08, 0x22, 0x05, 0xC0, 0x00]
    );
}

#[test]
fn labels_on_lines_of_their_own_and_with_dots() {
    assert_eq!(start(".loop:\nx_1:\n_y:\ndb .loop\ndb x_1\n.:\ndb .", 3), vec![0, 0, 2]);
    fails("_y: db _y", 1, AsmErrorKind::BadNumber);
}

#[test]
fn labels_with_letters_of_any_script() {
    assert_eq!(start("db \u{e9}t\u{e9}\n\u{e9}t\u{e9}: halt", 3), vec![1, 0xC0, 0]);
}

#[test]
fn label_names_tell_capital_letters_from_small_ones() {
    assert_eq!(start("Loop: jump R0, Loop", 2), vec![0xB0, 0x00]);
    assert_eq!(start("End: db End", 1), vec![0]);
    fails("end: db END", 1, AsmErrorKind::UnknownLabel);
    fails("End: db end", 1, AsmErrorKind::UnknownLabel);
    assert_eq!(start("db 1\nA: db a\na: db A\ndb A+1", 4), vec![1, 2, 1, 2]);
    assert_eq!(start("halt\n\u{c9}t\u{e9}: db \u{c9}t\u{e9}", 3), vec![0xC0, 0, 2]);
}

#[test]
fn a_label_with_an_address_moves_the_cursor() {
    let image = assemble("loadb R1, data\nhalt\ndata@0x80: db 42\ndb 43\nlow@16: db 1").unwrap();
    assert_eq!(&image[..4], &[0x21, 0x80, 0xC0, 0x00]);
    assert_eq!(&image[0x80..0x82], &[42, 43]);
    assert_eq!(image[16], 1);
    assert_eq!(start("a@0X2: db a", 3), vec![0, 0, 2]);
    assert_eq!(start("a@+1: db a", 2), vec![0, 1]);
}

#[test]
fn a_later_statement_overwrites_an_earlier_one() {
    assert_eq!(start("db 1\ndb 2\nback@0: db 9", 2), vec![9, 2]);
}

#[test]
fn bad_label_addresses() {
    fails("a@256: halt", 1, AsmErrorKind::BadLabelAddress);
    fails("a@-1: halt", 1, AsmErrorKind::BadLabelAddress);
    fails("a@: halt", 1, AsmErrorKind::BadLabelAddress);
    fails("a@0x1g: halt", 1, AsmErrorKind::BadLabelAddress);
    fails("a@ 5: halt", 1, AsmErrorKind::BadLabelAddress);
    fails("a b@x: halt", 1, AsmErrorKind::BadLabelAddress);
}

#[test]
fn bad_labels() {
    fails(": halt", 1, AsmErrorKind::BadLabel);
    fails("a b: halt", 1, AsmErrorKind::BadLabel);
    fails("a :halt", 1, AsmErrorKind::BadLabel);
    fails("a.b: halt", 1, AsmErrorKind::BadLabel);
    fails("..: halt", 1, AsmErrorKind::BadLabel);
    fails("a-b: halt", 1, AsmErrorKind::BadLabel);
    fails("@5: halt", 1, AsmErrorKind::BadLabel);
    fails("halt\nloadb R1, a:b", 2, AsmErrorKind::BadLabel);
}

#[test]
fn duplicate_labels() {
    fails("a: halt\nb: halt\na: halt", 3, AsmErrorKind::DuplicateLabel);
    fails("a:\na@7:", 2, AsmErrorKind::DuplicateLabel);
}

#[test]
fn unknown_labels() {
    fails("jump R0, nowhere", 1, AsmErrorKind::UnknownLabel);
    fails("a: halt\nhalt\ndb b", 3, AsmErrorKind::UnknownLabel);
    fails("a: db a-1+2", 1, AsmErrorKind::UnknownLabel);
}

#[test]
fn the_first_slot_that_fails_gives_the_error() {
    fails("late@4: db x\nearly@0: db y", 2, AsmErrorKind::UnknownLabel);
}

#[test]
fn bad_offsets() {
    fails("a: db a+", 1, AsmErrorKind::BadOffset);
    fails("a: db a+x", 1, AsmErrorKind::BadOffset);
    fails("a: db a-1-1", 1, AsmErrorKind::BadOffset);
    fails("a: db a+-1", 1, AsmErrorKind::BadOffset);
    fails("a: db b+x", 1, AsmErrorKind::BadOffset);
}

#[test]
fn addresses_out_of_range() {
    fails("a: db a-1", 1, AsmErrorKind::AddressOutOfRange);
    fails("halt\na@255: db a+1", 2, AsmErrorKind::AddressOutOfRange);
    fails("a: db a+256", 1, AsmErrorKind::AddressOutOfRange);
    fails("a: db a+99999999999999999999", 1, AsmErrorKind::AddressOutOfRange);
    assert_eq!(start("a: db a+255", 1), vec![255]);
    assert_eq!(assemble("a@255: db a-255").unwrap()[255], 0);
}

#[test]
fn exactly_256_bytes_fit() {
    let source = vec!["loadb R1, 0xAA"; 128].join("\n");
    let image = assemble(&source).unwrap();
    assert_eq!(image.len(), 256);
    for pair in image.chunks(2) {
        assert_eq!(pair, &[0x21, 0xAA]);
    }
    let bytes = vec!["db 1"; 256].join("\n");
    assert_eq!(assemble(&bytes).unwrap(), vec![1u8; 256]);
}

#[test]
fn the_257th_byte_overflows() {
    let bytes = vec!["db 1"; 257].join("\n");
    assert_eq!(
        assemble(&bytes),
        Err(AsmError { line: 257, kind: AsmErrorKind::Overflow })
    );
    let mut source = vec!["halt"; 128].join("\n");
    source.push_str("\nhalt");
    fails(&source, 129, AsmErrorKind::Overflow);
    let mut odd = vec!["halt"; 127].join("\n");
    odd.push_str("\ndb 1\nhalt");
    fails(&odd, 129, AsmErrorKind::Overflow);
    fails("a@255: halt", 1, AsmErrorKind::Overflow);
}

#[test]
fn no_label_behind_the_last_slot() {
    let mut source = vec!["halt"; 128].join("\n");
    source.push_str("\nend:");
    fails(&source, 129, AsmErrorKind::LabelAtEnd);
    let mut blank = vec!["halt"; 128].join("\n");
    blank.push_str("\n\n ; done\n");
    assert!(assemble(&blank).is_ok());
}

#[test]
fn errors_come_in_the_order_of_the_text() {
    fails("loadb RX 5 6", 1, AsmErrorKind::BadRegister);
    fails("loadb R1 x y", 1, AsmErrorKind::MissingComma);
    fails("loadb R1, 999 y", 1, AsmErrorKind::ValueOutOfRange);
    fails("a@300 b: nope", 1, AsmErrorKind::BadLabelAddress);
    fails("a: halt\na b: nope", 2, AsmErrorKind::BadLabel);
    fails("a: halt\na: nope", 2, AsmErrorKind::DuplicateLabel);
    fails("a: nope\nb: db c", 1, AsmErrorKind::UnknownMnemonic);
    let mut full = vec!["halt"; 128].join("\n");
    full.push_str("\nhalt extra");
    fails(&full, 129, AsmErrorKind::Overflow);
}

#[test]
fn identifier_characters() {
    assert!(identifier('a'));
    assert!(identifier('Z'));
    assert!(identifier('7'));
    assert!(identifier('_'));
    assert!(identifier('\u{e9}'));
    assert!(identifier('\u{661}'));
    assert!(!identifier('.'));
    assert!(!identifier(' '));
    assert!(!identifier('-'));
    assert!(!identifier('@'));
}

#[test]
fn hexadecimal_text() {
    assert_eq!(hex_to_bytes("2005c000".to_string()), Ok(vec![0x20, 0x05, 0xC0, 0x00]));
    assert_eq!(
        hex_to_bytes("  20 ; first\n05C0  \n\n00;\n".to_string()),
        Ok(vec![0x20, 0x05, 0xC0, 0x00])
    );
    assert_eq!(hex_to_bytes("aBcDeF".to_string()), Ok(vec![0xAB, 0xCD, 0xEF]));
    assert_eq!(hex_to_bytes(String::new()), Ok(vec![]));
    assert_eq!(hex_to_bytes("\t00  ;x".to_string()), Ok(vec![0]));
}

#[test]
fn hexadecimal_text_errors() {
    assert_eq!(hex_to_bytes("123".to_string()), Err(HexError { line: 0 }));
    assert_eq!(hex_to_bytes("12\n3g".to_string()), Err(HexError { line: 1 }));
    assert_eq!(hex_to_bytes("12\n\n12 34".to_string()), Err(HexError { line: 2 }));
    assert_eq!(hex_to_bytes("0x12".to_string()), Err(HexError { line: 0 }));
    assert_eq!(hex_to_bytes("+1".to_string()), Err(HexError { line: 0 }));
    assert_eq!(hex_to_bytes("\u{e9}\u{e9}".to_string()), Err(HexError { line: 0 }));
}

#[test]
fn images_in_three_formats() {
    assert_eq!(read_image(InputFormat::Binary, vec![1, 2, 3]), Ok(vec![1, 2, 3]));
    assert_eq!(read_image(InputFormat::Binary, vec![0xFF, 0xFE]), Ok(vec![0xFF, 0xFE]));
    assert_eq!(read_image(InputFormat::Hex, b"0102\n03".to_vec()), Ok(vec![1, 2, 3]));
    let image = read_image(InputFormat::Assembly, b"loadb R1, 2\nhalt".to_vec()).unwrap();
    assert_eq!(image.len(), 256);
    assert_eq!(&image[..4], &[0x21, 0x02, 0xC0, 0x00]);
    let text = "db caf\u{e9}\ncaf\u{e9}@7:".as_bytes().to_vec();
    assert_eq!(read_image(InputFormat::Assembly, text).unwrap()[0], 7);
}

#[test]
fn images_that_cannot_be_read() {
    assert_eq!(read_image(InputFormat::Binary, vec![0; 256]), Ok(vec![0; 256]));
    assert_eq!(read_image(InputFormat::Binary, vec![0; 257]), Err(LoadError::TooLarge));
    let long = "00".repeat(257).into_bytes();
    assert_eq!(read_image(InputFormat::Hex, long), Err(LoadError::TooLarge));
    assert_eq!(read_image(InputFormat::Hex, vec![0x30, 0xFF]), Err(LoadError::NotText));
    assert_eq!(read_image(InputFormat::Assembly, vec![0xC0, 0x00]), Err(LoadError::NotText));
    assert_eq!(
        read_image(InputFormat::Hex, b"00\n0".to_vec()),
        Err(LoadError::Hex(HexError { line: 1 }))
    );
    assert_eq!(
        read_image(InputFormat::Assembly, b"halt\nhlt".to_vec()),
        Err(LoadError::Assembly(AsmError { line: 2, kind: AsmErrorKind::UnknownMnemonic }))
    );
}

#[test]
fn register_and_value_statements_round_trip() {
    let cases = [("loadm", 1u8), ("loadb", 2), ("storem", 3), ("rot", 10), ("jump", 11), ("jumpl", 15)];
    for (mnemonic, op) in cases {
        for r in 0u8..16 {
            for v in 0u8..=255 {
                let image = assemble(&format!("{mnemonic} R{r:X}, {v}")).unwrap();
                assert_eq!(image[0], (op << 4) | r);
                assert_eq!(image[1], v);
                assert!(image[2..].iter().all(|b| *b == 0));
                let expected = match op {
                    1 => Instr::LoadFromMemory(Reg(r), Const(v)),
                    2 => Instr::LoadWithConstant(Reg(r), Const(v)),
                    3 => Instr::StoreToMemory(Reg(r), Const(v)),
                    10 => Instr::Rotate(Reg(r), Const(v)),
                    11 => Instr::JumpIfEqual(Reg(r), Const(v)),
                    _ => Instr::JumpIfLess(Reg(r), Const(v)),
                };
                assert_eq!(Instr::new(image[0], image[1]), expected);
            }
        }
    }
}

#[test]
fn three_register_statements_round_trip() {
    let cases = [("addi", 5u8), ("addf", 6), ("or", 7), ("and", 8), ("xor", 9)];
    for (mnemonic, op) in cases {
        for a in 0u8..16 {
            for b in 0u8..16 {
                for c in 0u8..16 {
                    let image = assemble(&format!("{mnemonic} R{a:X}, R{b:X}, R{c:X}")).unwrap();
                    assert_eq!(image[0], (op << 4) | a);
                    assert_eq!(image[1], (b << 4) | c);
                    let expected = match op {
                        5 => Instr::AddInt(Reg(a), Reg(b), Reg(c)),
                        6 => Instr::AddFloat(Reg(a), Reg(b), Reg(c)),
                        7 => Instr::Or(Reg(a), Reg(b), Reg(c)),
                        8 => Instr::And(Reg(a), Reg(b), Reg(c)),
                        _ => Instr::Xor(Reg(a), Reg(b), Reg(c)),
                    };
                    assert_eq!(Instr::new(image[0], image[1]), expected);
                }
            }
        }
    }
}

#[test]
fn two_register_statements_round_trip() {
    for a in 0u8..16 {
        for b in 0u8..16 {
            let moved = assemble(&format!("move R{a:X}, R{b:X}")).unwrap();
            assert_eq!(&moved[..2], &[0x40, (b << 4) | a]);
            assert_eq!(Instr::new(moved[0], moved[1]), Instr::Move(Reg(b), Reg(a)));
            let loaded = assemble(&format!("loadp R{a:X}, R{b:X}")).unwrap();
            assert_eq!(&loaded[..2], &[0xD0 | a, b]);
            assert_eq!(Instr::new(loaded[0], loaded[1]), Instr::LoadFromPointer(Reg(a), Reg(b)));
            let stored = assemble(&format!("storep R{a:X}, R{b:X}")).unwrap();
            assert_eq!(&stored[..2], &[0xE0 | a, b]);
            assert_eq!(Instr::new(stored[0], stored[1]), Instr::StoreToPointer(Reg(a), Reg(b)));
        }
    }
}

#[test]
fn character_classes_on_ascii() {
    for code in 0u8..128 {
        let c = code as char;
        assert_eq!(is_whitespace(c), c == ' ' || ('\t'..='\r').contains(&c));
        assert_eq!(is_alphabetic(c), c.is_ascii_alphabetic());
        assert_eq!(is_alphanumeric(c), c.is_ascii_alphanumeric());
    }
    assert!(is_whitespace('\u{a0}') && is_whitespace('\u{3000}') && !is_whitespace('\u{200b}'));
    assert!(is_alphabetic('\u{e9}') && !is_alphabetic('\u{661}') && is_alphanumeric('\u{661}'));
}
