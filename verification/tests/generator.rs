use chip8::assembler::ast::Addr;
use chip8::assembler::ast::Instr;
use chip8::assembler::ast::Line;
use chip8::assembler::ast::Opcode;
use chip8::assembler::generator::addr;
use chip8::assembler::generator::generate;
use chip8::assembler::generator::labels;
use chip8::assembler::generator::opcode;
use chip8::assembler::generator::opcodes;
use chip8::assembler::generator::reg;
use chip8::assembler::generator::reg_imm;
use chip8::assembler::generator::reg_reg;
use chip8::assembler::generator::reg_reg_nib;
use chip8::assembler::generator::GenerateError;
use chip8::assembler::generator::LabelTable;
use chip8::assembler::generator::ORIGIN;
use chip8::opcode::parse_opcode;
use chip8::opcode::Instr as Decoded;
use chip8::register::VReg;

fn op(o: Opcode) -> Line {
    Line { label: None, instr: Some(Instr::Opcode(o)) }
}

fn labelled(name: &str, o: Opcode) -> Line {
    Line { label: Some(name.to_string()), instr: Some(Instr::Opcode(o)) }
}

fn bytes(d: &[u8]) -> Line {
    Line { label: None, instr: Some(Instr::Data(d.to_vec())) }
}

#[test]
fn test_addr() {
    assert_eq!(
        addr(0x1000, &Addr::Imm(0x251), &Default::default()),
        Ok(0x1251)
    );
}

#[test]
fn test_reg_imm() {
    assert_eq!(reg_imm(0x5000, 2, 0xAB), 0x52AB);
}

#[test]
fn test_reg_reg() {
    assert_eq!(reg_reg(0x5000, 4, 8), 0x5480);
    assert_eq!(reg_reg(0x5005, 4, 8), 0x5485);
}

#[test]
fn test_reg_reg_nib() {
    assert_eq!(reg_reg_nib(0xD000, 4, 8, 3), 0xD483);
}

#[test]
fn test_reg() {
    assert_eq!(reg(0x5000, 4), 0x5400);
    assert_eq!(reg(0x5005, 8), 0x5805);
}

#[test]
fn the_image_begins_at_0x200() {
    assert_eq!(ORIGIN, 0x200);
}

#[test]
fn sizes_of_lines() {
    assert_eq!(op(Opcode::Return).size(), 2);
    assert_eq!(bytes(&[1, 2, 3]).size(), 3);
    assert_eq!(bytes(&[]).size(), 0);
    assert_eq!(Line { label: Some("a".to_string()), instr: None }.size(), 0);
    assert_eq!(Instr::Opcode(Opcode::ClearDisplay).size(), 2);
    assert_eq!(Instr::Data(vec![0; 7]).size(), 7);
}

#[test]
fn addresses_are_cut_to_twelve_bits() {
    let none = LabelTable::new();
    assert_eq!(addr(0xA000, &Addr::Imm(0xFFFF), &none), Ok(0xAFFF));
    assert_eq!(addr(0xA000, &Addr::Imm(0x1234), &none), Ok(0xA234));
}

#[test]
fn nibbles_are_cut_to_four_bits() {
    assert_eq!(reg_reg_nib(0xD000, 1, 2, 0xF5), 0xD125);
}

#[test]
fn a_label_stands_for_its_address() {
    let mut table = LabelTable::new();
    table.insert("start".to_string(), 0x200);
    table.insert("sprite".to_string(), 0x2A4);
    assert_eq!(table.get(&"sprite".to_string()), Some(0x2A4));
    assert_eq!(table.get(&"start".to_string()), Some(0x200));
    assert_eq!(table.get(&"end".to_string()), None);
    assert!(table.contains_key(&"start".to_string()));
    assert!(!table.contains_key(&"Start".to_string()));
    assert_eq!(addr(0x2000, &Addr::LabelRef("sprite".to_string()), &table), Ok(0x22A4));
    assert_eq!(
        addr(0x2000, &Addr::LabelRef("nowhere".to_string()), &table),
        Err(GenerateError::UnknownLabel("nowhere".to_string()))
    );
}

#[test]
fn the_label_pass_counts_two_bytes_for_an_opcode_and_the_length_of_data() {
    let lines = vec![
        labelled("a", Opcode::ClearDisplay),
        bytes(&[1, 2, 3]),
        Line { label: Some("b".to_string()), instr: None },
        labelled("c", Opcode::Return),
        Line { label: Some("d".to_string()), instr: Some(Instr::Data(vec![0xFF])) },
        Line { label: Some("e".to_string()), instr: None },
    ];
    let table = labels(&lines).unwrap();
    assert_eq!(table.get(&"a".to_string()), Some(0x200));
    assert_eq!(table.get(&"b".to_string()), Some(0x205));
    assert_eq!(table.get(&"c".to_string()), Some(0x205));
    assert_eq!(table.get(&"d".to_string()), Some(0x207));
    assert_eq!(table.get(&"e".to_string()), Some(0x208));
}

#[test]
fn a_label_defined_twice_is_an_error() {
    let lines = vec![
        labelled("a", Opcode::ClearDisplay),
        labelled("b", Opcode::ClearDisplay),
        labelled("a", Opcode::Return),
        labelled("b", Opcode::Return),
    ];
    assert_eq!(labels(&lines).err(), Some(GenerateError::DuplicateLabel("a".to_string())));
    assert_eq!(generate(&lines), Err(GenerateError::DuplicateLabel("a".to_string())));
}

#[test]
fn a_label_that_is_not_defined_is_an_error() {
    let lines = vec![
        op(Opcode::Jump(Addr::LabelRef("first".to_string()))),
        op(Opcode::Call(Addr::LabelRef("second".to_string()))),
    ];
    assert_eq!(generate(&lines), Err(GenerateError::UnknownLabel("first".to_string())));
    let table = LabelTable::new();
    assert_eq!(
        opcodes(&lines, &table),
        Err(GenerateError::UnknownLabel("first".to_string()))
    );
}

#[test]
fn a_duplicate_is_reported_before_an_unknown_label() {
    let lines = vec![
        op(Opcode::Jump(Addr::LabelRef("nowhere".to_string()))),
        labelled("a", Opcode::ClearDisplay),
        labelled("a", Opcode::Return),
    ];
    assert_eq!(generate(&lines), Err(GenerateError::DuplicateLabel("a".to_string())));
}

#[test]
fn no_lines_give_no_bytes() {
    assert_eq!(generate(&[]), Ok(vec![]));
}

#[test]
fn data_is_emitted_as_it_stands_and_opcodes_big_endian() {
    let lines = vec![
        labelled("start", Opcode::LoadImm(0, 0x2A)),
        bytes(&[0xDE, 0xAD, 0xBE]),
        Line { label: None, instr: None },
        op(Opcode::Jump(Addr::LabelRef("start".to_string()))),
        labelled("end", Opcode::LoadI(Addr::LabelRef("end".to_string()))),
    ];
    assert_eq!(
        generate(&lines),
        Ok(vec![0x60, 0x2A, 0xDE, 0xAD, 0xBE, 0x12, 0x00, 0xA2, 0x07])
    );
}

#[test]
fn a_label_may_be_used_before_its_line() {
    let lines = vec![
        op(Opcode::Call(Addr::LabelRef("later".to_string()))),
        labelled("later", Opcode::Return),
    ];
    assert_eq!(generate(&lines), Ok(vec![0x22, 0x02, 0x00, 0xEE]));
}

#[test]
fn a_label_keeps_its_whole_address_and_an_instruction_takes_twelve_bits_of_it() {
    let lines = vec![
        bytes(&[0u8; 0xE00]),
        labelled("far", Opcode::Jump(Addr::LabelRef("far".to_string()))),
        labelled("further", Opcode::Call(Addr::LabelRef("further".to_string()))),
    ];
    let table = labels(&lines).unwrap();
    assert_eq!(table.get(&"far".to_string()), Some(0x1000));
    assert_eq!(table.get(&"further".to_string()), Some(0x1002));
    let image = generate(&lines).unwrap();
    assert_eq!(&image[0xE00..], &[0x10, 0x00, 0x20, 0x02]);
    assert_eq!(addr(0xA000, &Addr::LabelRef("far".to_string()), &table), Ok(0xA000));
    let mut wide = LabelTable::new();
    wide.insert("w".to_string(), 0x1_0000_0000_0ABC);
    assert_eq!(wide.get(&"w".to_string()), Some(0x1_0000_0000_0ABC));
    assert_eq!(addr(0x1000, &Addr::LabelRef("w".to_string()), &wide), Ok(0x1ABC));
}

#[test]
fn the_labels_of_the_table_are_the_labels_of_the_lines() {
    let lines = vec![
        labelled("a", Opcode::ClearDisplay),
        op(Opcode::Return),
        Line { label: Some("b".to_string()), instr: None },
        bytes(&[1, 2]),
    ];
    let table = labels(&lines).unwrap();
    assert!(table.contains_key(&"a".to_string()));
    assert!(table.contains_key(&"b".to_string()));
    assert!(!table.contains_key(&"c".to_string()));
    assert!(!table.contains_key(&"".to_string()));
    // a label on a line without an instruction stands for the next byte
    assert_eq!(table.get(&"b".to_string()), Some(0x204));
    assert!(!labels(&[]).unwrap().contains_key(&"a".to_string()));
}

#[test]
fn every_opcode_has_its_word() {
    let none = LabelTable::new();
    let cases: Vec<(Opcode, u16)> = vec![
        (Opcode::ClearDisplay, 0x00E0),
        (Opcode::Return, 0x00EE),
        (Opcode::Jump(Addr::Imm(0x123)), 0x1123),
        (Opcode::Call(Addr::Imm(0x123)), 0x2123),
        (Opcode::SkipEqImm(1, 0x36), 0x3136),
        (Opcode::SkipNotEqImm(0xA, 0x36), 0x4A36),
        (Opcode::SkipEqReg(5, 6), 0x5560),
        (Opcode::LoadImm(2, 0x47), 0x6247),
        (Opcode::AddImm(0xA, 0x71), 0x7A71),
        (Opcode::LoadReg(5, 0xA), 0x85A0),
        (Opcode::OrReg(5, 0xA), 0x85A1),
        (Opcode::AndReg(5, 0xA), 0x85A2),
        (Opcode::XorReg(5, 0xA), 0x85A3),
        (Opcode::AddReg(5, 0xA), 0x85A4),
        (Opcode::SubReg(5, 0xA), 0x85A5),
        (Opcode::ShiftRight(5, 0xA), 0x85A6),
        (Opcode::SubN(5, 0xA), 0x85A7),
        (Opcode::ShiftLeft(5, 0xA), 0x85AE),
        (Opcode::SkipNotEqReg(4, 7), 0x9470),
        (Opcode::LoadI(Addr::Imm(0x123)), 0xA123),
        (Opcode::JumpV0(Addr::Imm(0x72F)), 0xB72F),
        (Opcode::Random(0xA, 0x48), 0xCA48),
        (Opcode::Draw(7, 3, 7), 0xD737),
        (Opcode::SkipKeyPressed(5), 0xE59E),
        (Opcode::SkipKeyNotPressed(5), 0xE5A1),
        (Opcode::LoadDelayTimer(2), 0xF207),
        (Opcode::WaitKeyPress(2), 0xF20A),
        (Opcode::SetDelayTimer(2), 0xF215),
        (Opcode::SetSoundTimer(2), 0xF218),
        (Opcode::AddI(2), 0xF21E),
        (Opcode::LoadSprite(2), 0xF229),
        (Opcode::LoadBCD(2), 0xF233),
        (Opcode::SaveRegs(2), 0xF255),
        (Opcode::LoadRegs(2), 0xF265),
    ];
    for (o, word) in cases {
        assert_eq!(opcode(&o, &none), Ok(word));
    }
}

#[test]
fn encoding_then_decoding_gives_the_instruction_back() {
    let none = LabelTable::new();
    for r1 in 0..16u8 {
        for r2 in 0..16u8 {
            let x = VReg::from_u16(r1 as u16).unwrap();
            let y = VReg::from_u16(r2 as u16).unwrap();
            let word = opcode(&Opcode::SubN(r1, r2), &none).unwrap();
            assert_eq!(parse_opcode(word), Some(Decoded::SubN(x, y)));
            let word = opcode(&Opcode::Draw(r1, r2, r1), &none).unwrap();
            assert_eq!(parse_opcode(word), Some(Decoded::Draw(x, y, r1)));
            let word = opcode(&Opcode::Random(r1, r2 * 16 + r1), &none).unwrap();
            assert_eq!(parse_opcode(word), Some(Decoded::Random(x, r2 * 16 + r1)));
        }
        let x = VReg::from_u16(r1 as u16).unwrap();
        let word = opcode(&Opcode::LoadBCD(r1), &none).unwrap();
        assert_eq!(parse_opcode(word), Some(Decoded::LoadBCD(x)));
    }
    for a in [0u16, 1, 0x200, 0xABC, 0xFFF] {
        let word = opcode(&Opcode::JumpV0(Addr::Imm(a)), &none).unwrap();
        assert_eq!(parse_opcode(word), Some(Decoded::JumpV0(a)));
    }
}
