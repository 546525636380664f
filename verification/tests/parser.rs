use chip8::assembler::ast::Addr;
use chip8::assembler::ast::Instr;
use chip8::assembler::ast::Line;
use chip8::assembler::ast::Opcode;
use chip8::assembler::generator::generate;
use chip8::assembler::grammar::ParseError;
use chip8::assembler::parser::addr;
use chip8::assembler::parser::arg_sep;
use chip8::assembler::parser::bin_u16;
use chip8::assembler::parser::bin_u8;
use chip8::assembler::parser::chars_of;
use chip8::assembler::parser::comment;
use chip8::assembler::parser::data;
use chip8::assembler::parser::dec_u16;
use chip8::assembler::parser::dec_u8;
use chip8::assembler::parser::hex_u16;
use chip8::assembler::parser::hex_u8;
use chip8::assembler::parser::line_ending;
use chip8::assembler::parser::maybe_label;
use chip8::assembler::parser::classify;
use chip8::assembler::parser::name;
use chip8::assembler::parser::name_among;
use chip8::assembler::parser::nibble;
use chip8::assembler::parser::number;
use chip8::assembler::parser::parse_lines;
use chip8::assembler::parser::space0;
use chip8::assembler::parser::Source;
use chip8::assembler::parser::space1;
use chip8::assembler::parser::tag;
use chip8::assembler::parser::tag_no_case;
use chip8::assembler::parser::vreg;
use chip8::opcode::parse_opcode;
use chip8::register::VReg;

fn chars(s: &str) -> Vec<char> {
    s.chars().collect()
}

fn text_of(t: &[char]) -> String {
    t.iter().collect()
}

fn one(src: &str) -> Opcode {
    let lines = parse_lines(src).unwrap();
    assert_eq!(lines.len(), 1);
    assert_eq!(lines[0].label, None);
    match &lines[0].instr {
        Some(Instr::Opcode(o)) => o.clone(),
        other => panic!("{:?} is no opcode", other),
    }
}

#[test]
fn test_comment() {
    let t = chars("# a comment");
    let end = comment(&t, 0).unwrap();
    assert_eq!((text_of(&t[end..]), text_of(&t[1..end])), ("".to_string(), " a comment".to_string()));

    // the line ending is the line's, not the comment's
    let t = chars("# a comment\n");
    let end = comment(&t, 0).unwrap();
    assert_eq!((text_of(&t[end..]), text_of(&t[1..end])), ("\n".to_string(), " a comment".to_string()));
}

#[test]
fn test_u16s() {
    let t = chars("0b0011");
    assert_eq!(bin_u16(&t, 0), Some((3, t.len())));

    let t = chars("0xABCD");
    assert_eq!(hex_u16(&t, 0), Some((0xabcd, t.len())));

    let t = chars("0xabcd");
    assert_eq!(hex_u16(&t, 0), Some((0xabcd, t.len())));
}

#[test]
fn a_comment_needs_its_sign_and_a_whole_line_ending() {
    assert_eq!(comment(&chars("a comment"), 0), None);
    assert_eq!(comment(&chars("#"), 0), Some(1));
    assert_eq!(comment(&chars("# x\r\ny"), 0), Some(3));
    assert_eq!(comment(&chars("# x\ry"), 0), None);
    assert_eq!(comment(&chars("# x\r"), 0), None);
    assert_eq!(comment(&chars("ab # x"), 3), Some(6));
    assert_eq!(comment(&chars(""), 0), None);
}

#[test]
fn numbers_of_each_radix() {
    assert_eq!(dec_u16(&chars("65535"), 0), Some((65535, 5)));
    assert_eq!(dec_u16(&chars("65536"), 0), None);
    assert_eq!(dec_u16(&chars("007x"), 0), Some((7, 3)));
    assert_eq!(dec_u16(&chars("x"), 0), None);
    assert_eq!(hex_u16(&chars("0xFFFF"), 0), Some((0xFFFF, 6)));
    assert_eq!(hex_u16(&chars("0x10000"), 0), None);
    assert_eq!(hex_u16(&chars("0x"), 0), None);
    assert_eq!(hex_u16(&chars("0X12"), 0), None);
    assert_eq!(hex_u16(&chars("12"), 0), None);
    assert_eq!(bin_u16(&chars("0b1111111111111111"), 0), Some((0xFFFF, 18)));
    assert_eq!(bin_u16(&chars("0b10000000000000000"), 0), None);
    assert_eq!(bin_u16(&chars("0b102"), 0), Some((2, 4)));
    assert_eq!(bin_u16(&chars("0b2"), 0), None);
    assert_eq!(hex_u8(&chars("0xfF"), 0), Some((255, 4)));
    assert_eq!(hex_u8(&chars("0x100"), 0), None);
    assert_eq!(dec_u8(&chars("255"), 0), Some((255, 3)));
    assert_eq!(dec_u8(&chars("256"), 0), None);
    assert_eq!(bin_u8(&chars("0b11111111"), 0), Some((255, 10)));
    assert_eq!(bin_u8(&chars("0b111111111"), 0), None);
    assert_eq!(dec_u16(&chars("00000000000000000000000000012"), 0), Some((12, 29)));
}

#[test]
fn a_form_that_does_not_fit_gives_way_to_the_next() {
    assert_eq!(number(&chars("0x1F"), 0, 0xFF), Some((31, 4)));
    assert_eq!(number(&chars("0b101"), 0, 0xFF), Some((5, 5)));
    assert_eq!(number(&chars("42"), 0, 0xFF), Some((42, 2)));
    // no digit after the prefix, or too large a number: the zero is decimal
    assert_eq!(number(&chars("0xZZ"), 0, 0xFF), Some((0, 1)));
    assert_eq!(number(&chars("0x100"), 0, 0xFF), Some((0, 1)));
    assert_eq!(number(&chars("0x100"), 0, 0xFFFF), Some((256, 5)));
    assert_eq!(number(&chars("300"), 0, 0xFF), None);
    assert_eq!(number(&chars(""), 0, 0xFF), None);
    assert_eq!(nibble(&chars("15"), 0), Some((15, 2)));
    assert_eq!(nibble(&chars("16"), 0), None);
    assert_eq!(nibble(&chars("0x1F"), 0), None);
    assert_eq!(nibble(&chars("0xF"), 0), Some((15, 3)));
}

#[test]
fn blanks_are_spaces_and_tabs() {
    assert_eq!(space0(&chars(" \t x"), 0), 3);
    assert_eq!(space0(&chars("x"), 0), 0);
    assert_eq!(space0(&chars("  "), 2), 2);
    assert_eq!(space1(&chars(" \t x"), 0), Some(3));
    assert_eq!(space1(&chars("x"), 0), None);
    assert_eq!(space1(&chars("\nx"), 0), None);
    assert_eq!(arg_sep(&chars(" , x"), 0), Some(3));
    assert_eq!(arg_sep(&chars(",x"), 0), Some(1));
    assert_eq!(arg_sep(&chars("  x"), 0), None);
    assert_eq!(line_ending(&chars("\nx"), 0), Some(1));
    assert_eq!(line_ending(&chars("\r\nx"), 0), Some(2));
    assert_eq!(line_ending(&chars("\rx"), 0), None);
    assert_eq!(line_ending(&chars(""), 0), None);
}

#[test]
fn words_with_and_without_case() {
    assert_eq!(tag(&chars("0x12"), 0, "0x"), Some(2));
    assert_eq!(tag(&chars("0X12"), 0, "0x"), None);
    assert_eq!(tag(&chars("0"), 0, "0x"), None);
    assert_eq!(tag_no_case(&chars("CLS"), 0, "cls"), Some(3));
    assert_eq!(tag_no_case(&chars("cLs;"), 0, "cls"), Some(3));
    assert_eq!(tag_no_case(&chars("cl"), 0, "cls"), None);
    assert_eq!(tag_no_case(&chars("clx"), 0, "cls"), None);
    assert_eq!(tag_no_case(&chars("ld [I], v0"), 3, "[i]"), Some(6));
}

#[test]
fn names_begin_with_a_letter() {
    assert_eq!(name(&Source::new("loop_1: x"), 0), Some(6));
    assert_eq!(name(&Source::new("_loop"), 0), None);
    assert_eq!(name(&Source::new("1loop"), 0), None);
    assert_eq!(name(&Source::new("a"), 0), Some(1));
    assert_eq!(name(&Source::new(""), 0), None);
    // letters and digits of any script
    assert_eq!(name(&Source::new("\u{e9}t\u{e9}\u{663}:"), 0), Some(4));
    assert_eq!(name(&Source::new("\u{663}a"), 0), None);
    assert_eq!(name(&Source::new("a-b"), 0), Some(1));
    let src = "start: x";
    assert_eq!(maybe_label(&Source::new(src), 0), Some(("start".to_string(), 6)));
    let src = "start x";
    assert_eq!(maybe_label(&Source::new(src), 0), None);
    let src = "jp  lab\u{e9}l2 ";
    assert_eq!(
        addr(&Source::new(src), 4),
        Some((Addr::LabelRef("lab\u{e9}l2".to_string()), 10))
    );
    let src = "0x2A4,";
    assert_eq!(addr(&Source::new(src), 0), Some((Addr::Imm(0x2A4), 5)));
}

#[test]
fn a_name_is_a_letter_and_a_run_of_name_characters() {
    let t = true;
    let f = false;
    // "ab_1: x" as what is known of its characters
    let letters = [t, t, f, f, f, f, t];
    let inner = [t, t, t, t, f, f, t];
    assert_eq!(name_among(&letters, &inner, 0), Some(4));
    assert_eq!(name_among(&letters, &inner, 1), Some(4));
    // an underscore or a digit begins no name
    assert_eq!(name_among(&letters, &inner, 2), None);
    assert_eq!(name_among(&letters, &inner, 3), None);
    assert_eq!(name_among(&letters, &inner, 4), None);
    // a name of one letter at the end
    assert_eq!(name_among(&letters, &inner, 6), Some(7));
    assert_eq!(name_among(&letters, &inner, 7), None);
    assert_eq!(name_among(&letters, &inner, 100), None);
    // a letter that nothing may follow
    assert_eq!(name_among(&[t, t], &[f, f], 0), Some(1));
    assert_eq!(name_among(&[t, t, t], &[t, t, f], 0), Some(2));
    assert_eq!(name_among(&[], &[], 0), None);
    // where less is known of what may follow, the name ends there
    assert_eq!(name_among(&[t, t, t], &[t, t], 0), Some(2));
    assert_eq!(name_among(&[t, t, t], &[], 1), Some(2));
}

#[test]
fn characters_are_classified_one_by_one() {
    let (letters, inner) = classify(&chars("a_1 \u{e9}\u{663}:Z"));
    assert_eq!(letters, vec![true, false, false, false, true, false, false, true]);
    assert_eq!(inner, vec![true, true, true, false, true, true, false, true]);
    assert_eq!(classify(&[]), (vec![], vec![]));
}

#[test]
fn registers_are_v_and_one_hexadecimal_digit() {
    assert_eq!(vreg(&chars("v0"), 0), Some((0, 2)));
    assert_eq!(vreg(&chars("VF"), 0), Some((15, 2)));
    assert_eq!(vreg(&chars("Va1"), 0), Some((10, 2)));
    assert_eq!(vreg(&chars("vg"), 0), None);
    assert_eq!(vreg(&chars("v"), 0), None);
    assert_eq!(vreg(&chars("x1"), 0), None);
}

#[test]
fn data_is_bytes_with_commas() {
    assert_eq!(data(&chars("1, 0x02 ,0b11,4"), 0), Some((vec![1, 2, 3, 4], 15)));
    assert_eq!(data(&chars("1, x"), 0), Some((vec![1], 1)));
    assert_eq!(data(&chars("1,"), 0), Some((vec![1], 1)));
    assert_eq!(data(&chars("256"), 0), None);
    assert_eq!(data(&chars("1, 256"), 0), Some((vec![1], 1)));
    assert_eq!(data(&chars("x"), 0), None);
}

#[test]
fn the_assembler_round_trip() {
    let src = "start: LD V0, 0x2A\n       JP start\n";
    let lines = parse_lines(src).unwrap();
    assert_eq!(
        lines,
        vec![
            Line {
                label: Some("start".to_string()),
                instr: Some(Instr::Opcode(Opcode::LoadImm(0, 0x2A))),
            },
            Line {
                label: None,
                instr: Some(Instr::Opcode(Opcode::Jump(Addr::LabelRef("start".to_string())))),
            },
            Line { label: None, instr: None },
        ]
    );
    let image = generate(&lines).unwrap();
    assert_eq!(image, vec![0x60, 0x2A, 0x12, 0x00]);
    let first = u16::from_be_bytes([image[0], image[1]]);
    let second = u16::from_be_bytes([image[2], image[3]]);
    assert_eq!(parse_opcode(first), Some(chip8::opcode::Instr::LoadImm(VReg::V0, 0x2A)));
    assert_eq!(parse_opcode(second), Some(chip8::opcode::Instr::Jump(0x200)));
}

#[test]
fn every_mnemonic_parses() {
    let l = |s: &str| Addr::LabelRef(s.to_string());
    let cases: Vec<(&str, Opcode)> = vec![
        (" CLS", Opcode::ClearDisplay),
        (" ret", Opcode::Return),
        (" JP 0x123", Opcode::Jump(Addr::Imm(0x123))),
        (" jp there", Opcode::Jump(l("there"))),
        (" CALL 512", Opcode::Call(Addr::Imm(512))),
        (" call sub_1", Opcode::Call(l("sub_1"))),
        (" SE V1, 0x36", Opcode::SkipEqImm(1, 0x36)),
        (" SNE VA, 54", Opcode::SkipNotEqImm(10, 54)),
        (" SE V5, V6", Opcode::SkipEqReg(5, 6)),
        (" LD V2, 0b1000111", Opcode::LoadImm(2, 0x47)),
        (" ADD va , 0x71", Opcode::AddImm(10, 0x71)),
        (" LD V5, VA", Opcode::LoadReg(5, 10)),
        (" OR V5, VA", Opcode::OrReg(5, 10)),
        (" AND V5, VA", Opcode::AndReg(5, 10)),
        (" XOR V5, VA", Opcode::XorReg(5, 10)),
        (" ADD V5, VA", Opcode::AddReg(5, 10)),
        (" SUB V5, VA", Opcode::SubReg(5, 10)),
        (" SHR V5, VA", Opcode::ShiftRight(5, 10)),
        (" SUBN V5, VA", Opcode::SubN(5, 10)),
        (" SHL V5, VA", Opcode::ShiftLeft(5, 10)),
        (" SNE V4, V7", Opcode::SkipNotEqReg(4, 7)),
        (" LD I, 0x123", Opcode::LoadI(Addr::Imm(0x123))),
        (" ld i, sprite", Opcode::LoadI(l("sprite"))),
        (" JP V0, 0x72F", Opcode::JumpV0(Addr::Imm(0x72F))),
        (" jp v0,table", Opcode::JumpV0(l("table"))),
        (" RND VA, 0x48", Opcode::Random(10, 0x48)),
        (" DRW V7, V3, 7", Opcode::Draw(7, 3, 7)),
        (" SKP V5", Opcode::SkipKeyPressed(5)),
        (" SKPN V5", Opcode::SkipKeyNotPressed(5)),
        (" LD V2, DT", Opcode::LoadDelayTimer(2)),
        (" LD V2, K", Opcode::WaitKeyPress(2)),
        (" LD DT, V2", Opcode::SetDelayTimer(2)),
        (" LD ST, V2", Opcode::SetSoundTimer(2)),
        (" ADD I, V2", Opcode::AddI(2)),
        (" LD F, V2", Opcode::LoadSprite(2)),
        (" LD B, V2", Opcode::LoadBCD(2)),
        (" LD [I], V2", Opcode::SaveRegs(2)),
        (" LD V2, [I]", Opcode::LoadRegs(2)),
        ("\tld v2,[i]  # all of them", Opcode::LoadRegs(2)),
    ];
    for (src, expected) in cases {
        assert_eq!(one(src), expected, "{}", src);
    }
}

#[test]
fn a_label_may_be_called_like_a_register() {
    assert_eq!(one(" jp v0"), Opcode::Jump(Addr::LabelRef("v0".to_string())));
    assert_eq!(one(" jp v0x"), Opcode::Jump(Addr::LabelRef("v0x".to_string())));
}

#[test]
fn lines_are_labels_instructions_and_comments() {
    let lines = parse_lines("").unwrap();
    assert_eq!(lines, vec![Line { label: None, instr: None }]);

    let lines = parse_lines("\n\r\n").unwrap();
    assert_eq!(lines.len(), 3);

    let lines = parse_lines("a:\nb:# here\n# only this\nc: 1, 2 # bytes\n cls").unwrap();
    assert_eq!(
        lines,
        vec![
            Line { label: Some("a".to_string()), instr: None },
            Line { label: Some("b".to_string()), instr: None },
            Line { label: None, instr: None },
            Line { label: Some("c".to_string()), instr: Some(Instr::Data(vec![1, 2])) },
            Line { label: None, instr: Some(Instr::Opcode(Opcode::ClearDisplay)) },
        ]
    );
}

#[test]
fn one_line_at_a_time() {
    let src = "a: cls # x\nb:";
    let (first, end) = chip8::assembler::parser::line(&Source::new(src), 0);
    assert_eq!(
        first,
        Line { label: Some("a".to_string()), instr: Some(Instr::Opcode(Opcode::ClearDisplay)) }
    );
    assert_eq!(end, 10);
    let (second, end) = chip8::assembler::parser::line(&Source::new(src), 11);
    assert_eq!(second, Line { label: Some("b".to_string()), instr: None });
    assert_eq!(end, 13);
}

#[test]
fn what_is_no_line_is_an_error_with_its_place() {
    // an instruction stands after a blank
    assert_eq!(parse_lines("cls"), Err(ParseError { offset: 0, line: 1 }));
    // a comment stands right after what comes before it
    assert_eq!(parse_lines("a:\n  # x"), Err(ParseError { offset: 3, line: 2 }));
    assert_eq!(parse_lines(" cls\n ret\n bogus v1\n"), Err(ParseError { offset: 10, line: 3 }));
    assert_eq!(parse_lines(" ld v1, 256"), Err(ParseError { offset: 0, line: 1 }));
    assert_eq!(parse_lines(" cls extra"), Err(ParseError { offset: 5, line: 1 }));
    assert_eq!(parse_lines(" drw v1, v2, 16"), Err(ParseError { offset: 0, line: 1 }));
    assert_eq!(parse_lines("\u{e9}: cls\n\u{e9}\u{e9}"), Err(ParseError { offset: 7, line: 2 }));
    assert_eq!(parse_lines(" cls\r ret"), Err(ParseError { offset: 4, line: 1 }));
}

#[test]
fn a_source_is_its_characters() {
    let source = Source::new("a\u{e9}b:c");
    assert_eq!(source.chars(), &['a', '\u{e9}', 'b', ':', 'c'][..]);
    assert_eq!(source.slice(1, 3), "\u{e9}b");
    assert_eq!(source.slice(5, 5), "");
    assert_eq!(source.slice(0, 5), "a\u{e9}b:c");
}

#[test]
fn the_characters_of_a_text() {
    assert_eq!(chars_of("a\u{e9}\u{1F600}b"), vec!['a', '\u{e9}', '\u{1F600}', 'b']);
    assert_eq!(chars_of(""), Vec::<char>::new());
}
