use chip8::opcode::kk;
use chip8::opcode::n;
use chip8::opcode::nnn;
use chip8::opcode::parse_opcode;
use chip8::opcode::parse_opcode_8;
use chip8::opcode::parse_opcode_e;
use chip8::opcode::parse_opcode_f;
use chip8::opcode::x;
use chip8::opcode::y;
use chip8::opcode::Instr;
use chip8::opcode::Instr::ClearDisplay;
use chip8::opcode::Instr::Return;
use chip8::opcode::Instr::Jump;
use chip8::opcode::Instr::Call;
use chip8::opcode::Instr::SkipEqImm;
use chip8::opcode::Instr::SkipNotEqImm;
use chip8::opcode::Instr::SkipEqReg;
use chip8::opcode::Instr::LoadImm;
use chip8::opcode::Instr::AddImm;
use chip8::opcode::Instr::LoadReg;
use chip8::opcode::Instr::OrReg;
use chip8::opcode::Instr::AndReg;
use chip8::opcode::Instr::XorReg;
use chip8::opcode::Instr::AddReg;
use chip8::opcode::Instr::SubReg;
use chip8::opcode::Instr::ShiftRight;
use chip8::opcode::Instr::SubN;
use chip8::opcode::Instr::ShiftLeft;
use chip8::opcode::Instr::SkipNotEqReg;
use chip8::opcode::Instr::LoadI;
use chip8::opcode::Instr::JumpV0;
use chip8::opcode::Instr::Random;
use chip8::opcode::Instr::Draw;
use chip8::opcode::Instr::SkipKeyPressed;
use chip8::opcode::Instr::SkipKeyNotPressed;
use chip8::opcode::Instr::LoadDelayTimer;
use chip8::opcode::Instr::WaitKeyPress;
use chip8::opcode::Instr::SetDelayTimer;
use chip8::opcode::Instr::SetSoundTimer;
use chip8::opcode::Instr::AddI;
use chip8::opcode::Instr::LoadSprite;
use chip8::opcode::Instr::LoadBCD;
use chip8::opcode::Instr::SaveRegs;
use chip8::opcode::Instr::LoadRegs;
use chip8::register::VReg;
use chip8::register::VReg::V0;
use chip8::register::VReg::V1;
use chip8::register::VReg::V2;
use chip8::register::VReg::V3;
use chip8::register::VReg::V4;
use chip8::register::VReg::V5;
use chip8::register::VReg::V6;
use chip8::register::VReg::V7;
use chip8::register::VReg::VA;
use chip8::register::VReg::VB;
use chip8::register::VReg::VC;
use chip8::register::VReg::VF;

#[test]
fn test_parse_opcode() {
    let test_cases = [
        (0x00E0, ClearDisplay),
        (0x00EE, Return),
        (0x1123, Jump(0x123)),
        (0x2123, Call(0x123)),
        (0x3136, SkipEqImm(V1, 0x36)),
        (0x4A36, SkipNotEqImm(VA, 0x36)),
        (0x5560, SkipEqReg(V5, V6)),
        (0x6247, LoadImm(V2, 0x47)),
        (0x7A71, AddImm(VA, 0x71)),
        (0x85A0, LoadReg(V5, VA)),
        (0x85A1, OrReg(V5, VA)),
        (0x85A2, AndReg(V5, VA)),
        (0x85A3, XorReg(V5, VA)),
        (0x85A4, AddReg(V5, VA)),
        (0x85A5, SubReg(V5, VA)),
        (0x85A6, ShiftRight(V5, VA)),
        (0x85A7, SubN(V5, VA)),
        (0x85AE, ShiftLeft(V5, VA)),
        (0x9470, SkipNotEqReg(V4, V7)),
        (0xA123, LoadI(0x123)),
        (0xB72F, JumpV0(0x72F)),
        (0xCA48, Random(VA, 0x48)),
        (0xD737, Draw(V7, V3, 0x7)),
        (0xE59E, SkipKeyPressed(V5)),
        (0xE5A1, SkipKeyNotPressed(V5)),
        (0xF207, LoadDelayTimer(V2)),
        (0xF20A, WaitKeyPress(V2)),
        (0xF215, SetDelayTimer(V2)),
        (0xF218, SetSoundTimer(V2)),
        (0xF21E, AddI(V2)),
        (0xF229, LoadSprite(V2)),
        (0xF233, LoadBCD(V2)),
        (0xF255, SaveRegs(V2)),
        (0xF265, LoadRegs(V2)),
    ];

    for (o, i) in test_cases {
        assert_eq!(parse_opcode(o), Some(i));
    }
}

#[test]
fn test_parse_bad_opcode() {
    let test_cases = [0x0000, 0x5561, 0x8458, 0x9127, 0xE501, 0xF501];

    for o in test_cases {
        assert!(parse_opcode(o).is_none());
    }
}

#[test]
fn fields_are_cut_out_of_the_word() {
    assert_eq!(nnn(0xABCD), 0xBCD);
    assert_eq!(x(0xABCD), VB);
    assert_eq!(y(0xABCD), VC);
    assert_eq!(kk(0xABCD), 0xCD);
    assert_eq!(n(0xABCD), 0xD);
}

#[test]
fn groups_decode_by_their_low_bits() {
    assert_eq!(parse_opcode_8(0x812E), Some(ShiftLeft(V1, V2)));
    assert_eq!(parse_opcode_8(0x8128), None);
    assert_eq!(parse_opcode_e(0xE39E), Some(SkipKeyPressed(V3)));
    assert_eq!(parse_opcode_e(0xE39F), None);
    assert_eq!(parse_opcode_f(0xF40A), Some(WaitKeyPress(V4)));
    assert_eq!(parse_opcode_f(0xF4FF), None);
}

#[test]
fn every_word_decodes_to_one_instruction_or_none() {
    let mut known = 0u32;
    for word in 0..=0xFFFFu16 {
        let first = parse_opcode(word);
        let second = parse_opcode(word);
        assert_eq!(first, second);
        if first.is_some() {
            known += 1;
        }
    }
    // two words without operands; seven groups with twelve free bits each
    // (1, 2, 3, 4, 6, 7, A, B, C, D make ten); 5XY0 and 9XY0; nine 8XY_;
    // two EX__ and nine FX__.
    assert_eq!(known, 2 + 10 * 4096 + 2 * 256 + 9 * 256 + 2 * 16 + 9 * 16);
}

#[test]
fn registers_are_numbered_from_zero() {
    assert_eq!(VReg::from_u16(0), Some(V0));
    assert_eq!(VReg::from_u16(15), Some(VF));
    assert_eq!(VReg::from_u16(16), None);
    assert_eq!(V0.index(), 0);
    assert_eq!(VA.index(), 10);
    assert_eq!(VF.index(), 15);
    for k in 0..16u16 {
        assert_eq!(VReg::from_u16(k).unwrap().index(), k as usize);
    }
}

#[test]
fn unknown_low_nibbles_are_refused() {
    for low in 1..16u16 {
        assert_eq!(parse_opcode(0x5120 | low), None::<Instr>);
        assert_eq!(parse_opcode(0x9120 | low), None::<Instr>);
    }
}
