//! The instruction set and its decoder.

use crate::register::VReg;
use vstd::prelude::*;

verus! {

/// A decoded instruction.
#[derive(Clone, Copy, Debug, PartialEq, Eq, Structural)]
pub enum Instr {
    ClearDisplay,
    Return,
    Jump(u16),
    Call(u16),
    SkipEqImm(VReg, u8),
    SkipNotEqImm(VReg, u8),
    SkipEqReg(VReg, VReg),
    LoadImm(VReg, u8),
    AddImm(VReg, u8),
    LoadReg(VReg, VReg),
    OrReg(VReg, VReg),
    AndReg(VReg, VReg),
    XorReg(VReg, VReg),
    AddReg(VReg, VReg),
    SubReg(VReg, VReg),
    ShiftRight(VReg, VReg),
    SubN(VReg, VReg),
    ShiftLeft(VReg, VReg),
    SkipNotEqReg(VReg, VReg),
    LoadI(u16),
    JumpV0(u16),
    Random(VReg, u8),
    Draw(VReg, VReg, u8),
    SkipKeyPressed(VReg),
    SkipKeyNotPressed(VReg),
    LoadDelayTimer(VReg),
    WaitKeyPress(VReg),
    SetDelayTimer(VReg),
    SetSoundTimer(VReg),
    AddI(VReg),
    LoadSprite(VReg),
    LoadBCD(VReg),
    SaveRegs(VReg),
    LoadRegs(VReg),
}

/// The address field: the low twelve bits.
pub open spec fn field_nnn(opcode: u16) -> u16 {
    opcode & 0xFFF
}

/// The first register field: bits 8 to 11.
pub open spec fn field_x(opcode: u16) -> VReg {
    VReg::numbered(((opcode >> 8) & 0x0F) as int)->0
}

/// The second register field: bits 4 to 7.
pub open spec fn field_y(opcode: u16) -> VReg {
    VReg::numbered(((opcode >> 4) & 0x0F) as int)->0
}

/// The immediate byte: the low eight bits.
pub open spec fn field_kk(opcode: u16) -> u8 {
    (opcode & 0xFF) as u8
}

/// The nibble field: the low four bits.
pub open spec fn field_n(opcode: u16) -> u8 {
    (opcode & 0xF) as u8
}

/// The arithmetic group, whose words begin with the nibble 8.
pub open spec fn decode_8(opcode: u16) -> Option<Instr> {
    let lsn = opcode & 0xF;
    let (x, y) = (field_x(opcode), field_y(opcode));
    if lsn == 0x0 {
        Some(Instr::LoadReg(x, y))
    } else if lsn == 0x1 {
        Some(Instr::OrReg(x, y))
    } else if lsn == 0x2 {
        Some(Instr::AndReg(x, y))
    } else if lsn == 0x3 {
        Some(Instr::XorReg(x, y))
    } else if lsn == 0x4 {
        Some(Instr::AddReg(x, y))
    } else if lsn == 0x5 {
        Some(Instr::SubReg(x, y))
    } else if lsn == 0x6 {
        Some(Instr::ShiftRight(x, y))
    } else if lsn == 0x7 {
        Some(Instr::SubN(x, y))
    } else if lsn == 0xE {
        Some(Instr::ShiftLeft(x, y))
    } else {
        None
    }
}

/// The keypad group, whose words begin with the nibble E.
pub open spec fn decode_e(opcode: u16) -> Option<Instr> {
    let lsb = opcode & 0xFF;
    let x = field_x(opcode);
    if lsb == 0x9E {
        Some(Instr::SkipKeyPressed(x))
    } else if lsb == 0xA1 {
        Some(Instr::SkipKeyNotPressed(x))
    } else {
        None
    }
}

/// The timer and memory group, whose words begin with the nibble F.
pub open spec fn decode_f(opcode: u16) -> Option<Instr> {
    let lsb = opcode & 0xFF;
    let x = field_x(opcode);
    if lsb == 0x07 {
        Some(Instr::LoadDelayTimer(x))
    } else if lsb == 0x0A {
        Some(Instr::WaitKeyPress(x))
    } else if lsb == 0x15 {
        Some(Instr::SetDelayTimer(x))
    } else if lsb == 0x18 {
        Some(Instr::SetSoundTimer(x))
    } else if lsb == 0x1E {
        Some(Instr::AddI(x))
    } else if lsb == 0x29 {
        Some(Instr::LoadSprite(x))
    } else if lsb == 0x33 {
        Some(Instr::LoadBCD(x))
    } else if lsb == 0x55 {
        Some(Instr::SaveRegs(x))
    } else if lsb == 0x65 {
        Some(Instr::LoadRegs(x))
    } else {
        None
    }
}

/// The instruction that a 16-bit word stands for, or `None` where it stands
/// for none. The word is keyed by its high nibble and, where that does not
/// settle it, by its low nibble or low byte.
pub open spec fn decode(opcode: u16) -> Option<Instr> {
    let msn = opcode >> 12;
    let lsn = opcode & 0xF;
    let (x, y) = (field_x(opcode), field_y(opcode));
    if opcode == 0x00E0 {
        Some(Instr::ClearDisplay)
    } else if opcode == 0x00EE {
        Some(Instr::Return)
    } else if msn == 0x1 {
        Some(Instr::Jump(field_nnn(opcode)))
    } else if msn == 0x2 {
        Some(Instr::Call(field_nnn(opcode)))
    } else if msn == 0x3 {
        Some(Instr::SkipEqImm(x, field_kk(opcode)))
    } else if msn == 0x4 {
        Some(Instr::SkipNotEqImm(x, field_kk(opcode)))
    } else if msn == 0x5 && lsn == 0x0 {
        Some(Instr::SkipEqReg(x, y))
    } else if msn == 0x6 {
        Some(Instr::LoadImm(x, field_kk(opcode)))
    } else if msn == 0x7 {
        Some(Instr::AddImm(x, field_kk(opcode)))
    } else if msn == 0x8 {
        decode_8(opcode)
    } else if msn == 0x9 && lsn == 0x0 {
        Some(Instr::SkipNotEqReg(x, y))
    } else if msn == 0xA {
        Some(Instr::LoadI(field_nnn(opcode)))
    } else if msn == 0xB {
        Some(Instr::JumpV0(field_nnn(opcode)))
    } else if msn == 0xC {
        Some(Instr::Random(x, field_kk(opcode)))
    } else if msn == 0xD {
        Some(Instr::Draw(x, y, field_n(opcode)))
    } else if msn == 0xE {
        decode_e(opcode)
    } else if msn == 0xF {
        decode_f(opcode)
    } else {
        None
    }
}

/// The address field of a word.
pub fn nnn(opcode: u16) -> (r: u16)
    ensures
        r == field_nnn(opcode),
        r <= 0xFFF,
{
    assert(opcode & 0xFFF <= 0xFFF) by (bit_vector);
    opcode & 0xFFF
}

/// The first register field of a word.
pub fn x(opcode: u16) -> (r: VReg)
    ensures
        r == field_x(opcode),
        r.number() == (opcode >> 8) & 0x0F,
{
    assert((opcode >> 8) & 0x0F < 16) by (bit_vector);
    proof {
        VReg::lemma_numbered_number(((opcode >> 8) & 0x0F) as int);
    }
    VReg::from_u16((opcode >> 8) & 0x0F).unwrap()
}

/// The second register field of a word.
pub fn y(opcode: u16) -> (r: VReg)
    ensures
        r == field_y(opcode),
        r.number() == (opcode >> 4) & 0x0F,
{
    assert((opcode >> 4) & 0x0F < 16) by (bit_vector);
    proof {
        VReg::lemma_numbered_number(((opcode >> 4) & 0x0F) as int);
    }
    VReg::from_u16((opcode >> 4) & 0x0F).unwrap()
}

/// The immediate byte of a word.
pub fn kk(opcode: u16) -> (r: u8)
    ensures
        r == field_kk(opcode),
{
    assert(opcode & 0xFF < 256) by (bit_vector);
    (opcode & 0xFF) as u8
}

/// The nibble field of a word.
pub fn n(opcode: u16) -> (r: u8)
    ensures
        r == field_n(opcode),
        r < 16,
{
    assert(opcode & 0xF < 16) by (bit_vector);
    (opcode & 0xF) as u8
}

/// Decodes one instruction word.
pub fn parse_opcode(opcode: u16) -> (r: Option<Instr>)
    ensures
        r == decode(opcode),
{
    let msn = opcode >> 12;
    let lsn = opcode & 0xF;
    if opcode == 0x00E0 {
        Some(Instr::ClearDisplay)
    } else if opcode == 0x00EE {
        Some(Instr::Return)
    } else if msn == 0x1 {
        Some(Instr::Jump(nnn(opcode)))
    } else if msn == 0x2 {
        Some(Instr::Call(nnn(opcode)))
    } else if msn == 0x3 {
        Some(Instr::SkipEqImm(x(opcode), kk(opcode)))
    } else if msn == 0x4 {
        Some(Instr::SkipNotEqImm(x(opcode), kk(opcode)))
    } else if msn == 0x5 && lsn == 0x0 {
        Some(Instr::SkipEqReg(x(opcode), y(opcode)))
    } else if msn == 0x6 {
        Some(Instr::LoadImm(x(opcode), kk(opcode)))
    } else if msn == 0x7 {
        Some(Instr::AddImm(x(opcode), kk(opcode)))
    } else if msn == 0x8 {
        parse_opcode_8(opcode)
    } else if msn == 0x9 && lsn == 0x0 {
        Some(Instr::SkipNotEqReg(x(opcode), y(opcode)))
    } else if msn == 0xA {
        Some(Instr::LoadI(nnn(opcode)))
    } else if msn == 0xB {
        Some(Instr::JumpV0(nnn(opcode)))
    } else if msn == 0xC {
        Some(Instr::Random(x(opcode), kk(opcode)))
    } else if msn == 0xD {
        Some(Instr::Draw(x(opcode), y(opcode), n(opcode)))
    } else if msn == 0xE {
        parse_opcode_e(opcode)
    } else if msn == 0xF {
        parse_opcode_f(opcode)
    } else {
        None
    }
}

/// Decodes a word of the arithmetic group.
pub fn parse_opcode_8(opcode: u16) -> (r: Option<Instr>)
    ensures
        r == decode_8(opcode),
{
    let lsn = opcode & 0xF;
    let (x, y) = (x(opcode), y(opcode));
    match lsn {
        0x0 => Some(Instr::LoadReg(x, y)),
        0x1 => Some(Instr::OrReg(x, y)),
        0x2 => Some(Instr::AndReg(x, y)),
        0x3 => Some(Instr::XorReg(x, y)),
        0x4 => Some(Instr::AddReg(x, y)),
        0x5 => Some(Instr::SubReg(x, y)),
        0x6 => Some(Instr::ShiftRight(x, y)),
        0x7 => Some(Instr::SubN(x, y)),
        0xE => Some(Instr::ShiftLeft(x, y)),
        _ => None,
    }
}

/// Decodes a word of the keypad group.
pub fn parse_opcode_e(opcode: u16) -> (r: Option<Instr>)
    ensures
        r == decode_e(opcode),
{
    let lsb = opcode & 0xFF;
    let x = x(opcode);
    match lsb {
        0x9E => Some(Instr::SkipKeyPressed(x)),
        0xA1 => Some(Instr::SkipKeyNotPressed(x)),
        _ => None,
    }
}

/// Decodes a word of the timer and memory group.
pub fn parse_opcode_f(opcode: u16) -> (r: Option<Instr>)
    ensures
        r == decode_f(opcode),
{
    let lsb = opcode & 0xFF;
    let x = x(opcode);
    match lsb {
        0x07 => Some(Instr::LoadDelayTimer(x)),
        0x0A => Some(Instr::WaitKeyPress(x)),
        0x15 => Some(Instr::SetDelayTimer(x)),
        0x18 => Some(Instr::SetSoundTimer(x)),
        0x1E => Some(Instr::AddI(x)),
        0x29 => Some(Instr::LoadSprite(x)),
        0x33 => Some(Instr::LoadBCD(x)),
        0x55 => Some(Instr::SaveRegs(x)),
        0x65 => Some(Instr::LoadRegs(x)),
        _ => None,
    }
}

/// What the decoder hands out fits its fields: an address is below
/// 0x1000, and a row count below 16.
pub proof fn lemma_decode_fits(opcode: u16)
    ensures
        decode(opcode) matches Some(instr) ==> instr.fits(),
{
    assert(opcode & 0xFFF <= 0xFFF) by (bit_vector);
    assert(opcode & 0xF <= 0xF) by (bit_vector);
}

} // verus!
