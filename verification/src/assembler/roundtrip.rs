//! The assembler's encoding and the interpreter's decoder are inverse to
//! each other.

use crate::assembler::ast::AddrView;
use crate::assembler::ast::Opcode;
use crate::assembler::generator::encode;
use crate::assembler::generator::resolve;
use crate::assembler::generator::with_addr;
use crate::assembler::generator::with_reg;
use crate::assembler::generator::with_reg_imm;
use crate::assembler::generator::with_reg_reg;
use crate::assembler::generator::with_reg_reg_nib;
use crate::opcode::decode;
use crate::opcode::field_x;
use crate::opcode::field_y;
use crate::opcode::Instr;
use crate::register::VReg;
use vstd::prelude::*;

verus! {

/// A decoded instruction as the assembler writes it: registers by their
/// numbers, addresses as they stand.
pub open spec fn source_of(instr: Instr) -> Opcode<AddrView> {
    match instr {
        Instr::ClearDisplay => Opcode::ClearDisplay,
        Instr::Return => Opcode::Return,
        Instr::Jump(nnn) => Opcode::Jump(AddrView::Imm(nnn)),
        Instr::Call(nnn) => Opcode::Call(AddrView::Imm(nnn)),
        Instr::SkipEqImm(x, kk) => Opcode::SkipEqImm(x.number() as u8, kk),
        Instr::SkipNotEqImm(x, kk) => Opcode::SkipNotEqImm(x.number() as u8, kk),
        Instr::SkipEqReg(x, y) => Opcode::SkipEqReg(x.number() as u8, y.number() as u8),
        Instr::LoadImm(x, kk) => Opcode::LoadImm(x.number() as u8, kk),
        Instr::AddImm(x, kk) => Opcode::AddImm(x.number() as u8, kk),
        Instr::LoadReg(x, y) => Opcode::LoadReg(x.number() as u8, y.number() as u8),
        Instr::OrReg(x, y) => Opcode::OrReg(x.number() as u8, y.number() as u8),
        Instr::AndReg(x, y) => Opcode::AndReg(x.number() as u8, y.number() as u8),
        Instr::XorReg(x, y) => Opcode::XorReg(x.number() as u8, y.number() as u8),
        Instr::AddReg(x, y) => Opcode::AddReg(x.number() as u8, y.number() as u8),
        Instr::SubReg(x, y) => Opcode::SubReg(x.number() as u8, y.number() as u8),
        Instr::ShiftRight(x, y) => Opcode::ShiftRight(x.number() as u8, y.number() as u8),
        Instr::SubN(x, y) => Opcode::SubN(x.number() as u8, y.number() as u8),
        Instr::ShiftLeft(x, y) => Opcode::ShiftLeft(x.number() as u8, y.number() as u8),
        Instr::SkipNotEqReg(x, y) => Opcode::SkipNotEqReg(x.number() as u8, y.number() as u8),
        Instr::LoadI(nnn) => Opcode::LoadI(AddrView::Imm(nnn)),
        Instr::JumpV0(nnn) => Opcode::JumpV0(AddrView::Imm(nnn)),
        Instr::Random(x, kk) => Opcode::Random(x.number() as u8, kk),
        Instr::Draw(x, y, n) => Opcode::Draw(x.number() as u8, y.number() as u8, n),
        Instr::SkipKeyPressed(x) => Opcode::SkipKeyPressed(x.number() as u8),
        Instr::SkipKeyNotPressed(x) => Opcode::SkipKeyNotPressed(x.number() as u8),
        Instr::LoadDelayTimer(x) => Opcode::LoadDelayTimer(x.number() as u8),
        Instr::WaitKeyPress(x) => Opcode::WaitKeyPress(x.number() as u8),
        Instr::SetDelayTimer(x) => Opcode::SetDelayTimer(x.number() as u8),
        Instr::SetSoundTimer(x) => Opcode::SetSoundTimer(x.number() as u8),
        Instr::AddI(x) => Opcode::AddI(x.number() as u8),
        Instr::LoadSprite(x) => Opcode::LoadSprite(x.number() as u8),
        Instr::LoadBCD(x) => Opcode::LoadBCD(x.number() as u8),
        Instr::SaveRegs(x) => Opcode::SaveRegs(x.number() as u8),
        Instr::LoadRegs(x) => Opcode::LoadRegs(x.number() as u8),
    }
}

/// An address goes into the low twelve bits and comes out of them.
proof fn lemma_addr_fields(c: u16, a: u16)
    requires
        c & 0x0FFF == 0,
        a <= 0xFFF,
    ensures
        with_addr(c, a as int) >> 12 == c >> 12,
        with_addr(c, a as int) & 0xFFF == a,
        (c >> 12) != 0 ==> with_addr(c, a as int) != 0x00E0 && with_addr(c, a as int) != 0x00EE,
{
    assert((a as int % 0x1000) as u16 == a);
    assert(c & 0x0FFF == 0 && a <= 0xFFF ==> (c | a) >> 12 == c >> 12 && (c | a) & 0xFFF == a && (
    (c >> 12) != 0 ==> (c | a) != 0x00E0 && (c | a) != 0x00EE)) by (bit_vector);
}

/// A register and a byte go into their fields and come out of them.
proof fn lemma_reg_imm_fields(c: u16, r: u8, b: u8)
    requires
        c & 0x0FFF == 0,
        r < 16,
    ensures
        with_reg_imm(c, r, b) >> 12 == c >> 12,
        (with_reg_imm(c, r, b) >> 8) & 0x0F == r,
        (with_reg_imm(c, r, b) & 0xFF) as u8 == b,
        (c >> 12) != 0 ==> with_reg_imm(c, r, b) != 0x00E0 && with_reg_imm(c, r, b) != 0x00EE,
{
    let (r16, b16) = (r as u16, b as u16);
    assert(c & 0x0FFF == 0 && r16 < 16 && b16 < 256 ==> ({
        let w = c | (r16 << 8) | b16;
        w >> 12 == c >> 12 && (w >> 8) & 0x0F == r16 && w & 0xFF == b16 && ((c >> 12) != 0 ==> w
            != 0x00E0 && w != 0x00EE)
    })) by (bit_vector);
}

/// Two registers go into their fields and come out of them, and the low
/// nibble of the code stays.
proof fn lemma_reg_reg_fields(c: u16, r1: u8, r2: u8)
    requires
        c & 0x0FF0 == 0,
        r1 < 16,
        r2 < 16,
    ensures
        with_reg_reg(c, r1, r2) >> 12 == c >> 12,
        (with_reg_reg(c, r1, r2) >> 8) & 0x0F == r1,
        (with_reg_reg(c, r1, r2) >> 4) & 0x0F == r2,
        with_reg_reg(c, r1, r2) & 0xF == c & 0xF,
        (c >> 12) != 0 ==> with_reg_reg(c, r1, r2) != 0x00E0 && with_reg_reg(c, r1, r2) != 0x00EE,
{
    let (a, b) = (r1 as u16, r2 as u16);
    assert(c & 0x0FF0 == 0 && a < 16 && b < 16 ==> ({
        let w = c | (a << 8) | (b << 4);
        w >> 12 == c >> 12 && (w >> 8) & 0x0F == a && (w >> 4) & 0x0F == b && w & 0xF == c & 0xF
            && ((c >> 12) != 0 ==> w != 0x00E0 && w != 0x00EE)
    })) by (bit_vector);
}

/// Two registers and a nibble go into their fields and come out of them.
proof fn lemma_reg_reg_nib_fields(c: u16, r1: u8, r2: u8, n: u8)
    requires
        c & 0x0FFF == 0,
        r1 < 16,
        r2 < 16,
        n < 16,
    ensures
        with_reg_reg_nib(c, r1, r2, n) >> 12 == c >> 12,
        (with_reg_reg_nib(c, r1, r2, n) >> 8) & 0x0F == r1,
        (with_reg_reg_nib(c, r1, r2, n) >> 4) & 0x0F == r2,
        (with_reg_reg_nib(c, r1, r2, n) & 0xF) as u8 == n,
        (c >> 12) != 0 ==> with_reg_reg_nib(c, r1, r2, n) != 0x00E0 && with_reg_reg_nib(
            c,
            r1,
            r2,
            n,
        ) != 0x00EE,
{
    let (a, b, m) = (r1 as u16, r2 as u16, n as u16);
    assert(c & 0x0FFF == 0 && a < 16 && b < 16 && m < 16 ==> ({
        let w = c | (a << 8) | (b << 4) | (m & 0xF);
        w >> 12 == c >> 12 && (w >> 8) & 0x0F == a && (w >> 4) & 0x0F == b && w & 0xF == m && ((c
            >> 12) != 0 ==> w != 0x00E0 && w != 0x00EE)
    })) by (bit_vector);
}

/// A register goes into its field and comes out of it, and the low byte of
/// the code stays.
proof fn lemma_reg_fields(c: u16, r: u8)
    requires
        c & 0x0F00 == 0,
        r < 16,
    ensures
        with_reg(c, r) >> 12 == c >> 12,
        (with_reg(c, r) >> 8) & 0x0F == r,
        with_reg(c, r) & 0xFF == c & 0xFF,
        (c >> 12) != 0 ==> with_reg(c, r) != 0x00E0 && with_reg(c, r) != 0x00EE,
{
    let a = r as u16;
    assert(c & 0x0F00 == 0 && a < 16 ==> ({
        let w = c | (a << 8);
        w >> 12 == c >> 12 && (w >> 8) & 0x0F == a && w & 0xFF == c & 0xFF && ((c >> 12) != 0
            ==> w != 0x00E0 && w != 0x00EE)
    })) by (bit_vector);
}

/// The nibbles and bytes of the codes that the encoding starts from.
proof fn lemma_base_codes()
    ensures
        0x00E0u16 >> 12 == 0 && 0x00EEu16 >> 12 == 0,
        0x1000u16 >> 12 == 1 && 0x1000u16 & 0xFFF == 0,
        0x2000u16 >> 12 == 2 && 0x2000u16 & 0xFFF == 0,
        0x3000u16 >> 12 == 3 && 0x3000u16 & 0xFFF == 0,
        0x4000u16 >> 12 == 4 && 0x4000u16 & 0xFFF == 0,
        0x5000u16 >> 12 == 5 && 0x5000u16 & 0xFF0 == 0 && 0x5000u16 & 0xF == 0,
        0x6000u16 >> 12 == 6 && 0x6000u16 & 0xFFF == 0,
        0x7000u16 >> 12 == 7 && 0x7000u16 & 0xFFF == 0,
        0x8000u16 >> 12 == 8 && 0x8000u16 & 0xFF0 == 0 && 0x8000u16 & 0xF == 0,
        0x8001u16 >> 12 == 8 && 0x8001u16 & 0xFF0 == 0 && 0x8001u16 & 0xF == 1,
        0x8002u16 >> 12 == 8 && 0x8002u16 & 0xFF0 == 0 && 0x8002u16 & 0xF == 2,
        0x8003u16 >> 12 == 8 && 0x8003u16 & 0xFF0 == 0 && 0x8003u16 & 0xF == 3,
        0x8004u16 >> 12 == 8 && 0x8004u16 & 0xFF0 == 0 && 0x8004u16 & 0xF == 4,
        0x8005u16 >> 12 == 8 && 0x8005u16 & 0xFF0 == 0 && 0x8005u16 & 0xF == 5,
        0x8006u16 >> 12 == 8 && 0x8006u16 & 0xFF0 == 0 && 0x8006u16 & 0xF == 6,
        0x8007u16 >> 12 == 8 && 0x8007u16 & 0xFF0 == 0 && 0x8007u16 & 0xF == 7,
        0x800Eu16 >> 12 == 8 && 0x800Eu16 & 0xFF0 == 0 && 0x800Eu16 & 0xF == 0xE,
        0x9000u16 >> 12 == 9 && 0x9000u16 & 0xFF0 == 0 && 0x9000u16 & 0xF == 0,
        0xA000u16 >> 12 == 0xA && 0xA000u16 & 0xFFF == 0,
        0xB000u16 >> 12 == 0xB && 0xB000u16 & 0xFFF == 0,
        0xC000u16 >> 12 == 0xC && 0xC000u16 & 0xFFF == 0,
        0xD000u16 >> 12 == 0xD && 0xD000u16 & 0xFFF == 0,
        0xE09Eu16 >> 12 == 0xE && 0xE09Eu16 & 0xF00 == 0 && 0xE09Eu16 & 0xFF == 0x9E,
        0xE0A1u16 >> 12 == 0xE && 0xE0A1u16 & 0xF00 == 0 && 0xE0A1u16 & 0xFF == 0xA1,
        0xF007u16 >> 12 == 0xF && 0xF007u16 & 0xF00 == 0 && 0xF007u16 & 0xFF == 0x07,
        0xF00Au16 >> 12 == 0xF && 0xF00Au16 & 0xF00 == 0 && 0xF00Au16 & 0xFF == 0x0A,
        0xF015u16 >> 12 == 0xF && 0xF015u16 & 0xF00 == 0 && 0xF015u16 & 0xFF == 0x15,
        0xF018u16 >> 12 == 0xF && 0xF018u16 & 0xF00 == 0 && 0xF018u16 & 0xFF == 0x18,
        0xF01Eu16 >> 12 == 0xF && 0xF01Eu16 & 0xF00 == 0 && 0xF01Eu16 & 0xFF == 0x1E,
        0xF029u16 >> 12 == 0xF && 0xF029u16 & 0xF00 == 0 && 0xF029u16 & 0xFF == 0x29,
        0xF033u16 >> 12 == 0xF && 0xF033u16 & 0xF00 == 0 && 0xF033u16 & 0xFF == 0x33,
        0xF055u16 >> 12 == 0xF && 0xF055u16 & 0xF00 == 0 && 0xF055u16 & 0xFF == 0x55,
        0xF065u16 >> 12 == 0xF && 0xF065u16 & 0xF00 == 0 && 0xF065u16 & 0xFF == 0x65,
{
    assert(0x00E0u16 >> 12 == 0 && 0x00EEu16 >> 12 == 0 && 0x1000u16 >> 12 == 1 && 0x1000u16
        & 0xFFF == 0 && 0x2000u16 >> 12 == 2 && 0x2000u16
        & 0xFFF == 0 && 0x3000u16 >> 12 == 3 && 0x3000u16 & 0xFFF == 0 && 0x4000u16 >> 12 == 4
        && 0x4000u16 & 0xFFF == 0 && 0x5000u16 >> 12 == 5 && 0x5000u16 & 0xFF0 == 0 && 0x5000u16
        & 0xF == 0 && 0x6000u16 >> 12 == 6 && 0x6000u16 & 0xFFF == 0 && 0x7000u16 >> 12 == 7
        && 0x7000u16 & 0xFFF == 0 && 0x9000u16 >> 12 == 9 && 0x9000u16 & 0xFF0 == 0 && 0x9000u16
        & 0xF == 0 && 0xA000u16 >> 12 == 0xA && 0xA000u16 & 0xFFF == 0 && 0xB000u16 >> 12 == 0xB
        && 0xB000u16 & 0xFFF == 0 && 0xC000u16 >> 12 == 0xC && 0xC000u16 & 0xFFF == 0 && 0xD000u16
        >> 12 == 0xD && 0xD000u16 & 0xFFF == 0) by (bit_vector);
    assert(0x8000u16 >> 12 == 8 && 0x8000u16 & 0xFF0 == 0 && 0x8000u16 & 0xF == 0 && 0x8001u16
        >> 12 == 8 && 0x8001u16 & 0xFF0 == 0 && 0x8001u16 & 0xF == 1 && 0x8002u16 >> 12 == 8
        && 0x8002u16 & 0xFF0 == 0 && 0x8002u16 & 0xF == 2 && 0x8003u16 >> 12 == 8 && 0x8003u16
        & 0xFF0 == 0 && 0x8003u16 & 0xF == 3 && 0x8004u16 >> 12 == 8 && 0x8004u16 & 0xFF0 == 0
        && 0x8004u16 & 0xF == 4 && 0x8005u16 >> 12 == 8 && 0x8005u16 & 0xFF0 == 0 && 0x8005u16
        & 0xF == 5 && 0x8006u16 >> 12 == 8 && 0x8006u16 & 0xFF0 == 0 && 0x8006u16 & 0xF == 6
        && 0x8007u16 >> 12 == 8 && 0x8007u16 & 0xFF0 == 0 && 0x8007u16 & 0xF == 7 && 0x800Eu16
        >> 12 == 8 && 0x800Eu16 & 0xFF0 == 0 && 0x800Eu16 & 0xF == 0xE) by (bit_vector);
    assert(0xE09Eu16 >> 12 == 0xE && 0xE09Eu16 & 0xF00 == 0 && 0xE09Eu16 & 0xFF == 0x9E
        && 0xE0A1u16 >> 12 == 0xE && 0xE0A1u16 & 0xF00 == 0 && 0xE0A1u16 & 0xFF == 0xA1
        && 0xF007u16 >> 12 == 0xF && 0xF007u16 & 0xF00 == 0 && 0xF007u16 & 0xFF == 0x07
        && 0xF00Au16 >> 12 == 0xF && 0xF00Au16 & 0xF00 == 0 && 0xF00Au16 & 0xFF == 0x0A
        && 0xF015u16 >> 12 == 0xF && 0xF015u16 & 0xF00 == 0 && 0xF015u16 & 0xFF == 0x15
        && 0xF018u16 >> 12 == 0xF && 0xF018u16 & 0xF00 == 0 && 0xF018u16 & 0xFF == 0x18
        && 0xF01Eu16 >> 12 == 0xF && 0xF01Eu16 & 0xF00 == 0 && 0xF01Eu16 & 0xFF == 0x1E
        && 0xF029u16 >> 12 == 0xF && 0xF029u16 & 0xF00 == 0 && 0xF029u16 & 0xFF == 0x29
        && 0xF033u16 >> 12 == 0xF && 0xF033u16 & 0xF00 == 0 && 0xF033u16 & 0xFF == 0x33
        && 0xF055u16 >> 12 == 0xF && 0xF055u16 & 0xF00 == 0 && 0xF055u16 & 0xFF == 0x55
        && 0xF065u16 >> 12 == 0xF && 0xF065u16 & 0xF00 == 0 && 0xF065u16 & 0xFF == 0x65)
        by (bit_vector);
}

/// The instructions without operands.
proof fn lemma_round_trip_plain(instr: Instr, labels: Map<Seq<char>, int>)
    requires
        instr.fits(),
        instr is ClearDisplay || instr is Return,
    ensures
        encode(source_of(instr), labels) is Ok,
        decode(encode(source_of(instr), labels)->Ok_0) == Some(instr),
{
    lemma_base_codes();
    broadcast use VReg::lemma_number_numbered;

    match instr {
        Instr::ClearDisplay => {},
        Instr::Return => {},
        _ => {},
    }
}

/// The instructions with an address.
proof fn lemma_round_trip_addr(instr: Instr, labels: Map<Seq<char>, int>)
    requires
        instr.fits(),
        instr is Jump || instr is Call || instr is LoadI || instr is JumpV0,
    ensures
        encode(source_of(instr), labels) is Ok,
        decode(encode(source_of(instr), labels)->Ok_0) == Some(instr),
{
    lemma_base_codes();
    broadcast use VReg::lemma_number_numbered;

    match instr {
        Instr::Jump(nnn) => lemma_addr_fields(0x1000, nnn),
        Instr::Call(nnn) => lemma_addr_fields(0x2000, nnn),
        Instr::LoadI(nnn) => lemma_addr_fields(0xA000, nnn),
        Instr::JumpV0(nnn) => lemma_addr_fields(0xB000, nnn),
        _ => {},
    }
}

/// The instructions with a register and a byte.
proof fn lemma_round_trip_reg_imm(instr: Instr, labels: Map<Seq<char>, int>)
    requires
        instr.fits(),
        instr is SkipEqImm || instr is SkipNotEqImm || instr is LoadImm || instr is AddImm
            || instr is Random,
    ensures
        encode(source_of(instr), labels) is Ok,
        decode(encode(source_of(instr), labels)->Ok_0) == Some(instr),
{
    lemma_base_codes();
    broadcast use VReg::lemma_number_numbered;

    match instr {
        Instr::SkipEqImm(x, kk) => lemma_reg_imm_fields(0x3000, x.number() as u8, kk),
        Instr::SkipNotEqImm(x, kk) => lemma_reg_imm_fields(0x4000, x.number() as u8, kk),
        Instr::LoadImm(x, kk) => lemma_reg_imm_fields(0x6000, x.number() as u8, kk),
        Instr::AddImm(x, kk) => lemma_reg_imm_fields(0x7000, x.number() as u8, kk),
        Instr::Random(x, kk) => lemma_reg_imm_fields(0xC000, x.number() as u8, kk),
        _ => {},
    }
}

/// The instructions with two registers.
proof fn lemma_round_trip_reg_reg(instr: Instr, labels: Map<Seq<char>, int>)
    requires
        instr.fits(),
        instr is SkipEqReg || instr is LoadReg || instr is OrReg || instr is AndReg
            || instr is XorReg || instr is AddReg || instr is SubReg || instr is ShiftRight
            || instr is SubN || instr is ShiftLeft || instr is SkipNotEqReg,
    ensures
        encode(source_of(instr), labels) is Ok,
        decode(encode(source_of(instr), labels)->Ok_0) == Some(instr),
{
    lemma_base_codes();
    broadcast use VReg::lemma_number_numbered;

    match instr {
        Instr::SkipEqReg(x, y) => lemma_reg_reg_fields(
            0x5000,
            x.number() as u8,
            y.number() as u8,
        ),
        Instr::LoadReg(x, y) => lemma_reg_reg_fields(0x8000, x.number() as u8, y.number() as u8),
        Instr::OrReg(x, y) => lemma_reg_reg_fields(0x8001, x.number() as u8, y.number() as u8),
        Instr::AndReg(x, y) => lemma_reg_reg_fields(0x8002, x.number() as u8, y.number() as u8),
        Instr::XorReg(x, y) => lemma_reg_reg_fields(0x8003, x.number() as u8, y.number() as u8),
        Instr::AddReg(x, y) => lemma_reg_reg_fields(0x8004, x.number() as u8, y.number() as u8),
        Instr::SubReg(x, y) => lemma_reg_reg_fields(0x8005, x.number() as u8, y.number() as u8),
        Instr::ShiftRight(x, y) => lemma_reg_reg_fields(
            0x8006,
            x.number() as u8,
            y.number() as u8,
        ),
        Instr::SubN(x, y) => lemma_reg_reg_fields(0x8007, x.number() as u8, y.number() as u8),
        Instr::ShiftLeft(x, y) => lemma_reg_reg_fields(
            0x800E,
            x.number() as u8,
            y.number() as u8,
        ),
        Instr::SkipNotEqReg(x, y) => lemma_reg_reg_fields(
            0x9000,
            x.number() as u8,
            y.number() as u8,
        ),
        _ => {},
    }
}

/// The instruction with two registers and a nibble.
proof fn lemma_round_trip_draw(instr: Instr, labels: Map<Seq<char>, int>)
    requires
        instr.fits(),
        instr is Draw,
    ensures
        encode(source_of(instr), labels) is Ok,
        decode(encode(source_of(instr), labels)->Ok_0) == Some(instr),
{
    lemma_base_codes();
    broadcast use VReg::lemma_number_numbered;

    match instr {
        Instr::Draw(x, y, n) => lemma_reg_reg_nib_fields(
            0xD000,
            x.number() as u8,
            y.number() as u8,
            n,
        ),
        _ => {},
    }
}

/// The instructions with one register.
proof fn lemma_round_trip_reg(instr: Instr, labels: Map<Seq<char>, int>)
    requires
        instr.fits(),
        instr is SkipKeyPressed || instr is SkipKeyNotPressed || instr is LoadDelayTimer
            || instr is WaitKeyPress || instr is SetDelayTimer || instr is SetSoundTimer
            || instr is AddI || instr is LoadSprite || instr is LoadBCD || instr is SaveRegs
            || instr is LoadRegs,
    ensures
        encode(source_of(instr), labels) is Ok,
        decode(encode(source_of(instr), labels)->Ok_0) == Some(instr),
{
    lemma_base_codes();
    broadcast use VReg::lemma_number_numbered;

    match instr {
        Instr::SkipKeyPressed(x) => lemma_reg_fields(0xE09E, x.number() as u8),
        Instr::SkipKeyNotPressed(x) => lemma_reg_fields(0xE0A1, x.number() as u8),
        Instr::LoadDelayTimer(x) => lemma_reg_fields(0xF007, x.number() as u8),
        Instr::WaitKeyPress(x) => lemma_reg_fields(0xF00A, x.number() as u8),
        Instr::SetDelayTimer(x) => lemma_reg_fields(0xF015, x.number() as u8),
        Instr::SetSoundTimer(x) => lemma_reg_fields(0xF018, x.number() as u8),
        Instr::AddI(x) => lemma_reg_fields(0xF01E, x.number() as u8),
        Instr::LoadSprite(x) => lemma_reg_fields(0xF029, x.number() as u8),
        Instr::LoadBCD(x) => lemma_reg_fields(0xF033, x.number() as u8),
        Instr::SaveRegs(x) => lemma_reg_fields(0xF055, x.number() as u8),
        Instr::LoadRegs(x) => lemma_reg_fields(0xF065, x.number() as u8),
        _ => {},
    }
}

/// Encoding an instruction and decoding the word gives the instruction
/// back, whatever the labels are: its addresses are immediate.
pub proof fn lemma_encode_then_decode(instr: Instr, labels: Map<Seq<char>, int>)
    requires
        instr.fits(),
    ensures
        encode(source_of(instr), labels) is Ok,
        decode(encode(source_of(instr), labels)->Ok_0) == Some(instr),
{
    match instr {
        Instr::ClearDisplay | Instr::Return => lemma_round_trip_plain(instr, labels),
        Instr::Jump(_) | Instr::Call(_) | Instr::LoadI(_) | Instr::JumpV0(_) => {
            lemma_round_trip_addr(instr, labels)
        },
        Instr::SkipEqImm(_, _) | Instr::SkipNotEqImm(_, _) | Instr::LoadImm(_, _) | Instr::AddImm(
            _,
            _,
        ) | Instr::Random(_, _) => lemma_round_trip_reg_imm(instr, labels),
        Instr::Draw(_, _, _) => lemma_round_trip_draw(instr, labels),
        Instr::SkipEqReg(_, _) | Instr::LoadReg(_, _) | Instr::OrReg(_, _) | Instr::AndReg(_, _)
        | Instr::XorReg(_, _) | Instr::AddReg(_, _) | Instr::SubReg(_, _) | Instr::ShiftRight(
            _,
            _,
        ) | Instr::SubN(_, _) | Instr::ShiftLeft(_, _) | Instr::SkipNotEqReg(_, _) => {
            lemma_round_trip_reg_reg(instr, labels)
        },
        _ => lemma_round_trip_reg(instr, labels),
    }
}

/// An address operand as a number of twelve bits, once its label is looked
/// up; `None` where no line defines the label.
pub open spec fn resolved_addr(a: AddrView, labels: Map<Seq<char>, int>) -> Option<AddrView> {
    match resolve(a, labels) {
        Ok(address) => Some(AddrView::Imm((address % 0x1000) as u16)),
        Err(_) => None,
    }
}

/// An instruction with its address, if it has one, as a number of twelve
/// bits; `None` where no line defines the label that it names.
pub open spec fn resolved(o: Opcode<AddrView>, labels: Map<Seq<char>, int>) -> Option<
    Opcode<AddrView>,
> {
    match o {
        Opcode::Jump(a) => match resolved_addr(a, labels) {
            Some(r) => Some(Opcode::Jump(r)),
            None => None,
        },
        Opcode::Call(a) => match resolved_addr(a, labels) {
            Some(r) => Some(Opcode::Call(r)),
            None => None,
        },
        Opcode::LoadI(a) => match resolved_addr(a, labels) {
            Some(r) => Some(Opcode::LoadI(r)),
            None => None,
        },
        Opcode::JumpV0(a) => match resolved_addr(a, labels) {
            Some(r) => Some(Opcode::JumpV0(r)),
            None => None,
        },
        _ => Some(o),
    }
}

/// Resolving the labels first changes nothing of the word.
pub proof fn lemma_encode_resolved(o: Opcode<AddrView>, labels: Map<Seq<char>, int>)
    requires
        resolved(o, labels) is Some,
    ensures
        encode(o, labels) == encode(resolved(o, labels)->0, labels),
{
    match o {
        Opcode::Jump(a) | Opcode::Call(a) | Opcode::LoadI(a) | Opcode::JumpV0(a) => {
            let address = resolve(a, labels)->Ok_0;
            assert((address % 0x1000) % 0x1000 == address % 0x1000);
        },
        _ => {},
    }
}

/// Where a line of source, with its labels resolved, is an instruction of
/// the machine as the assembler writes it, the word that the line assembles
/// to decodes to that instruction.
pub proof fn lemma_assembled_word_decodes(
    o: Opcode<AddrView>,
    labels: Map<Seq<char>, int>,
    instr: Instr,
)
    requires
        instr.fits(),
        resolved(o, labels) == Some(source_of(instr)),
    ensures
        encode(o, labels) is Ok,
        decode(encode(o, labels)->Ok_0) == Some(instr),
{
    lemma_encode_resolved(o, labels);
    lemma_encode_then_decode(instr, labels);
}

/// A word that begins with the nibble of an address instruction is that
/// nibble and its low twelve bits.
proof fn lemma_word_of_addr(w: u16)
    ensures
        w >> 12 == 0x1 ==> 0x1000 | (w & 0xFFF) == w,
        w >> 12 == 0x2 ==> 0x2000 | (w & 0xFFF) == w,
        w >> 12 == 0xA ==> 0xA000 | (w & 0xFFF) == w,
        w >> 12 == 0xB ==> 0xB000 | (w & 0xFFF) == w,
{
    assert((w >> 12 == 0x1 ==> 0x1000 | (w & 0xFFF) == w) && (w >> 12 == 0x2 ==> 0x2000 | (w
        & 0xFFF) == w) && (w >> 12 == 0xA ==> 0xA000 | (w & 0xFFF) == w) && (w >> 12 == 0xB
        ==> 0xB000 | (w & 0xFFF) == w)) by (bit_vector);
}

/// A word that begins with the nibble of an instruction with a register and
/// a byte is that nibble, the register and the byte.
proof fn lemma_word_of_reg_imm(w: u16)
    ensures
        w >> 12 == 0x3 ==> 0x3000 | (((w >> 8) & 0xF) << 8) | (w & 0xFF) == w,
        w >> 12 == 0x4 ==> 0x4000 | (((w >> 8) & 0xF) << 8) | (w & 0xFF) == w,
        w >> 12 == 0x6 ==> 0x6000 | (((w >> 8) & 0xF) << 8) | (w & 0xFF) == w,
        w >> 12 == 0x7 ==> 0x7000 | (((w >> 8) & 0xF) << 8) | (w & 0xFF) == w,
        w >> 12 == 0xC ==> 0xC000 | (((w >> 8) & 0xF) << 8) | (w & 0xFF) == w,
{
    assert((w >> 12 == 0x3 ==> 0x3000 | (((w >> 8) & 0xF) << 8) | (w & 0xFF) == w) && (w >> 12
        == 0x4 ==> 0x4000 | (((w >> 8) & 0xF) << 8) | (w & 0xFF) == w) && (w >> 12 == 0x6
        ==> 0x6000 | (((w >> 8) & 0xF) << 8) | (w & 0xFF) == w) && (w >> 12 == 0x7 ==> 0x7000 | (((
    w >> 8) & 0xF) << 8) | (w & 0xFF) == w) && (w >> 12 == 0xC ==> 0xC000 | (((w >> 8) & 0xF)
        << 8) | (w & 0xFF) == w)) by (bit_vector);
}

/// A word of an instruction with two registers is its code and the two
/// registers.
proof fn lemma_word_of_reg_reg(w: u16, c: u16)
    requires
        c & 0x0FF0 == 0,
        w >> 12 == c >> 12,
        w & 0xF == c & 0xF,
    ensures
        c | (((w >> 8) & 0xF) << 8) | (((w >> 4) & 0xF) << 4) == w,
{
    assert(c & 0x0FF0 == 0 && w >> 12 == c >> 12 && w & 0xF == c & 0xF ==> c | (((w >> 8) & 0xF)
        << 8) | (((w >> 4) & 0xF) << 4) == w) by (bit_vector);
}

/// A word that begins with the nibble D is that nibble, two registers and a
/// nibble.
proof fn lemma_word_of_draw(w: u16)
    ensures
        w >> 12 == 0xD ==> 0xD000 | (((w >> 8) & 0xF) << 8) | (((w >> 4) & 0xF) << 4) | ((w & 0xF)
            & 0xF) == w,
{
    assert(w >> 12 == 0xD ==> 0xD000 | (((w >> 8) & 0xF) << 8) | (((w >> 4) & 0xF) << 4) | ((w
        & 0xF) & 0xF) == w) by (bit_vector);
}

/// A word of an instruction with one register is its code and the register.
proof fn lemma_word_of_reg(w: u16, c: u16)
    requires
        c & 0x0F00 == 0,
        w >> 12 == c >> 12,
        w & 0xFF == c & 0xFF,
    ensures
        c | (((w >> 8) & 0xF) << 8) == w,
{
    assert(c & 0x0F00 == 0 && w >> 12 == c >> 12 && w & 0xFF == c & 0xFF ==> c | (((w >> 8) & 0xF)
        << 8) == w) by (bit_vector);
}

/// The fields of a word are small enough for their places.
proof fn lemma_field_bounds(w: u16)
    ensures
        (w >> 8) & 0xF < 16,
        (w >> 4) & 0xF < 16,
        w & 0xFFF <= 0xFFF,
        w & 0xFF <= 0xFF,
        w & 0xF < 16,
{
    assert((w >> 8) & 0xF < 16 && (w >> 4) & 0xF < 16 && w & 0xFFF <= 0xFFF && w & 0xFF <= 0xFF
        && w & 0xF < 16) by (bit_vector);
}

/// The written form of what a word decodes to has the fields of the word as
/// its operands.
proof fn lemma_decoded_fields(w: u16)
    ensures
        field_x(w).number() == (w >> 8) & 0xF,
        field_y(w).number() == (w >> 4) & 0xF,
{
    lemma_field_bounds(w);
    VReg::lemma_numbered_number(((w >> 8) & 0xF) as int);
    VReg::lemma_numbered_number(((w >> 4) & 0xF) as int);
}

proof fn lemma_decode_then_encode_addr(w: u16, labels: Map<Seq<char>, int>)
    requires
        decode(w) is Some,
        w >> 12 == 0x1 || w >> 12 == 0x2 || w >> 12 == 0xA || w >> 12 == 0xB,
    ensures
        encode(source_of(decode(w)->0), labels) == Ok::<u16, Seq<char>>(w),
{
    lemma_word_of_addr(w);
    lemma_field_bounds(w);
    lemma_base_codes();
    let nnn = w & 0xFFF;
    assert((nnn as int % 0x1000) as u16 == nnn);
}

proof fn lemma_decode_then_encode_reg_imm(w: u16, labels: Map<Seq<char>, int>)
    requires
        decode(w) is Some,
        w >> 12 == 0x3 || w >> 12 == 0x4 || w >> 12 == 0x6 || w >> 12 == 0x7 || w >> 12 == 0xC,
    ensures
        encode(source_of(decode(w)->0), labels) == Ok::<u16, Seq<char>>(w),
{
    lemma_word_of_reg_imm(w);
    lemma_field_bounds(w);
    lemma_decoded_fields(w);
    lemma_base_codes();
}

proof fn lemma_decode_then_encode_reg_reg(w: u16, labels: Map<Seq<char>, int>)
    requires
        decode(w) is Some,
        w >> 12 == 0x5 || w >> 12 == 0x8 || w >> 12 == 0x9,
    ensures
        encode(source_of(decode(w)->0), labels) == Ok::<u16, Seq<char>>(w),
{
    lemma_field_bounds(w);
    lemma_decoded_fields(w);
    lemma_base_codes();
    let lsn = w & 0xF;
    if w >> 12 == 0x5 {
        lemma_word_of_reg_reg(w, 0x5000);
    } else if w >> 12 == 0x9 {
        lemma_word_of_reg_reg(w, 0x9000);
    } else if lsn == 0x0 {
        lemma_word_of_reg_reg(w, 0x8000);
    } else if lsn == 0x1 {
        lemma_word_of_reg_reg(w, 0x8001);
    } else if lsn == 0x2 {
        lemma_word_of_reg_reg(w, 0x8002);
    } else if lsn == 0x3 {
        lemma_word_of_reg_reg(w, 0x8003);
    } else if lsn == 0x4 {
        lemma_word_of_reg_reg(w, 0x8004);
    } else if lsn == 0x5 {
        lemma_word_of_reg_reg(w, 0x8005);
    } else if lsn == 0x6 {
        lemma_word_of_reg_reg(w, 0x8006);
    } else if lsn == 0x7 {
        lemma_word_of_reg_reg(w, 0x8007);
    } else {
        lemma_word_of_reg_reg(w, 0x800E);
    }
}

proof fn lemma_decode_then_encode_draw(w: u16, labels: Map<Seq<char>, int>)
    requires
        decode(w) is Some,
        w >> 12 == 0xD,
    ensures
        encode(source_of(decode(w)->0), labels) == Ok::<u16, Seq<char>>(w),
{
    lemma_word_of_draw(w);
    lemma_field_bounds(w);
    lemma_decoded_fields(w);
    lemma_base_codes();
}

proof fn lemma_decode_then_encode_reg(w: u16, labels: Map<Seq<char>, int>)
    requires
        decode(w) is Some,
        w >> 12 == 0xE || w >> 12 == 0xF,
    ensures
        encode(source_of(decode(w)->0), labels) == Ok::<u16, Seq<char>>(w),
{
    lemma_field_bounds(w);
    lemma_decoded_fields(w);
    lemma_base_codes();
    let lsb = w & 0xFF;
    if w >> 12 == 0xE {
        if lsb == 0x9E {
            lemma_word_of_reg(w, 0xE09E);
        } else {
            lemma_word_of_reg(w, 0xE0A1);
        }
    } else if lsb == 0x07 {
        lemma_word_of_reg(w, 0xF007);
    } else if lsb == 0x0A {
        lemma_word_of_reg(w, 0xF00A);
    } else if lsb == 0x15 {
        lemma_word_of_reg(w, 0xF015);
    } else if lsb == 0x18 {
        lemma_word_of_reg(w, 0xF018);
    } else if lsb == 0x1E {
        lemma_word_of_reg(w, 0xF01E);
    } else if lsb == 0x29 {
        lemma_word_of_reg(w, 0xF029);
    } else if lsb == 0x33 {
        lemma_word_of_reg(w, 0xF033);
    } else if lsb == 0x55 {
        lemma_word_of_reg(w, 0xF055);
    } else {
        lemma_word_of_reg(w, 0xF065);
    }
}

/// Decoding a word and encoding the instruction gives the word back: no two
/// words stand for one instruction.
pub proof fn lemma_decode_then_encode(w: u16, labels: Map<Seq<char>, int>)
    requires
        decode(w) is Some,
    ensures
        encode(source_of(decode(w)->0), labels) == Ok::<u16, Seq<char>>(w),
{
    let msn = w >> 12;
    assert(msn < 16) by (bit_vector)
        requires
            msn == w >> 12,
    ;
    if w == 0x00E0 || w == 0x00EE {
    } else if msn == 0x1 || msn == 0x2 || msn == 0xA || msn == 0xB {
        lemma_decode_then_encode_addr(w, labels);
    } else if msn == 0x3 || msn == 0x4 || msn == 0x6 || msn == 0x7 || msn == 0xC {
        lemma_decode_then_encode_reg_imm(w, labels);
    } else if msn == 0x5 || msn == 0x8 || msn == 0x9 {
        lemma_decode_then_encode_reg_reg(w, labels);
    } else if msn == 0xD {
        lemma_decode_then_encode_draw(w, labels);
    } else if msn == 0xE || msn == 0xF {
        lemma_decode_then_encode_reg(w, labels);
    } else {
    }
}

impl Opcode<AddrView> {
    /// Whether the operands fit their fields: a register number and a row
    /// count are below 16.
    pub open spec fn fits(self) -> bool {
        match self {
            Opcode::SkipEqImm(r, _) => r < 16,
            Opcode::SkipNotEqImm(r, _) => r < 16,
            Opcode::LoadImm(r, _) => r < 16,
            Opcode::AddImm(r, _) => r < 16,
            Opcode::Random(r, _) => r < 16,
            Opcode::SkipEqReg(r1, r2) => r1 < 16 && r2 < 16,
            Opcode::LoadReg(r1, r2) => r1 < 16 && r2 < 16,
            Opcode::OrReg(r1, r2) => r1 < 16 && r2 < 16,
            Opcode::AndReg(r1, r2) => r1 < 16 && r2 < 16,
            Opcode::XorReg(r1, r2) => r1 < 16 && r2 < 16,
            Opcode::AddReg(r1, r2) => r1 < 16 && r2 < 16,
            Opcode::SubReg(r1, r2) => r1 < 16 && r2 < 16,
            Opcode::ShiftRight(r1, r2) => r1 < 16 && r2 < 16,
            Opcode::SubN(r1, r2) => r1 < 16 && r2 < 16,
            Opcode::ShiftLeft(r1, r2) => r1 < 16 && r2 < 16,
            Opcode::SkipNotEqReg(r1, r2) => r1 < 16 && r2 < 16,
            Opcode::Draw(r1, r2, n) => r1 < 16 && r2 < 16 && n < 16,
            Opcode::SkipKeyPressed(r) => r < 16,
            Opcode::SkipKeyNotPressed(r) => r < 16,
            Opcode::LoadDelayTimer(r) => r < 16,
            Opcode::WaitKeyPress(r) => r < 16,
            Opcode::SetDelayTimer(r) => r < 16,
            Opcode::SetSoundTimer(r) => r < 16,
            Opcode::AddI(r) => r < 16,
            Opcode::LoadSprite(r) => r < 16,
            Opcode::LoadBCD(r) => r < 16,
            Opcode::SaveRegs(r) => r < 16,
            Opcode::LoadRegs(r) => r < 16,
            _ => true,
        }
    }
}

/// Whether an instruction, with its label resolved, is the written form of
/// an instruction of the machine whose operands fit their fields.
pub open spec fn is_written(o: Opcode<AddrView>, labels: Map<Seq<char>, int>) -> bool {
    exists|instr: Instr| instr.fits() && resolved(o, labels) == Some(#[trigger] source_of(instr))
}

/// The register with a number below 16 is written as that number.
proof fn lemma_register_of(r: u8)
    requires
        r < 16,
    ensures
        VReg::numbered(r as int) is Some,
        VReg::numbered(r as int)->0.number() as u8 == r,
{
    VReg::lemma_numbered_number(r as int);
}

proof fn lemma_instruction_of_addr(o: Opcode<AddrView>, labels: Map<Seq<char>, int>)
    requires
        resolved(o, labels) is Some,
        o is Jump || o is Call || o is LoadI || o is JumpV0,
    ensures
        is_written(o, labels),
{
    match o {
        Opcode::Jump(a) => {
            let nnn = resolved_addr(a, labels)->0->Imm_0;
            assert(nnn <= 0xFFF);
            assert(resolved(o, labels) == Some(source_of(Instr::Jump(nnn))));
        },
        Opcode::Call(a) => {
            let nnn = resolved_addr(a, labels)->0->Imm_0;
            assert(nnn <= 0xFFF);
            assert(resolved(o, labels) == Some(source_of(Instr::Call(nnn))));
        },
        Opcode::LoadI(a) => {
            let nnn = resolved_addr(a, labels)->0->Imm_0;
            assert(nnn <= 0xFFF);
            assert(resolved(o, labels) == Some(source_of(Instr::LoadI(nnn))));
        },
        Opcode::JumpV0(a) => {
            let nnn = resolved_addr(a, labels)->0->Imm_0;
            assert(nnn <= 0xFFF);
            assert(resolved(o, labels) == Some(source_of(Instr::JumpV0(nnn))));
        },
        _ => {},
    }
}

proof fn lemma_instruction_of_reg_imm(o: Opcode<AddrView>, labels: Map<Seq<char>, int>)
    requires
        o.fits(),
        o is SkipEqImm || o is SkipNotEqImm || o is LoadImm || o is AddImm || o is Random,
    ensures
        is_written(o, labels),
{
    match o {
        Opcode::SkipEqImm(r, b) => {
            lemma_register_of(r);
            assert(resolved(o, labels) == Some(
                source_of(Instr::SkipEqImm(VReg::numbered(r as int)->0, b)),
            ));
        },
        Opcode::SkipNotEqImm(r, b) => {
            lemma_register_of(r);
            assert(resolved(o, labels) == Some(
                source_of(Instr::SkipNotEqImm(VReg::numbered(r as int)->0, b)),
            ));
        },
        Opcode::LoadImm(r, b) => {
            lemma_register_of(r);
            assert(resolved(o, labels) == Some(
                source_of(Instr::LoadImm(VReg::numbered(r as int)->0, b)),
            ));
        },
        Opcode::AddImm(r, b) => {
            lemma_register_of(r);
            assert(resolved(o, labels) == Some(
                source_of(Instr::AddImm(VReg::numbered(r as int)->0, b)),
            ));
        },
        Opcode::Random(r, b) => {
            lemma_register_of(r);
            assert(resolved(o, labels) == Some(
                source_of(Instr::Random(VReg::numbered(r as int)->0, b)),
            ));
        },
        _ => {},
    }
}

proof fn lemma_instruction_of_reg_reg(o: Opcode<AddrView>, labels: Map<Seq<char>, int>)
    requires
        o.fits(),
        o is SkipEqReg || o is LoadReg || o is OrReg || o is AndReg || o is XorReg
            || o is AddReg || o is SubReg || o is ShiftRight || o is SubN || o is ShiftLeft
            || o is SkipNotEqReg || o is Draw,
    ensures
        is_written(o, labels),
{
    match o {
        Opcode::SkipEqReg(r1, r2) => {
            lemma_register_of(r1);
            lemma_register_of(r2);
            assert(resolved(o, labels) == Some(
                source_of(
                    Instr::SkipEqReg(VReg::numbered(r1 as int)->0, VReg::numbered(r2 as int)->0),
                ),
            ));
        },
        Opcode::LoadReg(r1, r2) => {
            lemma_register_of(r1);
            lemma_register_of(r2);
            assert(resolved(o, labels) == Some(
                source_of(
                    Instr::LoadReg(VReg::numbered(r1 as int)->0, VReg::numbered(r2 as int)->0),
                ),
            ));
        },
        Opcode::OrReg(r1, r2) => {
            lemma_register_of(r1);
            lemma_register_of(r2);
            assert(resolved(o, labels) == Some(
                source_of(
                    Instr::OrReg(VReg::numbered(r1 as int)->0, VReg::numbered(r2 as int)->0),
                ),
            ));
        },
        Opcode::AndReg(r1, r2) => {
            lemma_register_of(r1);
            lemma_register_of(r2);
            assert(resolved(o, labels) == Some(
                source_of(
                    Instr::AndReg(VReg::numbered(r1 as int)->0, VReg::numbered(r2 as int)->0),
                ),
            ));
        },
        Opcode::XorReg(r1, r2) => {
            lemma_register_of(r1);
            lemma_register_of(r2);
            assert(resolved(o, labels) == Some(
                source_of(
                    Instr::XorReg(VReg::numbered(r1 as int)->0, VReg::numbered(r2 as int)->0),
                ),
            ));
        },
        Opcode::AddReg(r1, r2) => {
            lemma_register_of(r1);
            lemma_register_of(r2);
            assert(resolved(o, labels) == Some(
                source_of(
                    Instr::AddReg(VReg::numbered(r1 as int)->0, VReg::numbered(r2 as int)->0),
                ),
            ));
        },
        Opcode::SubReg(r1, r2) => {
            lemma_register_of(r1);
            lemma_register_of(r2);
            assert(resolved(o, labels) == Some(
                source_of(
                    Instr::SubReg(VReg::numbered(r1 as int)->0, VReg::numbered(r2 as int)->0),
                ),
            ));
        },
        Opcode::ShiftRight(r1, r2) => {
            lemma_register_of(r1);
            lemma_register_of(r2);
            assert(resolved(o, labels) == Some(
                source_of(
                    Instr::ShiftRight(VReg::numbered(r1 as int)->0, VReg::numbered(r2 as int)->0),
                ),
            ));
        },
        Opcode::SubN(r1, r2) => {
            lemma_register_of(r1);
            lemma_register_of(r2);
            assert(resolved(o, labels) == Some(
                source_of(
                    Instr::SubN(VReg::numbered(r1 as int)->0, VReg::numbered(r2 as int)->0),
                ),
            ));
        },
        Opcode::ShiftLeft(r1, r2) => {
            lemma_register_of(r1);
            lemma_register_of(r2);
            assert(resolved(o, labels) == Some(
                source_of(
                    Instr::ShiftLeft(VReg::numbered(r1 as int)->0, VReg::numbered(r2 as int)->0),
                ),
            ));
        },
        Opcode::SkipNotEqReg(r1, r2) => {
            lemma_register_of(r1);
            lemma_register_of(r2);
            assert(resolved(o, labels) == Some(
                source_of(
                    Instr::SkipNotEqReg(VReg::numbered(r1 as int)->0, VReg::numbered(r2 as int)->0),
                ),
            ));
        },
        Opcode::Draw(r1, r2, n) => {
            lemma_register_of(r1);
            lemma_register_of(r2);
            assert(resolved(o, labels) == Some(
                source_of(
                    Instr::Draw(VReg::numbered(r1 as int)->0, VReg::numbered(r2 as int)->0, n),
                ),
            ));
        },
        _ => {},
    }
}

proof fn lemma_instruction_of_reg(o: Opcode<AddrView>, labels: Map<Seq<char>, int>)
    requires
        o.fits(),
        o is SkipKeyPressed || o is SkipKeyNotPressed || o is LoadDelayTimer
            || o is WaitKeyPress || o is SetDelayTimer || o is SetSoundTimer || o is AddI
            || o is LoadSprite || o is LoadBCD || o is SaveRegs || o is LoadRegs,
    ensures
        is_written(o, labels),
{
    match o {
        Opcode::SkipKeyPressed(r) => {
            lemma_register_of(r);
            assert(resolved(o, labels) == Some(
                source_of(Instr::SkipKeyPressed(VReg::numbered(r as int)->0)),
            ));
        },
        Opcode::SkipKeyNotPressed(r) => {
            lemma_register_of(r);
            assert(resolved(o, labels) == Some(
                source_of(Instr::SkipKeyNotPressed(VReg::numbered(r as int)->0)),
            ));
        },
        Opcode::LoadDelayTimer(r) => {
            lemma_register_of(r);
            assert(resolved(o, labels) == Some(
                source_of(Instr::LoadDelayTimer(VReg::numbered(r as int)->0)),
            ));
        },
        Opcode::WaitKeyPress(r) => {
            lemma_register_of(r);
            assert(resolved(o, labels) == Some(
                source_of(Instr::WaitKeyPress(VReg::numbered(r as int)->0)),
            ));
        },
        Opcode::SetDelayTimer(r) => {
            lemma_register_of(r);
            assert(resolved(o, labels) == Some(
                source_of(Instr::SetDelayTimer(VReg::numbered(r as int)->0)),
            ));
        },
        Opcode::SetSoundTimer(r) => {
            lemma_register_of(r);
            assert(resolved(o, labels) == Some(
                source_of(Instr::SetSoundTimer(VReg::numbered(r as int)->0)),
            ));
        },
        Opcode::AddI(r) => {
            lemma_register_of(r);
            assert(resolved(o, labels) == Some(
                source_of(Instr::AddI(VReg::numbered(r as int)->0)),
            ));
        },
        Opcode::LoadSprite(r) => {
            lemma_register_of(r);
            assert(resolved(o, labels) == Some(
                source_of(Instr::LoadSprite(VReg::numbered(r as int)->0)),
            ));
        },
        Opcode::LoadBCD(r) => {
            lemma_register_of(r);
            assert(resolved(o, labels) == Some(
                source_of(Instr::LoadBCD(VReg::numbered(r as int)->0)),
            ));
        },
        Opcode::SaveRegs(r) => {
            lemma_register_of(r);
            assert(resolved(o, labels) == Some(
                source_of(Instr::SaveRegs(VReg::numbered(r as int)->0)),
            ));
        },
        Opcode::LoadRegs(r) => {
            lemma_register_of(r);
            assert(resolved(o, labels) == Some(
                source_of(Instr::LoadRegs(VReg::numbered(r as int)->0)),
            ));
        },
        _ => {},
    }
}

/// An instruction whose operands fit their fields and whose label is
/// defined assembles to a word of the machine: the word decodes, and what it
/// decodes to is the instruction itself with its label resolved.
pub proof fn lemma_assembles_to_an_instruction(o: Opcode<AddrView>, labels: Map<Seq<char>, int>)
    requires
        o.fits(),
        resolved(o, labels) is Some,
    ensures
        encode(o, labels) is Ok,
        decode(encode(o, labels)->Ok_0) is Some,
        decode(encode(o, labels)->Ok_0)->0.fits(),
        source_of(decode(encode(o, labels)->Ok_0)->0) == resolved(o, labels)->0,
{
    match o {
        Opcode::ClearDisplay => {
            assert(resolved(o, labels) == Some(source_of(Instr::ClearDisplay)));
        },
        Opcode::Return => {
            assert(resolved(o, labels) == Some(source_of(Instr::Return)));
        },
        Opcode::Jump(_) | Opcode::Call(_) | Opcode::LoadI(_) | Opcode::JumpV0(_) => {
            lemma_instruction_of_addr(o, labels);
        },
        Opcode::SkipEqImm(_, _) | Opcode::SkipNotEqImm(_, _) | Opcode::LoadImm(_, _)
            | Opcode::AddImm(_, _) | Opcode::Random(_, _) => {
            lemma_instruction_of_reg_imm(o, labels);
        },
        Opcode::SkipEqReg(_, _) | Opcode::LoadReg(_, _) | Opcode::OrReg(_, _)
            | Opcode::AndReg(_, _) | Opcode::XorReg(_, _) | Opcode::AddReg(_, _)
            | Opcode::SubReg(_, _) | Opcode::ShiftRight(_, _) | Opcode::SubN(_, _)
            | Opcode::ShiftLeft(_, _) | Opcode::SkipNotEqReg(_, _) | Opcode::Draw(_, _, _) => {
            lemma_instruction_of_reg_reg(o, labels);
        },
        _ => {
            lemma_instruction_of_reg(o, labels);
        },
    }
    let instr = choose|instr: Instr|
        instr.fits() && resolved(o, labels) == Some(#[trigger] source_of(instr));
    lemma_assembled_word_decodes(o, labels, instr);
}

} // verus!
