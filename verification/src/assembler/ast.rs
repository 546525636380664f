//! What a line of assembler source says.

use vstd::prelude::*;

verus! {

/// A register operand: the register's number. The parser hands out numbers
/// below 16 only.
pub type VReg = u8;

/// An address operand.
#[derive(Debug, Clone, PartialEq, Eq)]
pub enum Addr {
    /// The address itself.
    Imm(u16),
    /// The address that a label stands for.
    LabelRef(String),
}

/// An address operand with the label's name as a sequence of characters.
pub enum AddrView {
    Imm(u16),
    LabelRef(Seq<char>),
}

impl View for Addr {
    type V = AddrView;

    open spec fn view(&self) -> AddrView {
        match self {
            Addr::Imm(a) => AddrView::Imm(*a),
            Addr::LabelRef(s) => AddrView::LabelRef(s@),
        }
    }
}

/// One instruction of the machine with its operands. `A` is what stands for
/// an address: an `Addr` in a parsed line, an `AddrView` in contracts.
#[derive(Debug, Clone, PartialEq, Eq)]
pub enum Opcode<A = Addr> {
    ClearDisplay,
    Return,
    Jump(A),
    Call(A),
    SkipEqImm(VReg, u8),
    SkipNotEqImm(VReg, u8),
    SkipEqReg(VReg, VReg),
    LoadImm(VReg, u8),
    AddImm(VReg, u8),
    LoadReg(VReg, VReg),
    OrReg(VReg, VReg),
    AndReg(VReg, VReg),
    XorReg(VReg, VReg),
    AddReg(VReg, VReg),
    SubReg(VReg, VReg),
    ShiftRight(VReg, VReg),
    SubN(VReg, VReg),
    ShiftLeft(VReg, VReg),
    SkipNotEqReg(VReg, VReg),
    LoadI(A),
    JumpV0(A),
    Random(VReg, u8),
    Draw(VReg, VReg, u8),
    SkipKeyPressed(VReg),
    SkipKeyNotPressed(VReg),
    LoadDelayTimer(VReg),
    WaitKeyPress(VReg),
    SetDelayTimer(VReg),
    SetSoundTimer(VReg),
    AddI(VReg),
    LoadSprite(VReg),
    LoadBCD(VReg),
    SaveRegs(VReg),
    LoadRegs(VReg),
}

impl View for Opcode<Addr> {
    type V = Opcode<AddrView>;

    open spec fn view(&self) -> Opcode<AddrView> {
        match self {
            Opcode::ClearDisplay => Opcode::ClearDisplay,
            Opcode::Return => Opcode::Return,
            Opcode::Jump(a) => Opcode::Jump(a@),
            Opcode::Call(a) => Opcode::Call(a@),
            Opcode::SkipEqImm(r, b) => Opcode::SkipEqImm(*r, *b),
            Opcode::SkipNotEqImm(r, b) => Opcode::SkipNotEqImm(*r, *b),
            Opcode::SkipEqReg(r1, r2) => Opcode::SkipEqReg(*r1, *r2),
            Opcode::LoadImm(r, b) => Opcode::LoadImm(*r, *b),
            Opcode::AddImm(r, b) => Opcode::AddImm(*r, *b),
            Opcode::LoadReg(r1, r2) => Opcode::LoadReg(*r1, *r2),
            Opcode::OrReg(r1, r2) => Opcode::OrReg(*r1, *r2),
            Opcode::AndReg(r1, r2) => Opcode::AndReg(*r1, *r2),
            Opcode::XorReg(r1, r2) => Opcode::XorReg(*r1, *r2),
            Opcode::AddReg(r1, r2) => Opcode::AddReg(*r1, *r2),
            Opcode::SubReg(r1, r2) => Opcode::SubReg(*r1, *r2),
            Opcode::ShiftRight(r1, r2) => Opcode::ShiftRight(*r1, *r2),
            Opcode::SubN(r1, r2) => Opcode::SubN(*r1, *r2),
            Opcode::ShiftLeft(r1, r2) => Opcode::ShiftLeft(*r1, *r2),
            Opcode::SkipNotEqReg(r1, r2) => Opcode::SkipNotEqReg(*r1, *r2),
            Opcode::LoadI(a) => Opcode::LoadI(a@),
            Opcode::JumpV0(a) => Opcode::JumpV0(a@),
            Opcode::Random(r, b) => Opcode::Random(*r, *b),
            Opcode::Draw(r1, r2, n) => Opcode::Draw(*r1, *r2, *n),
            Opcode::SkipKeyPressed(r) => Opcode::SkipKeyPressed(*r),
            Opcode::SkipKeyNotPressed(r) => Opcode::SkipKeyNotPressed(*r),
            Opcode::LoadDelayTimer(r) => Opcode::LoadDelayTimer(*r),
            Opcode::WaitKeyPress(r) => Opcode::WaitKeyPress(*r),
            Opcode::SetDelayTimer(r) => Opcode::SetDelayTimer(*r),
            Opcode::SetSoundTimer(r) => Opcode::SetSoundTimer(*r),
            Opcode::AddI(r) => Opcode::AddI(*r),
            Opcode::LoadSprite(r) => Opcode::LoadSprite(*r),
            Opcode::LoadBCD(r) => Opcode::LoadBCD(*r),
            Opcode::SaveRegs(r) => Opcode::SaveRegs(*r),
            Opcode::LoadRegs(r) => Opcode::LoadRegs(*r),
        }
    }
}

/// What a line assembles to: one instruction, or bytes as they stand.
#[derive(Debug, Clone, PartialEq, Eq)]
pub enum Instr {
    Opcode(Opcode),
    Data(Vec<u8>),
}

/// What a line assembles to, with names as sequences of characters.
pub enum InstrView {
    Opcode(Opcode<AddrView>),
    Data(Seq<u8>),
}

impl View for Instr {
    type V = InstrView;

    open spec fn view(&self) -> InstrView {
        match self {
            Instr::Opcode(o) => InstrView::Opcode(o@),
            Instr::Data(d) => InstrView::Data(d@),
        }
    }
}

impl InstrView {
    /// The number of bytes that the instruction takes in the image: two for
    /// an opcode, and for data as many as there are.
    pub open spec fn size(self) -> nat {
        match self {
            InstrView::Opcode(_) => 2,
            InstrView::Data(d) => d.len(),
        }
    }
}

impl Instr {
    /// The number of bytes that the instruction takes in the image.
    pub fn size(&self) -> (n: usize)
        ensures
            n == self@.size(),
    {
        match self {
            Instr::Opcode(_) => 2,
            Instr::Data(d) => d.len(),
        }
    }
}

/// A line of source: a label, an instruction, both or neither.
#[derive(Debug, Clone, PartialEq, Eq)]
pub struct Line {
    pub label: Option<String>,
    pub instr: Option<Instr>,
}

/// What a line of source says, with names as sequences of characters.
pub struct LineView {
    pub label: Option<Seq<char>>,
    pub instr: Option<InstrView>,
}

impl View for Line {
    type V = LineView;

    open spec fn view(&self) -> LineView {
        LineView {
            label: match self.label {
                Some(s) => Some(s@),
                None => None,
            },
            instr: match self.instr {
                Some(i) => Some(i@),
                None => None,
            },
        }
    }
}

impl LineView {
    /// The number of bytes that the line takes in the image; a line without
    /// an instruction takes none.
    pub open spec fn size(self) -> nat {
        match self.instr {
            Some(i) => i.size(),
            None => 0,
        }
    }
}

impl Line {
    /// The number of bytes that the line takes in the image.
    pub fn size(&self) -> (n: usize)
        ensures
            n == self@.size(),
    {
        match &self.instr {
            Some(i) => i.size(),
            None => 0,
        }
    }
}

} // verus!
