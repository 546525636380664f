//! From lines to the program image: a first pass gives every label its
//! address, a second pass emits the bytes.

use crate::assembler::ast::Addr;
use crate::assembler::ast::AddrView;
use crate::assembler::ast::Instr;
use crate::assembler::ast::InstrView;
use crate::assembler::ast::Line;
use crate::assembler::ast::LineView;
use crate::assembler::ast::Opcode;
use crate::assembler::ast::VReg;
use vstd::prelude::*;

verus! {

/// The address of the first byte of the image.
pub const ORIGIN: usize = 0x200;

/// Why no image came out.
#[derive(Debug, Clone, PartialEq, Eq)]
pub enum GenerateError {
    /// Two lines define this label.
    DuplicateLabel(String),
    /// An instruction names this label, and no line defines it.
    UnknownLabel(String),
}

/// Why no image came out, with the label's name as a sequence of
/// characters.
pub enum GenerateErrorView {
    DuplicateLabel(Seq<char>),
    UnknownLabel(Seq<char>),
}

impl View for GenerateError {
    type V = GenerateErrorView;

    open spec fn view(&self) -> GenerateErrorView {
        match self {
            GenerateError::DuplicateLabel(s) => GenerateErrorView::DuplicateLabel(s@),
            GenerateError::UnknownLabel(s) => GenerateErrorView::UnknownLabel(s@),
        }
    }
}

/// What the lines say, one by one.
pub open spec fn line_views(lines: Seq<Line>) -> Seq<LineView> {
    lines.map_values(|l: Line| l@)
}

/// The number of bytes that the first `k` lines take.
pub open spec fn offset_of(lines: Seq<LineView>, k: int) -> nat
    decreases k,
{
    if k <= 0 {
        0
    } else {
        offset_of(lines, k - 1) + lines[k - 1].size()
    }
}

/// The address at which line `k` begins: as far from the origin as the
/// lines before it are long. It is not cut to twelve bits; that is done
/// where an address goes into an instruction.
pub open spec fn address_of(lines: Seq<LineView>, k: int) -> int {
    ORIGIN + offset_of(lines, k)
}

/// The first of the first `k` lines that defines a label which an earlier
/// line has defined already.
pub open spec fn first_duplicate(lines: Seq<LineView>, k: int) -> Option<int>
    decreases k,
{
    if k <= 0 {
        None
    } else {
        match first_duplicate(lines, k - 1) {
            Some(j) => Some(j),
            None => match lines[k - 1].label {
                Some(name) => if label_addresses(lines, k - 1).contains_key(name) {
                    Some(k - 1)
                } else {
                    None
                },
                None => None,
            },
        }
    }
}

/// The labels that the first `k` lines define, each with the address at
/// which its line begins.
pub open spec fn label_addresses(lines: Seq<LineView>, k: int) -> Map<Seq<char>, int>
    decreases k,
{
    if k <= 0 {
        Map::empty()
    } else {
        match lines[k - 1].label {
            Some(name) => label_addresses(lines, k - 1).insert(name, address_of(lines, k - 1)),
            None => label_addresses(lines, k - 1),
        }
    }
}

/// The first pass. It fails on the first line that defines a label for the
/// second time, with the label's name.
pub open spec fn label_pass(lines: Seq<LineView>) -> Result<Map<Seq<char>, int>, Seq<char>> {
    match first_duplicate(lines, lines.len() as int) {
        Some(j) => Err(lines[j].label->0),
        None => Ok(label_addresses(lines, lines.len() as int)),
    }
}

/// A code with an address in its low twelve bits.
pub open spec fn with_addr(c: u16, a: int) -> u16 {
    c | ((a % 0x1000) as u16)
}

/// A code with a register in bits 8 to 11 and a byte in its low eight bits.
pub open spec fn with_reg_imm(c: u16, r: VReg, b: u8) -> u16 {
    c | ((r as u16) << 8) | (b as u16)
}

/// A code with registers in bits 8 to 11 and 4 to 7.
pub open spec fn with_reg_reg(c: u16, r1: VReg, r2: VReg) -> u16 {
    c | ((r1 as u16) << 8) | ((r2 as u16) << 4)
}

/// A code with registers in bits 8 to 11 and 4 to 7 and the low four bits
/// of `n` in its low four bits.
pub open spec fn with_reg_reg_nib(c: u16, r1: VReg, r2: VReg, n: u8) -> u16 {
    c | ((r1 as u16) << 8) | ((r2 as u16) << 4) | (n as u16 & 0xF)
}

/// A code with a register in bits 8 to 11.
pub open spec fn with_reg(c: u16, r: VReg) -> u16 {
    c | ((r as u16) << 8)
}

/// The address that an operand stands for, or the name of the label that no
/// line defines.
pub open spec fn resolve(a: AddrView, labels: Map<Seq<char>, int>) -> Result<int, Seq<char>> {
    match a {
        AddrView::Imm(a) => Ok(a as int),
        AddrView::LabelRef(name) => if labels.contains_key(name) {
            Ok(labels[name])
        } else {
            Err(name)
        },
    }
}

/// A code with the address that `a` stands for, cut to twelve bits.
pub open spec fn encode_addr(c: u16, a: AddrView, labels: Map<Seq<char>, int>) -> Result<
    u16,
    Seq<char>,
> {
    match resolve(a, labels) {
        Ok(address) => Ok(with_addr(c, address)),
        Err(name) => Err(name),
    }
}

/// The 16-bit word of an instruction, or the name of a label that it names
/// and no line defines.
pub open spec fn encode(o: Opcode<AddrView>, labels: Map<Seq<char>, int>) -> Result<
    u16,
    Seq<char>,
> {
    match o {
        Opcode::ClearDisplay => Ok(0x00E0u16),
        Opcode::Return => Ok(0x00EEu16),
        Opcode::Jump(a) => encode_addr(0x1000, a, labels),
        Opcode::Call(a) => encode_addr(0x2000, a, labels),
        Opcode::SkipEqImm(r, b) => Ok(with_reg_imm(0x3000, r, b)),
        Opcode::SkipNotEqImm(r, b) => Ok(with_reg_imm(0x4000, r, b)),
        Opcode::SkipEqReg(r1, r2) => Ok(with_reg_reg(0x5000, r1, r2)),
        Opcode::LoadImm(r, b) => Ok(with_reg_imm(0x6000, r, b)),
        Opcode::AddImm(r, b) => Ok(with_reg_imm(0x7000, r, b)),
        Opcode::LoadReg(r1, r2) => Ok(with_reg_reg(0x8000, r1, r2)),
        Opcode::OrReg(r1, r2) => Ok(with_reg_reg(0x8001, r1, r2)),
        Opcode::AndReg(r1, r2) => Ok(with_reg_reg(0x8002, r1, r2)),
        Opcode::XorReg(r1, r2) => Ok(with_reg_reg(0x8003, r1, r2)),
        Opcode::AddReg(r1, r2) => Ok(with_reg_reg(0x8004, r1, r2)),
        Opcode::SubReg(r1, r2) => Ok(with_reg_reg(0x8005, r1, r2)),
        Opcode::ShiftRight(r1, r2) => Ok(with_reg_reg(0x8006, r1, r2)),
        Opcode::SubN(r1, r2) => Ok(with_reg_reg(0x8007, r1, r2)),
        Opcode::ShiftLeft(r1, r2) => Ok(with_reg_reg(0x800E, r1, r2)),
        Opcode::SkipNotEqReg(r1, r2) => Ok(with_reg_reg(0x9000, r1, r2)),
        Opcode::LoadI(a) => encode_addr(0xA000, a, labels),
        Opcode::JumpV0(a) => encode_addr(0xB000, a, labels),
        Opcode::Random(r, b) => Ok(with_reg_imm(0xC000, r, b)),
        Opcode::Draw(r1, r2, n) => Ok(with_reg_reg_nib(0xD000, r1, r2, n)),
        Opcode::SkipKeyPressed(r) => Ok(with_reg(0xE09E, r)),
        Opcode::SkipKeyNotPressed(r) => Ok(with_reg(0xE0A1, r)),
        Opcode::LoadDelayTimer(r) => Ok(with_reg(0xF007, r)),
        Opcode::WaitKeyPress(r) => Ok(with_reg(0xF00A, r)),
        Opcode::SetDelayTimer(r) => Ok(with_reg(0xF015, r)),
        Opcode::SetSoundTimer(r) => Ok(with_reg(0xF018, r)),
        Opcode::AddI(r) => Ok(with_reg(0xF01E, r)),
        Opcode::LoadSprite(r) => Ok(with_reg(0xF029, r)),
        Opcode::LoadBCD(r) => Ok(with_reg(0xF033, r)),
        Opcode::SaveRegs(r) => Ok(with_reg(0xF055, r)),
        Opcode::LoadRegs(r) => Ok(with_reg(0xF065, r)),
    }
}

/// The two bytes of a word, the high one first.
pub open spec fn big_endian(code: u16) -> Seq<u8> {
    seq![(code / 256) as u8, (code % 256) as u8]
}

/// The bytes that a line puts into the image: data as it stands, an
/// instruction as the two bytes of its word, and nothing for a line without
/// either.
pub open spec fn line_bytes(line: LineView, labels: Map<Seq<char>, int>) -> Result<
    Seq<u8>,
    Seq<char>,
> {
    match line.instr {
        Some(InstrView::Data(d)) => Ok(d),
        Some(InstrView::Opcode(o)) => match encode(o, labels) {
            Ok(code) => Ok(big_endian(code)),
            Err(name) => Err(name),
        },
        None => Ok(Seq::empty()),
    }
}

/// The second pass over the first `k` lines: their bytes one after the
/// other. It fails on the first line that names a label which no line
/// defines, with the label's name.
pub open spec fn emit(lines: Seq<LineView>, labels: Map<Seq<char>, int>, k: int) -> Result<
    Seq<u8>,
    Seq<char>,
>
    decreases k,
{
    if k <= 0 {
        Ok(Seq::empty())
    } else {
        match emit(lines, labels, k - 1) {
            Err(name) => Err(name),
            Ok(bytes) => match line_bytes(lines[k - 1], labels) {
                Err(name) => Err(name),
                Ok(more) => Ok(bytes + more),
            },
        }
    }
}

/// Both passes: the image of the lines, or why there is none. A label defined
/// twice is reported before a label that is not defined.
pub open spec fn assemble(lines: Seq<LineView>) -> Result<Seq<u8>, GenerateErrorView> {
    match label_pass(lines) {
        Err(name) => Err(GenerateErrorView::DuplicateLabel(name)),
        Ok(labels) => match emit(lines, labels, lines.len() as int) {
            Err(name) => Err(GenerateErrorView::UnknownLabel(name)),
            Ok(bytes) => Ok(bytes),
        },
    }
}

/// The labels with their addresses. An address is held in full, in a type
/// wide enough for the lines of any program that a machine can hold.
pub struct LabelTable {
    entries: Vec<(String, u128)>,
}

/// The map that a list of entries stands for; of two entries with one name
/// the later one counts.
pub open spec fn entries_map(entries: Seq<(String, u128)>) -> Map<Seq<char>, int>
    decreases entries.len(),
{
    if entries.len() == 0 {
        Map::empty()
    } else {
        entries_map(entries.drop_last()).insert(entries.last().0@, entries.last().1 as int)
    }
}

impl View for LabelTable {
    type V = Map<Seq<char>, int>;

    closed spec fn view(&self) -> Map<Seq<char>, int> {
        entries_map(self.entries@)
    }
}

impl LabelTable {
    /// A table without labels.
    pub fn new() -> (t: LabelTable)
        ensures
            t@ == Map::<Seq<char>, int>::empty(),
    {
        LabelTable { entries: Vec::new() }
    }

    /// The address of a label, if the table has it.
    pub fn get(&self, name: &String) -> (r: Option<u128>)
        ensures
            r == if self@.contains_key(name@) {
                Some(self@[name@] as u128)
            } else {
                None
            },
            self@.contains_key(name@) ==> 0 <= self@[name@] <= u128::MAX,
    {
        let mut i = self.entries.len();
        assert(self.entries@.take(i as int) =~= self.entries@);
        while i > 0
            invariant
                i <= self.entries@.len(),
                self@.contains_key(name@) == entries_map(self.entries@.take(i as int)).contains_key(
                    name@,
                ),
                self@.contains_key(name@) ==> self@[name@] == entries_map(
                    self.entries@.take(i as int),
                )[name@],
            decreases i,
        {
            proof {
                let part = self.entries@.take(i as int);
                assert(part.drop_last() =~= self.entries@.take(i - 1));
                assert(part.last() == self.entries@[i - 1]);
            }
            i -= 1;
            if self.entries[i].0 == *name {
                return Some(self.entries[i].1);
            }
        }
        None
    }

    /// Whether the table has a label.
    pub fn contains_key(&self, name: &String) -> (r: bool)
        ensures
            r == self@.contains_key(name@),
    {
        self.get(name).is_some()
    }

    /// Gives a label its address.
    pub fn insert(&mut self, name: String, address: u128)
        ensures
            final(self)@ == old(self)@.insert(name@, address as int),
    {
        self.entries.push((name, address));
        proof {
            assert(self.entries@.drop_last() =~= old(self).entries@);
        }
    }
}

impl Default for LabelTable {
    fn default() -> (t: LabelTable)
        ensures
            t@ == Map::<Seq<char>, int>::empty(),
    {
        LabelTable::new()
    }
}

/// The first pass: every label with the address at which its line begins.
pub fn labels(lines: &[Line]) -> (r: Result<LabelTable, GenerateError>)
    ensures
        match label_pass(line_views(lines@)) {
            Ok(table) => r matches Ok(t) && t@ == table,
            Err(name) => r matches Err(GenerateError::DuplicateLabel(s)) && s@ == name,
        },
{
    let ghost views = line_views(lines@);
    let mut addr: u128 = ORIGIN as u128;
    let mut labels = LabelTable::new();
    let mut k: usize = 0;
    while k < lines.len()
        invariant
            k <= lines@.len(),
            views == line_views(lines@),
            addr == address_of(views, k as int),
            offset_of(views, k as int) <= k * usize::MAX,
            first_duplicate(views, k as int) is None,
            labels@ == label_addresses(views, k as int),
        decreases lines@.len() - k,
    {
        let line = &lines[k];
        assert(views[k as int] == line@);
        match &line.label {
            Some(label) => {
                if labels.contains_key(label) {
                    proof {
                        lemma_first_duplicate_stays(views, k as int + 1, lines@.len() as int);
                    }
                    return Err(GenerateError::DuplicateLabel(label.clone()));
                }
                labels.insert(label.clone(), addr);
            },
            None => {},
        }
        let size = line.size();
        proof {
            lemma_offsets_fit(offset_of(views, k as int) as int, size as int, k as int);
        }
        addr = addr + size as u128;
        k += 1;
    }
    Ok(labels)
}

/// The lines of a program are fewer than a machine word counts and each is
/// shorter, so that what they take together fits in two machine words.
proof fn lemma_offsets_fit(offset: int, size: int, k: int)
    requires
        0 <= offset <= k * usize::MAX,
        0 <= size <= usize::MAX,
        0 <= k < usize::MAX,
    ensures
        offset + size <= (k + 1) * usize::MAX,
        ORIGIN + offset + size <= u128::MAX,
{
    let m = usize::MAX as int;
    assert((k + 1) * m == k * m + m) by (nonlinear_arith);
    assert((k + 1) * m <= m * m) by (nonlinear_arith)
        requires
            0 <= k + 1 <= m,
    ;
    assert(m * m <= 0xFFFF_FFFF_FFFF_FFFF * 0xFFFF_FFFF_FFFF_FFFF) by (nonlinear_arith)
        requires
            0 <= m <= 0xFFFF_FFFF_FFFF_FFFF,
    ;
}

/// Once a label was found defined for the second time, longer prefixes of
/// the lines report the same line.
proof fn lemma_first_duplicate_stays(lines: Seq<LineView>, k: int, n: int)
    requires
        first_duplicate(lines, k) is Some,
        k <= n,
    ensures
        first_duplicate(lines, n) == first_duplicate(lines, k),
    decreases n - k,
{
    if k < n {
        lemma_first_duplicate_stays(lines, k, n - 1);
    }
}

/// A code with the address that `addr` stands for in its low twelve bits.
pub fn addr(c: u16, target: &Addr, labels: &LabelTable) -> (r: Result<u16, GenerateError>)
    ensures
        match encode_addr(c, target@, labels@) {
            Ok(code) => r == Ok::<u16, GenerateError>(code),
            Err(name) => r matches Err(GenerateError::UnknownLabel(s)) && s@ == name,
        },
{
    let a: u128 = match target {
        Addr::Imm(a) => *a as u128,
        Addr::LabelRef(s) => match labels.get(s) {
            Some(a) => a,
            None => {
                return Err(GenerateError::UnknownLabel(s.clone()));
            },
        },
    };
    assert(a & 0xFFF == a % 0x1000) by (bit_vector);
    Ok(c | ((a & 0xFFF) as u16))
}

/// A code with a register and a byte in their fields.
pub fn reg_imm(c: u16, r: VReg, b: u8) -> (code: u16)
    ensures
        code == with_reg_imm(c, r, b),
{
    c | ((r as u16) << 8) | (b as u16)
}

/// A code with two registers in their fields.
pub fn reg_reg(c: u16, r1: VReg, r2: VReg) -> (code: u16)
    ensures
        code == with_reg_reg(c, r1, r2),
{
    c | ((r1 as u16) << 8) | ((r2 as u16) << 4)
}

/// A code with two registers and a nibble in their fields.
pub fn reg_reg_nib(c: u16, r1: VReg, r2: VReg, n: u8) -> (code: u16)
    ensures
        code == with_reg_reg_nib(c, r1, r2, n),
{
    c | ((r1 as u16) << 8) | ((r2 as u16) << 4) | (n as u16 & 0xF)
}

/// A code with a register in its field.
pub fn reg(c: u16, r: VReg) -> (code: u16)
    ensures
        code == with_reg(c, r),
{
    c | ((r as u16) << 8)
}

/// The 16-bit word of an instruction.
pub fn opcode(o: &Opcode, labels: &LabelTable) -> (r: Result<u16, GenerateError>)
    ensures
        match encode(o@, labels@) {
            Ok(code) => r == Ok::<u16, GenerateError>(code),
            Err(name) => r matches Err(GenerateError::UnknownLabel(s)) && s@ == name,
        },
{
    match o {
        Opcode::ClearDisplay => Ok(0x00E0),
        Opcode::Return => Ok(0x00EE),
        Opcode::Jump(a) => addr(0x1000, a, labels),
        Opcode::Call(a) => addr(0x2000, a, labels),
        Opcode::SkipEqImm(r, b) => Ok(reg_imm(0x3000, *r, *b)),
        Opcode::SkipNotEqImm(r, b) => Ok(reg_imm(0x4000, *r, *b)),
        Opcode::SkipEqReg(r1, r2) => Ok(reg_reg(0x5000, *r1, *r2)),
        Opcode::LoadImm(r, b) => Ok(reg_imm(0x6000, *r, *b)),
        Opcode::AddImm(r, b) => Ok(reg_imm(0x7000, *r, *b)),
        Opcode::LoadReg(r1, r2) => Ok(reg_reg(0x8000, *r1, *r2)),
        Opcode::OrReg(r1, r2) => Ok(reg_reg(0x8001, *r1, *r2)),
        Opcode::AndReg(r1, r2) => Ok(reg_reg(0x8002, *r1, *r2)),
        Opcode::XorReg(r1, r2) => Ok(reg_reg(0x8003, *r1, *r2)),
        Opcode::AddReg(r1, r2) => Ok(reg_reg(0x8004, *r1, *r2)),
        Opcode::SubReg(r1, r2) => Ok(reg_reg(0x8005, *r1, *r2)),
        Opcode::ShiftRight(r1, r2) => Ok(reg_reg(0x8006, *r1, *r2)),
        Opcode::SubN(r1, r2) => Ok(reg_reg(0x8007, *r1, *r2)),
        Opcode::ShiftLeft(r1, r2) => Ok(reg_reg(0x800E, *r1, *r2)),
        Opcode::SkipNotEqReg(r1, r2) => Ok(reg_reg(0x9000, *r1, *r2)),
        Opcode::LoadI(a) => addr(0xA000, a, labels),
        Opcode::JumpV0(a) => addr(0xB000, a, labels),
        Opcode::Random(r, b) => Ok(reg_imm(0xC000, *r, *b)),
        Opcode::Draw(r1, r2, n) => Ok(reg_reg_nib(0xD000, *r1, *r2, *n)),
        Opcode::SkipKeyPressed(r) => Ok(reg(0xE09E, *r)),
        Opcode::SkipKeyNotPressed(r) => Ok(reg(0xE0A1, *r)),
        Opcode::LoadDelayTimer(r) => Ok(reg(0xF007, *r)),
        Opcode::WaitKeyPress(r) => Ok(reg(0xF00A, *r)),
        Opcode::SetDelayTimer(r) => Ok(reg(0xF015, *r)),
        Opcode::SetSoundTimer(r) => Ok(reg(0xF018, *r)),
        Opcode::AddI(r) => Ok(reg(0xF01E, *r)),
        Opcode::LoadSprite(r) => Ok(reg(0xF029, *r)),
        Opcode::LoadBCD(r) => Ok(reg(0xF033, *r)),
        Opcode::SaveRegs(r) => Ok(reg(0xF055, *r)),
        Opcode::LoadRegs(r) => Ok(reg(0xF065, *r)),
    }
}

/// The second pass: the bytes of every line, one after the other.
pub fn opcodes(lines: &[Line], labels: &LabelTable) -> (r: Result<Vec<u8>, GenerateError>)
    ensures
        match emit(line_views(lines@), labels@, lines@.len() as int) {
            Ok(bytes) => r matches Ok(v) && v@ == bytes,
            Err(name) => r matches Err(GenerateError::UnknownLabel(s)) && s@ == name,
        },
{
    let ghost views = line_views(lines@);
    let mut image: Vec<u8> = Vec::new();
    let mut k: usize = 0;
    while k < lines.len()
        invariant
            k <= lines@.len(),
            views == line_views(lines@),
            emit(views, labels@, k as int) == Ok::<Seq<u8>, Seq<char>>(image@),
        decreases lines@.len() - k,
    {
        let line = &lines[k];
        assert(views[k as int] == line@);
        match &line.instr {
            Some(Instr::Data(d)) => {
                let mut j: usize = 0;
                let ghost before = image@;
                while j < d.len()
                    invariant
                        j <= d@.len(),
                        image@ == before + d@.take(j as int),
                    decreases d@.len() - j,
                {
                    image.push(d[j]);
                    j += 1;
                    assert(image@ =~= before + d@.take(j as int));
                }
                assert(d@.take(d@.len() as int) =~= d@);
            },
            Some(Instr::Opcode(o)) => {
                match opcode(o, labels) {
                    Ok(code) => {
                        let ghost before = image@;
                        image.push((code / 256) as u8);
                        image.push((code % 256) as u8);
                        assert(image@ =~= before + big_endian(code));
                    },
                    Err(e) => {
                        proof {
                            let n = lines@.len() as int;
                            lemma_emit_error_stays(views, labels@, k as int + 1, n);
                        }
                        return Err(e);
                    },
                }
            },
            None => {
                assert(image@ =~= image@ + Seq::<u8>::empty());
            },
        }
        k += 1;
    }
    Ok(image)
}

/// Once a line failed, longer prefixes of the lines fail in the same way.
proof fn lemma_emit_error_stays(lines: Seq<LineView>, labels: Map<Seq<char>, int>, k: int, n: int)
    requires
        emit(lines, labels, k) is Err,
        k <= n,
    ensures
        emit(lines, labels, n) == emit(lines, labels, k),
    decreases n - k,
{
    if k < n {
        lemma_emit_error_stays(lines, labels, k, n - 1);
    }
}

/// Assembles lines into a program image.
pub fn generate(lines: &[Line]) -> (r: Result<Vec<u8>, GenerateError>)
    ensures
        match assemble(line_views(lines@)) {
            Ok(bytes) => r matches Ok(v) && v@ == bytes,
            Err(e) => r matches Err(error) && error@ == e,
        },
{
    match labels(lines) {
        Err(e) => Err(e),
        Ok(table) => opcodes(lines, &table),
    }
}

} // verus!
