//! The grammar of the source text.
//!
//! A line is a label definition, an instruction, a comment, or any of them
//! in that order. The instruction stands after at least one blank. Where
//! several forms of an instruction could begin alike, they are tried in a
//! fixed order, and the first that is there counts.

use crate::assembler::ast::AddrView;
use crate::assembler::ast::InstrView;
use crate::assembler::ast::LineView;
use crate::assembler::ast::Opcode;
use crate::assembler::text::blanks1;
use crate::assembler::text::blanks_end;
use crate::assembler::text::comment;
use crate::assembler::text::keyword;
use crate::assembler::text::line_ending;
use crate::assembler::text::name;
use crate::assembler::text::number;
use crate::assembler::text::register;
use crate::assembler::text::separator;
use vstd::prelude::*;

verus! {

/// Where parsing stopped: the number of characters before the place, and the
/// number of the line, counted from 1, on which it lies.
#[derive(Clone, Copy, Debug, PartialEq, Eq, Structural)]
pub struct ParseError {
    pub offset: usize,
    pub line: usize,
}

/// The first of two readings that is there.
pub open spec fn or_else<T>(first: Option<T>, second: Option<T>) -> Option<T> {
    if first is Some {
        first
    } else {
        second
    }
}

/// What was read, turned into what it stands for.
pub open spec fn build<A, T>(read: Option<(A, int)>, f: spec_fn(A) -> T) -> Option<(T, int)> {
    match read {
        Some((a, end)) => Some((f(a), end)),
        None => None,
    }
}

/// A mnemonic in either case and at least one blank after it.
pub open spec fn mnemonic(text: Seq<char>, pos: int, w: Seq<char>) -> Option<int> {
    match keyword(text, pos, w) {
        Some(p) => blanks1(text, p),
        None => None,
    }
}

/// An address: a number of sixteen bits, or else the name of a label.
pub open spec fn address(text: Seq<char>, pos: int) -> Option<(AddrView, int)> {
    match number(text, pos, 0xFFFF) {
        Some((value, end)) => Some((AddrView::Imm(value as u16), end)),
        None => match name(text, pos) {
            Some(end) => Some((AddrView::LabelRef(text.subrange(pos, end)), end)),
            None => None,
        },
    }
}

/// A mnemonic and an address.
pub open spec fn with_address(text: Seq<char>, pos: int, w: Seq<char>) -> Option<(AddrView, int)> {
    match mnemonic(text, pos, w) {
        Some(p) => address(text, p),
        None => None,
    }
}

/// A mnemonic, a fixed operand, and an address.
pub open spec fn with_key_address(
    text: Seq<char>,
    pos: int,
    w: Seq<char>,
    key: Seq<char>,
) -> Option<(AddrView, int)> {
    match mnemonic(text, pos, w) {
        Some(p) => match keyword(text, p, key) {
            Some(q) => match separator(text, q) {
                Some(r) => address(text, r),
                None => None,
            },
            None => None,
        },
        None => None,
    }
}

/// A mnemonic, a register, and a byte.
pub open spec fn with_reg_imm(text: Seq<char>, pos: int, w: Seq<char>) -> Option<((u8, u8), int)> {
    match mnemonic(text, pos, w) {
        Some(p) => match register(text, p) {
            Some((r, q)) => match separator(text, q) {
                Some(s) => match number(text, s, 0xFF) {
                    Some((b, end)) => Some(((r, b as u8), end)),
                    None => None,
                },
                None => None,
            },
            None => None,
        },
        None => None,
    }
}

/// A mnemonic and two registers.
pub open spec fn with_reg_reg(text: Seq<char>, pos: int, w: Seq<char>) -> Option<((u8, u8), int)> {
    match mnemonic(text, pos, w) {
        Some(p) => match register(text, p) {
            Some((r1, q)) => match separator(text, q) {
                Some(s) => match register(text, s) {
                    Some((r2, end)) => Some(((r1, r2), end)),
                    None => None,
                },
                None => None,
            },
            None => None,
        },
        None => None,
    }
}

/// A mnemonic and a register.
pub open spec fn with_reg(text: Seq<char>, pos: int, w: Seq<char>) -> Option<(u8, int)> {
    match mnemonic(text, pos, w) {
        Some(p) => register(text, p),
        None => None,
    }
}

/// A mnemonic, a register, and a fixed operand.
pub open spec fn with_reg_key(text: Seq<char>, pos: int, w: Seq<char>, key: Seq<char>) -> Option<
    (u8, int),
> {
    match mnemonic(text, pos, w) {
        Some(p) => match register(text, p) {
            Some((r, q)) => match separator(text, q) {
                Some(s) => match keyword(text, s, key) {
                    Some(end) => Some((r, end)),
                    None => None,
                },
                None => None,
            },
            None => None,
        },
        None => None,
    }
}

/// A mnemonic, a fixed operand, and a register.
pub open spec fn with_key_reg(text: Seq<char>, pos: int, w: Seq<char>, key: Seq<char>) -> Option<
    (u8, int),
> {
    match mnemonic(text, pos, w) {
        Some(p) => match keyword(text, p, key) {
            Some(q) => match separator(text, q) {
                Some(s) => register(text, s),
                None => None,
            },
            None => None,
        },
        None => None,
    }
}

/// The instructions without operands: `CLS` and `RET`.
pub open spec fn oc_noarg(text: Seq<char>, pos: int) -> Option<(Opcode<AddrView>, int)> {
    or_else(
        build(
            match keyword(text, pos, "cls"@) {
                Some(end) => Some(((), end)),
                None => None,
            },
            |u: ()| Opcode::<AddrView>::ClearDisplay,
        ),
        build(
            match keyword(text, pos, "ret"@) {
                Some(end) => Some(((), end)),
                None => None,
            },
            |u: ()| Opcode::<AddrView>::Return,
        ),
    )
}

/// The instructions with an address: `JP V0, addr`, `JP addr`, `CALL addr`
/// and `LD I, addr`.
pub open spec fn oc_addr(text: Seq<char>, pos: int) -> Option<(Opcode<AddrView>, int)> {
    or_else(
        build(with_key_address(text, pos, "jp"@, "v0"@), |a: AddrView| Opcode::JumpV0(a)),
        or_else(
            build(with_address(text, pos, "jp"@), |a: AddrView| Opcode::Jump(a)),
            or_else(
                build(with_address(text, pos, "call"@), |a: AddrView| Opcode::Call(a)),
                build(with_key_address(text, pos, "ld"@, "i"@), |a: AddrView| Opcode::LoadI(a)),
            ),
        ),
    )
}

/// The instructions with a register and a byte: `SE`, `SNE`, `LD`, `ADD`
/// and `RND`.
pub open spec fn oc_reg_imm(text: Seq<char>, pos: int) -> Option<(Opcode<AddrView>, int)> {
    or_else(
        build(
            with_reg_imm(text, pos, "se"@),
            |a: (u8, u8)| Opcode::<AddrView>::SkipEqImm(a.0, a.1),
        ),
        or_else(
            build(
                with_reg_imm(text, pos, "sne"@),
                |a: (u8, u8)| Opcode::<AddrView>::SkipNotEqImm(a.0, a.1),
            ),
            or_else(
                build(
                    with_reg_imm(text, pos, "ld"@),
                    |a: (u8, u8)| Opcode::<AddrView>::LoadImm(a.0, a.1),
                ),
                or_else(
                    build(
                        with_reg_imm(text, pos, "add"@),
                        |a: (u8, u8)| Opcode::<AddrView>::AddImm(a.0, a.1),
                    ),
                    build(
                        with_reg_imm(text, pos, "rnd"@),
                        |a: (u8, u8)| Opcode::<AddrView>::Random(a.0, a.1),
                    ),
                ),
            ),
        ),
    )
}

/// The first half of the instructions with two registers: `SE`, `LD`, `OR`,
/// `AND`, `XOR` and `ADD`.
pub open spec fn oc_reg_reg_first(text: Seq<char>, pos: int) -> Option<(Opcode<AddrView>, int)> {
    or_else(
        build(
            with_reg_reg(text, pos, "se"@),
            |a: (u8, u8)| Opcode::<AddrView>::SkipEqReg(a.0, a.1),
        ),
        or_else(
            build(
                with_reg_reg(text, pos, "ld"@),
                |a: (u8, u8)| Opcode::<AddrView>::LoadReg(a.0, a.1),
            ),
            or_else(
                build(
                    with_reg_reg(text, pos, "or"@),
                    |a: (u8, u8)| Opcode::<AddrView>::OrReg(a.0, a.1),
                ),
                or_else(
                    build(
                        with_reg_reg(text, pos, "and"@),
                        |a: (u8, u8)| Opcode::<AddrView>::AndReg(a.0, a.1),
                    ),
                    or_else(
                        build(
                            with_reg_reg(text, pos, "xor"@),
                            |a: (u8, u8)| Opcode::<AddrView>::XorReg(a.0, a.1),
                        ),
                        build(
                            with_reg_reg(text, pos, "add"@),
                            |a: (u8, u8)| Opcode::<AddrView>::AddReg(a.0, a.1),
                        ),
                    ),
                ),
            ),
        ),
    )
}

/// The second half of the instructions with two registers: `SUB`, `SHR`,
/// `SUBN`, `SHL` and `SNE`.
pub open spec fn oc_reg_reg_second(text: Seq<char>, pos: int) -> Option<(Opcode<AddrView>, int)> {
    or_else(
        build(
            with_reg_reg(text, pos, "sub"@),
            |a: (u8, u8)| Opcode::<AddrView>::SubReg(a.0, a.1),
        ),
        or_else(
            build(
                with_reg_reg(text, pos, "shr"@),
                |a: (u8, u8)| Opcode::<AddrView>::ShiftRight(a.0, a.1),
            ),
            or_else(
                build(
                    with_reg_reg(text, pos, "subn"@),
                    |a: (u8, u8)| Opcode::<AddrView>::SubN(a.0, a.1),
                ),
                or_else(
                    build(
                        with_reg_reg(text, pos, "shl"@),
                        |a: (u8, u8)| Opcode::<AddrView>::ShiftLeft(a.0, a.1),
                    ),
                    build(
                        with_reg_reg(text, pos, "sne"@),
                        |a: (u8, u8)| Opcode::<AddrView>::SkipNotEqReg(a.0, a.1),
                    ),
                ),
            ),
        ),
    )
}

/// The instructions with two registers.
pub open spec fn oc_reg_reg(text: Seq<char>, pos: int) -> Option<(Opcode<AddrView>, int)> {
    or_else(oc_reg_reg_first(text, pos), oc_reg_reg_second(text, pos))
}

/// The first half of the instructions with one register: `SKP Vx`,
/// `SKPN Vx`, `LD Vx, DT`, `LD Vx, K`, `LD DT, Vx` and `LD ST, Vx`.
pub open spec fn oc_reg_first(text: Seq<char>, pos: int) -> Option<(Opcode<AddrView>, int)> {
    or_else(
        build(with_reg(text, pos, "skp"@), |r: u8| Opcode::<AddrView>::SkipKeyPressed(r)),
        or_else(
            build(with_reg(text, pos, "skpn"@), |r: u8| Opcode::<AddrView>::SkipKeyNotPressed(r)),
            or_else(
                build(
                    with_reg_key(text, pos, "ld"@, "dt"@),
                    |r: u8| Opcode::<AddrView>::LoadDelayTimer(r),
                ),
                or_else(
                    build(
                        with_reg_key(text, pos, "ld"@, "k"@),
                        |r: u8| Opcode::<AddrView>::WaitKeyPress(r),
                    ),
                    or_else(
                        build(
                            with_key_reg(text, pos, "ld"@, "dt"@),
                            |r: u8| Opcode::<AddrView>::SetDelayTimer(r),
                        ),
                        build(
                            with_key_reg(text, pos, "ld"@, "st"@),
                            |r: u8| Opcode::<AddrView>::SetSoundTimer(r),
                        ),
                    ),
                ),
            ),
        ),
    )
}

/// The second half of the instructions with one register: `ADD I, Vx`,
/// `LD F, Vx`, `LD B, Vx`, `LD [I], Vx` and `LD Vx, [I]`.
pub open spec fn oc_reg_second(text: Seq<char>, pos: int) -> Option<(Opcode<AddrView>, int)> {
    or_else(
        build(with_key_reg(text, pos, "add"@, "i"@), |r: u8| Opcode::<AddrView>::AddI(r)),
        or_else(
            build(with_key_reg(text, pos, "ld"@, "f"@), |r: u8| Opcode::<AddrView>::LoadSprite(r)),
            or_else(
                build(with_key_reg(text, pos, "ld"@, "b"@), |r: u8| Opcode::<AddrView>::LoadBCD(r)),
                or_else(
                    build(
                        with_key_reg(text, pos, "ld"@, "[i]"@),
                        |r: u8| Opcode::<AddrView>::SaveRegs(r),
                    ),
                    build(
                        with_reg_key(text, pos, "ld"@, "[i]"@),
                        |r: u8| Opcode::<AddrView>::LoadRegs(r),
                    ),
                ),
            ),
        ),
    )
}

/// The instructions with one register.
pub open spec fn oc_reg(text: Seq<char>, pos: int) -> Option<(Opcode<AddrView>, int)> {
    or_else(oc_reg_first(text, pos), oc_reg_second(text, pos))
}

/// A nibble: a byte that is below 16.
pub open spec fn nibble(text: Seq<char>, pos: int) -> Option<(u8, int)> {
    match number(text, pos, 0xFF) {
        Some((value, end)) => if value < 16 {
            Some((value as u8, end))
        } else {
            None
        },
        None => None,
    }
}

/// `DRW Vx, Vy, n`.
pub open spec fn oc_special(text: Seq<char>, pos: int) -> Option<(Opcode<AddrView>, int)> {
    match with_reg_reg(text, pos, "drw"@) {
        Some(((r1, r2), p)) => match separator(text, p) {
            Some(q) => match nibble(text, q) {
                Some((n, end)) => Some((Opcode::Draw(r1, r2, n), end)),
                None => None,
            },
            None => None,
        },
        None => None,
    }
}

/// An instruction of the machine.
pub open spec fn opcode(text: Seq<char>, pos: int) -> Option<(Opcode<AddrView>, int)> {
    or_else(
        oc_noarg(text, pos),
        or_else(
            oc_addr(text, pos),
            or_else(
                oc_reg_imm(text, pos),
                or_else(oc_reg_reg(text, pos), or_else(oc_reg(text, pos), oc_special(text, pos))),
            ),
        ),
    )
}

/// The bytes of a data line after the first: each stands after a separator.
/// The bytes, and where the last of them ends.
pub open spec fn more_data(text: Seq<char>, pos: int) -> (Seq<u8>, int)
    decreases text.len() - pos,
{
    match separator(text, pos) {
        Some(p) => match number(text, p, 0xFF) {
            Some((value, end)) => if pos < end <= text.len() {
                let (rest, last) = more_data(text, end);
                (seq![value as u8] + rest, last)
            } else {
                (Seq::empty(), pos)
            },
            None => (Seq::empty(), pos),
        },
        None => (Seq::empty(), pos),
    }
}

/// Data: one byte or more, with separators between them.
pub open spec fn data(text: Seq<char>, pos: int) -> Option<(Seq<u8>, int)> {
    match number(text, pos, 0xFF) {
        Some((value, end)) => {
            let (rest, last) = more_data(text, end);
            Some((seq![value as u8] + rest, last))
        },
        None => None,
    }
}

/// What a line assembles to, data or else an instruction, and the blanks
/// after it.
pub open spec fn instr(text: Seq<char>, pos: int) -> Option<(InstrView, int)> {
    match data(text, pos) {
        Some((bytes, end)) => Some((InstrView::Data(bytes), blanks_end(text, end))),
        None => match opcode(text, pos) {
            Some((o, end)) => Some((InstrView::Opcode(o), blanks_end(text, end))),
            None => None,
        },
    }
}

/// A label definition: a name and a colon. The name, and where the colon
/// ends.
pub open spec fn label(text: Seq<char>, pos: int) -> Option<(Seq<char>, int)> {
    match name(text, pos) {
        Some(end) => if end < text.len() && text[end] == ':' {
            Some((text.subrange(pos, end), end + 1))
        } else {
            None
        },
        None => None,
    }
}

/// The instruction of a line: it stands after at least one blank.
pub open spec fn maybe_instr(text: Seq<char>, pos: int) -> Option<(InstrView, int)> {
    match blanks1(text, pos) {
        Some(p) => instr(text, p),
        None => None,
    }
}

/// A line: a label definition or none, then an instruction or none, then a
/// comment or none. What is not there is left out and nothing of it is read,
/// so that every text begins with a line. What the line says, and where it
/// ends.
pub open spec fn line(text: Seq<char>, pos: int) -> (LineView, int) {
    let (name, p) = match label(text, pos) {
        Some((name, p)) => (Some(name), p),
        None => (None, pos),
    };
    let (instruction, q) = match maybe_instr(text, p) {
        Some((i, q)) => (Some(i), q),
        None => (None, p),
    };
    let end = match comment(text, q) {
        Some(end) => end,
        None => q,
    };
    (LineView { label: name, instr: instruction }, end)
}

/// Lines with line endings between them, as many as there are: the lines,
/// and where the last of them ends.
pub open spec fn lines(text: Seq<char>, pos: int) -> (Seq<LineView>, int)
    decreases text.len() - pos,
{
    let (first, p) = line(text, pos);
    match line_ending(text, p) {
        Some(q) => if pos < q <= text.len() {
            let (rest, end) = lines(text, q);
            (seq![first] + rest, end)
        } else {
            (seq![first], p)
        },
        None => (seq![first], p),
    }
}

/// A whole source text: its lines, if they take up all of it; where the
/// lines end and on which line, if more follows.
pub open spec fn parse(text: Seq<char>) -> Result<Seq<LineView>, ParseError> {
    let (parsed, end) = lines(text, 0);
    if end == text.len() {
        Ok(parsed)
    } else {
        Err(ParseError { offset: end as usize, line: parsed.len() as usize })
    }
}

} // verus!
