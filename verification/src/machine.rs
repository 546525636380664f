//! What the machine is and what each instruction does to it, as mathematics.

use crate::display::blit;
use crate::display::blit_collides;
use crate::display::DISPLAY_BUFFER_SIZE;
use crate::keyboard::Key;
use crate::keyboard::KeyState;
use crate::keyboard::KeyWait;
use crate::keyboard::KeyboardState;
use crate::memory::overwrite;
use crate::memory::word_at;
use crate::opcode::decode;
use crate::opcode::Instr;
use crate::quirks::Quirks;
use crate::register::VReg;
use crate::timer::report_of_update;
use crate::timer::TimerMessage;
use vstd::prelude::*;

verus! {

/// Why the interpreter gave up.
#[derive(Clone, Copy, Debug, PartialEq, Eq, Structural)]
pub enum SystemError {
    /// The program counter is odd. This interpreter runs on from an odd
    /// address and never gives up for that.
    OddPcAddress,
    /// The word at the program counter stands for no instruction.
    UnknownInstruction,
    /// An instruction word, a sprite or a run of registers does not lie
    /// inside memory, or an instruction would take the program counter past
    /// the last address at which an instruction word fits.
    MemoryReadOverflow,
    /// A return without a call.
    StackUnderflow,
    /// A call with sixteen calls under way.
    StackOverflow,
    /// A jump to the address of the jump itself.
    SelfJump,
    /// The wait for a key press was called off.
    Interrupted,
}

/// What the world outside the machine has to be told, or has to do, after an
/// instruction.
#[derive(Clone, Copy, Debug, PartialEq, Eq, Structural)]
pub enum Effect {
    /// Nothing.
    Quiet,
    /// Every pixel went off.
    DisplayCleared,
    /// A sprite was drawn.
    DisplayUpdated,
    /// The delay timer reported this.
    DelayTimer(TimerMessage),
    /// The sound timer reported this.
    SoundTimer(TimerMessage),
    /// The machine waits for a key press and runs no further until one is
    /// posted or the wait is called off.
    AwaitingKey,
}

/// The deepest the call stack goes.
pub const STACK_SIZE: usize = 16;

/// The last address at which an instruction word fits into memory. The
/// program counter never lies above it.
pub const LAST_WORD: u16 = 0xFFE;

/// Everything the machine holds.
pub struct MachineState {
    /// The address of the next instruction.
    pub pc: u16,
    /// The registers `V0` to `VF`.
    pub v: Seq<u8>,
    /// The index register.
    pub i: u16,
    /// The return addresses, the latest last.
    pub stack: Seq<u16>,
    pub memory: Seq<u8>,
    /// The pixels, row by row.
    pub pixels: Seq<bool>,
    pub keyboard: KeyboardState,
    /// The value of the delay timer.
    pub delay: u8,
    /// The value of the sound timer.
    pub sound: u8,
    pub quirks: Quirks,
    /// Whether the stop pin was raised.
    pub stopped: bool,
}

/// A machine after an instruction, and what came of the instruction.
pub struct Outcome {
    pub state: MachineState,
    pub result: Result<Effect, SystemError>,
}

/// A number cut to eight bits: its remainder modulo 256.
#[verifier::opaque]
pub open spec fn wrap8(n: int) -> u8 {
    (n % 256) as u8
}

/// A number cut to sixteen bits: its remainder modulo 65536.
#[verifier::opaque]
pub open spec fn wrap16(n: int) -> u16 {
    (n % 0x10000) as u16
}

/// Addition and subtraction that wrap are the exact ones cut to the
/// register's width.
pub proof fn lemma_wrapping(a: u8, b: u8, c: u16)
    ensures
        a.wrapping_add(b) == wrap8(a + b),
        a.wrapping_sub(b) == wrap8(a - b),
        c.wrapping_add(a as u16) == wrap16(c + a),
{
    reveal(wrap8);
    reveal(wrap16);
}

/// The decimal digits of a byte: hundreds, tens, ones.
pub open spec fn bcd(value: u8) -> Seq<u8> {
    seq![(value / 100) as u8, ((value / 10) % 10) as u8, (value % 10) as u8]
}

impl Instr {
    /// Whether the operands fit their fields: an address in twelve bits, a
    /// row count in four.
    pub open spec fn fits(self) -> bool {
        match self {
            Instr::Jump(nnn) => nnn <= 0xFFF,
            Instr::Call(nnn) => nnn <= 0xFFF,
            Instr::LoadI(nnn) => nnn <= 0xFFF,
            Instr::JumpV0(nnn) => nnn <= 0xFFF,
            Instr::Draw(_, _, n) => n <= 0xF,
            _ => true,
        }
    }
}

impl MachineState {
    /// The sizes that every machine keeps: sixteen registers, 4096 bytes,
    /// 2048 pixels, sixteen keys, and a stack no deeper than sixteen.
    pub open spec fn sized(self) -> bool {
        &&& self.v.len() == 16
        &&& self.memory.len() == 4096
        &&& self.pixels.len() == 2048
        &&& self.keyboard.keys.len() == 16
        &&& self.stack.len() <= STACK_SIZE
    }

    /// What holds of a machine before and after every instruction: it has
    /// its sizes, and the program counter lies on an address at which an
    /// instruction word fits into memory.
    pub open spec fn wf(self) -> bool {
        &&& self.sized()
        &&& self.pc <= LAST_WORD
    }

    /// The value of a register.
    pub open spec fn reg(self, r: VReg) -> u8 {
        self.v[r.number()]
    }

    /// The machine with a register set.
    pub open spec fn set(self, r: VReg, value: u8) -> MachineState {
        MachineState { v: self.v.update(r.number(), value), ..self }
    }

    /// The machine with the program counter on the next instruction.
    pub open spec fn next(self) -> MachineState {
        MachineState { pc: (self.pc + 2) as u16, ..self }
    }

    /// An instruction that is done and asks nothing of the outside.
    pub open spec fn done(self) -> Outcome {
        Outcome { state: self.next(), result: Ok(Effect::Quiet) }
    }

    /// A conditional skip: the next instruction is passed over where `skip`
    /// holds.
    pub open spec fn skip_if(self, skip: bool) -> Outcome {
        if skip {
            self.next().done()
        } else {
            self.done()
        }
    }

    /// An instruction that failed and left the machine as it was.
    pub open spec fn fail(self, error: SystemError) -> Outcome {
        Outcome { state: self, result: Err(error) }
    }

    /// An arithmetic instruction: the result goes to `Vx` first and the flag
    /// to `VF` after it, so that the flag stands where `Vx` is `VF`.
    pub open spec fn flagged(self, x: VReg, value: u8, flag: bool) -> Outcome {
        self.set(x, value).set(
            VReg::VF,
            if flag {
                1u8
            } else {
                0u8
            },
        ).done()
    }

    /// The register that a shift reads.
    pub open spec fn shift_source(self, x: VReg, y: VReg) -> u8 {
        if self.quirks.shift_reads_vx {
            self.reg(x)
        } else {
            self.reg(y)
        }
    }

    /// `I` after `count` registers were saved or loaded.
    pub open spec fn index_after(self, count: int) -> u16 {
        if self.quirks.load_store_ignores_i {
            self.i
        } else {
            (self.i + count) as u16
        }
    }

    /// `DRW`: the `n` bytes at `I` are drawn as a sprite from the origin
    /// `(Vx, Vy)`, and `VF` says whether that turned a lit pixel off.
    pub open spec fn draw(self, x: VReg, y: VReg, n: u8) -> Outcome {
        if self.i + n > self.memory.len() {
            self.fail(SystemError::MemoryReadOverflow)
        } else {
            let sprite = self.memory.subrange(self.i as int, self.i + n);
            let (px, py) = (self.reg(x) as int, self.reg(y) as int);
            let wrap = self.quirks.draw_wraps_pixels;
            let drawn = MachineState { pixels: blit(self.pixels, px, py, sprite, wrap), ..self };
            let collision = blit_collides(self.pixels, px, py, sprite, wrap);
            Outcome {
                state: drawn.set(
                    VReg::VF,
                    if collision {
                        1u8
                    } else {
                        0u8
                    },
                ).next(),
                result: Ok(Effect::DisplayUpdated),
            }
        }
    }

    /// `SKP` and `SKNP`: the next instruction is passed over where `Vx` names
    /// a key and that key is down (`wanted`) or is not down (not `wanted`).
    pub open spec fn skip_on_key(self, x: VReg, wanted: bool) -> Outcome {
        match Key::numbered(self.reg(x) as int) {
            Some(key) => self.skip_if(
                (self.keyboard.keys[key.number()] == KeyState::Down) == wanted,
            ),
            None => self.done(),
        }
    }

    /// `LD Vx, K`: the key that ended the wait goes to `Vx`. While no key has
    /// gone down the machine stays on this instruction.
    pub open spec fn wait_key(self, x: VReg) -> Outcome {
        let asked = MachineState { keyboard: self.keyboard.wait(), ..self };
        match self.keyboard.wait_result() {
            KeyWait::Pressed(key) => asked.set(x, key.number() as u8).done(),
            KeyWait::Interrupted => asked.fail(SystemError::Interrupted),
            KeyWait::Pending => Outcome { state: asked, result: Ok(Effect::AwaitingKey) },
        }
    }

    /// `LD B, Vx`: the decimal digits of `Vx` go to the three bytes at `I`.
    pub open spec fn store_bcd(self, x: VReg) -> Outcome {
        if self.i + 3 > self.memory.len() {
            self.fail(SystemError::MemoryReadOverflow)
        } else {
            MachineState {
                memory: overwrite(self.memory, self.i as int, bcd(self.reg(x))),
                ..self
            }.done()
        }
    }

    /// `LD [I], Vx`: the registers `V0` to `Vx` go to memory from `I` on.
    pub open spec fn save_regs(self, x: VReg) -> Outcome {
        let count = x.number() + 1;
        if self.i + count > self.memory.len() {
            self.fail(SystemError::MemoryReadOverflow)
        } else {
            MachineState {
                memory: overwrite(self.memory, self.i as int, self.v.take(count)),
                i: self.index_after(count),
                ..self
            }.done()
        }
    }

    /// `LD Vx, [I]`: the registers `V0` to `Vx` are read from memory from `I`
    /// on.
    pub open spec fn load_regs(self, x: VReg) -> Outcome {
        let count = x.number() + 1;
        if self.i + count > self.memory.len() {
            self.fail(SystemError::MemoryReadOverflow)
        } else {
            MachineState {
                v: Seq::new(
                    self.v.len(),
                    |k: int|
                        if k < count {
                            self.memory[self.i + k]
                        } else {
                            self.v[k]
                        },
                ),
                i: self.index_after(count),
                ..self
            }.done()
        }
    }

    /// One instruction, executed. It is done as `perform` says if that
    /// leaves the program counter at 0xFFE or below. An instruction that
    /// would take the program counter further fails, and leaves the machine
    /// as it was.
    pub open spec fn execute(self, instr: Instr, random: u8) -> Outcome {
        let done = self.perform(instr, random);
        if done.result is Ok && done.state.pc > LAST_WORD {
            self.fail(SystemError::MemoryReadOverflow)
        } else {
            done
        }
    }

    /// What one instruction does to the machine, wherever that takes the
    /// program counter. `random` is the byte that `RND` draws.
    pub open spec fn perform(self, instr: Instr, random: u8) -> Outcome {
        match instr {
            Instr::ClearDisplay => Outcome {
                state: MachineState {
                    pixels: Seq::new(DISPLAY_BUFFER_SIZE as nat, |i: int| false),
                    ..self
                }.next(),
                result: Ok(Effect::DisplayCleared),
            },
            Instr::Return => if self.stack.len() == 0 {
                self.fail(SystemError::StackUnderflow)
            } else {
                Outcome {
                    state: MachineState {
                        pc: self.stack.last(),
                        stack: self.stack.drop_last(),
                        ..self
                    },
                    result: Ok(Effect::Quiet),
                }
            },
            Instr::Jump(nnn) => if self.pc == nnn {
                self.fail(SystemError::SelfJump)
            } else {
                Outcome { state: MachineState { pc: nnn, ..self }, result: Ok(Effect::Quiet) }
            },
            Instr::Call(nnn) => if self.stack.len() >= STACK_SIZE {
                self.fail(SystemError::StackOverflow)
            } else {
                Outcome {
                    state: MachineState {
                        pc: nnn,
                        stack: self.stack.push((self.pc + 2) as u16),
                        ..self
                    },
                    result: Ok(Effect::Quiet),
                }
            },
            Instr::SkipEqImm(x, kk) => self.skip_if(self.reg(x) == kk),
            Instr::SkipNotEqImm(x, kk) => self.skip_if(self.reg(x) != kk),
            Instr::SkipEqReg(x, y) => self.skip_if(self.reg(x) == self.reg(y)),
            Instr::LoadImm(x, kk) => self.set(x, kk).done(),
            Instr::AddImm(x, kk) => self.set(x, wrap8(self.reg(x) + kk)).done(),
            Instr::LoadReg(x, y) => self.set(x, self.reg(y)).done(),
            Instr::OrReg(x, y) => self.set(x, self.reg(x) | self.reg(y)).done(),
            Instr::AndReg(x, y) => self.set(x, self.reg(x) & self.reg(y)).done(),
            Instr::XorReg(x, y) => self.set(x, self.reg(x) ^ self.reg(y)).done(),
            Instr::AddReg(x, y) => self.flagged(
                x,
                wrap8(self.reg(x) + self.reg(y)),
                self.reg(x) + self.reg(y) >= 256,
            ),
            Instr::SubReg(x, y) => self.flagged(
                x,
                wrap8(self.reg(x) - self.reg(y)),
                self.reg(x) >= self.reg(y),
            ),
            Instr::ShiftRight(x, y) => self.flagged(
                x,
                self.shift_source(x, y) / 2,
                self.shift_source(x, y) % 2 == 1,
            ),
            Instr::SubN(x, y) => self.flagged(
                x,
                wrap8(self.reg(y) - self.reg(x)),
                self.reg(y) >= self.reg(x),
            ),
            Instr::ShiftLeft(x, y) => self.flagged(
                x,
                wrap8(self.shift_source(x, y) * 2),
                self.shift_source(x, y) >= 128,
            ),
            Instr::SkipNotEqReg(x, y) => self.skip_if(self.reg(x) != self.reg(y)),
            Instr::LoadI(nnn) => MachineState { i: nnn, ..self }.done(),
            Instr::JumpV0(nnn) => Outcome {
                state: MachineState {
                    pc: wrap16(nnn + self.reg(VReg::V0)),
                    ..self
                },
                result: Ok(Effect::Quiet),
            },
            Instr::Random(x, kk) => self.set(x, kk & random).done(),
            Instr::Draw(x, y, n) => self.draw(x, y, n),
            Instr::SkipKeyPressed(x) => self.skip_on_key(x, true),
            Instr::SkipKeyNotPressed(x) => self.skip_on_key(x, false),
            Instr::LoadDelayTimer(x) => self.set(x, self.delay).done(),
            Instr::WaitKeyPress(x) => self.wait_key(x),
            Instr::SetDelayTimer(x) => Outcome {
                state: MachineState { delay: self.reg(x), ..self }.next(),
                result: Ok(
                    match report_of_update(self.delay, self.reg(x)) {
                        Some(m) => Effect::DelayTimer(m),
                        None => Effect::Quiet,
                    },
                ),
            },
            Instr::SetSoundTimer(x) => Outcome {
                state: MachineState { sound: self.reg(x), ..self }.next(),
                result: Ok(
                    match report_of_update(self.sound, self.reg(x)) {
                        Some(m) => Effect::SoundTimer(m),
                        None => Effect::Quiet,
                    },
                ),
            },
            Instr::AddI(x) => MachineState {
                i: wrap16(self.i + self.reg(x)),
                ..self
            }.done(),
            Instr::LoadSprite(x) => MachineState { i: (self.reg(x) * 5) as u16, ..self }.done(),
            Instr::LoadBCD(x) => self.store_bcd(x),
            Instr::SaveRegs(x) => self.save_regs(x),
            Instr::LoadRegs(x) => self.load_regs(x),
        }
    }

    /// The instruction at the program counter: the big-endian word there,
    /// decoded.
    pub open spec fn fetch(self) -> Result<Instr, SystemError> {
        if self.pc + 1 >= self.memory.len() {
            Err(SystemError::MemoryReadOverflow)
        } else {
            match decode(word_at(self.memory, self.pc as int)) {
                Some(instr) => Ok(instr),
                None => Err(SystemError::UnknownInstruction),
            }
        }
    }

    /// Whether a turn of the interpreter's loop runs an instruction: the
    /// machine was not asked to stop, or it is in the middle of a wait for a
    /// key press, which it then hears was called off.
    pub open spec fn runs(self) -> bool {
        !self.stopped || self.keyboard.awaiting()
    }

    /// Fetch, decode and execute. An instruction that cannot be fetched or
    /// decoded leaves the machine as it was.
    pub open spec fn execute_next(self, random: u8) -> Outcome {
        match self.fetch() {
            Ok(instr) => self.execute(instr, random),
            Err(error) => self.fail(error),
        }
    }
}

impl MachineState {
    /// Whether `instr` is a conditional skip whose condition holds.
    pub open spec fn skips(self, instr: Instr) -> bool {
        match instr {
            Instr::SkipEqImm(x, kk) => self.reg(x) == kk,
            Instr::SkipNotEqImm(x, kk) => self.reg(x) != kk,
            Instr::SkipEqReg(x, y) => self.reg(x) == self.reg(y),
            Instr::SkipNotEqReg(x, y) => self.reg(x) != self.reg(y),
            Instr::SkipKeyPressed(x) => Key::numbered(self.reg(x) as int) matches Some(key)
                && self.keyboard.keys[key.number()] == KeyState::Down,
            Instr::SkipKeyNotPressed(x) => Key::numbered(self.reg(x) as int) matches Some(key)
                && self.keyboard.keys[key.number()] != KeyState::Down,
            _ => false,
        }
    }

    /// Whether `instr` could be done but for where it takes the program
    /// counter: a jump or call to 0xFFF, a jump by `V0` whose sum is above
    /// 0xFFE, a return to an address above it, or any other instruction that
    /// stands so near the end of memory that the next one, or the one after
    /// a skip, would not fit.
    pub open spec fn overruns(self, instr: Instr) -> bool {
        match instr {
            Instr::Jump(nnn) => nnn > LAST_WORD && self.pc != nnn,
            Instr::Call(nnn) => nnn > LAST_WORD && self.stack.len() < STACK_SIZE,
            Instr::JumpV0(nnn) => nnn + self.reg(VReg::V0) > LAST_WORD,
            Instr::Return => self.stack.len() > 0 && self.stack.last() > LAST_WORD,
            Instr::WaitKeyPress(_) => self.keyboard.wait_result() is Pressed && self.pc + 2
                > LAST_WORD,
            Instr::Draw(_, _, n) => self.i + n <= self.memory.len() && self.pc + 2 > LAST_WORD,
            Instr::LoadBCD(_) => self.i + 3 <= self.memory.len() && self.pc + 2 > LAST_WORD,
            Instr::SaveRegs(x) => self.i + x.number() + 1 <= self.memory.len() && self.pc + 2
                > LAST_WORD,
            Instr::LoadRegs(x) => self.i + x.number() + 1 <= self.memory.len() && self.pc + 2
                > LAST_WORD,
            _ => if self.skips(instr) {
                self.pc + 4 > LAST_WORD
            } else {
                self.pc + 2 > LAST_WORD
            },
        }
    }
}

/// The instructions that set the program counter.
proof fn lemma_overruns_flow(s: MachineState, instr: Instr, random: u8)
    requires
        s.v.len() == 16,
        s.memory.len() == 4096,
        s.pc <= LAST_WORD,
        instr.fits(),
        instr is ClearDisplay || instr is Return || instr is Jump || instr is Call
            || instr is JumpV0,
    ensures
        s.overruns(instr) <==> s.perform(instr, random).result is Ok && s.perform(
            instr,
            random,
        ).state.pc > LAST_WORD,
{
    reveal(wrap16);
}

/// The conditional skips.
proof fn lemma_overruns_skip(s: MachineState, instr: Instr, random: u8)
    requires
        s.v.len() == 16,
        s.memory.len() == 4096,
        s.pc <= LAST_WORD,
        instr.fits(),
        instr is SkipEqImm || instr is SkipNotEqImm || instr is SkipEqReg || instr is SkipNotEqReg
            || instr is SkipKeyPressed || instr is SkipKeyNotPressed,
    ensures
        s.overruns(instr) <==> s.perform(instr, random).result is Ok && s.perform(
            instr,
            random,
        ).state.pc > LAST_WORD,
{
}

/// The instructions that read or write memory, and the wait for a key.
proof fn lemma_overruns_memory(s: MachineState, instr: Instr, random: u8)
    requires
        s.v.len() == 16,
        s.memory.len() == 4096,
        s.pc <= LAST_WORD,
        instr.fits(),
        instr is Draw || instr is LoadBCD || instr is SaveRegs || instr is LoadRegs
            || instr is WaitKeyPress,
    ensures
        s.overruns(instr) <==> s.perform(instr, random).result is Ok && s.perform(
            instr,
            random,
        ).state.pc > LAST_WORD,
{
}

/// The instructions that only set registers or timers.
proof fn lemma_overruns_plain(s: MachineState, instr: Instr, random: u8)
    requires
        s.v.len() == 16,
        s.memory.len() == 4096,
        s.pc <= LAST_WORD,
        instr.fits(),
        !(instr is ClearDisplay || instr is Return || instr is Jump || instr is Call
            || instr is JumpV0 || instr is SkipEqImm || instr is SkipNotEqImm || instr is SkipEqReg
            || instr is SkipNotEqReg || instr is SkipKeyPressed || instr is SkipKeyNotPressed
            || instr is Draw || instr is LoadBCD || instr is SaveRegs || instr is LoadRegs
            || instr is WaitKeyPress),
    ensures
        s.overruns(instr) <==> s.perform(instr, random).result is Ok && s.perform(
            instr,
            random,
        ).state.pc > LAST_WORD,
{
}

/// The instructions that fail for where they take the program counter are
/// the ones that `overruns` names, and they fail with a memory overflow and
/// change nothing. Every other instruction is done as `perform` says.
pub proof fn lemma_overruns(s: MachineState, instr: Instr, random: u8)
    requires
        s.v.len() == 16,
        s.memory.len() == 4096,
        s.pc <= LAST_WORD,
        instr.fits(),
    ensures
        s.overruns(instr) <==> s.perform(instr, random).result is Ok && s.perform(
            instr,
            random,
        ).state.pc > LAST_WORD,
        s.overruns(instr) ==> s.execute(instr, random) == s.fail(SystemError::MemoryReadOverflow),
        !s.overruns(instr) ==> s.execute(instr, random) == s.perform(instr, random),
{
    match instr {
        Instr::ClearDisplay | Instr::Return | Instr::Jump(_) | Instr::Call(_)
        | Instr::JumpV0(_) => {
            lemma_overruns_flow(s, instr, random);
        },
        Instr::SkipEqImm(_, _) | Instr::SkipNotEqImm(_, _) | Instr::SkipEqReg(_, _)
        | Instr::SkipNotEqReg(_, _) | Instr::SkipKeyPressed(_) | Instr::SkipKeyNotPressed(_) => {
            lemma_overruns_skip(s, instr, random);
        },
        Instr::Draw(_, _, _) | Instr::LoadBCD(_) | Instr::SaveRegs(_) | Instr::LoadRegs(_)
        | Instr::WaitKeyPress(_) => {
            lemma_overruns_memory(s, instr, random);
        },
        _ => {
            lemma_overruns_plain(s, instr, random);
        },
    }
}

/// An instruction, done or failed, takes the program counter nowhere but
/// to an address at which an instruction word fits; and after an
/// instruction that was done, the program counter is there whatever it was
/// before.
pub proof fn lemma_pc_stays_in_memory(s: MachineState, instr: Instr, random: u8)
    ensures
        s.execute(instr, random).result is Ok ==> s.execute(instr, random).state.pc <= LAST_WORD,
        s.pc <= LAST_WORD ==> s.execute(instr, random).state.pc <= LAST_WORD,
{
}

/// Every instruction, done or failed, keeps the machine's sizes.
proof fn lemma_perform_keeps_sizes(s: MachineState, instr: Instr, random: u8)
    requires
        s.sized(),
    ensures
        s.perform(instr, random).state.sized(),
{
    match instr {
        Instr::Draw(_, _, _) | Instr::LoadBCD(_) | Instr::SaveRegs(_) | Instr::LoadRegs(_) => {
            lemma_memory_keeps_sizes(s, instr, random);
        },
        Instr::ClearDisplay | Instr::Return | Instr::Jump(_) | Instr::Call(_)
        | Instr::JumpV0(_) => {
            lemma_flow_keeps_sizes(s, instr, random);
        },
        Instr::SkipKeyPressed(_) | Instr::SkipKeyNotPressed(_) | Instr::WaitKeyPress(_) => {
            lemma_keypad_keeps_sizes(s, instr, random);
        },
        _ => {
            lemma_plain_keeps_sizes(s, instr, random);
        },
    }
}

/// The instructions that read or write memory keep the machine's sizes.
proof fn lemma_memory_keeps_sizes(s: MachineState, instr: Instr, random: u8)
    requires
        s.sized(),
        instr is Draw || instr is LoadBCD || instr is SaveRegs || instr is LoadRegs,
    ensures
        s.perform(instr, random).state.sized(),
{
}

/// The instructions that set the program counter keep the machine's sizes.
proof fn lemma_flow_keeps_sizes(s: MachineState, instr: Instr, random: u8)
    requires
        s.sized(),
        instr is ClearDisplay || instr is Return || instr is Jump || instr is Call
            || instr is JumpV0,
    ensures
        s.perform(instr, random).state.sized(),
{
}

/// The instructions that look at the keypad keep the machine's sizes.
proof fn lemma_keypad_keeps_sizes(s: MachineState, instr: Instr, random: u8)
    requires
        s.sized(),
        instr is SkipKeyPressed || instr is SkipKeyNotPressed || instr is WaitKeyPress,
    ensures
        s.perform(instr, random).state.sized(),
{
}

/// The instructions that only set registers, timers or the program counter
/// by a step keep the machine's sizes.
proof fn lemma_plain_keeps_sizes(s: MachineState, instr: Instr, random: u8)
    requires
        s.sized(),
        !(instr is Draw || instr is LoadBCD || instr is SaveRegs || instr is LoadRegs
            || instr is ClearDisplay || instr is Return || instr is Jump || instr is Call
            || instr is JumpV0 || instr is SkipKeyPressed || instr is SkipKeyNotPressed
            || instr is WaitKeyPress),
    ensures
        s.perform(instr, random).state.sized(),
{
}

/// What holds of a machine before an instruction holds of it after the
/// instruction, done or failed: the sizes, a call stack no deeper than
/// sixteen, and a program counter at 0xFFE or below.
pub proof fn lemma_execute_keeps_wf(s: MachineState, instr: Instr, random: u8)
    requires
        s.wf(),
    ensures
        s.execute(instr, random).state.wf(),
{
    lemma_perform_keeps_sizes(s, instr, random);
    lemma_pc_stays_in_memory(s, instr, random);
}

/// A whole step, with its fetch and decode, keeps what holds of a machine.
pub proof fn lemma_execute_next_keeps_wf(s: MachineState, random: u8)
    requires
        s.wf(),
    ensures
        s.execute_next(random).state.wf(),
{
    match s.fetch() {
        Ok(instr) => lemma_execute_keeps_wf(s, instr, random),
        Err(_) => {},
    }
}

/// After a step that was done, the program counter lies on an address at
/// which an instruction word fits, whatever the machine was before.
pub proof fn lemma_step_stays_in_memory(s: MachineState, random: u8)
    ensures
        s.execute_next(random).result is Ok ==> s.execute_next(random).state.pc <= LAST_WORD,
{
}

/// A failed instruction changes nothing, but for the keypad, which has told
/// that the wait was called off.
pub proof fn lemma_failure_changes_nothing(s: MachineState, instr: Instr, random: u8)
    requires
        s.execute(instr, random).result is Err,
    ensures
        s.execute(instr, random).state == (MachineState {
            keyboard: s.execute(instr, random).state.keyboard,
            ..s
        }),
        !(instr is WaitKeyPress) ==> s.execute(instr, random).state == s,
{
}

/// `ADD Vx, Vy`, where it is done, sets `VF` to 1 if and only if the true
/// sum is 256 or more, also where `Vx` or `Vy` is `VF` itself; any other
/// `Vx` holds the sum modulo 256.
pub proof fn lemma_add_sets_carry(s: MachineState, x: VReg, y: VReg, random: u8)
    requires
        s.v.len() == 16,
        s.execute(Instr::AddReg(x, y), random).result is Ok,
    ensures
        s.execute(Instr::AddReg(x, y), random).state.reg(VReg::VF) == 1 <==> s.reg(x) + s.reg(y)
            >= 256,
        s.execute(Instr::AddReg(x, y), random).state.reg(VReg::VF) <= 1,
        x != VReg::VF ==> s.execute(Instr::AddReg(x, y), random).state.reg(x) == (s.reg(x)
            + s.reg(y)) % 256,
{
    reveal(wrap8);
}

/// `SUB Vx, Vy`, where it is done, sets `VF` to 1 if and only if
/// `Vx >= Vy`; any other `Vx` holds the difference modulo 256.
pub proof fn lemma_sub_sets_no_borrow(s: MachineState, x: VReg, y: VReg, random: u8)
    requires
        s.v.len() == 16,
        s.execute(Instr::SubReg(x, y), random).result is Ok,
    ensures
        s.execute(Instr::SubReg(x, y), random).state.reg(VReg::VF) == 1 <==> s.reg(x) >= s.reg(y),
        s.execute(Instr::SubReg(x, y), random).state.reg(VReg::VF) <= 1,
        x != VReg::VF ==> s.execute(Instr::SubReg(x, y), random).state.reg(x) == (s.reg(x)
            - s.reg(y)) % 256,
{
    reveal(wrap8);
}

/// `SUBN Vx, Vy`, where it is done, sets `VF` to 1 if and only if
/// `Vy >= Vx`; any other `Vx` holds the difference modulo 256.
pub proof fn lemma_subn_sets_no_borrow(s: MachineState, x: VReg, y: VReg, random: u8)
    requires
        s.v.len() == 16,
        s.execute(Instr::SubN(x, y), random).result is Ok,
    ensures
        s.execute(Instr::SubN(x, y), random).state.reg(VReg::VF) == 1 <==> s.reg(y) >= s.reg(x),
        s.execute(Instr::SubN(x, y), random).state.reg(VReg::VF) <= 1,
        x != VReg::VF ==> s.execute(Instr::SubN(x, y), random).state.reg(x) == (s.reg(y) - s.reg(
            x,
        )) % 256,
{
    reveal(wrap8);
}

/// The shifts, where they are done, set `VF` to the bit that is shifted out
/// of the source: the lowest for `SHR`, the highest for `SHL`.
pub proof fn lemma_shift_sets_lost_bit(s: MachineState, x: VReg, y: VReg, random: u8)
    requires
        s.v.len() == 16,
    ensures
        s.execute(Instr::ShiftRight(x, y), random).result is Ok ==> s.execute(
            Instr::ShiftRight(x, y),
            random,
        ).state.reg(VReg::VF) == s.shift_source(x, y) % 2,
        s.execute(Instr::ShiftLeft(x, y), random).result is Ok ==> s.execute(
            Instr::ShiftLeft(x, y),
            random,
        ).state.reg(VReg::VF) == s.shift_source(x, y) / 128,
{
}

/// An arithmetic instruction is done wherever the next instruction fits
/// into memory, whatever the registers hold.
pub proof fn lemma_arithmetic_is_done(s: MachineState, instr: Instr, random: u8)
    requires
        s.pc + 2 <= LAST_WORD,
        instr is AddReg || instr is SubReg || instr is SubN || instr is ShiftRight
            || instr is ShiftLeft || instr is AddImm || instr is OrReg || instr is AndReg
            || instr is XorReg,
    ensures
        s.execute(instr, random).result == Ok::<Effect, SystemError>(Effect::Quiet),
        s.execute(instr, random).state.pc == s.pc + 2,
{
}

/// `ADD Vx, kk` leaves `VF` alone unless `Vx` is `VF`.
pub proof fn lemma_add_immediate_keeps_flag(s: MachineState, x: VReg, kk: u8, random: u8)
    requires
        s.v.len() == 16,
        x != VReg::VF,
    ensures
        s.execute(Instr::AddImm(x, kk), random).state.reg(VReg::VF) == s.reg(VReg::VF),
{
}

/// The three digits that `LD B, Vx` stores are decimal digits, and they make
/// up the value.
pub proof fn lemma_bcd_digits(value: u8)
    ensures
        bcd(value).len() == 3,
        bcd(value)[0] <= 2 && bcd(value)[1] <= 9 && bcd(value)[2] <= 9,
        bcd(value)[0] * 100 + bcd(value)[1] * 10 + bcd(value)[2] == value,
{
}

/// A call and the return from it: the machine is back on the instruction
/// after the call, with the stack as it was before. The call has to stand
/// where an instruction fits after it, and go to where one fits.
pub proof fn lemma_call_then_return(s: MachineState, nnn: u16, random: u8)
    requires
        s.stack.len() < STACK_SIZE,
        s.pc + 2 <= LAST_WORD,
        nnn <= LAST_WORD,
    ensures
        ({
            let called = s.execute(Instr::Call(nnn), random);
            let returned = called.state.execute(Instr::Return, random);
            &&& called.result == Ok::<Effect, SystemError>(Effect::Quiet)
            &&& called.state.pc == nnn
            &&& returned.result == Ok::<Effect, SystemError>(Effect::Quiet)
            &&& returned.state == s.next()
        }),
{
    let called = s.execute(Instr::Call(nnn), random).state;
    assert(called.stack.drop_last() =~= s.stack);
}

/// A program that lies in memory from 0x200 on is fetched word for word:
/// with the program counter on a word of the program, the machine fetches
/// what that word decodes to.
pub proof fn lemma_fetch_loaded(s: MachineState, image: Seq<u8>, offset: int)
    requires
        s.sized(),
        image.len() <= 4096 - 0x200,
        0 <= offset,
        offset + 2 <= image.len(),
    ensures
        ({
            let loaded = MachineState {
                memory: overwrite(s.memory, 0x200, image),
                pc: (0x200 + offset) as u16,
                ..s
            };
            loaded.fetch() == match decode(word_at(image, offset)) {
                Some(instr) => Ok::<Instr, SystemError>(instr),
                None => Err(SystemError::UnknownInstruction),
            }
        }),
{
}

} // verus!
