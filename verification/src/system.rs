//! The interpreter: the machine's parts put together, and the
//! fetch-decode-execute step.

use crate::display::font_table;
use crate::display::DisplayBuffer;
use crate::display::DISPLAY_BUFFER_SIZE;
use crate::display::FONT_SPRITES_ADDRESS;
use crate::keyboard::Key;
use crate::keyboard::KeyState;
use crate::keyboard::KeyWait;
use crate::keyboard::Keyboard;
use crate::keyboard::KeyboardMessage;
use crate::keyboard::KeyboardState;
use crate::machine::bcd;
use crate::machine::lemma_execute_next_keeps_wf;
use crate::machine::lemma_overruns;
use crate::machine::lemma_step_stays_in_memory;
use crate::machine::lemma_wrapping;
use crate::machine::Effect;
use crate::machine::MachineState;
use crate::machine::SystemError;
use crate::machine::LAST_WORD;
use crate::machine::STACK_SIZE;
use crate::memory::overwrite;
use crate::memory::Memory;
use crate::memory::MEMORY_SIZE;
use crate::memory::RESERVED_SIZE;
use crate::opcode::parse_opcode;
use crate::opcode::Instr;
use crate::port::ControlPin;
use crate::quirks::Quirk;
use crate::quirks::Quirks;
use crate::register::VReg;
use crate::timer::counted_down;
use crate::timer::report_of_tick;
use crate::timer::report_of_update;
use crate::timer::CountDownTimer;
use crate::timer::TimerMessage;
use rand::rngs::SmallRng;
use rand::Rng;
use vstd::prelude::*;

verus! {

/// `rand::rngs::SmallRng`, the generator that `RND` draws from. The verifier
/// carries it through and knows nothing of what is inside.
#[verifier::external_type_specification]
#[verifier::external_body]
pub struct ExSmallRng(SmallRng);

/// Calls `Rng::gen::<u8>`, which hands out the generator's next byte.
/// Nothing is promised of the byte, and nothing of the generator afterwards.
#[verifier::external_body]
fn random_byte(rng: &mut SmallRng) -> (byte: u8) {
    rng.gen::<u8>()
}

/// How the interpreter is set up.
#[derive(Clone, Copy, Debug)]
pub struct SystemOptions {
    quirks: Quirks,
}

impl SystemOptions {
    /// The quirks that were asked for.
    pub closed spec fn quirks(self) -> Quirks {
        self.quirks
    }

    /// The options with no quirk.
    pub fn new() -> (o: Self)
        ensures
            o.quirks() == (Quirks {
                load_store_ignores_i: false,
                shift_reads_vx: false,
                draw_wraps_pixels: false,
            }),
    {
        SystemOptions { quirks: Quirks::empty() }
    }

    /// Asks for one more quirk.
    pub fn quirk(&mut self, quirk: Quirk) -> (o: &mut Self)
        ensures
            o.quirks() == old(self).quirks().with(quirk),
            *final(self) == *final(o),
    {
        self.quirks.insert(quirk);
        self
    }
}

impl Default for SystemOptions {
    fn default() -> (o: Self)
        ensures
            o.quirks() == (Quirks {
                load_store_ignores_i: false,
                shift_reads_vx: false,
                draw_wraps_pixels: false,
            }),
    {
        SystemOptions::new()
    }
}

struct Cpu {
    pc: u16,
    v: [u8; 16],
    i: u16,
    stack: Vec<u16>,
}

/// The machine.
pub struct System {
    cpu: Cpu,
    delay_timer: CountDownTimer,
    sound_timer: CountDownTimer,
    keyboard: Keyboard,
    display: DisplayBuffer,
    stop: ControlPin,
    memory: Memory,
    options: SystemOptions,
}

impl View for System {
    type V = MachineState;

    closed spec fn view(&self) -> MachineState {
        MachineState {
            pc: self.cpu.pc,
            v: self.cpu.v@,
            i: self.cpu.i,
            stack: self.cpu.stack@,
            memory: self.memory@,
            pixels: self.display@,
            keyboard: self.keyboard@,
            delay: self.delay_timer@,
            sound: self.sound_timer@,
            quirks: self.options.quirks,
            stopped: self.stop@,
        }
    }
}

/// The machine as it is switched on with the given quirks: the program
/// counter on the first address above the reserved bytes, the font at the
/// bottom of memory, and everything else zero, empty, off or up.
pub open spec fn initial_state(quirks: Quirks) -> MachineState {
    MachineState {
        pc: RESERVED_SIZE as u16,
        v: Seq::new(16, |i: int| 0u8),
        i: 0,
        stack: Seq::empty(),
        memory: overwrite(
            Seq::new(MEMORY_SIZE as nat, |i: int| 0u8),
            FONT_SPRITES_ADDRESS as int,
            font_table(),
        ),
        pixels: Seq::new(DISPLAY_BUFFER_SIZE as nat, |i: int| false),
        keyboard: KeyboardState {
            keys: Seq::new(16, |i: int| KeyState::Up),
            waiting: false,
            pressed: None,
            interrupted: false,
        },
        delay: 0,
        sound: 0,
        quirks,
        stopped: false,
    }
}

/// A machine that was just switched on has the sizes that every machine
/// keeps, and its program counter lies inside memory.
pub proof fn lemma_initial_state_sizes(quirks: Quirks)
    ensures
        initial_state(quirks).wf(),
{
}

impl System {
    /// A machine without quirks.
    pub fn new() -> (s: Self)
        ensures
            s@ == initial_state(
                Quirks {
                    load_store_ignores_i: false,
                    shift_reads_vx: false,
                    draw_wraps_pixels: false,
                },
            ),
            s@.wf(),
    {
        System::new_with_options(SystemOptions::new())
    }

    /// A machine with the quirks that the options ask for.
    pub fn new_with_options(options: SystemOptions) -> (s: Self)
        ensures
            s@ == initial_state(options.quirks()),
            s@.wf(),
    {
        let memory = Memory::new();
        let s = System {
            cpu: Cpu {
                pc: RESERVED_SIZE as u16,
                v: [0u8;16],
                i: 0,
                stack: Vec::with_capacity(STACK_SIZE),
            },
            delay_timer: CountDownTimer::new(),
            sound_timer: CountDownTimer::new(),
            keyboard: Keyboard::new(),
            display: DisplayBuffer::new(),
            stop: ControlPin::default(),
            memory,
            options,
        };
        assert(s@.v =~= Seq::new(16, |i: int| 0u8));
        s
    }

    /// Copies a program into memory, from the first address above the
    /// reserved bytes on.
    pub fn load_image_bytes(&mut self, bytes: &[u8])
        requires
            bytes@.len() <= MEMORY_SIZE - RESERVED_SIZE,
        ensures
            final(self)@ == (MachineState {
                memory: overwrite(old(self)@.memory, RESERVED_SIZE as int, bytes@),
                ..old(self)@
            }),
            old(self)@.wf() ==> final(self)@.wf(),
    {
        self.memory.write_slice(RESERVED_SIZE as u16, bytes);
    }

    /// Asks the machine to stop: the stop pin is raised, and a wait for a key
    /// press is called off.
    pub fn stop(&mut self)
        ensures
            final(self)@ == (MachineState {
                stopped: true,
                keyboard: KeyboardState { interrupted: true, ..old(self)@.keyboard },
                ..old(self)@
            }),
    {
        self.stop.raise();
        self.keyboard.interrupt();
    }

    /// Whether the machine was asked to stop.
    pub fn is_stopped(&self) -> (r: bool)
        ensures
            r == self@.stopped,
    {
        self.stop.is_raised()
    }

    /// The program counter.
    pub fn pc(&self) -> (r: u16)
        ensures
            r == self@.pc,
    {
        self.cpu.pc
    }

    /// The index register.
    pub fn index(&self) -> (r: u16)
        ensures
            r == self@.i,
    {
        self.cpu.i
    }

    /// The value of a register.
    pub fn register(&self, r: VReg) -> (value: u8)
        ensures
            value == self@.reg(r),
    {
        self.cpu.v[r.index()]
    }

    /// How many return addresses the call stack holds.
    pub fn stack_depth(&self) -> (r: usize)
        ensures
            r == self@.stack.len(),
    {
        self.cpu.stack.len()
    }

    /// The memory.
    pub fn memory(&self) -> (m: &Memory)
        ensures
            m@ == self@.memory,
    {
        &self.memory
    }

    /// The display.
    pub fn display(&self) -> (d: &DisplayBuffer)
        ensures
            d@ == self@.pixels,
    {
        &self.display
    }

    /// The keypad.
    pub fn keyboard(&self) -> (k: &Keyboard)
        ensures
            k@ == self@.keyboard,
    {
        &self.keyboard
    }

    /// The value of the sound timer.
    pub fn sound(&self) -> (r: u8)
        ensures
            r == self@.sound,
    {
        self.sound_timer.value()
    }

    /// Hands the keypad the report that a key went up or down. Where that
    /// ends the machine's wait for a key press, the key that ended it is
    /// returned.
    pub fn post_key(&mut self, m: KeyboardMessage) -> (released: Option<Key>)
        ensures
            final(self)@ == (MachineState { keyboard: old(self)@.keyboard.post(m), ..old(self)@ }),
            released == if old(self)@.keyboard.releases(m) {
                Some(m.key)
            } else {
                None
            },
            old(self)@.wf() ==> final(self)@.wf(),
    {
        broadcast use Key::lemma_number_numbered;

        self.keyboard.post(m)
    }

    /// The value of the delay timer.
    pub fn delay(&self) -> (r: u8)
        ensures
            r == self@.delay,
    {
        self.delay_timer.value()
    }

    /// Sets the delay timer, as `LD DT, Vx` does, from outside a program.
    pub fn update_delay_timer(&mut self, val: u8) -> (m: Option<TimerMessage>)
        ensures
            final(self)@ == (MachineState { delay: val, ..old(self)@ }),
            m == report_of_update(old(self)@.delay, val),
    {
        self.delay_timer.update(val)
    }

    /// Sets the sound timer, as `LD ST, Vx` does, from outside a program.
    pub fn update_sound_timer(&mut self, val: u8) -> (m: Option<TimerMessage>)
        ensures
            final(self)@ == (MachineState { sound: val, ..old(self)@ }),
            m == report_of_update(old(self)@.sound, val),
    {
        self.sound_timer.update(val)
    }

    /// One tick of the delay timer.
    pub fn tick_delay_timer(&mut self) -> (m: Option<TimerMessage>)
        ensures
            final(self)@ == (MachineState {
                delay: counted_down(old(self)@.delay, 1),
                ..old(self)@
            }),
            m == report_of_tick(old(self)@.delay),
    {
        self.delay_timer.tick()
    }

    /// One tick of the sound timer.
    pub fn tick_sound_timer(&mut self) -> (m: Option<TimerMessage>)
        ensures
            final(self)@ == (MachineState {
                sound: counted_down(old(self)@.sound, 1),
                ..old(self)@
            }),
            m == report_of_tick(old(self)@.sound),
    {
        self.sound_timer.tick()
    }

    /// The instruction at the program counter.
    pub fn fetch(&self) -> (r: Result<Instr, SystemError>)
        ensures
            r == self@.fetch(),
            r matches Ok(instr) ==> instr.fits() && self@.pc + 1 < MEMORY_SIZE,
    {
        proof {
            self.memory.lemma_len();
        }
        match self.memory.read_u16(self.cpu.pc) {
            None => Err(SystemError::MemoryReadOverflow),
            Some(word) => match parse_opcode(word) {
                None => Err(SystemError::UnknownInstruction),
                Some(instr) => {
                    proof {
                        crate::opcode::lemma_decode_fits(word);
                    }
                    Ok(instr)
                },
            },
        }
    }

    fn set_reg(&mut self, x: VReg, value: u8)
        ensures
            final(self)@ == old(self)@.set(x, value),
    {
        self.cpu.v[x.index()] = value;
    }

    fn advance(&mut self)
        requires
            old(self)@.pc <= 0xFFFD,
        ensures
            final(self)@ == old(self)@.next(),
    {
        self.cpu.pc = self.cpu.pc + 2;
    }

    fn skip_if(&mut self, skip: bool) -> (r: Result<Effect, SystemError>)
        requires
            old(self)@.pc <= 0xFFFB,
        ensures
            final(self)@ == old(self)@.skip_if(skip).state,
            r == old(self)@.skip_if(skip).result,
    {
        if skip {
            self.advance();
        }
        self.advance();
        Ok(Effect::Quiet)
    }

    fn flagged(&mut self, x: VReg, value: u8, flag: bool) -> (r: Result<Effect, SystemError>)
        requires
            old(self)@.pc <= 0xFFFD,
        ensures
            final(self)@ == old(self)@.flagged(x, value, flag).state,
            r == old(self)@.flagged(x, value, flag).result,
    {
        self.set_reg(x, value);
        self.set_reg(
            VReg::VF,
            if flag {
                1
            } else {
                0
            },
        );
        self.advance();
        Ok(Effect::Quiet)
    }

    fn shift_source(&self, x: VReg, y: VReg) -> (value: u8)
        ensures
            value == self@.shift_source(x, y),
    {
        if self.options.quirks.contains(Quirk::ShiftReadsVx) {
            self.cpu.v[x.index()]
        } else {
            self.cpu.v[y.index()]
        }
    }

    fn draw(&mut self, x: VReg, y: VReg, n: u8) -> (r: Result<Effect, SystemError>)
        requires
            old(self)@.pc <= 0xFFFD,
            n <= 15,
        ensures
            final(self)@ == old(self)@.draw(x, y, n).state,
            r == old(self)@.draw(x, y, n).result,
    {
        proof {
            self.memory.lemma_len();
        }
        let pos = (self.cpu.v[x.index()], self.cpu.v[y.index()]);
        let wrap = self.options.quirks.contains(Quirk::DrawWrapsPixels);
        match self.memory.read_slice(self.cpu.i, n) {
            None => Err(SystemError::MemoryReadOverflow),
            Some(sprite) => {
                let collision = if wrap {
                    self.display.draw_sprite_wrapped(pos, sprite)
                } else {
                    self.display.draw_sprite_clipped(pos, sprite)
                };
                self.set_reg(
                    VReg::VF,
                    if collision {
                        1
                    } else {
                        0
                    },
                );
                self.advance();
                Ok(Effect::DisplayUpdated)
            },
        }
    }

    fn skip_on_key(&mut self, x: VReg, wanted: bool) -> (r: Result<Effect, SystemError>)
        requires
            old(self)@.pc <= 0xFFFB,
        ensures
            final(self)@ == old(self)@.skip_on_key(x, wanted).state,
            r == old(self)@.skip_on_key(x, wanted).result,
    {
        match Key::from(self.cpu.v[x.index()]) {
            Some(key) => {
                let down = self.keyboard.is_key_down(key);
                self.skip_if(down == wanted)
            },
            None => {
                self.advance();
                Ok(Effect::Quiet)
            },
        }
    }

    fn wait_key(&mut self, x: VReg) -> (r: Result<Effect, SystemError>)
        requires
            old(self)@.pc <= 0xFFFD,
        ensures
            final(self)@ == old(self)@.wait_key(x).state,
            r == old(self)@.wait_key(x).result,
    {
        match self.keyboard.wait_for_key_press() {
            KeyWait::Pressed(key) => {
                self.set_reg(x, key.code());
                self.advance();
                Ok(Effect::Quiet)
            },
            KeyWait::Interrupted => Err(SystemError::Interrupted),
            KeyWait::Pending => Ok(Effect::AwaitingKey),
        }
    }

    fn store_bcd(&mut self, x: VReg) -> (r: Result<Effect, SystemError>)
        requires
            old(self)@.pc <= 0xFFFD,
        ensures
            final(self)@ == old(self)@.store_bcd(x).state,
            r == old(self)@.store_bcd(x).result,
    {
        proof {
            self.memory.lemma_len();
        }
        if self.cpu.i as usize + 3 > MEMORY_SIZE {
            Err(SystemError::MemoryReadOverflow)
        } else {
            let value = self.cpu.v[x.index()];
            let digits = [value / 100, (value / 10) % 10, value % 10];
            assert(digits@ =~= bcd(value));
            self.memory.write_slice(self.cpu.i, digits.as_slice());
            self.advance();
            Ok(Effect::Quiet)
        }
    }

    fn bump_index(&mut self, count: u16)
        requires
            old(self)@.i + count <= 0xFFFF,
        ensures
            final(self)@ == (MachineState {
                i: old(self)@.index_after(count as int),
                ..old(self)@
            }),
    {
        if !self.options.quirks.contains(Quirk::LoadStoreIgnoresI) {
            self.cpu.i = self.cpu.i + count;
        }
    }

    fn save_regs(&mut self, x: VReg) -> (r: Result<Effect, SystemError>)
        requires
            old(self)@.pc <= 0xFFFD,
        ensures
            final(self)@ == old(self)@.save_regs(x).state,
            r == old(self)@.save_regs(x).result,
    {
        proof {
            self.memory.lemma_len();
        }
        let count = x.index() + 1;
        if self.cpu.i as usize + count > MEMORY_SIZE {
            Err(SystemError::MemoryReadOverflow)
        } else {
            let registers = vstd::slice::slice_subrange(self.cpu.v.as_slice(), 0, count);
            assert(registers@ =~= self@.v.take(count as int));
            self.memory.write_slice(self.cpu.i, registers);
            self.bump_index(count as u16);
            self.advance();
            Ok(Effect::Quiet)
        }
    }

    fn load_regs(&mut self, x: VReg) -> (r: Result<Effect, SystemError>)
        requires
            old(self)@.pc <= 0xFFFD,
        ensures
            final(self)@ == old(self)@.load_regs(x).state,
            r == old(self)@.load_regs(x).result,
    {
        proof {
            self.memory.lemma_len();
        }
        let count = x.index() + 1;
        match self.memory.read_slice(self.cpu.i, count as u8) {
            None => Err(SystemError::MemoryReadOverflow),
            Some(bytes) => {
                let ghost before = self@;
                let mut k: usize = 0;
                while k < count
                    invariant
                        k <= count <= 16,
                        bytes@ == before.memory.subrange(before.i as int, before.i + count),
                        before.i + count <= before.memory.len(),
                        before.v.len() == 16,
                        self@ == (MachineState { v: self@.v, ..before }),
                        self@.v.len() == 16,
                        forall|j: int|
                            0 <= j < 16 ==> self@.v[j] == if j < k {
                                before.memory[before.i + j]
                            } else {
                                before.v[j]
                            },
                    decreases count - k,
                {
                    self.cpu.v[k] = bytes[k];
                    k += 1;
                }
                assert(self@.v =~= before.load_regs(x).state.v);
                self.bump_index(count as u16);
                self.advance();
                Ok(Effect::Quiet)
            },
        }
    }

    fn execute_flow(&mut self, instr: Instr, random: u8) -> (r: Result<Effect, SystemError>)
        requires
            old(self)@.pc + 1 < MEMORY_SIZE,
            instr.fits(),
            instr is ClearDisplay || instr is Return || instr is Jump || instr is Call
                || instr is JumpV0,
        ensures
            final(self)@ == old(self)@.perform(instr, random).state,
            r == old(self)@.perform(instr, random).result,
    {
        match instr {
            Instr::ClearDisplay => {
                self.display.clear();
                self.advance();
                Ok(Effect::DisplayCleared)
            },
            Instr::Return => match self.cpu.stack.pop() {
                None => Err(SystemError::StackUnderflow),
                Some(address) => {
                    self.cpu.pc = address;
                    assert(self@.stack =~= old(self)@.stack.drop_last());
                    Ok(Effect::Quiet)
                },
            },
            Instr::Jump(nnn) => {
                if self.cpu.pc == nnn {
                    Err(SystemError::SelfJump)
                } else {
                    self.cpu.pc = nnn;
                    Ok(Effect::Quiet)
                }
            },
            Instr::Call(nnn) => {
                if self.cpu.stack.len() >= STACK_SIZE {
                    Err(SystemError::StackOverflow)
                } else {
                    self.cpu.stack.push(self.cpu.pc + 2);
                    self.cpu.pc = nnn;
                    Ok(Effect::Quiet)
                }
            },
            Instr::JumpV0(nnn) => {
                proof {
                    lemma_wrapping(self@.reg(VReg::V0), 0, nnn);
                }
                self.cpu.pc = nnn.wrapping_add(self.cpu.v[0] as u16);
                Ok(Effect::Quiet)
            },
            _ => Ok(Effect::Quiet),
        }
    }

    fn execute_skip(&mut self, instr: Instr, random: u8) -> (r: Result<Effect, SystemError>)
        requires
            old(self)@.pc + 1 < MEMORY_SIZE,
            instr.fits(),
            instr is SkipEqImm || instr is SkipNotEqImm || instr is SkipEqReg
                || instr is SkipNotEqReg,
        ensures
            final(self)@ == old(self)@.perform(instr, random).state,
            r == old(self)@.perform(instr, random).result,
    {
        let skip = match instr {
            Instr::SkipEqImm(x, kk) => self.cpu.v[x.index()] == kk,
            Instr::SkipNotEqImm(x, kk) => self.cpu.v[x.index()] != kk,
            Instr::SkipEqReg(x, y) => self.cpu.v[x.index()] == self.cpu.v[y.index()],
            Instr::SkipNotEqReg(x, y) => self.cpu.v[x.index()] != self.cpu.v[y.index()],
            _ => false,
        };
        self.skip_if(skip)
    }

    fn execute_load(&mut self, instr: Instr, random: u8) -> (r: Result<Effect, SystemError>)
        requires
            old(self)@.pc + 1 < MEMORY_SIZE,
            instr.fits(),
            instr is LoadImm || instr is AddImm || instr is LoadReg || instr is OrReg
                || instr is AndReg || instr is XorReg || instr is Random
                || instr is LoadDelayTimer,
        ensures
            final(self)@ == old(self)@.perform(instr, random).state,
            r == old(self)@.perform(instr, random).result,
    {
        let (x, value) = match instr {
            Instr::LoadImm(x, kk) => (x, kk),
            Instr::AddImm(x, kk) => {
                proof {
                    lemma_wrapping(self@.reg(x), kk, 0);
                }
                (x, self.cpu.v[x.index()].wrapping_add(kk))
            },
            Instr::LoadReg(x, y) => (x, self.cpu.v[y.index()]),
            Instr::OrReg(x, y) => (x, self.cpu.v[x.index()] | self.cpu.v[y.index()]),
            Instr::AndReg(x, y) => (x, self.cpu.v[x.index()] & self.cpu.v[y.index()]),
            Instr::XorReg(x, y) => (x, self.cpu.v[x.index()] ^ self.cpu.v[y.index()]),
            Instr::Random(x, kk) => (x, kk & random),
            Instr::LoadDelayTimer(x) => (x, self.delay_timer.value()),
            _ => (VReg::V0, 0),
        };
        self.set_reg(x, value);
        self.advance();
        Ok(Effect::Quiet)
    }

    fn execute_flagged(&mut self, instr: Instr, random: u8) -> (r: Result<Effect, SystemError>)
        requires
            old(self)@.pc + 1 < MEMORY_SIZE,
            instr.fits(),
            instr is AddReg || instr is SubReg || instr is ShiftRight || instr is SubN
                || instr is ShiftLeft,
        ensures
            final(self)@ == old(self)@.perform(instr, random).state,
            r == old(self)@.perform(instr, random).result,
    {
        let (x, value, flag) = match instr {
            Instr::AddReg(x, y) => {
                let (a, b) = (self.cpu.v[x.index()], self.cpu.v[y.index()]);
                proof {
                    lemma_wrapping(a, b, 0);
                }
                (x, a.wrapping_add(b), a as u16 + b as u16 >= 256)
            },
            Instr::SubReg(x, y) => {
                let (a, b) = (self.cpu.v[x.index()], self.cpu.v[y.index()]);
                proof {
                    lemma_wrapping(a, b, 0);
                }
                (x, a.wrapping_sub(b), a >= b)
            },
            Instr::ShiftRight(x, y) => {
                let source = self.shift_source(x, y);
                (x, source / 2, source % 2 == 1)
            },
            Instr::SubN(x, y) => {
                let (a, b) = (self.cpu.v[x.index()], self.cpu.v[y.index()]);
                proof {
                    lemma_wrapping(b, a, 0);
                }
                (x, b.wrapping_sub(a), b >= a)
            },
            Instr::ShiftLeft(x, y) => {
                let source = self.shift_source(x, y);
                proof {
                    lemma_wrapping(source, source, 0);
                }
                (x, source.wrapping_add(source), source >= 128)
            },
            _ => (VReg::V0, 0, false),
        };
        self.flagged(x, value, flag)
    }

    fn execute_index(&mut self, instr: Instr, random: u8) -> (r: Result<Effect, SystemError>)
        requires
            old(self)@.pc + 1 < MEMORY_SIZE,
            instr.fits(),
            instr is LoadI || instr is AddI || instr is LoadSprite,
        ensures
            final(self)@ == old(self)@.perform(instr, random).state,
            r == old(self)@.perform(instr, random).result,
    {
        let index = match instr {
            Instr::LoadI(nnn) => nnn,
            Instr::AddI(x) => {
                proof {
                    lemma_wrapping(self@.reg(x), 0, self@.i);
                }
                self.cpu.i.wrapping_add(self.cpu.v[x.index()] as u16)
            },
            Instr::LoadSprite(x) => FONT_SPRITES_ADDRESS + self.cpu.v[x.index()] as u16 * 5,
            _ => 0,
        };
        self.cpu.i = index;
        self.advance();
        Ok(Effect::Quiet)
    }

    fn execute_timer(&mut self, instr: Instr, random: u8) -> (r: Result<Effect, SystemError>)
        requires
            old(self)@.pc + 1 < MEMORY_SIZE,
            instr.fits(),
            instr is SetDelayTimer || instr is SetSoundTimer,
        ensures
            final(self)@ == old(self)@.perform(instr, random).state,
            r == old(self)@.perform(instr, random).result,
    {
        match instr {
            Instr::SetDelayTimer(x) => {
                let report = self.delay_timer.update(self.cpu.v[x.index()]);
                self.advance();
                match report {
                    Some(m) => Ok(Effect::DelayTimer(m)),
                    None => Ok(Effect::Quiet),
                }
            },
            Instr::SetSoundTimer(x) => {
                let report = self.sound_timer.update(self.cpu.v[x.index()]);
                self.advance();
                match report {
                    Some(m) => Ok(Effect::SoundTimer(m)),
                    None => Ok(Effect::Quiet),
                }
            },
            _ => Ok(Effect::Quiet),
        }
    }

    fn execute_keypad(&mut self, instr: Instr, random: u8) -> (r: Result<Effect, SystemError>)
        requires
            old(self)@.pc + 1 < MEMORY_SIZE,
            instr.fits(),
            instr is SkipKeyPressed || instr is SkipKeyNotPressed || instr is WaitKeyPress,
        ensures
            final(self)@ == old(self)@.perform(instr, random).state,
            r == old(self)@.perform(instr, random).result,
    {
        match instr {
            Instr::SkipKeyPressed(x) => self.skip_on_key(x, true),
            Instr::SkipKeyNotPressed(x) => self.skip_on_key(x, false),
            Instr::WaitKeyPress(x) => self.wait_key(x),
            _ => Ok(Effect::Quiet),
        }
    }

    fn execute_memory(&mut self, instr: Instr, random: u8) -> (r: Result<Effect, SystemError>)
        requires
            old(self)@.pc + 1 < MEMORY_SIZE,
            instr.fits(),
            instr is Draw || instr is LoadBCD || instr is SaveRegs || instr is LoadRegs,
        ensures
            final(self)@ == old(self)@.perform(instr, random).state,
            r == old(self)@.perform(instr, random).result,
    {
        match instr {
            Instr::Draw(x, y, n) => self.draw(x, y, n),
            Instr::LoadBCD(x) => self.store_bcd(x),
            Instr::SaveRegs(x) => self.save_regs(x),
            Instr::LoadRegs(x) => self.load_regs(x),
            _ => Ok(Effect::Quiet),
        }
    }

    fn perform(&mut self, instr: Instr, random: u8) -> (r: Result<Effect, SystemError>)
        requires
            old(self)@.pc + 1 < MEMORY_SIZE,
            instr.fits(),
        ensures
            final(self)@ == old(self)@.perform(instr, random).state,
            r == old(self)@.perform(instr, random).result,
    {
        match instr {
            Instr::ClearDisplay | Instr::Return | Instr::Jump(_) | Instr::Call(_) | Instr::JumpV0(
                _,
            ) => self.execute_flow(instr, random),
            Instr::SkipEqImm(_, _) | Instr::SkipNotEqImm(_, _) | Instr::SkipEqReg(_, _)
            | Instr::SkipNotEqReg(_, _) => self.execute_skip(instr, random),
            Instr::LoadImm(_, _) | Instr::AddImm(_, _) | Instr::LoadReg(_, _) | Instr::OrReg(_, _)
            | Instr::AndReg(_, _) | Instr::XorReg(_, _) | Instr::Random(_, _)
            | Instr::LoadDelayTimer(_) => self.execute_load(instr, random),
            Instr::AddReg(_, _) | Instr::SubReg(_, _) | Instr::ShiftRight(_, _) | Instr::SubN(_, _)
            | Instr::ShiftLeft(_, _) => self.execute_flagged(instr, random),
            Instr::LoadI(_) | Instr::AddI(_) | Instr::LoadSprite(_) => {
                self.execute_index(instr, random)
            },
            Instr::SetDelayTimer(_) | Instr::SetSoundTimer(_) => self.execute_timer(instr, random),
            Instr::SkipKeyPressed(_) | Instr::SkipKeyNotPressed(_) | Instr::WaitKeyPress(_) => {
                self.execute_keypad(instr, random)
            },
            Instr::Draw(_, _, _) | Instr::LoadBCD(_) | Instr::SaveRegs(_) | Instr::LoadRegs(_) => {
                self.execute_memory(instr, random)
            },
        }
    }

    fn skips(&self, instr: Instr) -> (r: bool)
        ensures
            r == self@.skips(instr),
    {
        match instr {
            Instr::SkipEqImm(x, kk) => self.cpu.v[x.index()] == kk,
            Instr::SkipNotEqImm(x, kk) => self.cpu.v[x.index()] != kk,
            Instr::SkipEqReg(x, y) => self.cpu.v[x.index()] == self.cpu.v[y.index()],
            Instr::SkipNotEqReg(x, y) => self.cpu.v[x.index()] != self.cpu.v[y.index()],
            Instr::SkipKeyPressed(x) => match Key::from(self.cpu.v[x.index()]) {
                Some(key) => self.keyboard.is_key_down(key),
                None => false,
            },
            Instr::SkipKeyNotPressed(x) => match Key::from(self.cpu.v[x.index()]) {
                Some(key) => !self.keyboard.is_key_down(key),
                None => false,
            },
            _ => false,
        }
    }

    /// Whether `instr` could be done but for where it takes the program
    /// counter.
    fn overruns(&self, instr: Instr) -> (r: bool)
        requires
            self@.pc <= LAST_WORD,
        ensures
            r == self@.overruns(instr),
    {
        proof {
            self.memory.lemma_len();
        }
        let pc = self.cpu.pc;
        let index = self.cpu.i as usize;
        match instr {
            Instr::Jump(nnn) => nnn > LAST_WORD && pc != nnn,
            Instr::Call(nnn) => nnn > LAST_WORD && self.cpu.stack.len() < STACK_SIZE,
            Instr::JumpV0(nnn) => nnn as u32 + self.cpu.v[0] as u32 > LAST_WORD as u32,
            Instr::Return => {
                let depth = self.cpu.stack.len();
                depth > 0 && self.cpu.stack[depth - 1] > LAST_WORD
            },
            Instr::WaitKeyPress(_) => match self.keyboard.peek() {
                KeyWait::Pressed(_) => pc + 2 > LAST_WORD,
                _ => false,
            },
            Instr::Draw(_, _, n) => index + n as usize <= MEMORY_SIZE && pc + 2 > LAST_WORD,
            Instr::LoadBCD(_) => index + 3 <= MEMORY_SIZE && pc + 2 > LAST_WORD,
            Instr::SaveRegs(x) => index + x.index() + 1 <= MEMORY_SIZE && pc + 2 > LAST_WORD,
            Instr::LoadRegs(x) => index + x.index() + 1 <= MEMORY_SIZE && pc + 2 > LAST_WORD,
            _ => if self.skips(instr) {
                pc + 4 > LAST_WORD
            } else {
                pc + 2 > LAST_WORD
            },
        }
    }

    /// Executes one instruction: it is done if that leaves the program
    /// counter at 0xFFE or below, and fails without a change otherwise.
    fn execute(&mut self, instr: Instr, random: u8) -> (r: Result<Effect, SystemError>)
        requires
            old(self)@.pc + 1 < MEMORY_SIZE,
            instr.fits(),
        ensures
            final(self)@ == old(self)@.execute(instr, random).state,
            r == old(self)@.execute(instr, random).result,
    {
        proof {
            self.memory.lemma_len();
            lemma_overruns(self@, instr, random);
        }
        if self.overruns(instr) {
            Err(SystemError::MemoryReadOverflow)
        } else {
            self.perform(instr, random)
        }
    }

    /// Fetches, decodes and executes one instruction, with `random` as the
    /// byte that `RND` draws.
    pub fn execute_next_inst_with(&mut self, random: u8) -> (r: Result<Effect, SystemError>)
        ensures
            final(self)@ == old(self)@.execute_next(random).state,
            r == old(self)@.execute_next(random).result,
            old(self)@.wf() ==> final(self)@.wf(),
            r is Ok ==> final(self)@.pc <= LAST_WORD,
    {
        proof {
            if self@.wf() {
                lemma_execute_next_keeps_wf(self@, random);
            }
            lemma_step_stays_in_memory(self@, random);
        }
        match self.fetch() {
            Ok(instr) => self.execute(instr, random),
            Err(error) => Err(error),
        }
    }

    /// Fetches, decodes and executes one instruction. Where it is `RND`, the
    /// byte is drawn from `rng`; the generator is left alone otherwise.
    pub fn execute_next_inst(&mut self, rng: &mut SmallRng) -> (r: Result<Effect, SystemError>)
        ensures
            exists|random: u8|
                final(self)@ == (#[trigger] old(self)@.execute_next(random)).state && r == old(
                    self,
                )@.execute_next(random).result,
            !(old(self)@.fetch() matches Ok(Instr::Random(_, _))) ==> *final(rng) == *old(rng),
            old(self)@.wf() ==> final(self)@.wf(),
            r is Ok ==> final(self)@.pc <= LAST_WORD,
    {
        match self.fetch() {
            Ok(instr) => {
                let random = match instr {
                    Instr::Random(_, _) => random_byte(rng),
                    _ => 0,
                };
                let r = self.execute(instr, random);
                proof {
                    assert(self@ == old(self)@.execute_next(random).state);
                    if old(self)@.wf() {
                        lemma_execute_next_keeps_wf(old(self)@, random);
                    }
                    lemma_step_stays_in_memory(old(self)@, random);
                }
                r
            },
            Err(error) => {
                assert(self@ == old(self)@.execute_next(0).state);
                Err(error)
            },
        }
    }

    /// One turn of the interpreter's loop. A machine that was asked to stop
    /// and is not in the middle of a wait for a key press does nothing more,
    /// which ends the loop. Otherwise one instruction is run.
    pub fn step(&mut self, rng: &mut SmallRng) -> (r: Result<Option<Effect>, SystemError>)
        ensures
            !old(self)@.runs() ==> final(self)@ == old(self)@ && *final(rng) == *old(rng) && r
                == Ok::<Option<Effect>, SystemError>(None),
            old(self)@.runs() ==> exists|random: u8|
                final(self)@ == (#[trigger] old(self)@.execute_next(random)).state && r == (
                match old(self)@.execute_next(random).result {
                    Ok(effect) => Ok(Some(effect)),
                    Err(error) => Err(error),
                }),
            old(self)@.wf() ==> final(self)@.wf(),
            old(self)@.pc <= LAST_WORD && r is Ok ==> final(self)@.pc <= LAST_WORD,
    {
        if self.stop.is_raised() && !self.keyboard.awaiting() {
            Ok(None)
        } else {
            match self.execute_next_inst(rng) {
                Ok(effect) => Ok(Some(effect)),
                Err(error) => Err(error),
            }
        }
    }

    /// One turn of the interpreter's loop, with `random` as the byte that
    /// `RND` draws.
    pub fn step_with(&mut self, random: u8) -> (r: Result<Option<Effect>, SystemError>)
        ensures
            !old(self)@.runs() ==> final(self)@ == old(self)@ && r == Ok::<
                Option<Effect>,
                SystemError,
            >(None),
            old(self)@.runs() ==> final(self)@ == old(self)@.execute_next(random).state && r == (
            match old(self)@.execute_next(random).result {
                Ok(effect) => Ok(Some(effect)),
                Err(error) => Err(error),
            }),
            old(self)@.wf() ==> final(self)@.wf(),
            old(self)@.pc <= LAST_WORD && r is Ok ==> final(self)@.pc <= LAST_WORD,
    {
        if self.stop.is_raised() && !self.keyboard.awaiting() {
            Ok(None)
        } else {
            match self.execute_next_inst_with(random) {
                Ok(effect) => Ok(Some(effect)),
                Err(error) => Err(error),
            }
        }
    }
}

impl Default for System {
    fn default() -> (s: System)
        ensures
            s@ == initial_state(
                Quirks {
                    load_store_ignores_i: false,
                    shift_reads_vx: false,
                    draw_wraps_pixels: false,
                },
            ),
    {
        System::new()
    }
}

} // verus!
