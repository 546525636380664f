use chip8::keyboard::Key;
use chip8::keyboard::KeyWait;
use chip8::keyboard::KeyboardMessage;
use chip8::machine::Effect;
use chip8::machine::SystemError;
use chip8::quirks::Quirk;
use chip8::register::VReg;
use chip8::register::VReg::V0;
use chip8::register::VReg::V1;
use chip8::register::VReg::V2;
use chip8::register::VReg::V3;
use chip8::register::VReg::V4;
use chip8::register::VReg::V5;
use chip8::register::VReg::VF;
use chip8::system::System;
use chip8::system::SystemOptions;
use chip8::timer::TimerMessage;
use rand::rngs::SmallRng;
use rand::SeedableRng;

fn with_rom(rom: &[u8]) -> System {
    let mut s = System::new();
    s.load_image_bytes(rom);
    s
}

fn with_quirk(quirk: Quirk, rom: &[u8]) -> System {
    let mut options = SystemOptions::new();
    options.quirk(quirk);
    let mut s = System::new_with_options(options);
    s.load_image_bytes(rom);
    s
}

fn run(s: &mut System, steps: usize) {
    for _ in 0..steps {
        assert_eq!(s.execute_next_inst_with(0), Ok(Effect::Quiet));
    }
}

fn lit(s: &System) -> Vec<(usize, usize)> {
    let mut on = Vec::new();
    for y in 0..32 {
        for x in 0..64 {
            if s.display().pixel(x, y) {
                on.push((x, y));
            }
        }
    }
    on
}

/// Runs the interpreter's loop until it ends, for a hundred turns at most.
fn run_loop(s: &mut System, rng: &mut SmallRng) -> Option<Result<(), SystemError>> {
    for _ in 0..100 {
        match s.step(rng) {
            Ok(None) => return Some(Ok(())),
            Ok(Some(_)) => {}
            Err(e) => return Some(Err(e)),
        }
    }
    None
}

#[test]
fn stop_works() {
    let mut chip8 = System::new();
    let mut rng = SmallRng::seed_from_u64(2);

    let image = [0x00, 0xE0, 0x12, 0x00];
    chip8.load_image_bytes(&image);

    // the program loops for ever
    assert_eq!(run_loop(&mut chip8, &mut rng), None);
    chip8.stop();

    let r = run_loop(&mut chip8, &mut rng);

    assert_eq!(r, Some(Ok(())));
}

#[test]
fn stop_when_waiting_for_key_press_works() {
    let mut chip8 = System::new();
    let mut rng = SmallRng::seed_from_u64(2);

    let image = [0xF1, 0x0A];
    chip8.load_image_bytes(&image);

    // the program waits for ever
    assert_eq!(run_loop(&mut chip8, &mut rng), None);
    chip8.stop();

    let r = run_loop(&mut chip8, &mut rng);

    assert_eq!(r, Some(Err(SystemError::Interrupted)));
}

#[test]
fn a_new_machine() {
    let s = System::new();
    assert_eq!(s.pc(), 0x200);
    assert_eq!(s.index(), 0);
    assert_eq!(s.stack_depth(), 0);
    assert_eq!(s.delay(), 0);
    assert_eq!(s.sound(), 0);
    assert!(!s.is_stopped());
    for k in 0..16 {
        assert_eq!(s.register(VReg::from_u16(k).unwrap()), 0);
    }
    assert!(lit(&s).is_empty());
    assert_eq!(s.memory().read_slice(0, 5), Some(&[0xF0u8, 0x90, 0x90, 0x90, 0xF0][..]));
    assert_eq!(s.memory().read_slice(75, 6), Some(&[0xF0u8, 0x80, 0xF0, 0x80, 0x80, 0][..]));
    assert_eq!(s.memory().read_u16(0x200), Some(0));
    let d = System::default();
    assert_eq!(d.pc(), 0x200);
}

#[test]
fn cls_then_a_jump_back() {
    let mut s = with_rom(&[0x00, 0xE0, 0x12, 0x00]);
    let mut rng = SmallRng::seed_from_u64(7);
    // the first turn clears the display
    assert_eq!(s.step(&mut rng), Ok(Some(Effect::DisplayCleared)));
    assert_eq!(s.pc(), 0x202);
    // the second turn is the jump to 0x200; it stands at 0x202 and so is no
    // jump to itself
    assert_eq!(s.step(&mut rng), Ok(Some(Effect::Quiet)));
    assert_eq!(s.pc(), 0x200);
    assert_eq!(s.step(&mut rng), Ok(Some(Effect::DisplayCleared)));
}

#[test]
fn cls_then_a_jump_to_itself() {
    let mut s = with_rom(&[0x00, 0xE0, 0x12, 0x02]);
    let mut rng = SmallRng::seed_from_u64(7);
    assert_eq!(s.step(&mut rng), Ok(Some(Effect::DisplayCleared)));
    assert_eq!(s.step(&mut rng), Err(SystemError::SelfJump));
    assert_eq!(s.pc(), 0x202);
    // the machine stays where it failed
    assert_eq!(s.step(&mut rng), Err(SystemError::SelfJump));
}

#[test]
fn a_jump_to_the_current_address_ends_the_run() {
    let mut s = with_rom(&[0x12, 0x00]);
    assert_eq!(s.execute_next_inst_with(0), Err(SystemError::SelfJump));
    assert_eq!(s.pc(), 0x200);
}

#[test]
fn the_seventeenth_call_overflows_the_stack() {
    let mut rom = Vec::new();
    for _ in 0..17 {
        rom.push(0x22);
        rom.push(0x02);
    }
    let mut s = with_rom(&rom);
    // the first call goes on to the second word, which calls itself
    for depth in 1..=16 {
        assert_eq!(s.execute_next_inst_with(0), Ok(Effect::Quiet));
        assert_eq!(s.stack_depth(), depth);
        assert_eq!(s.pc(), 0x202);
    }
    assert_eq!(s.execute_next_inst_with(0), Err(SystemError::StackOverflow));
    assert_eq!(s.stack_depth(), 16);
    assert_eq!(s.pc(), 0x202);
}

#[test]
fn call_and_return() {
    // 0x200: CALL 0x206; 0x202: LD V1, 1; 0x204: JP 0x204; 0x206: LD V0, 7; 0x208: RET
    let mut s = with_rom(&[0x22, 0x06, 0x61, 0x01, 0x12, 0x04, 0x60, 0x07, 0x00, 0xEE]);
    run(&mut s, 1);
    assert_eq!((s.pc(), s.stack_depth()), (0x206, 1));
    run(&mut s, 2);
    assert_eq!((s.pc(), s.stack_depth()), (0x202, 0));
    assert_eq!(s.register(V0), 7);
    run(&mut s, 1);
    assert_eq!(s.register(V1), 1);
    assert_eq!(s.execute_next_inst_with(0), Err(SystemError::SelfJump));
}

#[test]
fn a_return_without_a_call_underflows_the_stack() {
    let mut s = with_rom(&[0x00, 0xEE]);
    assert_eq!(s.execute_next_inst_with(0), Err(SystemError::StackUnderflow));
    assert_eq!((s.pc(), s.stack_depth()), (0x200, 0));
}

#[test]
fn an_unknown_word_ends_the_run() {
    let mut s = with_rom(&[0x00, 0x00]);
    assert_eq!(s.execute_next_inst_with(0), Err(SystemError::UnknownInstruction));
    assert_eq!(s.pc(), 0x200);
    let mut s = with_rom(&[0x85, 0x68]);
    assert_eq!(s.execute_next_inst_with(0), Err(SystemError::UnknownInstruction));
}

#[test]
fn a_jump_past_the_last_word_of_memory_ends_the_run() {
    // JP 0xFFF
    let mut s = with_rom(&[0x1F, 0xFF]);
    assert_eq!(s.execute_next_inst_with(0), Err(SystemError::MemoryReadOverflow));
    assert_eq!(s.pc(), 0x200);
    // CALL 0xFFF
    let mut s = with_rom(&[0x2F, 0xFF]);
    assert_eq!(s.execute_next_inst_with(0), Err(SystemError::MemoryReadOverflow));
    assert_eq!((s.pc(), s.stack_depth()), (0x200, 0));
    // JP 0xFFE is the last place to go
    let mut s = with_rom(&[0x1F, 0xFE]);
    run(&mut s, 1);
    assert_eq!(s.pc(), 0xFFE);
}

/// A machine whose program counter is on `at`, with `there` as the bytes at
/// that place and `before` as the instructions that run first.
fn at_the_end(before: &[u8], at: u16, there: &[u8]) -> System {
    let mut rom = vec![0u8; 3584];
    rom[..before.len()].copy_from_slice(before);
    // JP at
    rom[before.len()] = 0x10 | (at >> 8) as u8;
    rom[before.len() + 1] = at as u8;
    let offset = at as usize - 0x200;
    rom[offset..offset + there.len()].copy_from_slice(there);
    let mut s = with_rom(&rom);
    for _ in 0..before.len() / 2 + 1 {
        assert!(s.execute_next_inst_with(0).is_ok());
    }
    assert_eq!(s.pc(), at);
    s
}

#[test]
fn an_instruction_at_the_end_of_memory_is_not_done() {
    // LD V1, 7 at 0xFFE: the next instruction would not fit
    let mut s = at_the_end(&[], 0xFFE, &[0x61, 0x07]);
    assert_eq!(s.execute_next_inst_with(0), Err(SystemError::MemoryReadOverflow));
    assert_eq!((s.pc(), s.register(V1)), (0xFFE, 0));
    // and at 0xFFD
    let mut s = at_the_end(&[], 0xFFD, &[0x61, 0x07]);
    assert_eq!(s.execute_next_inst_with(0), Err(SystemError::MemoryReadOverflow));
    assert_eq!((s.pc(), s.register(V1)), (0xFFD, 0));
    // at 0xFFC it is done
    let mut s = at_the_end(&[], 0xFFC, &[0x61, 0x07]);
    run(&mut s, 1);
    assert_eq!((s.pc(), s.register(V1)), (0xFFE, 7));
    // a jump from the last word is done
    let mut s = at_the_end(&[], 0xFFE, &[0x12, 0x00]);
    run(&mut s, 1);
    assert_eq!(s.pc(), 0x200);
    // CLS at the end leaves the display as it is
    let mut s = at_the_end(&[0xF0, 0x29, 0xD0, 0x05], 0xFFE, &[0x00, 0xE0]);
    let before = lit(&s);
    assert_eq!(before.len(), 14);
    assert_eq!(s.execute_next_inst_with(0), Err(SystemError::MemoryReadOverflow));
    assert_eq!(lit(&s), before);
    // the draw itself, too, and VF with it
    let mut s = at_the_end(&[0xF0, 0x29, 0xD0, 0x05], 0xFFE, &[0xD0, 0x05]);
    assert_eq!(s.execute_next_inst_with(0), Err(SystemError::MemoryReadOverflow));
    assert_eq!((lit(&s), s.register(VF)), (before, 0));
    // storing digits writes nothing
    let mut s = at_the_end(&[0x60, 0x7B, 0xA3, 0x00], 0xFFE, &[0xF0, 0x33]);
    assert_eq!(s.execute_next_inst_with(0), Err(SystemError::MemoryReadOverflow));
    assert_eq!(s.memory().read_slice(0x300, 3), Some(&[0u8, 0, 0][..]));
    // setting a timer starts nothing
    let mut s = at_the_end(&[0x60, 0x7B], 0xFFE, &[0xF0, 0x18]);
    assert_eq!(s.execute_next_inst_with(0), Err(SystemError::MemoryReadOverflow));
    assert_eq!(s.sound(), 0);
}

#[test]
fn a_skip_near_the_end_of_memory_is_done_if_it_stays_inside() {
    // SE V0, 0 at 0xFFC skips to 0x1000
    let mut s = at_the_end(&[], 0xFFC, &[0x30, 0x00]);
    assert_eq!(s.execute_next_inst_with(0), Err(SystemError::MemoryReadOverflow));
    assert_eq!(s.pc(), 0xFFC);
    // SNE V0, 0 at 0xFFC does not skip
    let mut s = at_the_end(&[], 0xFFC, &[0x40, 0x00]);
    run(&mut s, 1);
    assert_eq!(s.pc(), 0xFFE);
    // SE V0, 0 at 0xFFA skips to 0xFFE
    let mut s = at_the_end(&[], 0xFFA, &[0x30, 0x00]);
    run(&mut s, 1);
    assert_eq!(s.pc(), 0xFFE);
    // SKNP V0 at 0xFFC: key 0 is up, the skip goes too far
    let mut s = at_the_end(&[], 0xFFC, &[0xE0, 0xA1]);
    assert_eq!(s.execute_next_inst_with(0), Err(SystemError::MemoryReadOverflow));
    s.post_key(KeyboardMessage::down(Key::Key0));
    run(&mut s, 1);
    assert_eq!(s.pc(), 0xFFE);
    // SKP V0 at 0xFFC, the other way round
    let mut s = at_the_end(&[], 0xFFC, &[0xE0, 0x9E]);
    s.post_key(KeyboardMessage::down(Key::Key0));
    assert_eq!(s.execute_next_inst_with(0), Err(SystemError::MemoryReadOverflow));
    s.post_key(KeyboardMessage::up(Key::Key0));
    run(&mut s, 1);
    assert_eq!(s.pc(), 0xFFE);
}

#[test]
fn a_return_past_the_last_word_of_memory_is_not_done() {
    // CALL 0x300 at 0xFFE leaves 0x1000 on the stack; RET at 0x300
    let mut rom = vec![0u8; 3584];
    rom[0] = 0x1F;
    rom[1] = 0xFE;
    rom[0x100] = 0x00;
    rom[0x101] = 0xEE;
    rom[0xDFE] = 0x23;
    rom[0xDFF] = 0x00;
    let mut s = with_rom(&rom);
    run(&mut s, 2);
    assert_eq!((s.pc(), s.stack_depth()), (0x300, 1));
    assert_eq!(s.execute_next_inst_with(0), Err(SystemError::MemoryReadOverflow));
    assert_eq!((s.pc(), s.stack_depth()), (0x300, 1));
}

#[test]
fn a_wait_at_the_end_of_memory_keeps_its_key() {
    // LD V1, K at 0xFFE
    let mut s = at_the_end(&[], 0xFFE, &[0xF1, 0x0A]);
    assert_eq!(s.execute_next_inst_with(0), Ok(Effect::AwaitingKey));
    assert_eq!(s.pc(), 0xFFE);
    assert_eq!(s.post_key(KeyboardMessage::down(Key::Key9)), Some(Key::Key9));
    // the key cannot be taken: the next instruction would not fit
    assert_eq!(s.execute_next_inst_with(0), Err(SystemError::MemoryReadOverflow));
    assert_eq!((s.pc(), s.register(V1)), (0xFFE, 0));
    assert!(s.keyboard().awaiting());
    assert_eq!(s.keyboard().peek(), KeyWait::Pressed(Key::Key9));
    // calling the wait off is heard all the same
    s.stop();
    assert_eq!(s.execute_next_inst_with(0), Err(SystemError::Interrupted));
}

#[test]
fn the_program_counter_stays_in_memory() {
    // every word as the instruction at 0xFFC, with every key up and V0 = 0
    for word in 0..=0xFFFFu16 {
        let mut s = at_the_end(&[], 0xFFC, &word.to_be_bytes());
        let before = s.pc();
        match s.execute_next_inst_with(0x5A) {
            Ok(_) => assert!(s.pc() <= 0xFFE, "{:04X}", word),
            Err(_) => assert_eq!(s.pc(), before, "{:04X}", word),
        }
    }
}

#[test]
fn bcd() {
    // LD V0, 0x7B; LD I, 0x300; LD B, V0
    let mut s = with_rom(&[0x60, 0x7B, 0xA3, 0x00, 0xF0, 0x33]);
    run(&mut s, 3);
    assert_eq!(s.memory().read_slice(0x300, 3), Some(&[1u8, 2, 3][..]));
    assert_eq!(s.index(), 0x300);
    assert_eq!(s.pc(), 0x206);

    let mut s = with_rom(&[0x60, 0xFF, 0xA3, 0x00, 0xF0, 0x33, 0x60, 0x07, 0xF0, 0x33]);
    run(&mut s, 3);
    assert_eq!(s.memory().read_slice(0x300, 3), Some(&[2u8, 5, 5][..]));
    run(&mut s, 2);
    assert_eq!(s.memory().read_slice(0x300, 3), Some(&[0u8, 0, 7][..]));
}

#[test]
fn bcd_past_the_end_of_memory_writes_nothing() {
    // LD V0, 123; LD I, 0xFFE; LD B, V0
    let mut s = with_rom(&[0x60, 0x7B, 0xAF, 0xFE, 0xF0, 0x33]);
    run(&mut s, 2);
    assert_eq!(s.execute_next_inst_with(0), Err(SystemError::MemoryReadOverflow));
    assert_eq!(s.memory().read_slice(0xFFE, 2), Some(&[0u8, 0][..]));
    assert_eq!(s.pc(), 0x204);
    // LD I, 0xFFD fits
    let mut s = with_rom(&[0x60, 0x7B, 0xAF, 0xFD, 0xF0, 0x33]);
    run(&mut s, 3);
    assert_eq!(s.memory().read_slice(0xFFD, 3), Some(&[1u8, 2, 3][..]));
}

#[test]
fn a_sprite_drawn_twice_is_gone_and_collides() {
    // LD F, V0; DRW V1, V2, 5; DRW V1, V2, 5
    let mut s = with_rom(&[0x00, 0xE0, 0xF0, 0x29, 0xD1, 0x25, 0xD1, 0x25]);
    assert_eq!(s.execute_next_inst_with(0), Ok(Effect::DisplayCleared));
    run(&mut s, 1);
    assert_eq!(s.index(), 0);
    assert_eq!(s.execute_next_inst_with(0), Ok(Effect::DisplayUpdated));
    assert_eq!(s.register(VF), 0);
    let zero = vec![
        (0, 0), (1, 0), (2, 0), (3, 0),
        (0, 1), (3, 1),
        (0, 2), (3, 2),
        (0, 3), (3, 3),
        (0, 4), (1, 4), (2, 4), (3, 4),
    ];
    assert_eq!(lit(&s), zero);
    assert_eq!(s.execute_next_inst_with(0), Ok(Effect::DisplayUpdated));
    assert_eq!(s.register(VF), 1);
    assert!(lit(&s).is_empty());
    assert_eq!(s.pc(), 0x208);
}

#[test]
fn a_sprite_past_the_end_of_memory_ends_the_run() {
    // LD I, 0xFFE; DRW V0, V0, 3
    let mut s = with_rom(&[0xAF, 0xFE, 0xD0, 0x03]);
    run(&mut s, 1);
    assert_eq!(s.execute_next_inst_with(0), Err(SystemError::MemoryReadOverflow));
    assert!(lit(&s).is_empty());
    // two rows fit
    let mut s = with_rom(&[0xAF, 0xFE, 0xD0, 0x02]);
    run(&mut s, 1);
    assert_eq!(s.execute_next_inst_with(0), Ok(Effect::DisplayUpdated));
}

#[test]
fn drawing_clips_unless_the_quirk_wraps() {
    // LD V0, 62; LD V1, 0; LD I, 0x20A; DRW V0, V1, 1; JP; data 0xF0
    let rom = [0x60, 62, 0x61, 0, 0xA2, 0x0A, 0xD0, 0x11, 0x12, 0x08, 0xF0];
    let mut s = with_rom(&rom);
    run(&mut s, 3);
    assert_eq!(s.execute_next_inst_with(0), Ok(Effect::DisplayUpdated));
    assert_eq!(lit(&s), vec![(62, 0), (63, 0)]);
    let mut s = with_quirk(Quirk::DrawWrapsPixels, &rom);
    run(&mut s, 3);
    assert_eq!(s.execute_next_inst_with(0), Ok(Effect::DisplayUpdated));
    assert_eq!(lit(&s), vec![(0, 0), (1, 0), (62, 0), (63, 0)]);
}

#[test]
fn the_wait_for_a_key_is_called_off() {
    // LD V1, K
    let mut s = with_rom(&[0xF1, 0x0A]);
    let mut rng = SmallRng::seed_from_u64(1);
    assert_eq!(s.step(&mut rng), Ok(Some(Effect::AwaitingKey)));
    assert_eq!(s.pc(), 0x200);
    assert_eq!(s.step(&mut rng), Ok(Some(Effect::AwaitingKey)));
    s.stop();
    assert!(s.is_stopped());
    // the machine is in the middle of the wait, and hears that it is called off
    assert_eq!(s.step(&mut rng), Err(SystemError::Interrupted));
    assert_eq!(s.pc(), 0x200);
    assert_eq!(s.register(V1), 0);
    // after that the raised pin ends the loop
    assert_eq!(s.step(&mut rng), Ok(None));
    assert_eq!(s.step_with(0), Ok(None));
}

#[test]
fn a_key_that_came_in_time_is_still_taken() {
    let mut s = with_rom(&[0xF1, 0x0A, 0x62, 0x01]);
    assert_eq!(s.step_with(0), Ok(Some(Effect::AwaitingKey)));
    assert_eq!(s.post_key(KeyboardMessage::down(Key::KeyC)), Some(Key::KeyC));
    s.stop();
    // the wait hears of the stop first
    assert_eq!(s.step_with(0), Err(SystemError::Interrupted));
    assert_eq!(s.register(V1), 0);
    assert_eq!(s.step_with(0), Ok(None));
    assert_eq!((s.register(V1), s.register(V2), s.pc()), (0, 0, 0x200));
}

#[test]
fn the_first_key_that_goes_down_ends_the_wait() {
    let mut s = with_rom(&[0xF1, 0x0A, 0xF2, 0x0A]);
    // a key that went down before the wait does not count
    assert_eq!(s.post_key(KeyboardMessage::down(Key::Key3)), None);
    assert_eq!(s.execute_next_inst_with(0), Ok(Effect::AwaitingKey));
    assert_eq!(s.post_key(KeyboardMessage::up(Key::Key3)), None);
    // nor does a key that is down already
    assert_eq!(s.post_key(KeyboardMessage::down(Key::Key4)), Some(Key::Key4));
    assert_eq!(s.post_key(KeyboardMessage::down(Key::KeyB)), None);
    assert_eq!(s.execute_next_inst_with(0), Ok(Effect::Quiet));
    assert_eq!(s.register(V1), 4);
    assert_eq!(s.pc(), 0x202);
    assert!(s.keyboard().is_key_down(Key::KeyB));
    // the next wait begins anew
    assert_eq!(s.execute_next_inst_with(0), Ok(Effect::AwaitingKey));
    assert_eq!(s.post_key(KeyboardMessage::down(Key::KeyB)), None);
    assert_eq!(s.post_key(KeyboardMessage::up(Key::KeyB)), None);
    assert_eq!(s.post_key(KeyboardMessage::down(Key::KeyB)), Some(Key::KeyB));
    assert_eq!(s.execute_next_inst_with(0), Ok(Effect::Quiet));
    assert_eq!(s.register(V2), 0xB);
}

#[test]
fn skips_on_keys() {
    // LD V0, 5; SKP V0; LD V1, 1; SKNP V0; LD V2, 1
    let rom = [0x60, 0x05, 0xE0, 0x9E, 0x61, 0x01, 0xE0, 0xA1, 0x62, 0x01];
    let mut s = with_rom(&rom);
    run(&mut s, 4);
    assert_eq!((s.register(V1), s.register(V2), s.pc()), (1, 0, 0x20A));
    let mut s = with_rom(&rom);
    s.post_key(KeyboardMessage::down(Key::Key5));
    run(&mut s, 4);
    assert_eq!((s.register(V1), s.register(V2), s.pc()), (0, 1, 0x20A));
    // a value that names no key skips nothing
    let mut s = with_rom(&[0x60, 0x10, 0xE0, 0x9E, 0xE0, 0xA1]);
    run(&mut s, 3);
    assert_eq!(s.pc(), 0x206);
}

#[test]
fn add_sets_the_carry() {
    for (a, b) in [(0u8, 0u8), (1, 254), (1, 255), (255, 255), (128, 128), (200, 55), (200, 56)] {
        // LD V1, a; LD V2, b; ADD V1, V2
        let mut s = with_rom(&[0x61, a, 0x62, b, 0x81, 0x24]);
        run(&mut s, 3);
        assert_eq!(s.register(V1), a.wrapping_add(b));
        assert_eq!(s.register(VF), (a as u16 + b as u16 >= 256) as u8);
    }
}

#[test]
fn sub_sets_no_borrow() {
    for (a, b) in [(0u8, 0u8), (5, 5), (5, 6), (6, 5), (0, 255), (255, 0)] {
        let mut s = with_rom(&[0x61, a, 0x62, b, 0x81, 0x25]);
        run(&mut s, 3);
        assert_eq!(s.register(V1), a.wrapping_sub(b));
        assert_eq!(s.register(VF), (a >= b) as u8);
        let mut s = with_rom(&[0x61, a, 0x62, b, 0x81, 0x27]);
        run(&mut s, 3);
        assert_eq!(s.register(V1), b.wrapping_sub(a));
        assert_eq!(s.register(VF), (b >= a) as u8);
    }
}

#[test]
fn the_flag_is_written_after_the_result() {
    // LD VF, 200; LD V1, 100; ADD VF, V1
    let mut s = with_rom(&[0x6F, 200, 0x61, 100, 0x8F, 0x14]);
    run(&mut s, 3);
    assert_eq!(s.register(VF), 1);
    // LD VF, 7; LD V1, 3; SUB VF, V1
    let mut s = with_rom(&[0x6F, 7, 0x61, 3, 0x8F, 0x15]);
    run(&mut s, 3);
    assert_eq!(s.register(VF), 1);
    // LD VF, 3; LD V1, 7; SUBN VF, V1
    let mut s = with_rom(&[0x6F, 3, 0x61, 7, 0x8F, 0x17]);
    run(&mut s, 3);
    assert_eq!(s.register(VF), 1);
    // LD V1, 6; SHR VF, V1: the bit shifted out is 0
    let mut s = with_rom(&[0x61, 6, 0x8F, 0x16]);
    run(&mut s, 2);
    assert_eq!(s.register(VF), 0);
    // LD VF, 0x81; SHL V1, VF: the source is the old VF
    let mut s = with_rom(&[0x6F, 0x81, 0x81, 0xFE]);
    run(&mut s, 2);
    assert_eq!((s.register(V1), s.register(VF)), (0x02, 1));
}

#[test]
fn an_immediate_add_leaves_the_flag() {
    // LD VF, 9; LD V1, 255; ADD V1, 2
    let mut s = with_rom(&[0x6F, 9, 0x61, 255, 0x71, 2]);
    run(&mut s, 3);
    assert_eq!((s.register(V1), s.register(VF)), (1, 9));
}

#[test]
fn shifts_read_vy_unless_the_quirk_reads_vx() {
    // LD V1, 0x0F; LD V2, 0x81; SHR V1, V2; SHL V1, V2
    let rom = [0x61, 0x0F, 0x62, 0x81, 0x81, 0x26, 0x81, 0x2E];
    let mut s = with_rom(&rom);
    run(&mut s, 3);
    assert_eq!((s.register(V1), s.register(V2), s.register(VF)), (0x40, 0x81, 1));
    run(&mut s, 1);
    assert_eq!((s.register(V1), s.register(V2), s.register(VF)), (0x02, 0x81, 1));
    let mut s = with_quirk(Quirk::ShiftReadsVx, &rom);
    run(&mut s, 3);
    assert_eq!((s.register(V1), s.register(V2), s.register(VF)), (0x07, 0x81, 1));
    run(&mut s, 1);
    assert_eq!((s.register(V1), s.register(V2), s.register(VF)), (0x0E, 0x81, 0));
}

#[test]
fn logic_and_loads() {
    // LD V1, 0b1100; LD V2, 0b1010; OR V3.. via copies
    let mut s = with_rom(&[
        0x61, 0x0C, 0x62, 0x0A, 0x83, 0x10, 0x83, 0x21, 0x84, 0x10, 0x84, 0x22, 0x85, 0x10, 0x85,
        0x23,
    ]);
    run(&mut s, 8);
    assert_eq!((s.register(V3), s.register(V4), s.register(V5)), (0x0E, 0x08, 0x06));
    assert_eq!(s.register(VF), 0);
}

#[test]
fn skips() {
    // LD V1, 5; SE V1, 5; (skipped); SNE V1, 5; LD V2, 1; SE V1, V2; SNE V1, V2; (skipped); ...
    let mut s = with_rom(&[
        0x61, 0x05, 0x31, 0x05, 0x00, 0x00, 0x41, 0x05, 0x62, 0x01, 0x51, 0x20, 0x91, 0x20, 0x00,
        0x00, 0x12, 0x10,
    ]);
    run(&mut s, 2);
    assert_eq!(s.pc(), 0x206);
    run(&mut s, 1);
    assert_eq!(s.pc(), 0x208);
    run(&mut s, 2);
    assert_eq!(s.pc(), 0x20C);
    run(&mut s, 1);
    assert_eq!(s.pc(), 0x210);
}

#[test]
fn the_index_register() {
    // LD I, 0xFFF; LD V1, 0xFF; ADD I, V1; LD V2, 0xA; LD F, V2
    let mut s = with_rom(&[0xAF, 0xFF, 0x61, 0xFF, 0xF1, 0x1E, 0x62, 0x0A, 0xF2, 0x29]);
    run(&mut s, 3);
    assert_eq!(s.index(), 0x10FE);
    run(&mut s, 2);
    assert_eq!(s.index(), 50);
}

#[test]
fn a_jump_by_v0() {
    // LD V0, 4; JP V0, 0x202
    let mut s = with_rom(&[0x60, 0x04, 0xB2, 0x02, 0x00, 0x00, 0x61, 0x09]);
    run(&mut s, 3);
    assert_eq!((s.pc(), s.register(V1)), (0x208, 9));
    // LD V0, 0xFF; JP V0, 0xFFF: the sum is past the last word of memory
    let mut s = with_rom(&[0x60, 0xFF, 0xBF, 0xFF]);
    run(&mut s, 1);
    assert_eq!(s.execute_next_inst_with(0), Err(SystemError::MemoryReadOverflow));
    assert_eq!(s.pc(), 0x202);
    // LD V0, 0xFF; JP V0, 0xEFF: 0xFFE is the last place to go
    let mut s = with_rom(&[0x60, 0xFF, 0xBE, 0xFF]);
    run(&mut s, 2);
    assert_eq!(s.pc(), 0xFFE);
    // LD V0, 0xFF; JP V0, 0xF00
    let mut s = with_rom(&[0x60, 0xFF, 0xBF, 0x00]);
    run(&mut s, 1);
    assert_eq!(s.execute_next_inst_with(0), Err(SystemError::MemoryReadOverflow));
}

#[test]
fn registers_are_saved_and_loaded() {
    // LD V0, 1; LD V1, 2; LD V2, 3; LD I, 0x300; LD [I], V1; LD V0, 0; LD V1, 0; LD I, 0x300; LD V2, [I]
    let rom = [
        0x60, 1, 0x61, 2, 0x62, 3, 0xA3, 0x00, 0xF1, 0x55, 0x60, 0, 0x61, 0, 0xA3, 0x00, 0xF2,
        0x65,
    ];
    let mut s = with_rom(&rom);
    run(&mut s, 5);
    assert_eq!(s.memory().read_slice(0x300, 3), Some(&[1u8, 2, 0][..]));
    assert_eq!(s.index(), 0x302);
    run(&mut s, 4);
    assert_eq!((s.register(V0), s.register(V1), s.register(V2)), (1, 2, 0));
    assert_eq!(s.index(), 0x303);
    let mut s = with_quirk(Quirk::LoadStoreIgnoresI, &rom);
    run(&mut s, 5);
    assert_eq!(s.index(), 0x300);
    run(&mut s, 4);
    assert_eq!((s.register(V0), s.register(V1), s.register(V2)), (1, 2, 0));
    assert_eq!(s.index(), 0x300);
}

#[test]
fn saving_and_loading_past_the_end_of_memory_ends_the_run() {
    // LD I, 0xFFF; LD [I], V1
    let mut s = with_rom(&[0xAF, 0xFF, 0xF1, 0x55]);
    run(&mut s, 1);
    assert_eq!(s.execute_next_inst_with(0), Err(SystemError::MemoryReadOverflow));
    assert_eq!(s.index(), 0xFFF);
    // LD I, 0xFFF; LD V1, [I]
    let mut s = with_rom(&[0xAF, 0xFF, 0xF1, 0x65]);
    run(&mut s, 1);
    assert_eq!(s.execute_next_inst_with(0), Err(SystemError::MemoryReadOverflow));
    // one register fits
    let mut s = with_rom(&[0xAF, 0xFF, 0xF0, 0x55, 0xAF, 0xFF, 0xF0, 0x65]);
    run(&mut s, 4);
    assert_eq!(s.index(), 0x1000);
}

#[test]
fn timers() {
    // LD V1, 2; LD DT, V1; LD ST, V1; LD V2, DT; LD V3, 0; LD ST, V3; LD ST, V1; LD ST, V1
    let mut s = with_rom(&[
        0x61, 2, 0xF1, 0x15, 0xF1, 0x18, 0xF2, 0x07, 0x63, 0, 0xF3, 0x18, 0xF1, 0x18, 0xF1, 0x18,
    ]);
    run(&mut s, 1);
    assert_eq!(s.execute_next_inst_with(0), Ok(Effect::DelayTimer(TimerMessage::Started)));
    assert_eq!(s.execute_next_inst_with(0), Ok(Effect::SoundTimer(TimerMessage::Started)));
    assert_eq!((s.delay(), s.sound()), (2, 2));
    assert_eq!((s.tick_delay_timer(), s.tick_sound_timer()), (None, None));
    run(&mut s, 1);
    assert_eq!(s.register(V2), 1);
    run(&mut s, 1);
    // setting a timer to zero stops it at once and starts nothing
    assert_eq!(s.execute_next_inst_with(0), Ok(Effect::Quiet));
    assert_eq!(s.sound(), 0);
    assert_eq!(s.execute_next_inst_with(0), Ok(Effect::SoundTimer(TimerMessage::Started)));
    // a timer that runs already does not start again
    assert_eq!(s.execute_next_inst_with(0), Ok(Effect::Quiet));
    assert_eq!((s.tick_delay_timer(), s.tick_sound_timer()), (None, None));
    assert_eq!((s.delay(), s.sound()), (0, 1));
    assert_eq!(s.tick_delay_timer(), Some(TimerMessage::Stopped));
    assert_eq!(s.tick_sound_timer(), None);
    assert_eq!(s.tick_delay_timer(), Some(TimerMessage::Stopped));
    assert_eq!(s.tick_sound_timer(), Some(TimerMessage::Stopped));
    assert_eq!((s.delay(), s.sound()), (0, 0));
}

#[test]
fn timers_are_set_from_outside_a_program() {
    let mut s = System::new();
    assert_eq!(s.update_delay_timer(3), Some(TimerMessage::Started));
    assert_eq!(s.update_sound_timer(0), None);
    assert_eq!((s.delay(), s.sound()), (3, 0));
    assert_eq!(s.update_sound_timer(9), Some(TimerMessage::Started));
    assert_eq!(s.update_sound_timer(4), None);
    // zero stops a timer at once: its next tick finds it stopped
    assert_eq!(s.update_delay_timer(0), None);
    assert_eq!(s.tick_delay_timer(), Some(TimerMessage::Stopped));
    assert_eq!(s.tick_sound_timer(), None);
    assert_eq!((s.delay(), s.sound(), s.pc()), (0, 3, 0x200));
}

#[test]
fn the_random_byte_is_masked() {
    // RND V1, 0x0F
    let mut s = with_rom(&[0xC1, 0x0F, 0xC2, 0xF0, 0xC3, 0x00]);
    assert_eq!(s.execute_next_inst_with(0xA5), Ok(Effect::Quiet));
    assert_eq!(s.register(V1), 0x05);
    assert_eq!(s.execute_next_inst_with(0xA5), Ok(Effect::Quiet));
    assert_eq!(s.register(V2), 0xA0);
    let mut rng = SmallRng::seed_from_u64(3);
    assert_eq!(s.execute_next_inst(&mut rng), Ok(Effect::Quiet));
    assert_eq!(s.register(V3), 0);
    assert_eq!(s.pc(), 0x206);
}

#[test]
fn the_generator_is_used_for_rnd_only() {
    let mut a = SmallRng::seed_from_u64(11);
    let mut b = SmallRng::seed_from_u64(11);
    // LD V1, 1; ADD V1, 1; RND V2, 0xFF
    let mut s = with_rom(&[0x61, 1, 0x71, 1, 0xC2, 0xFF]);
    assert_eq!(s.execute_next_inst(&mut a), Ok(Effect::Quiet));
    assert_eq!(s.execute_next_inst(&mut a), Ok(Effect::Quiet));
    let mut t = with_rom(&[0xC2, 0xFF]);
    assert_eq!(t.execute_next_inst(&mut b), Ok(Effect::Quiet));
    assert_eq!(s.execute_next_inst(&mut a), Ok(Effect::Quiet));
    assert_eq!(s.register(V2), t.register(V2));
}

#[test]
fn the_stack_never_goes_deeper_than_sixteen() {
    // CALL 0x200 for ever
    let mut s = with_rom(&[0x22, 0x00]);
    let mut failed = 0;
    for _ in 0..40 {
        if s.execute_next_inst_with(0).is_err() {
            failed += 1;
        }
        assert!(s.stack_depth() <= 16);
    }
    assert_eq!(failed, 24);
}

#[test]
fn a_stopped_machine_runs_no_further() {
    let mut s = with_rom(&[0x61, 1, 0x62, 2]);
    let mut rng = SmallRng::seed_from_u64(5);
    assert_eq!(s.step(&mut rng), Ok(Some(Effect::Quiet)));
    s.stop();
    assert_eq!(s.step(&mut rng), Ok(None));
    assert_eq!(s.step(&mut rng), Ok(None));
    assert_eq!((s.pc(), s.register(V2)), (0x202, 0));
}

#[test]
fn the_largest_program_fits() {
    let mut rom = vec![0u8; 3584];
    rom[3582] = 0x12;
    rom[3583] = 0x34;
    let s = with_rom(&rom);
    assert_eq!(s.memory().read_u16(0xFFE), Some(0x1234));
    assert_eq!(s.memory().read_u16(0), Some(0xF090));
}

#[test]
fn options_collect_quirks() {
    let mut options = SystemOptions::default();
    options.quirk(Quirk::ShiftReadsVx).quirk(Quirk::LoadStoreIgnoresI);
    // LD V1, 3; SHR V1, V2; LD I, 0x300; LD [I], V0
    let mut s = System::new_with_options(options);
    s.load_image_bytes(&[0x61, 3, 0x81, 0x26, 0xA3, 0x00, 0xF0, 0x55]);
    run(&mut s, 4);
    assert_eq!((s.register(V1), s.register(VF), s.index()), (1, 1, 0x300));
}
