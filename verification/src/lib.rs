//! A CHIP-8 toolchain core: the interpreter's machine and an assembler, with
//! every function's behaviour stated as a contract and proved.
//!
//! The machine is a plain value: its memory, registers, display, keypad and
//! timers change only when one of its functions is called. Whoever runs it
//! decides when an instruction is executed, when a timer ticks and when a key
//! is posted.
//!
//! Three things come from other crates and are taken on trust, each behind a
//! small function that says what is assumed of it: the bit vector that holds
//! the pixels, the random generator behind `RND`, and the standard library's
//! tables of which characters are letters and digits.

pub mod assembler;
pub mod display;
pub mod keyboard;
pub mod keyboard_map;
pub mod machine;
pub mod memory;
pub mod opcode;
pub mod port;
pub mod quirks;
pub mod register;
pub mod sound;
pub mod system;
pub mod timer;
