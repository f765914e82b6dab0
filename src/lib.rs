//! An interpreter for the CHIP-8 instruction set: memory, registers, timers,
//! a monochrome framebuffer and a sixteen-key input state, advanced one
//! instruction at a time by a host loop.

pub mod emulator;
pub mod keypad;
pub mod laws;
pub mod machine;
pub mod nibbles;
pub mod opcode;
mod sys;

pub use emulator::Emulator;
pub use keypad::{Keypad, NUM_KEYS};
pub use machine::{Fault, Step, SCREEN_HEIGHT, SCREEN_WIDTH};
pub use nibbles::Nibbles;
pub use opcode::Opcode;
