//! Core CHIP-8 machine, independent of any windowing or audio backend.
pub mod clock;
pub mod cpu;
pub mod display;
pub mod frontend;
pub mod keypad;
pub mod laws;
pub mod machine;
mod sprite;
pub mod stack;

pub use cpu::Cpu;
pub use display::Display;
pub use keypad::Keypad;
pub use stack::Stack;
pub mod opcode_laws;
