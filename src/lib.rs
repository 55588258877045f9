//! A CHIP-8 virtual machine core: memory, registers, stack, timers, a 64x32
//! monochrome framebuffer and a 16-key latch, advanced one instruction at a
//! time by [`Chip8::tick`].

pub mod font;
pub mod machine;
pub mod chip8;
pub mod laws;
pub mod keypad;

pub use chip8::Chip8;
pub use machine::{LoadError, TickError};
pub use keypad::{apply_key_event, key2btn, KeyEvent};
