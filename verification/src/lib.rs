//! An interpreter core for a small 8-bit virtual machine with a monochrome
//! 64x32 display and a 16-key pad.

pub mod cartridge;
pub mod cpu;
pub mod display;
pub mod input;
pub mod keypad;
pub mod laws;
pub mod opcode;
