//! A CHIP-8 virtual machine core: the instruction interpreter, the
//! framebuffer, the keypad state and the 60Hz timer pair, each with a
//! machine-checked contract.

pub mod chip8;
pub mod config;
