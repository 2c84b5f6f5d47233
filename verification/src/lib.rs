//! A CHIP-8 virtual machine: instruction decoding and execution, the
//! register and memory model, the monochrome XOR-sprite frame buffer,
//! and the key-pad state the key opcodes read.

pub mod cartridge;
pub mod cpu;
pub mod display;
pub mod font;
pub mod keypad;
