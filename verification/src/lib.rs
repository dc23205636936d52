//! A CHIP-8 virtual machine: instruction decoding, the machine state and the
//! state transition of every opcode, each with a verified contract.

pub mod cpu;
pub mod graphics;
pub mod instruction;
pub mod laws;
mod random;
pub mod screen;
pub mod state;
