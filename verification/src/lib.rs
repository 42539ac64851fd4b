//! A CHIP-8 virtual machine: the machine state, the decoding of the
//! thirty-four original opcodes, and the fetch-decode-execute cycle, each
//! specified over a mathematical model of the machine.

pub mod constants;
pub mod instruction;
pub mod machine;
pub mod cpu;
pub mod laws;
mod rng;
pub mod opcode_laws;
