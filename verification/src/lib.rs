//! Disassembler for stack-machine bytecode, with software-science metrics.

pub mod digits;
pub mod disassembler;
pub mod lexer;
pub mod opcode;
pub mod operand;
pub mod stats;
