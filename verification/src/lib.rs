//! A small register virtual machine with a companion assembler.
//!
//! The assembler turns mnemonic source text into a fixed-width binary
//! instruction stream (tokens -> parsed instructions -> 4-byte encodings),
//! and the execution engine interprets that stream against a register file,
//! a comparison flag, a remainder register and a growable heap.

pub mod assemble;
pub mod instruction;
pub mod laws;
pub mod lexer;
pub mod parser;
pub mod program;
pub mod utils;
pub mod vm;

pub use instruction::Opcode;
