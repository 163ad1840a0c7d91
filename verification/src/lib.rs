//! A small capability machine: a register and memory interpreter whose every
//! memory access goes through a bounded, permissioned, tagged capability,
//! together with the two-pass assembler that produces its programs.

pub mod arith;
pub mod bytecode;
pub mod capability;
pub mod compile;
pub mod encoding;
pub mod ir;
pub mod layout;
pub mod memory;
pub mod parse;
pub mod text;
pub mod vm;
