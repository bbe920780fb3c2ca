//! A compiler from SysY (a small subset of C) to RISC-V assembly: the syntax tree,
//! the front-end passes that work on it, and the data structures of the RV32IM
//! back end, each with its contract.

pub mod driver;
pub mod parse;
pub mod ir;
pub mod text;
pub mod token;
pub mod riscv;
