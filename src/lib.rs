//! A gas-metered interpreter for a stack machine of 256-bit words that runs
//! EVM-compatible bytecode.

pub mod arith;
pub mod bytecode;
pub mod context;
pub mod laws;
pub mod opcodes;
pub mod semantics;
pub mod storage;
pub mod vm;
pub mod word;

