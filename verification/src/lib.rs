//! A small register machine and the assembler that feeds it.
//!
//! [`instruction`] fixes the opcode table that both halves share, [`vm`] holds
//! the execution engine, and [`assembler`] turns assembly text into the byte
//! format that the engine decodes. [`agreement`] shows that the engine reads
//! what the assembler writes, and [`repl`] decides what an interactive
//! session does with a line of input.

pub mod agreement;
pub mod assembler;
pub mod instruction;
pub mod repl;
pub mod vm;
