//! A translator from the commands of a stack machine to the instructions of
//! a 16-bit machine with two registers.
//!
//! `vm` holds the commands and reads them from text, `codegen` turns them
//! into instructions, `hack` holds the instructions and writes them as text.
//! `machine` is a model of the target machine, `effects` says what each
//! block of generated code does to it, and `theorems` states what follows
//! for the commands. `text` holds the handling of characters and numerals,
//! `cli` that of the command line.

pub mod cli;
pub mod codegen;
pub mod effects;
pub mod hack;
pub mod machine;
pub mod text;
pub mod theorems;
pub mod vm;
