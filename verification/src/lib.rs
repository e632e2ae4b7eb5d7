//! An 8-bit computer: its instruction codec, its assembler and its reversible
//! execution engine.

pub mod assembler;
pub mod control;
pub mod encoding;
pub mod hex;
pub mod image;
pub mod journal;
pub mod notation;
pub mod number;
pub mod program;
pub mod statement;
pub mod text;
pub mod vm;
