//! A two-pass assembler for a machine with 16-bit words.
//!
//! Source text is split into tokens, the tokens are parsed into
//! instructions, and the instructions are encoded into a flat image of
//! big-endian 16-bit words. Labels and named constants may be used before
//! they are defined: every symbol is collected before any reference to it
//! is resolved.

pub mod keywords;
pub mod error;
pub mod lexer;
pub mod parser;
pub mod encoder;
pub mod assembler;
pub mod laws;
