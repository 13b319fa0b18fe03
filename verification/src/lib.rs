//! A disassembler for the 8086 `mov` family of instructions.
//!
//! The library turns a stream of machine-code bytes into a listing of
//! decoded instructions and renders each instruction as assembly text.
//! Every step is specified over mathematical sequences and proved.

pub mod names;
pub mod fields;
pub mod decode;
pub mod numbers;
pub mod render;
pub mod laws;
pub mod format_laws;
pub mod text_laws;
