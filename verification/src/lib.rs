//! An interpreter for a minimal eight-instruction tape language: a
//! tokenizer that turns program text into an instruction sequence, and a
//! virtual machine that executes that sequence against a fixed-length
//! memory tape and an input byte stream, accumulating output and, on
//! failure, a diagnosable halt reason.

pub mod argument;
pub mod diagnostics;
pub mod interpreter;
pub mod tokenize;
