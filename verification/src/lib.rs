//! An interpreter for a small stack-of-tapes language: macro expansion,
//! lexing, parsing and execution, each stated against a mathematical model.

pub mod intepreter;
pub mod parse;
