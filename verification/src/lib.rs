//! A single-pass compiler from a postfix arithmetic-and-assignment language
//! to assembly text for a machine with one accumulator register, one
//! scratch register and a native stack for spilled partial results.

pub mod codegen;
pub mod compile;
pub mod laws;
pub mod line;
pub mod machine;
pub mod meaning;
pub mod operand;

pub use codegen::{BinOp, CodeGen, CompileError, ErrorKind};
pub use compile::{assemble, classify, compile, Event};
pub use line::{render, Line, Source};
pub use operand::{Location, Operand};
