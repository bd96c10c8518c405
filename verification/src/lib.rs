//! An interactive compiler for a small expression language.
//!
//! Source text is parsed into a syntax tree, lowered to a linear intermediate
//! representation, given registers by a backward pass, and emitted as x86-64
//! machine code that follows the System V calling convention.  Values cross
//! the boundary between generated code and the host as tagged 64-bit words.

pub mod text;
pub mod value;
pub mod parser;
pub mod ir;
pub mod codegen;
pub mod compiler;
pub mod evaluator;
