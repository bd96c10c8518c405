//! Code generation.  The one backend is x86-64 with the System V calling
//! convention.

pub mod x86_64;

pub use self::x86_64::codegen;
pub use self::x86_64::error::CodegenError;
