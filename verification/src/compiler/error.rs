use vstd::prelude::*;
use crate::codegen::x86_64::error::{CodegenError, CodegenErrorView};
use crate::parser::Identifier;

verus! {

#[derive(Debug, PartialEq)]
pub enum CompileError {
    /// A call of the function with this name, which expects the first number
    /// of arguments, with the second number of them.
    IncorrectArity(Identifier, usize, usize),
    NotImplemented(String),
    UnresolvedSymbol(Identifier),
}

pub enum CompileErrorView {
    IncorrectArity(Seq<char>, usize, usize),
    NotImplemented(Seq<char>),
    UnresolvedSymbol(Seq<char>),
}

impl View for CompileError {
    type V = CompileErrorView;

    open spec fn view(&self) -> CompileErrorView {
        match self {
            CompileError::IncorrectArity(name, expected, actual) => CompileErrorView::IncorrectArity(
                name@,
                *expected,
                *actual,
            ),
            CompileError::NotImplemented(reason) => CompileErrorView::NotImplemented(reason@),
            CompileError::UnresolvedSymbol(name) => CompileErrorView::UnresolvedSymbol(name@),
        }
    }
}

impl CompileError {
    pub fn not_implemented(reason: &str) -> (error: CompileError)
        ensures
            error@ == CompileErrorView::NotImplemented(reason@),
    {
        CompileError::NotImplemented(reason.to_owned())
    }

    pub fn unresolved_symbol(name: &Identifier) -> (error: CompileError)
        ensures
            error@ == CompileErrorView::UnresolvedSymbol(name@),
    {
        CompileError::UnresolvedSymbol(name.clone())
    }
}

#[derive(Debug)]
pub enum CompilerError {
    CompileError(CompileError),
    CodegenError(CodegenError),
}

pub enum CompilerErrorView {
    CompileError(CompileErrorView),
    CodegenError(CodegenErrorView),
}

impl View for CompilerError {
    type V = CompilerErrorView;

    open spec fn view(&self) -> CompilerErrorView {
        match self {
            CompilerError::CompileError(error) => CompilerErrorView::CompileError(error@),
            CompilerError::CodegenError(error) => CompilerErrorView::CodegenError(error@),
        }
    }
}

impl From<CompileError> for CompilerError {
    fn from(err: CompileError) -> (error: Self) {
        CompilerError::CompileError(err)
    }
}

impl vstd::std_specs::convert::FromSpecImpl<CompileError> for CompilerError {
    open spec fn obeys_from_spec() -> bool {
        true
    }

    open spec fn from_spec(err: CompileError) -> CompilerError {
        CompilerError::CompileError(err)
    }
}

impl From<CodegenError> for CompilerError {
    fn from(err: CodegenError) -> (error: Self) {
        CompilerError::CodegenError(err)
    }
}

impl vstd::std_specs::convert::FromSpecImpl<CodegenError> for CompilerError {
    open spec fn obeys_from_spec() -> bool {
        true
    }

    open spec fn from_spec(err: CodegenError) -> CompilerError {
        CompilerError::CodegenError(err)
    }
}

} // verus!
