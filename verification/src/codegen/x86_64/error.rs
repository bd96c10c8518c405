use vstd::prelude::*;
use crate::value::ValueEncodeError;
use super::machine::Register;

verus! {

#[derive(Debug)]
pub enum CodegenError {
    /// The program asks for something that the backend does not do.
    NotImplemented(String),
    /// The instructions are not ones that the lowering produces.
    InternalError(String),
    /// A register was asked for while it was in use.
    RegisterNotAvailable(Register),
    /// A literal does not fit the payload of an encoded word.
    ValueEncodeError(ValueEncodeError),
    /// The assembler refused an instruction.
    IcedError(iced_x86::IcedError),
}

pub enum CodegenErrorView {
    NotImplemented(Seq<char>),
    InternalError(Seq<char>),
    RegisterNotAvailable(Register),
    ValueEncodeError(ValueEncodeError),
    IcedError,
}

impl View for CodegenError {
    type V = CodegenErrorView;

    open spec fn view(&self) -> CodegenErrorView {
        match self {
            CodegenError::NotImplemented(reason) => CodegenErrorView::NotImplemented(reason@),
            CodegenError::InternalError(reason) => CodegenErrorView::InternalError(reason@),
            CodegenError::RegisterNotAvailable(register) => CodegenErrorView::RegisterNotAvailable(
                *register,
            ),
            CodegenError::ValueEncodeError(error) => CodegenErrorView::ValueEncodeError(*error),
            CodegenError::IcedError(_) => CodegenErrorView::IcedError,
        }
    }
}

impl CodegenError {
    pub fn not_implemented(reason: &str) -> (error: CodegenError)
        ensures
            error@ == CodegenErrorView::NotImplemented(reason@),
    {
        CodegenError::NotImplemented(reason.to_owned())
    }

    pub fn internal_error(reason: &str) -> (error: CodegenError)
        ensures
            error@ == CodegenErrorView::InternalError(reason@),
    {
        CodegenError::InternalError(reason.to_owned())
    }
}

impl From<iced_x86::IcedError> for CodegenError {
    fn from(err: iced_x86::IcedError) -> (error: Self) {
        CodegenError::IcedError(err)
    }
}

impl vstd::std_specs::convert::FromSpecImpl<iced_x86::IcedError> for CodegenError {
    open spec fn obeys_from_spec() -> bool {
        true
    }

    open spec fn from_spec(err: iced_x86::IcedError) -> CodegenError {
        CodegenError::IcedError(err)
    }
}

} // verus!
