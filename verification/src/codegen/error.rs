//! The errors of code generation.
use vstd::prelude::*;
use crate::parser::ParserError;
use crate::typing::typed::TypedExpression;
use crate::typing::error::TypeCheckError;
use crate::codegen::semantics::CErr;

verus! {

#[derive(Debug)]
pub enum CompileError {
    Unimplemented,
    ParserError(ParserError),
    InputIsNotProgram,
    NotLeftValue,
    ExpectedIdent { actual: TypedExpression },
    TypeCheckError(TypeCheckError),
}

impl View for CompileError {
    type V = CErr;

    open spec fn view(&self) -> CErr {
        match self {
            CompileError::Unimplemented => CErr::Unimplemented,
            CompileError::ParserError(e) => CErr::ParserError(e@),
            CompileError::InputIsNotProgram => CErr::InputIsNotProgram,
            CompileError::NotLeftValue => CErr::NotLeftValue,
            CompileError::ExpectedIdent { actual } => CErr::ExpectedIdent(actual@),
            CompileError::TypeCheckError(e) => CErr::TypeCheckError(e@),
        }
    }
}

} // verus!
