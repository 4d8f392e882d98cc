//! The errors the evaluator reports.
use vstd::prelude::*;
use crate::ast::Expression;
use crate::object::Object;
use crate::eval::semantics::EvalErrModel;

verus! {

#[derive(Debug, PartialEq, Eq)]
pub enum EvalError {
    UnexpectedObject(Object),
    UndefinedVariable(String),
    IdentRequired { actual: Expression },
    UnmatchedArgsLen { expected: usize, actual: usize },
    OutOfRange,
}

impl View for EvalError {
    type V = EvalErrModel;

    open spec fn view(&self) -> EvalErrModel {
        match self {
            EvalError::UnexpectedObject(o) => EvalErrModel::UnexpectedObject(o@),
            EvalError::UndefinedVariable(n) => EvalErrModel::UndefinedVariable(n@),
            EvalError::IdentRequired { actual } => EvalErrModel::IdentRequired(actual@),
            EvalError::UnmatchedArgsLen { expected, actual } => EvalErrModel::UnmatchedArgsLen {
                expected: *expected as int,
                actual: *actual as int,
            },
            EvalError::OutOfRange => EvalErrModel::OutOfRange,
        }
    }
}

} // verus!
