//! The errors of type resolution.
use vstd::prelude::*;
use crate::ty::Type;
use crate::typing::typed::TypedExpression;
use crate::typing::semantics::TcErr;

verus! {

#[derive(Debug)]
pub enum TypeCheckError {
    TypeError { expected: Type, actual: Type },
    AmbiguousTypeExprError(TypedExpression),
    NotCallableError(TypedExpression),
    NotIdentError(TypedExpression),
}

impl View for TypeCheckError {
    type V = TcErr;

    open spec fn view(&self) -> TcErr {
        match self {
            TypeCheckError::TypeError { expected, actual } => TcErr::TypeError {
                expected: expected@,
                actual: actual@,
            },
            TypeCheckError::AmbiguousTypeExprError(e) => TcErr::AmbiguousTypeExprError(e@),
            TypeCheckError::NotCallableError(e) => TcErr::NotCallableError(e@),
            TypeCheckError::NotIdentError(e) => TcErr::NotIdentError(e@),
        }
    }
}

} // verus!
