//! The errors of the script evaluator.
use vstd::prelude::*;

verus! {

#[derive(Debug, PartialEq, Eq, Clone, Copy, Structural)]
pub enum EvalError {
    EvalLetStatementError,
    EvalUnaryExpressionError,
    EvalBinaryExpressionError,
    EvalIdentError,
    EvalFunctionDefinitionStatementError,
    EvalCallExprError,
    EvalAssignExprError,
    EvalUpdateEnvError,
}

impl EvalError {
    /// The message of the error.
    pub fn to_string(&self) -> (s: String)
        ensures
            s@ == seq!['E', 'v', 'a', 'l', ' ', 'E', 'r', 'r', 'o', 'r', ':', ' '] + error_name(*self),
    {
        let body = match self {
            EvalError::EvalLetStatementError => "EvalLetStatementError",
            EvalError::EvalUnaryExpressionError => "EvalUnaryExpressionError",
            EvalError::EvalBinaryExpressionError => "EvalBinaryExpressionError",
            EvalError::EvalIdentError => "EvalIdentError",
            EvalError::EvalFunctionDefinitionStatementError => "EvalFunctionDefinitionStatementError",
            EvalError::EvalCallExprError => "EvalCallExprError",
            EvalError::EvalAssignExprError => "EvalAssignExprError",
            EvalError::EvalUpdateEnvError => "EvalUpdateEnvError",
        };
        proof {
            reveal_strlit("Eval Error: ");
            assert("Eval Error: "@ =~= seq!['E', 'v', 'a', 'l', ' ', 'E', 'r', 'r', 'o', 'r', ':', ' ']);
            reveal_strlit("EvalLetStatementError");
            reveal_strlit("EvalUnaryExpressionError");
            reveal_strlit("EvalBinaryExpressionError");
            reveal_strlit("EvalIdentError");
            reveal_strlit("EvalFunctionDefinitionStatementError");
            reveal_strlit("EvalCallExprError");
            reveal_strlit("EvalAssignExprError");
            reveal_strlit("EvalUpdateEnvError");
        }
        let mut s = String::from_str("Eval Error: ");
        s.append(body);
        s
    }
}

/// The name of an error variant.
pub open spec fn error_name(e: EvalError) -> Seq<char> {
    match e {
        EvalError::EvalLetStatementError => "EvalLetStatementError"@,
        EvalError::EvalUnaryExpressionError => "EvalUnaryExpressionError"@,
        EvalError::EvalBinaryExpressionError => "EvalBinaryExpressionError"@,
        EvalError::EvalIdentError => "EvalIdentError"@,
        EvalError::EvalFunctionDefinitionStatementError => "EvalFunctionDefinitionStatementError"@,
        EvalError::EvalCallExprError => "EvalCallExprError"@,
        EvalError::EvalAssignExprError => "EvalAssignExprError"@,
        EvalError::EvalUpdateEnvError => "EvalUpdateEnvError"@,
    }
}

} // verus!
