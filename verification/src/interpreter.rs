//! Runs wervc source text: parses it as a program and evaluates it.
use vstd::prelude::*;
use crate::ast::NodeModel;
use crate::object::Object;
use crate::parser::{Parser, ParserError, parse_model};
use crate::eval::Evaluator;
use crate::eval::error::EvalError;
use crate::eval::builtin::{Printed, printed_models};
use crate::eval::semantics::{Machine, finishes, evaluation, initial_machine};

verus! {

#[derive(Debug)]
pub enum InterpreterError {
    ParserError(ParserError),
    EvalError(EvalError),
}

/// Whether running `input` from the state `m` finishes: it does not parse, or its
/// evaluation finishes.
pub open spec fn run_finishes(m: Machine, input: Seq<char>) -> bool {
    parse_model(input) matches Ok(p) ==> finishes(m, NodeModel::Program(p))
}

pub struct Interpreter {
    evaluator: Evaluator,
}

impl Interpreter {
    /// The state of the evaluator behind the interpreter.
    pub closed spec fn machine(&self) -> Machine {
        self.evaluator.machine()
    }

    pub closed spec fn wf(&self) -> bool {
        self.evaluator.wf()
    }

    pub fn new() -> (r: Interpreter)
        ensures
            r.wf(),
            r.machine() == initial_machine(),
    {
        Interpreter { evaluator: Evaluator::new() }
    }

    /// Parses `input` as a program and evaluates it; the variables it defines stay for the
    /// next run.
    pub fn run(&mut self, input: &str) -> (r: Result<Object, InterpreterError>)
        requires
            old(self).wf(),
            input@.len() < usize::MAX,
            input.is_ascii(),
            run_finishes(old(self).machine(), input@),
        ensures
            final(self).wf(),
            match parse_model(input@) {
                Err(e) => final(self).machine() == old(self).machine() && (r matches Err(
                    InterpreterError::ParserError(x),
                ) && x@ == e),
                Ok(p) => match evaluation(old(self).machine(), NodeModel::Program(p)) {
                    Some((m, Ok(v))) => final(self).machine() == m && (r matches Ok(o) && o@ == v),
                    Some((m, Err(e))) => final(self).machine() == m && (r matches Err(InterpreterError::EvalError(x))
                        && x@ == e),
                    None => false,
                },
            },
    {
        let mut parser = Parser::new(input);
        let program = match parser.parse_program() {
            Ok(p) => p,
            Err(e) => {
                return Err(InterpreterError::ParserError(e));
            },
        };
        match self.evaluator.eval(program) {
            Ok(v) => Ok(v),
            Err(e) => Err(InterpreterError::EvalError(e)),
        }
    }

    /// Hands over what the program printed so far, oldest first.
    pub fn take_printed(&mut self) -> (r: Vec<Printed>)
        requires
            old(self).wf(),
        ensures
            final(self).wf(),
            printed_models(r@) == old(self).machine().printed,
            final(self).machine() == (Machine { env: old(self).machine().env, printed: Seq::empty() }),
    {
        self.evaluator.take_printed()
    }
}

} // verus!
