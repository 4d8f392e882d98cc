//! wervc: a small expression language, with its lexer, parser, evaluator, type resolver
//! and a code generator for x86-64 assembly.
pub mod text;
pub mod token;
pub mod lexer;
pub mod ty;
pub mod ast;
pub mod environment;
pub mod grammar;
pub mod parser;
pub mod object;
pub mod eval;
pub mod interpreter;
pub mod typing;
pub mod codegen;
pub mod script;

use vstd::prelude::*;
use crate::ast::NodeModel;
use crate::object::Object;
use crate::parser::{Parser, ParserError, parse_model};
use crate::eval::Evaluator;
use crate::eval::error::EvalError;
use crate::eval::builtin::{Printed, printed_models};
use crate::eval::semantics::{Machine, evaluation, initial_machine};
use crate::interpreter::run_finishes;

verus! {

#[derive(Debug)]
pub enum CompileError {
    ParserError(ParserError),
    EvalError(EvalError),
}

/// Parses and evaluates wervc source text, keeping its variables from one input to the next.
pub struct Compiler {
    evaluator: Evaluator,
}

impl Compiler {
    /// The state of the evaluator behind the compiler.
    pub closed spec fn machine(&self) -> Machine {
        self.evaluator.machine()
    }

    pub closed spec fn wf(&self) -> bool {
        self.evaluator.wf()
    }

    pub fn new() -> (r: Compiler)
        ensures
            r.wf(),
            r.machine() == initial_machine(),
    {
        Compiler { evaluator: Evaluator::new() }
    }

    /// Parses `input` as a program and evaluates it.
    pub fn parse(&mut self, input: &str) -> (r: Result<Object, CompileError>)
        requires
            old(self).wf(),
            input@.len() < usize::MAX,
            input.is_ascii(),
            run_finishes(old(self).machine(), input@),
        ensures
            final(self).wf(),
            match parse_model(input@) {
                Err(e) => final(self).machine() == old(self).machine() && (r matches Err(CompileError::ParserError(x))
                    && x@ == e),
                Ok(p) => match evaluation(old(self).machine(), NodeModel::Program(p)) {
                    Some((m, Ok(v))) => final(self).machine() == m && (r matches Ok(o) && o@ == v),
                    Some((m, Err(e))) => final(self).machine() == m && (r matches Err(CompileError::EvalError(x))
                        && x@ == e),
                    None => false,
                },
            },
    {
        let mut parser = Parser::new(input);
        let program = match parser.parse_program() {
            Ok(p) => p,
            Err(e) => {
                return Err(CompileError::ParserError(e));
            },
        };
        match self.evaluator.eval(program) {
            Ok(v) => Ok(v),
            Err(e) => Err(CompileError::EvalError(e)),
        }
    }

    /// Hands over what the programs printed so far, oldest first.
    pub fn take_printed(&mut self) -> (r: Vec<Printed>)
        requires
            old(self).wf(),
        ensures
            final(self).wf(),
            printed_models(r@) == old(self).machine().printed,
            final(self).machine() == (Machine { env: old(self).machine().env, printed: Seq::empty() }),
    {
        self.evaluator.take_printed()
    }
}

} // verus!
