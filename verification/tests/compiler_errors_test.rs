use lib::codegen::error::CompileError;
use lib::codegen::Compiler;
use lib::eval::error::EvalError;
use lib::interpreter::{Interpreter, InterpreterError};
use lib::object::Object;
use lib::parser::{Parser, ParserError};

fn run(input: &str) -> Result<Object, InterpreterError> {
    Interpreter::new().run(input)
}

#[test]
fn parser_undefined_ident_test() {
    let mut parser = Parser::new("x");
    assert_eq!(parser.parse_program(), Err(ParserError::UndefinedIdent("x".to_string())));
}

#[test]
fn parser_int_overflow_test() {
    let mut parser = Parser::new("99999999999999999999");
    assert!(matches!(parser.parse_program(), Err(ParserError::ParseIntError(_))));
    let mut parser = Parser::new("9223372036854775807");
    assert!(parser.parse_program().is_ok());
}

#[test]
fn eval_args_len_test() {
    match run("let f(x: int) = x; f(1, 2)") {
        Err(InterpreterError::EvalError(EvalError::UnmatchedArgsLen { expected, actual })) => {
            assert_eq!((expected, actual), (1, 2));
        }
        other => panic!("{:?}", other),
    }
}

#[test]
fn eval_index_test() {
    match run("[1, 2][5]") {
        Err(InterpreterError::EvalError(EvalError::OutOfRange)) => {}
        other => panic!("{:?}", other),
    }
    match run("[1, 2][-1]") {
        Ok(o) => assert_eq!(o, Object::Integer(2)),
        other => panic!("{:?}", other),
    }
}

#[test]
fn codegen_errors_test() {
    let mut compiler = Compiler::new();
    assert!(matches!(compiler.compile("true"), Err(CompileError::Unimplemented)));
    let mut compiler = Compiler::new();
    assert!(matches!(compiler.compile("x"), Err(CompileError::ParserError(ParserError::UndefinedIdent(_)))));
    let mut compiler = Compiler::new();
    assert!(matches!(compiler.compile("let x: int = 1; x(2)"), Err(CompileError::TypeCheckError(_))));
}
