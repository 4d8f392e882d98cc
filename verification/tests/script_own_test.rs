use lib::script::ast::{Expression, Node, Statement};
use lib::script::eval::error::EvalError;
use lib::script::eval::Environment;
use lib::script::lexer::cursor::Cursor;
use lib::script::lexer::token::TokenKind as CursorKind;
use lib::script::lexer::{Lexer, LexerError};
use lib::script::object::{Object, NULL};
use lib::script::parser::error::ParseError;
use lib::script::parser::escape::escape;
use lib::script::parser::Parser;
use lib::script::token::{Token, TokenKind};

fn run(input: &str) -> (Result<Object, EvalError>, String) {
    let mut parser = Parser::new(Lexer::new(input.to_string()));
    let program = parser.parse().unwrap();
    let mut env = Environment::new(None);
    let result = env.eval(program);
    (result, env.take_printed())
}

fn parse_error(input: &str) -> ParseError {
    let mut parser = Parser::new(Lexer::new(input.to_string()));
    parser.parse().unwrap_err()
}

#[test]
fn script_comments_and_strings_test() {
    let mut l = Lexer::new("/* a * b */ x // rest\n\"hi there\" /**/".to_string());
    assert_eq!(l.next_token().unwrap(), Token::new(TokenKind::Ident, "x".to_string()));
    assert_eq!(l.next_token().unwrap(), Token::new(TokenKind::StringBody, "hi there".to_string()));
    assert_eq!(l.next_token().unwrap(), Token::new(TokenKind::EOF, "\0".to_string()));
    assert_eq!(l.next_token().unwrap(), Token::new(TokenKind::EOF, "\0".to_string()));
}

#[test]
fn script_unterminated_string_test() {
    let mut l = Lexer::new("\"abc".to_string());
    assert_eq!(l.next_token(), Err(LexerError::LexerReadStringError));
    assert_eq!(l.next_token().unwrap(), Token::new(TokenKind::EOF, "\0".to_string()));
    assert_eq!(LexerError::LexerReadStringError.to_string(), "Lexer Error: LexerReadStringError");
}

#[test]
fn script_lexes_to_end_test() {
    assert!(!Lexer::new("1 // no line break".to_string()).lexes_to_end());
    assert!(Lexer::new("1 // line break\n".to_string()).lexes_to_end());
    assert!(!Lexer::new("/* open".to_string()).lexes_to_end());
    assert!(Lexer::new("\"// in a string\"".to_string()).lexes_to_end());
}

#[test]
fn script_keyword_test() {
    assert_eq!(TokenKind::lookup_kind("fn"), TokenKind::Fn);
    assert_eq!(TokenKind::lookup_kind("return"), TokenKind::Return);
    assert_eq!(TokenKind::lookup_kind("returns"), TokenKind::Ident);
    let t = Token::new(TokenKind::Number, "42".to_string());
    assert_eq!(t.kind(), TokenKind::Number);
    assert_eq!(t.literal(), "42");
}

#[test]
fn script_escape_test() {
    assert_eq!(escape("a\\nb").unwrap(), "a\nb");
    assert_eq!(escape("\\\"x\\\\").unwrap(), "\"x\\");
    assert_eq!(escape("plain").unwrap(), "plain");
    assert_eq!(escape("end\\"), Err(ParseError::ParseEscapeError));
}

#[test]
fn script_parse_errors_test() {
    assert_eq!(parse_error("{ 1"), ParseError::ParseBlockExprError);
    assert_eq!(parse_error("f(1"), ParseError::ParseCallExprError);
    assert_eq!(
        parse_error("let = 1;"),
        ParseError::ParseConsumeError { expected: TokenKind::Ident, got: TokenKind::Assign }
    );
    assert_eq!(parse_error("99999999999999999999;"), ParseError::ParseIntegerError);
    assert_eq!(parse_error("\"a\\\";"), ParseError::ParseEscapeError);
}

#[test]
fn script_parse_string_test() {
    let mut parser = Parser::new(Lexer::new("\"a\\nb\"".to_string()));
    assert_eq!(parser.parse_str().unwrap(), Expression::Str("a\nb".to_string()));
}

#[test]
fn script_eval_errors_test() {
    assert_eq!(run("x;").0, Err(EvalError::EvalIdentError));
    assert_eq!(run("-true;").0, Err(EvalError::EvalUnaryExpressionError));
    assert_eq!(run("1 + true;").0, Err(EvalError::EvalBinaryExpressionError));
    assert_eq!(run("\"a\" - \"b\";").0, Err(EvalError::EvalBinaryExpressionError));
    assert_eq!(run("let f(a) = a; f(1, 2);").0, Err(EvalError::EvalCallExprError));
    assert_eq!(run("let x = 1; x(2);").0, Err(EvalError::EvalCallExprError));
    assert_eq!(run("1(2);").0, Ok(Object::Integer(1)));
    assert_eq!(EvalError::EvalIdentError.to_string(), "Eval Error: EvalIdentError");
}

#[test]
fn script_eval_functions_test() {
    assert_eq!(run("let add(a, b) = a + b; add(2, 3);").0, Ok(Object::Integer(5)));
    assert_eq!(
        run("let fact(n) = if n < 1 { 1 } else { n * fact(n - 1) }; fact(5);").0,
        Ok(Object::Integer(120))
    );
    assert_eq!(run("let one() = 1; one();").0, Ok(Object::Integer(1)));
    assert_eq!(run("let a = 1; let f() = a; f();").0, Ok(Object::Integer(1)));
}

#[test]
fn script_eval_arithmetic_test() {
    assert_eq!(run("10 % 3;").0, Ok(Object::Integer(1)));
    assert_eq!(run("-7 % 3;").0, Ok(Object::Integer(-1)));
    assert_eq!(run("-7 / 2;").0, Ok(Object::Integer(-3)));
    assert_eq!(run("\"ab\" + \"cd\";").0, Ok(Object::Str("abcd".to_string())));
    assert_eq!(run("\"a\" < \"b\";").0, Ok(Object::Boolean(true)));
    assert_eq!(run("\"ab\" >= \"b\";").0, Ok(Object::Boolean(false)));
    assert_eq!(run("\"ab\" == \"ab\";").0, Ok(Object::Boolean(true)));
    assert_eq!(run("1 == true;").0, Ok(Object::Boolean(false)));
}

#[test]
fn script_eval_print_test() {
    let (result, printed) = run("print(1); println(true); print(\"x\"); 3;");
    assert_eq!(result, Ok(Object::Integer(3)));
    assert_eq!(printed, "1true\nx");
    let (result, printed) = run("let f(a) = { println(a); a }; f(7);");
    assert_eq!(result, Ok(Object::Integer(7)));
    assert_eq!(printed, "7\n");
}

#[test]
fn script_block_scope_test() {
    assert_eq!(run("let a = 1; { let a = 2; }; a;").0, Ok(Object::Integer(1)));
    assert_eq!(run("let a = 1; { let b = 2; }; b;").0, Err(EvalError::EvalIdentError));
    assert_eq!(run("let a = 1;").0, Ok(NULL));
}

#[test]
fn script_while_test() {
    let mut env = Environment::new(None);
    let node = Node::Statement(Statement::WhileStmt {
        condition: Expression::Boolean(false),
        body: Expression::Integer(1),
    });
    assert_eq!(env.eval(node), Ok(NULL));
}

#[test]
fn script_update_test() {
    let mut env = Environment::new(None);
    env.insert("x".to_string(), Object::Integer(1));
    let mut inner = Environment::new(Some(Box::new(env)));
    assert_eq!(inner.update("x".to_string(), Object::Integer(2)), Ok(Object::Integer(1)));
    assert_eq!(inner.get(&"x".to_string()), Some(&Object::Integer(2)));
    assert_eq!(inner.update("y".to_string(), Object::Integer(3)), Err(EvalError::EvalUpdateEnvError));
}

#[test]
fn script_single_scope_test() {
    let mut env = lib::script::environment::Environment::new();
    assert_eq!(env.insert("a".to_string(), Object::Integer(1)), None);
    assert_eq!(env.insert("a".to_string(), Object::Integer(2)), Some(Object::Integer(1)));
    assert_eq!(env.get("a".to_string()), Some(&Object::Integer(2)));
    assert_eq!(env.get("b".to_string()), None);
}

#[test]
fn script_display_test() {
    assert_eq!(Object::Integer(-5).to_display(), "-5");
    assert_eq!(NULL.to_display(), "null");
    assert_eq!(Object::Str("hi".to_string()).to_display(), "hi");
    assert_eq!(Object::Boolean(false).to_display(), "false");
}

#[test]
fn script_cursor_test() {
    let mut c = Cursor::new("12 + 3*45");
    let expect = [
        (CursorKind::Number, 2),
        (CursorKind::Plus, 1),
        (CursorKind::Number, 1),
        (CursorKind::Asterisk, 1),
        (CursorKind::Number, 2),
        (CursorKind::EOF, 0),
    ];
    for (kind, len) in expect {
        let t = c.advance_token();
        assert_eq!((t.kind, t.len), (kind, len));
    }
    let mut c = Cursor::new("1+2");
    let expect = [(CursorKind::Number, 1), (CursorKind::Plus, 1), (CursorKind::Number, 1), (CursorKind::EOF, 0)];
    for (kind, len) in expect {
        let t = c.advance_token();
        assert_eq!(t, lib::script::lexer::token::Token::new(kind, len));
    }
}

#[test]
fn script_parse_error_text_test() {
    let e = ParseError::ParseConsumeError { expected: TokenKind::Ident, got: TokenKind::Assign };
    assert_eq!(e.to_string(), "Parser Error: ParseConsumeError(expected Ident, but got Assign)");
    assert_eq!(ParseError::ParseBlockExprError.to_string(), "Parser Error: ParseBlockExprError");
    assert_eq!(
        ParseError::ParseNextTokenError(LexerError::LexerReadStringError).to_string(),
        "Parser Error: Lexer Error: LexerReadStringError"
    );
}
