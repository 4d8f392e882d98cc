use lib::ast::{BinaryExpr, BinaryExprKind, Expression, Ident, Integer};
use lib::environment::Environment;
use lib::lexer::Lexer;
use lib::token::TokenKind;
use lib::typing::typed::TypedExpression;

#[test]
fn tokens_join_to_input_test() {
    let input = "let x: int = 10;\n  if x >= 2 { [x] } else { *&x }";
    let mut lexer = Lexer::new(input);
    let mut joined = String::new();
    let mut calls = 0;
    loop {
        let t = lexer.next_token();
        calls += 1;
        assert!(calls <= input.len() + 1);
        if t.kind == TokenKind::EOF {
            assert_eq!(t.literal, "\0");
            break;
        }
        joined.push_str(&t.literal);
    }
    let stripped: String = input.chars().filter(|c| !c.is_whitespace()).collect();
    assert_eq!(joined, stripped);
    assert_eq!(lexer.next_token().kind, TokenKind::EOF);
}

#[test]
fn typed_round_trip_test() {
    let e = Expression::BinaryExpr(BinaryExpr {
        kind: BinaryExprKind::Add,
        lhs: Box::new(Expression::Integer(Integer { value: 1 })),
        rhs: Box::new(Expression::Ident(Ident { name: "x".to_string(), offset: 8 })),
    });
    let back = TypedExpression::from_expression(&e).into_expression();
    assert_eq!(back, e);
}

#[test]
fn scope_round_trip_test() {
    let mut env: Environment<Ident> = Environment::new();
    env.register_item("a".to_string(), Ident { name: "a".to_string(), offset: 8 });
    env.create_deeper_scope();
    env.register_item("a".to_string(), Ident { name: "a".to_string(), offset: 16 });
    env.register_item("b".to_string(), Ident { name: "b".to_string(), offset: 24 });
    assert_eq!(env.get_item(&"a".to_string()).unwrap().offset, 16);
    assert!(env.create_shallow_scope().is_some());
    assert_eq!(env.get_item(&"a".to_string()).unwrap().offset, 8);
    assert!(env.get_item(&"b".to_string()).is_none());
    assert!(env.outer.is_none());
    assert_eq!(env.env.len(), 1);
}
