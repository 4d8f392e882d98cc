use lib::parser::{Parser, ParserError};
use lib::token::TokenKind;

fn loop_assert<T, U, const N: usize>(inputs: [T; N], expects: [U; N], f: impl Fn(&mut Parser, U))
where
    T: ToString,
{
    for (input, expect) in inputs.into_iter().zip(expects) {
        let input = input.to_string();
        let mut parser = Parser::new(&input);

        f(&mut parser, expect);
    }
}

#[test]
fn parse_error_test() {
    let inputs = ["{ 123", "10 10;", "let x: = 10"];
    let expects = [
        ParserError::UnexpectedToken {
            expected: TokenKind::RBrace,
            actual: TokenKind::EOF,
        },
        ParserError::RequiredSemiColon,
        ParserError::UnexpectedToken {
            expected: TokenKind::Ident,
            actual: TokenKind::Assign,
        },
    ];

    loop_assert(inputs, expects, |parser, expect| {
        assert_eq!(parser.parse_program(), Err(expect));
    })
}
