//! The tokens of the arithmetic tokenizer: a kind and a length in characters.
use vstd::prelude::*;

verus! {

#[derive(Debug, Clone, PartialEq)]
pub struct Token {
    pub kind: TokenKind,
    pub len: usize,
}

impl Token {
    pub fn new(kind: TokenKind, len: usize) -> (t: Token)
        ensures
            t.kind == kind,
            t.len == len,
    {
        Token { kind, len }
    }
}

#[derive(Debug, Clone, Copy, PartialEq, Eq, Structural)]
pub enum TokenKind {
    /// Any other token.
    Unknown,
    /// The end of the input.
    EOF,
    /// A run of digits.
    Number,
    Ident,
    /// +
    Plus,
    /// -
    Minus,
    /// *
    Asterisk,
    /// /
    Slash,
    /// !
    Bang,
    /// =
    Assign,
    /// =>
    Arrow,
    /// ==
    Eq,
    /// !=
    Ne,
    /// <
    Lt,
    /// <=
    Le,
    /// >
    Gt,
    /// >=
    Ge,
    /// (
    LParen,
    /// )
    RParen,
    /// ,
    Comma,
    /// A line break.
    NewLine,
}

} // verus!
