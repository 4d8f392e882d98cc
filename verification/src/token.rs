//! Tokens of the wervc language.
use vstd::prelude::*;
use crate::text::{str_eq, copy_string};

verus! {

#[derive(Debug, PartialEq, Eq, Clone, Copy, Structural)]
pub enum TokenKind {
    Unknown,
    EOF,
    Number,
    Ident,
    Assign,
    Plus,
    Minus,
    Asterisk,
    Slash,
    Bang,
    Ampersand,
    Eq,
    Ne,
    Lt,
    Le,
    Gt,
    Ge,
    Colon,
    SemiColon,
    Comma,
    LParen,
    RParen,
    LBrace,
    RBrace,
    LBracket,
    RBracket,
    Let,
    If,
    Else,
    True,
    False,
    Return,
}

impl Default for TokenKind {
    fn default() -> (k: TokenKind)
        ensures
            k == TokenKind::EOF,
    {
        TokenKind::EOF
    }
}

/// The abstract value of a token: its kind and the characters of its literal.
pub struct TokenModel {
    pub kind: TokenKind,
    pub literal: Seq<char>,
}

#[derive(Debug, PartialEq, Eq, Clone)]
pub struct Token {
    pub kind: TokenKind,
    pub literal: String,
}

impl View for Token {
    type V = TokenModel;

    open spec fn view(&self) -> TokenModel {
        TokenModel { kind: self.kind, literal: self.literal@ }
    }
}

impl Default for Token {
    fn default() -> (t: Token)
        ensures
            t.kind == TokenKind::EOF,
            t.literal@ == Seq::<char>::empty(),
    {
        Token { kind: TokenKind::EOF, literal: String::new() }
    }
}

impl Token {
    pub fn new(kind: TokenKind, literal: &str) -> (t: Token)
        ensures
            t.kind == kind,
            t.literal@ == literal@,
    {
        Token { kind, literal: literal.to_string() }
    }

    /// A token equal to this one.
    pub fn duplicate(&self) -> (t: Token)
        ensures
            t@ == self@,
    {
        Token { kind: self.kind, literal: copy_string(&self.literal) }
    }
}

/// The kind of a word made of identifier characters: a keyword or a plain identifier.
pub open spec fn keyword_kind(w: Seq<char>) -> TokenKind {
    if w == seq!['l', 'e', 't'] {
        TokenKind::Let
    } else if w == seq!['i', 'f'] {
        TokenKind::If
    } else if w == seq!['e', 'l', 's', 'e'] {
        TokenKind::Else
    } else if w == seq!['t', 'r', 'u', 'e'] {
        TokenKind::True
    } else if w == seq!['f', 'a', 'l', 's', 'e'] {
        TokenKind::False
    } else if w == seq!['r', 'e', 't', 'u', 'r', 'n'] {
        TokenKind::Return
    } else {
        TokenKind::Ident
    }
}

impl TokenKind {
    pub fn lookup_ident(literal: &str) -> (k: TokenKind)
        ensures
            k == keyword_kind(literal@),
    {
        proof {
            reveal_strlit("let");
            reveal_strlit("if");
            reveal_strlit("else");
            reveal_strlit("true");
            reveal_strlit("false");
            reveal_strlit("return");
            assert("let"@ =~= seq!['l', 'e', 't']);
            assert("if"@ =~= seq!['i', 'f']);
            assert("else"@ =~= seq!['e', 'l', 's', 'e']);
            assert("true"@ =~= seq!['t', 'r', 'u', 'e']);
            assert("false"@ =~= seq!['f', 'a', 'l', 's', 'e']);
            assert("return"@ =~= seq!['r', 'e', 't', 'u', 'r', 'n']);
        }
        if str_eq(literal, "let") {
            TokenKind::Let
        } else if str_eq(literal, "if") {
            TokenKind::If
        } else if str_eq(literal, "else") {
            TokenKind::Else
        } else if str_eq(literal, "true") {
            TokenKind::True
        } else if str_eq(literal, "false") {
            TokenKind::False
        } else if str_eq(literal, "return") {
            TokenKind::Return
        } else {
            TokenKind::Ident
        }
    }
}

} // verus!
