//! Tokens of the script language.
use vstd::prelude::*;
use crate::text::{str_eq, copy_string};

verus! {

#[derive(Debug, PartialEq, Eq, Clone, Copy, Structural)]
pub enum TokenKind {
    /// =
    Assign,
    /// ,
    Comma,
    /// ;
    SemiColon,
    /// +
    Plus,
    /// -
    Minus,
    /// *
    Asterisk,
    /// /
    Slash,
    /// %
    Percent,
    /// !
    Bang,
    /// (
    LParen,
    /// )
    RParen,
    /// {
    LBrace,
    /// }
    RBrace,
    /// ==
    Eq,
    /// !=
    Ne,
    /// <
    Lt,
    /// <=
    Le,
    /// >
    Gt,
    /// >=
    Ge,
    Let,
    Fn,
    Return,
    If,
    Else,
    True,
    False,
    /// An identifier.
    Ident,
    /// A run of digits.
    Number,
    /// The text between double quotes.
    StringBody,
    Unknown,
    EOF,
}

/// The kind of a word: a keyword or a plain identifier.
pub open spec fn keyword_kind(w: Seq<char>) -> TokenKind {
    if w == seq!['l', 'e', 't'] {
        TokenKind::Let
    } else if w == seq!['f', 'n'] {
        TokenKind::Fn
    } else if w == seq!['r', 'e', 't', 'u', 'r', 'n'] {
        TokenKind::Return
    } else if w == seq!['i', 'f'] {
        TokenKind::If
    } else if w == seq!['e', 'l', 's', 'e'] {
        TokenKind::Else
    } else if w == seq!['t', 'r', 'u', 'e'] {
        TokenKind::True
    } else if w == seq!['f', 'a', 'l', 's', 'e'] {
        TokenKind::False
    } else {
        TokenKind::Ident
    }
}

impl TokenKind {
    pub fn lookup_kind(literal: &str) -> (k: TokenKind)
        ensures
            k == keyword_kind(literal@),
    {
        proof {
            reveal_strlit("let");
            reveal_strlit("fn");
            reveal_strlit("return");
            reveal_strlit("if");
            reveal_strlit("else");
            reveal_strlit("true");
            reveal_strlit("false");
            assert("let"@ =~= seq!['l', 'e', 't']);
            assert("fn"@ =~= seq!['f', 'n']);
            assert("return"@ =~= seq!['r', 'e', 't', 'u', 'r', 'n']);
            assert("if"@ =~= seq!['i', 'f']);
            assert("else"@ =~= seq!['e', 'l', 's', 'e']);
            assert("true"@ =~= seq!['t', 'r', 'u', 'e']);
            assert("false"@ =~= seq!['f', 'a', 'l', 's', 'e']);
        }
        if str_eq(literal, "let") {
            TokenKind::Let
        } else if str_eq(literal, "fn") {
            TokenKind::Fn
        } else if str_eq(literal, "return") {
            TokenKind::Return
        } else if str_eq(literal, "if") {
            TokenKind::If
        } else if str_eq(literal, "else") {
            TokenKind::Else
        } else if str_eq(literal, "true") {
            TokenKind::True
        } else if str_eq(literal, "false") {
            TokenKind::False
        } else {
            TokenKind::Ident
        }
    }
}

/// The abstract value of a token: its kind and the characters of its literal.
pub struct TokenModel {
    pub kind: TokenKind,
    pub literal: Seq<char>,
}

#[derive(Debug, PartialEq, Eq, Clone)]
pub struct Token {
    kind: TokenKind,
    literal: String,
}

impl View for Token {
    type V = TokenModel;

    closed spec fn view(&self) -> TokenModel {
        TokenModel { kind: self.kind, literal: self.literal@ }
    }
}

impl Token {
    pub fn new(kind: TokenKind, literal: String) -> (t: Token)
        ensures
            t@ == (TokenModel { kind, literal: literal@ }),
    {
        Token { kind, literal }
    }

    pub fn kind(&self) -> (k: TokenKind)
        ensures
            k == self@.kind,
    {
        self.kind
    }

    /// A copy of the token's text.
    pub fn literal(&self) -> (s: String)
        ensures
            s@ == self@.literal,
    {
        copy_string(&self.literal)
    }

    /// A token equal to this one.
    pub fn duplicate(&self) -> (t: Token)
        ensures
            t@ == self@,
    {
        Token { kind: self.kind, literal: copy_string(&self.literal) }
    }
}

} // verus!
