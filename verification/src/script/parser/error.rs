//! The errors of the script parser.
use vstd::prelude::*;
use crate::script::token::TokenKind;
use crate::script::lexer::LexerError;

verus! {

#[derive(Debug, PartialEq, Eq, Clone, Copy, Structural)]
pub enum ParseError {
    ParseBlockExprError,
    ParseConsumeError { expected: TokenKind, got: TokenKind },
    ParseIntegerError,
    ParseNextTokenError(LexerError),
    ParseEscapeError,
    ParseCallExprError,
    ParseArrayExprError,
}


/// The name of a token kind, as `Debug` writes it.
pub open spec fn kind_name(k: TokenKind) -> Seq<char> {
    match k {
        TokenKind::Assign => "Assign"@,
        TokenKind::Comma => "Comma"@,
        TokenKind::SemiColon => "SemiColon"@,
        TokenKind::Plus => "Plus"@,
        TokenKind::Minus => "Minus"@,
        TokenKind::Asterisk => "Asterisk"@,
        TokenKind::Slash => "Slash"@,
        TokenKind::Percent => "Percent"@,
        TokenKind::Bang => "Bang"@,
        TokenKind::LParen => "LParen"@,
        TokenKind::RParen => "RParen"@,
        TokenKind::LBrace => "LBrace"@,
        TokenKind::RBrace => "RBrace"@,
        TokenKind::Eq => "Eq"@,
        TokenKind::Ne => "Ne"@,
        TokenKind::Lt => "Lt"@,
        TokenKind::Le => "Le"@,
        TokenKind::Gt => "Gt"@,
        TokenKind::Ge => "Ge"@,
        TokenKind::Let => "Let"@,
        TokenKind::Fn => "Fn"@,
        TokenKind::Return => "Return"@,
        TokenKind::If => "If"@,
        TokenKind::Else => "Else"@,
        TokenKind::True => "True"@,
        TokenKind::False => "False"@,
        TokenKind::Ident => "Ident"@,
        TokenKind::Number => "Number"@,
        TokenKind::StringBody => "StringBody"@,
        TokenKind::Unknown => "Unknown"@,
        TokenKind::EOF => "EOF"@,
    }
}

fn kind_text(k: TokenKind) -> (s: &'static str)
    ensures
        s@ == kind_name(k),
{
    match k {
        TokenKind::Assign => "Assign",
        TokenKind::Comma => "Comma",
        TokenKind::SemiColon => "SemiColon",
        TokenKind::Plus => "Plus",
        TokenKind::Minus => "Minus",
        TokenKind::Asterisk => "Asterisk",
        TokenKind::Slash => "Slash",
        TokenKind::Percent => "Percent",
        TokenKind::Bang => "Bang",
        TokenKind::LParen => "LParen",
        TokenKind::RParen => "RParen",
        TokenKind::LBrace => "LBrace",
        TokenKind::RBrace => "RBrace",
        TokenKind::Eq => "Eq",
        TokenKind::Ne => "Ne",
        TokenKind::Lt => "Lt",
        TokenKind::Le => "Le",
        TokenKind::Gt => "Gt",
        TokenKind::Ge => "Ge",
        TokenKind::Let => "Let",
        TokenKind::Fn => "Fn",
        TokenKind::Return => "Return",
        TokenKind::If => "If",
        TokenKind::Else => "Else",
        TokenKind::True => "True",
        TokenKind::False => "False",
        TokenKind::Ident => "Ident",
        TokenKind::Number => "Number",
        TokenKind::StringBody => "StringBody",
        TokenKind::Unknown => "Unknown",
        TokenKind::EOF => "EOF",
    }
}

/// The text of an error's kind, without the common prefix.
pub open spec fn error_body(e: ParseError) -> Seq<char> {
    match e {
        ParseError::ParseBlockExprError => "ParseBlockExprError"@,
        ParseError::ParseConsumeError { expected, got } => "ParseConsumeError(expected "@ + kind_name(expected)
            + ", but got "@ + kind_name(got) + ")"@,
        ParseError::ParseIntegerError => "ParseIntegerError"@,
        ParseError::ParseNextTokenError(_) => "Lexer Error: LexerReadStringError"@,
        ParseError::ParseEscapeError => "ParseEscapeError"@,
        ParseError::ParseCallExprError => "ParseCallExprError"@,
        ParseError::ParseArrayExprError => "ParseArrayExprError"@,
    }
}

impl ParseError {
    /// The message of the error.
    pub fn to_string(&self) -> (s: String)
        ensures
            s@ == "Parser Error: "@ + error_body(*self),
    {
        let mut s = String::from_str("Parser Error: ");
        match self {
            ParseError::ParseBlockExprError => s.append("ParseBlockExprError"),
            ParseError::ParseConsumeError { expected, got } => {
                s.append("ParseConsumeError(expected ");
                s.append(kind_text(*expected));
                s.append(", but got ");
                s.append(kind_text(*got));
                s.append(")");
                proof {
                    assert(s@ =~= "Parser Error: "@ + error_body(*self));
                }
            },
            ParseError::ParseIntegerError => s.append("ParseIntegerError"),
            ParseError::ParseNextTokenError(e) => {
                let t = e.to_string();
                s.append(t.as_str());
            },
            ParseError::ParseEscapeError => s.append("ParseEscapeError"),
            ParseError::ParseCallExprError => s.append("ParseCallExprError"),
            ParseError::ParseArrayExprError => s.append("ParseArrayExprError"),
        }
        s
    }
}
} // verus!
