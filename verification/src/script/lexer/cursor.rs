//! A small tokenizer of arithmetic: numbers and the four operators, each token with its length.
use vstd::prelude::*;
use crate::text::{is_digit, digit, chars_of};
use crate::script::lexer::token::{Token, TokenKind};

verus! {

/// The characters with the Unicode `White_Space` property, which `char::is_whitespace` tests.
pub open spec fn is_space(c: char) -> bool {
    ('\u{9}' <= c && c <= '\u{d}') || c == ' ' || c == '\u{85}' || c == '\u{a0}' || c == '\u{1680}'
        || ('\u{2000}' <= c && c <= '\u{200a}') || c == '\u{2028}' || c == '\u{2029}' || c == '\u{202f}'
        || c == '\u{205f}' || c == '\u{3000}'
}

fn space(c: char) -> (b: bool)
    ensures
        b == is_space(c),
{
    ('\u{9}' <= c && c <= '\u{d}') || c == ' ' || c == '\u{85}' || c == '\u{a0}' || c == '\u{1680}'
        || ('\u{2000}' <= c && c <= '\u{200a}') || c == '\u{2028}' || c == '\u{2029}' || c == '\u{202f}'
        || c == '\u{205f}' || c == '\u{3000}'
}

/// The end of the run of digits from `p` on.
pub open spec fn digits_end(s: Seq<char>, p: int) -> int
    decreases s.len() - p,
{
    if 0 <= p < s.len() && is_digit(s[p]) {
        digits_end(s, p + 1)
    } else {
        p
    }
}

/// The first position at or after `p` that does not hold whitespace.
pub open spec fn space_end(s: Seq<char>, p: int) -> int
    decreases s.len() - p,
{
    if 0 <= p < s.len() && is_space(s[p]) {
        space_end(s, p + 1)
    } else {
        p
    }
}

/// The kind of the token that starts with `c`.
pub open spec fn cursor_kind(c: char) -> TokenKind {
    if c == '+' {
        TokenKind::Plus
    } else if c == '-' {
        TokenKind::Minus
    } else if c == '*' {
        TokenKind::Asterisk
    } else if c == '/' {
        TokenKind::Slash
    } else if is_digit(c) {
        TokenKind::Number
    } else {
        TokenKind::Unknown
    }
}

/// One step of the tokenizer from position `p`: the kind and length of the token, and the
/// position after it, which is the token's length further on. At the end of the input it
/// reads `EOF` of length 0. Whitespace before a token is skipped; where only whitespace was
/// left it reads `Unknown` of length 1.
pub open spec fn cursor_step(s: Seq<char>, p: int) -> (TokenKind, int, int) {
    if p >= s.len() {
        (TokenKind::EOF, 0, p)
    } else {
        let q = space_end(s, p);
        if q >= s.len() {
            (TokenKind::Unknown, 1, q)
        } else if is_digit(s[q]) {
            let e = digits_end(s, q);
            (TokenKind::Number, e - q, e)
        } else {
            (cursor_kind(s[q]), 1, q + 1)
        }
    }
}

pub proof fn lemma_space_end(s: Seq<char>, p: int)
    requires
        0 <= p <= s.len(),
    ensures
        p <= space_end(s, p) <= s.len(),
    decreases s.len() - p,
{
    if 0 <= p < s.len() && is_space(s[p]) {
        lemma_space_end(s, p + 1);
    }
}

pub proof fn lemma_digits_end(s: Seq<char>, p: int)
    requires
        0 <= p <= s.len(),
    ensures
        p <= digits_end(s, p) <= s.len(),
    decreases s.len() - p,
{
    if 0 <= p < s.len() && is_digit(s[p]) {
        lemma_digits_end(s, p + 1);
    }
}

pub struct Cursor {
    chars: Vec<char>,
    position: usize,
}

impl Cursor {
    /// The characters being read.
    pub closed spec fn source(&self) -> Seq<char> {
        self.chars@
    }

    /// The position of the next character to read.
    pub closed spec fn pos(&self) -> int {
        self.position as int
    }

    pub closed spec fn wf(&self) -> bool {
        self.position <= self.chars@.len() < usize::MAX
    }

    pub fn new(input: &str) -> (c: Cursor)
        requires
            input@.len() < usize::MAX,
        ensures
            c.wf(),
            c.source() == input@,
            c.pos() == 0,
    {
        Cursor { chars: chars_of(input), position: 0 }
    }

    /// Reads the next token.
    pub fn advance_token(&mut self) -> (t: Token)
        requires
            old(self).wf(),
        ensures
            final(self).wf(),
            final(self).source() == old(self).source(),
            (t.kind, t.len as int, final(self).pos()) == cursor_step(old(self).source(), old(self).pos()),
    {
        let ghost s = self.chars@;
        if self.position >= self.chars.len() {
            return Token::new(TokenKind::EOF, 0);
        }
        proof {
            lemma_space_end(s, self.position as int);
        }
        while self.position < self.chars.len() && space(self.chars[self.position])
            invariant
                self.wf(),
                self.chars@ == s,
                space_end(s, old(self).position as int) == space_end(s, self.position as int),
            decreases self.chars@.len() - self.position,
        {
            self.position = self.position + 1;
        }
        if self.position >= self.chars.len() {
            return Token::new(TokenKind::Unknown, 1);
        }
        let c = self.chars[self.position];
        if digit(c) {
            let start = self.position;
            proof {
                lemma_digits_end(s, start as int);
            }
            while self.position < self.chars.len() && digit(self.chars[self.position])
                invariant
                    self.wf(),
                    self.chars@ == s,
                    start <= self.position,
                    digits_end(s, start as int) == digits_end(s, self.position as int),
                decreases self.chars@.len() - self.position,
            {
                self.position = self.position + 1;
            }
            return Token::new(TokenKind::Number, self.position - start);
        }
        let kind = if c == '+' {
            TokenKind::Plus
        } else if c == '-' {
            TokenKind::Minus
        } else if c == '*' {
            TokenKind::Asterisk
        } else if c == '/' {
            TokenKind::Slash
        } else {
            TokenKind::Unknown
        };
        self.position = self.position + 1;
        Token::new(kind, 1)
    }
}

} // verus!
