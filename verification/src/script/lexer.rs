//! The lexer of the script language. Besides the operators, words and numbers of wervc it
//! reads string literals between double quotes and skips `//` and `/* */` comments.
pub mod cursor;
pub mod token;

use vstd::prelude::*;
use crate::text::{char_at, is_digit, is_alpha, digit, alpha, chars_of, string_of, string_of_char};
use crate::lexer::{scan_digits, scan_word, lemma_scan_digits, lemma_scan_word, all_digits, lemma_digits_run};
use crate::script::token::{Token, TokenKind, TokenModel, keyword_kind};

verus! {

#[derive(Debug, PartialEq, Eq, Clone, Copy, Structural)]
pub enum LexerError {
    /// A string literal that the input ends inside of.
    LexerReadStringError,
}

impl LexerError {
    pub fn to_string(&self) -> (s: String)
        ensures
            s@ == "Lexer Error: LexerReadStringError"@,
    {
        String::from_str("Lexer Error: LexerReadStringError")
    }
}

/// The whitespace the script lexer skips.
pub open spec fn is_blank(c: char) -> bool {
    c == ' ' || c == '\t' || c == '\r' || c == '\n'
}

/// The first position at or after `p` that does not hold whitespace.
pub open spec fn skip_blank(s: Seq<char>, p: int) -> int
    decreases s.len() - p,
{
    if 0 <= p < s.len() && is_blank(s[p]) {
        skip_blank(s, p + 1)
    } else {
        p
    }
}

/// The first line break at or after `p`, or the end of the input.
pub open spec fn find_newline(s: Seq<char>, p: int) -> int
    decreases s.len() - p,
{
    if 0 <= p < s.len() {
        if s[p] == '\n' {
            p
        } else {
            find_newline(s, p + 1)
        }
    } else {
        s.len() as int
    }
}

/// The first `*/` at or after `p`, or the end of the input.
pub open spec fn find_close(s: Seq<char>, p: int) -> int
    decreases s.len() - p,
{
    if 0 <= p < s.len() {
        if s[p] == '*' && char_at(s, p + 1) == '/' {
            p
        } else {
            find_close(s, p + 1)
        }
    } else {
        s.len() as int
    }
}

/// The position after the whitespace and comments that start at `p`; `None` where a
/// comment is never closed, on which the lexer never returns.
pub open spec fn skip_trivia(s: Seq<char>, p: int) -> Option<int>
    decreases s.len() - p,
{
    let q = skip_blank(s, p);
    if p < 0 || q + 1 >= s.len() || s[q] != '/' {
        Some(q)
    } else if s[q + 1] == '/' {
        let n = find_newline(s, q + 2);
        if p < n < s.len() {
            skip_trivia(s, n)
        } else {
            None
        }
    } else if s[q + 1] == '*' {
        let k = find_close(s, q + 2);
        if p < k && k + 2 <= s.len() {
            skip_trivia(s, k + 2)
        } else {
            None
        }
    } else {
        Some(q)
    }
}

pub open spec fn is_ident_head(c: char) -> bool {
    is_alpha(c) || c == '_'
}

/// The end of the body of a string literal that starts at `p`: the first double quote or
/// NUL character, where the end of the input counts as NUL.
pub open spec fn scan_string(s: Seq<char>, p: int) -> int
    decreases s.len() - p,
{
    if 0 <= p < s.len() && s[p] != '"' && s[p] != '\0' {
        scan_string(s, p + 1)
    } else {
        p
    }
}

/// The kind of a token made of the single character `c`.
pub open spec fn single_kind(c: char) -> TokenKind {
    if c == '=' {
        TokenKind::Assign
    } else if c == '<' {
        TokenKind::Lt
    } else if c == '>' {
        TokenKind::Gt
    } else if c == '!' {
        TokenKind::Bang
    } else if c == ',' {
        TokenKind::Comma
    } else if c == ';' {
        TokenKind::SemiColon
    } else if c == '+' {
        TokenKind::Plus
    } else if c == '-' {
        TokenKind::Minus
    } else if c == '*' {
        TokenKind::Asterisk
    } else if c == '/' {
        TokenKind::Slash
    } else if c == '%' {
        TokenKind::Percent
    } else if c == '(' {
        TokenKind::LParen
    } else if c == ')' {
        TokenKind::RParen
    } else if c == '{' {
        TokenKind::LBrace
    } else if c == '}' {
        TokenKind::RBrace
    } else if c == '\0' {
        TokenKind::EOF
    } else {
        TokenKind::Unknown
    }
}

/// The kind of the two-character operator made of `c` followed by `=`, if there is one.
pub open spec fn with_eq_kind(c: char) -> Option<TokenKind> {
    if c == '<' {
        Some(TokenKind::Le)
    } else if c == '>' {
        Some(TokenKind::Ge)
    } else if c == '=' {
        Some(TokenKind::Eq)
    } else if c == '!' {
        Some(TokenKind::Ne)
    } else {
        None
    }
}

/// The token that starts at `q`, where no whitespace or comment does, and the position after it.
pub open spec fn lex_at(s: Seq<char>, q: int) -> (Result<TokenModel, LexerError>, int) {
    let c = char_at(s, q);
    if c == '"' {
        let e = scan_string(s, q + 1);
        if char_at(s, e) == '"' {
            (Ok(TokenModel { kind: TokenKind::StringBody, literal: s.subrange(q + 1, e) }), e + 1)
        } else {
            (Err(LexerError::LexerReadStringError), e)
        }
    } else if with_eq_kind(c) is Some && char_at(s, q + 1) == '=' {
        (Ok(TokenModel { kind: with_eq_kind(c)->0, literal: seq![c, '='] }), q + 2)
    } else if is_digit(c) {
        let e = scan_digits(s, q);
        (Ok(TokenModel { kind: TokenKind::Number, literal: s.subrange(q, e) }), e)
    } else if is_ident_head(c) {
        let e = scan_word(s, q);
        (Ok(TokenModel { kind: keyword_kind(s.subrange(q, e)), literal: s.subrange(q, e) }), e)
    } else {
        (Ok(TokenModel { kind: single_kind(c), literal: seq![c] }), if q < s.len() { q + 1 } else { s.len() as int })
    }
}

/// One step of the lexer from position `p`: the token read (or the error) and the position
/// after it; `None` where the step never returns.
pub closed spec fn lex_step(s: Seq<char>, p: int) -> Option<(Result<TokenModel, LexerError>, int)> {
    match skip_trivia(s, p) {
        Some(q) => Some(lex_at(s, q)),
        None => None,
    }
}

/// One step of the lexer, spelled out: what `lex_step` computes for any input and position.
pub proof fn lemma_lex_step_def(s: Seq<char>, p: int)
    ensures
        lex_step(s, p) == match skip_trivia(s, p) {
            Some(q) => Some(lex_at(s, q)),
            None => None,
        },
{
}

/// Whether every step of the lexer from `p` on returns, up to the end of the input.
pub open spec fn lexes_from(s: Seq<char>, p: int) -> bool
    decreases s.len() - p,
{
    match lex_step(s, p) {
        None => false,
        Some((_, q)) => if p < q <= s.len() {
            lexes_from(s, q)
        } else {
            true
        },
    }
}

/// The abstract value of a token read, or of the error.
pub open spec fn token_result(r: Result<Token, LexerError>) -> Result<TokenModel, LexerError> {
    match r {
        Ok(t) => Ok(t@),
        Err(e) => Err(e),
    }
}


pub proof fn lemma_skip_blank(s: Seq<char>, p: int)
    requires
        0 <= p <= s.len(),
    ensures
        p <= skip_blank(s, p) <= s.len(),
    decreases s.len() - p,
{
    if 0 <= p < s.len() && is_blank(s[p]) {
        lemma_skip_blank(s, p + 1);
    }
}

pub proof fn lemma_find_newline(s: Seq<char>, p: int)
    requires
        0 <= p <= s.len(),
    ensures
        p <= find_newline(s, p) <= s.len(),
        find_newline(s, p) < s.len() ==> s[find_newline(s, p)] == '\n',
    decreases s.len() - p,
{
    if 0 <= p < s.len() && s[p] != '\n' {
        lemma_find_newline(s, p + 1);
    }
}

pub proof fn lemma_find_close(s: Seq<char>, p: int)
    requires
        0 <= p <= s.len(),
    ensures
        p <= find_close(s, p) <= s.len(),
        find_close(s, p) < s.len() ==> s[find_close(s, p)] == '*' && find_close(s, p) + 1 < s.len()
            && s[find_close(s, p) + 1] == '/',
    decreases s.len() - p,
{
    if 0 <= p < s.len() && !(s[p] == '*' && char_at(s, p + 1) == '/') {
        lemma_find_close(s, p + 1);
    }
}

pub proof fn lemma_scan_string(s: Seq<char>, p: int)
    requires
        0 <= p <= s.len(),
    ensures
        p <= scan_string(s, p) <= s.len(),
    decreases s.len() - p,
{
    if 0 <= p < s.len() && s[p] != '"' && s[p] != '\0' {
        lemma_scan_string(s, p + 1);
    }
}

pub proof fn lemma_skip_trivia(s: Seq<char>, p: int)
    requires
        0 <= p <= s.len(),
        skip_trivia(s, p) is Some,
    ensures
        p <= skip_trivia(s, p)->0 <= s.len(),
    decreases s.len() - p,
{
    let q = skip_blank(s, p);
    lemma_skip_blank(s, p);
    if q + 1 < s.len() && s[q] == '/' {
        if s[q + 1] == '/' {
            lemma_find_newline(s, q + 2);
            lemma_skip_trivia(s, find_newline(s, q + 2));
        } else if s[q + 1] == '*' {
            lemma_find_close(s, q + 2);
            lemma_skip_trivia(s, find_close(s, q + 2) + 2);
        }
    }
}

/// A step of the lexer stays within the input and moves forward, except at the end of the
/// input, where it reads `EOF` and stays; a step that fails still moves forward.
pub proof fn lemma_lex_step_progress(s: Seq<char>, p: int)
    requires
        0 <= p <= s.len(),
        lex_step(s, p) is Some,
    ensures
        p <= lex_step(s, p).unwrap().1 <= s.len(),
        lex_step(s, p).unwrap().1 == p ==> (lex_step(s, p).unwrap().0 matches Ok(t) && t.kind == TokenKind::EOF),
{
    let q = skip_trivia(s, p)->0;
    lemma_skip_trivia(s, p);
    if q < s.len() {
        lemma_scan_string(s, q + 1);
    }
    lemma_scan_digits(s, q);
    lemma_scan_word(s, q);
    if q < s.len() {
        let c = s[q];
        if is_digit(c) {
            assert(scan_digits(s, q) == scan_digits(s, q + 1));
            lemma_scan_digits(s, q + 1);
        } else if is_ident_head(c) {
            assert(scan_word(s, q) == scan_word(s, q + 1));
            lemma_scan_word(s, q + 1);
        }
    }
}

/// From a position where the lexer keeps returning, it also does after one more step.
pub proof fn lemma_lexes_step(s: Seq<char>, p: int)
    requires
        0 <= p <= s.len(),
        lexes_from(s, p),
    ensures
        lex_step(s, p) is Some,
        lexes_from(s, lex_step(s, p).unwrap().1),
{
    lemma_lex_step_progress(s, p);
}

/// A number token holds a non-empty run of digits.
pub open spec fn number_ok(t: TokenModel) -> bool {
    t.kind == TokenKind::Number ==> all_digits(t.literal)
}

/// Every token the lexer reads is well formed.
pub proof fn lemma_lexed_number_ok(s: Seq<char>, p: int)
    requires
        lex_step(s, p) is Some,
    ensures
        lex_step(s, p).unwrap().0 matches Ok(t) ==> number_ok(t),
{
    let q = skip_trivia(s, p)->0;
    if is_digit(char_at(s, q)) {
        lemma_digits_run(s, q);
    }
}

/// At the end of the input the lexer reads `EOF`, whose text is a NUL character, and stays
/// there: every later step reads `EOF` again.
pub proof fn lemma_eof_stays(s: Seq<char>)
    ensures
        lex_step(s, s.len() as int) == Some(
            (Ok::<TokenModel, LexerError>(TokenModel { kind: TokenKind::EOF, literal: seq!['\0'] }), s.len() as int),
        ),
{
}

pub struct Lexer {
    input: Vec<char>,
    position: usize,
    ch: char,
}

impl Lexer {
    /// The characters being lexed.
    pub closed spec fn source(&self) -> Seq<char> {
        self.input@
    }

    /// The position of the next character to look at.
    pub closed spec fn pos(&self) -> int {
        self.position as int
    }

    pub closed spec fn wf(&self) -> bool {
        &&& self.position <= self.input@.len()
        &&& self.input@.len() < usize::MAX
        &&& self.ch == char_at(self.input@, self.position as int)
    }

    pub proof fn lemma_wf(&self)
        requires
            self.wf(),
        ensures
            self.source().len() < usize::MAX,
            0 <= self.pos() <= self.source().len(),
    {
    }

    pub fn new(input: String) -> (lexer: Lexer)
        requires
            input@.len() < usize::MAX,
            vstd::string::string_is_ascii(&input),
        ensures
            lexer.wf(),
            lexer.source() == input@,
            lexer.pos() == 0,
    {
        let chars = chars_of(input.as_str());
        let ch = if 0 < chars.len() { chars[0] } else { '\0' };
        Lexer { input: chars, position: 0, ch }
    }

    /// Moves to the next character; past the end of the input the lexer stays at the end.
    fn read_char(&mut self)
        requires
            old(self).wf(),
        ensures
            final(self).wf(),
            final(self).input@ == old(self).input@,
            final(self).position == if old(self).position < old(self).input@.len() {
                old(self).position + 1
            } else {
                old(self).position as int
            },
    {
        if self.position < self.input.len() {
            self.position = self.position + 1;
        }
        self.ch = if self.position < self.input.len() { self.input[self.position] } else { '\0' };
    }

    fn peek_char(&self) -> (c: char)
        requires
            self.wf(),
        ensures
            c == char_at(self.input@, self.position + 1),
    {
        if self.position + 1 >= self.input.len() {
            '\0'
        } else {
            self.input[self.position + 1]
        }
    }
}


impl Lexer {
    /// Reads the next token, or fails on a string literal that is never closed, and moves
    /// past what it read.
    pub fn next_token(&mut self) -> (r: Result<Token, LexerError>)
        requires
            old(self).wf(),
            lex_step(old(self).source(), old(self).pos()) is Some,
        ensures
            final(self).wf(),
            final(self).source() == old(self).source(),
            lex_step(old(self).source(), old(self).pos()) == Some((token_result(r), final(self).pos())),
    {
        let ghost s = self.input@;
        self.skip_trivia();
        let ghost q = self.position as int;
        proof {
            lemma_scan_digits(s, q);
            lemma_scan_word(s, q);
        }
        let c = self.ch;
        if c == '"' {
            return self.read_string();
        }
        if (c == '<' || c == '>' || c == '=' || c == '!') && self.peek_char() == '=' {
            let kind = if c == '<' {
                TokenKind::Le
            } else if c == '>' {
                TokenKind::Ge
            } else if c == '=' {
                TokenKind::Eq
            } else {
                TokenKind::Ne
            };
            self.read_char();
            self.read_char();
            let mut literal = string_of_char(c);
            literal.push('=');
            assert(literal@ =~= seq![c, '=']);
            return Ok(Token::new(kind, literal));
        }
        if digit(c) {
            let start = self.position;
            while digit(self.ch)
                invariant
                    self.wf(),
                    self.input@ == s,
                    start <= self.position,
                    scan_digits(s, start as int) == scan_digits(s, self.position as int),
                decreases self.input@.len() - self.position,
            {
                self.read_char();
            }
            return Ok(Token::new(TokenKind::Number, string_of(&self.input, start, self.position)));
        }
        if alpha(c) || c == '_' {
            let start = self.position;
            while digit(self.ch) || alpha(self.ch) || self.ch == '_'
                invariant
                    self.wf(),
                    self.input@ == s,
                    start <= self.position,
                    scan_word(s, start as int) == scan_word(s, self.position as int),
                decreases self.input@.len() - self.position,
            {
                self.read_char();
            }
            let literal = string_of(&self.input, start, self.position);
            let kind = TokenKind::lookup_kind(literal.as_str());
            return Ok(Token::new(kind, literal));
        }
        let kind = match c {
            '=' => TokenKind::Assign,
            '<' => TokenKind::Lt,
            '>' => TokenKind::Gt,
            '!' => TokenKind::Bang,
            ',' => TokenKind::Comma,
            ';' => TokenKind::SemiColon,
            '+' => TokenKind::Plus,
            '-' => TokenKind::Minus,
            '*' => TokenKind::Asterisk,
            '/' => TokenKind::Slash,
            '%' => TokenKind::Percent,
            '(' => TokenKind::LParen,
            ')' => TokenKind::RParen,
            '{' => TokenKind::LBrace,
            '}' => TokenKind::RBrace,
            '\0' => TokenKind::EOF,
            _ => TokenKind::Unknown,
        };
        self.read_char();
        Ok(Token::new(kind, string_of_char(c)))
    }

    /// Reads the body of a string literal; the lexer stands on its opening quote.
    #[verifier::loop_isolation(false)]
    fn read_string(&mut self) -> (r: Result<Token, LexerError>)
        requires
            old(self).wf(),
            old(self).ch == '"',
        ensures
            final(self).wf(),
            final(self).input@ == old(self).input@,
            (token_result(r), final(self).pos()) == lex_at(old(self).input@, old(self).pos()),
    {
        let ghost s = self.input@;
        self.read_char();
        let start = self.position;
        proof {
            lemma_scan_string(s, start as int);
        }
        while self.ch != '"'
            invariant
                self.wf(),
                self.input@ == s,
                start <= self.position,
                scan_string(s, start as int) == scan_string(s, self.position as int),
            decreases self.input@.len() - self.position,
        {
            if self.ch == '\0' {
                return Err(LexerError::LexerReadStringError);
            }
            self.read_char();
        }
        let end = self.position;
        self.read_char();
        Ok(Token::new(TokenKind::StringBody, string_of(&self.input, start, end)))
    }

    /// Moves past whitespace and comments.
    fn skip_trivia(&mut self)
        requires
            old(self).wf(),
            skip_trivia(old(self).input@, old(self).position as int) is Some,
        ensures
            final(self).wf(),
            final(self).input@ == old(self).input@,
            final(self).position == skip_trivia(old(self).input@, old(self).position as int)->0,
    {
        let ghost s = self.input@;
        let ghost p0 = self.position as int;
        loop
            invariant
                self.wf(),
                self.input@ == s,
                s == old(self).input@,
                p0 == old(self).position,
                skip_trivia(s, self.position as int) == skip_trivia(s, p0),
                skip_trivia(s, p0) is Some,
            decreases s.len() - self.position,
        {
            let ghost p = self.position as int;
            proof {
                lemma_skip_blank(s, p);
            }
            while self.ch == ' ' || self.ch == '\t' || self.ch == '\r' || self.ch == '\n'
                invariant
                    self.wf(),
                    self.input@ == s,
                    p <= self.position,
                    skip_blank(s, p) == skip_blank(s, self.position as int),
                decreases self.input@.len() - self.position,
            {
                self.read_char();
            }
            let ghost q = self.position as int;
            if self.ch == '/' && self.peek_char() == '/' {
                self.read_char();
                self.read_char();
                proof {
                    lemma_find_newline(s, q + 2);
                }
                let ghost n = find_newline(s, q + 2);
                while self.ch != '\n'
                    invariant
                        self.wf(),
                        self.input@ == s,
                        find_newline(s, self.position as int) == n,
                        n < s.len(),
                    decreases self.input@.len() - self.position,
                {
                    self.read_char();
                }
            } else if self.ch == '/' && self.peek_char() == '*' {
                self.read_char();
                self.read_char();
                proof {
                    lemma_find_close(s, q + 2);
                }
                let ghost k = find_close(s, q + 2);
                while !(self.ch == '*' && self.peek_char() == '/')
                    invariant
                        self.wf(),
                        self.input@ == s,
                        find_close(s, self.position as int) == k,
                        k + 2 <= s.len(),
                    decreases self.input@.len() - self.position,
                {
                    self.read_char();
                }
                self.read_char();
                self.read_char();
            } else {
                return;
            }
        }
    }
}


impl Lexer {
    /// Whether the whitespace and comments from the current position on end, that is, no
    /// comment there is left open.
    fn trivia_closes(&self) -> (b: bool)
        requires
            self.wf(),
        ensures
            b == (skip_trivia(self.input@, self.position as int) is Some),
    {
        let ghost s = self.input@;
        let n = self.input.len();
        let mut p = self.position;
        loop
            invariant
                p <= n,
                n == s.len(),
                n < usize::MAX,
                n == self.input@.len(),
                s == self.input@,
                skip_trivia(s, p as int) == skip_trivia(s, self.position as int),
            decreases n - p,
        {
            let ghost p0 = p as int;
            proof {
                lemma_skip_blank(s, p as int);
            }
            while p < n && (self.input[p] == ' ' || self.input[p] == '\t' || self.input[p] == '\r' || self.input[p] == '\n')
                invariant
                    p0 <= p <= n,
                    n == s.len(),
                    n < usize::MAX,
                    s == self.input@,
                    skip_blank(s, p0) == skip_blank(s, p as int),
                decreases n - p,
            {
                p = p + 1;
            }
            if p + 1 >= n || self.input[p] != '/' {
                return true;
            }
            let q = p;
            if self.input[q + 1] == '/' {
                proof {
                    lemma_find_newline(s, q + 2);
                }
                p = q + 2;
                while p < n && self.input[p] != '\n'
                    invariant
                        q + 2 <= p <= n,
                        n == s.len(),
                        n < usize::MAX,
                        s == self.input@,
                        find_newline(s, p as int) == find_newline(s, q + 2),
                    decreases n - p,
                {
                    p = p + 1;
                }
                if p >= n {
                    return false;
                }
            } else if self.input[q + 1] == '*' {
                proof {
                    lemma_find_close(s, q + 2);
                }
                p = q + 2;
                while p < n && !(self.input[p] == '*' && p + 1 < n && self.input[p + 1] == '/')
                    invariant
                        q + 2 <= p <= n,
                        n == s.len(),
                        n < usize::MAX,
                        s == self.input@,
                        find_close(s, p as int) == find_close(s, q + 2),
                    decreases n - p,
                {
                    p = p + 1;
                }
                if p >= n {
                    return false;
                }
                p = p + 2;
            } else {
                return true;
            }
        }
    }

    /// Whether every later step of the lexer returns: no comment ahead is left open.
    pub fn lexes_to_end(&self) -> (b: bool)
        requires
            self.wf(),
        ensures
            b == lexes_from(self.source(), self.pos()),
    {
        let ghost s = self.input@;
        let mut l = Lexer { input: self.input.clone(), position: self.position, ch: self.ch };
        assert(l.input@ =~= s);
        loop
            invariant
                l.wf(),
                l.input@ == s,
                s == self.input@,
                lexes_from(s, l.position as int) == lexes_from(s, self.position as int),
            decreases s.len() - l.position,
        {
            if !l.trivia_closes() {
                return false;
            }
            let p = l.position;
            proof {
                lemma_lex_step_progress(s, p as int);
            }
            let _ = l.next_token();
            if l.position <= p {
                return true;
            }
        }
    }
}

} // verus!
