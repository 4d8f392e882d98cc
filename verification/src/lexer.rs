//! The lexer of the wervc language: it turns source text into tokens, one at a time.
use vstd::prelude::*;
use crate::text::{char_at, is_space, is_digit, is_alpha, space, digit, alpha, chars_of, string_of, string_of_char};
use crate::token::{Token, TokenKind, TokenModel, keyword_kind};

verus! {

/// The first position at or after `p` that does not hold whitespace.
pub open spec fn skip_space(s: Seq<char>, p: int) -> int
    decreases s.len() - p,
{
    if 0 <= p < s.len() && is_space(s[p]) {
        skip_space(s, p + 1)
    } else {
        p
    }
}

/// The end of the run of digits that starts at `p`.
pub open spec fn scan_digits(s: Seq<char>, p: int) -> int
    decreases s.len() - p,
{
    if 0 <= p < s.len() && is_digit(s[p]) {
        scan_digits(s, p + 1)
    } else {
        p
    }
}

pub open spec fn is_word_char(c: char) -> bool {
    is_digit(c) || is_alpha(c) || c == '_'
}

/// The end of the run of identifier characters that starts at `p`.
pub open spec fn scan_word(s: Seq<char>, p: int) -> int
    decreases s.len() - p,
{
    if 0 <= p < s.len() && is_word_char(s[p]) {
        scan_word(s, p + 1)
    } else {
        p
    }
}

/// The kind of a token made of the single character `c`.
pub open spec fn single_kind(c: char) -> TokenKind {
    if c == '=' {
        TokenKind::Assign
    } else if c == '<' {
        TokenKind::Lt
    } else if c == '>' {
        TokenKind::Gt
    } else if c == '!' {
        TokenKind::Bang
    } else if c == '+' {
        TokenKind::Plus
    } else if c == '-' {
        TokenKind::Minus
    } else if c == '*' {
        TokenKind::Asterisk
    } else if c == '/' {
        TokenKind::Slash
    } else if c == '&' {
        TokenKind::Ampersand
    } else if c == ';' {
        TokenKind::SemiColon
    } else if c == ':' {
        TokenKind::Colon
    } else if c == ',' {
        TokenKind::Comma
    } else if c == '(' {
        TokenKind::LParen
    } else if c == ')' {
        TokenKind::RParen
    } else if c == '{' {
        TokenKind::LBrace
    } else if c == '}' {
        TokenKind::RBrace
    } else if c == '[' {
        TokenKind::LBracket
    } else if c == ']' {
        TokenKind::RBracket
    } else if c == '\0' {
        TokenKind::EOF
    } else {
        TokenKind::Unknown
    }
}

/// The kind of the two-character operator made of `c` followed by `=`, if there is one.
pub open spec fn with_eq_kind(c: char) -> Option<TokenKind> {
    if c == '=' {
        Some(TokenKind::Eq)
    } else if c == '<' {
        Some(TokenKind::Le)
    } else if c == '>' {
        Some(TokenKind::Ge)
    } else if c == '!' {
        Some(TokenKind::Ne)
    } else {
        None
    }
}

/// One step of the lexer: the token read from position `p` of `s`, and the position after it.
/// Past the end of the input every step reads an `EOF` token whose literal is a NUL character.
pub closed spec fn lex_step(s: Seq<char>, p: int) -> (TokenModel, int) {
    let q = skip_space(s, p);
    let c = char_at(s, q);
    if is_digit(c) {
        let e = scan_digits(s, q);
        (TokenModel { kind: TokenKind::Number, literal: s.subrange(q, e) }, e)
    } else if is_alpha(c) || c == '_' {
        let e = scan_word(s, q);
        (TokenModel { kind: keyword_kind(s.subrange(q, e)), literal: s.subrange(q, e) }, e)
    } else if with_eq_kind(c) is Some && char_at(s, q + 1) == '=' {
        (TokenModel { kind: with_eq_kind(c)->0, literal: seq![c, '='] }, q + 2)
    } else {
        (TokenModel { kind: single_kind(c), literal: seq![c] }, if q < s.len() { q + 1 } else { s.len() as int })
    }
}

/// The position of the lexer after `n` tokens have been read from `s`.
pub open spec fn pos_after(s: Seq<char>, n: nat) -> int
    decreases n,
{
    if n == 0 {
        0
    } else {
        lex_step(s, pos_after(s, (n - 1) as nat)).1
    }
}

/// The `n`-th token (from zero) of the input `s`.
pub open spec fn token_at(s: Seq<char>, n: nat) -> TokenModel {
    lex_step(s, pos_after(s, n)).0
}

pub proof fn lemma_skip_space(s: Seq<char>, p: int)
    requires
        0 <= p <= s.len(),
    ensures
        p <= skip_space(s, p) <= s.len(),
        forall|k: int| p <= k < skip_space(s, p) ==> is_space(#[trigger] s[k]),
    decreases s.len() - p,
{
    if 0 <= p < s.len() && is_space(s[p]) {
        lemma_skip_space(s, p + 1);
    }
}

pub proof fn lemma_scan_digits(s: Seq<char>, p: int)
    requires
        0 <= p <= s.len(),
    ensures
        p <= scan_digits(s, p) <= s.len(),
    decreases s.len() - p,
{
    if 0 <= p < s.len() && is_digit(s[p]) {
        lemma_scan_digits(s, p + 1);
    }
}

pub proof fn lemma_scan_word(s: Seq<char>, p: int)
    requires
        0 <= p <= s.len(),
    ensures
        p <= scan_word(s, p) <= s.len(),
    decreases s.len() - p,
{
    if 0 <= p < s.len() && is_word_char(s[p]) {
        lemma_scan_word(s, p + 1);
    }
}

/// A step of the lexer stays within the input and never moves backwards.
pub proof fn lemma_lex_step_bounds(s: Seq<char>, p: int)
    requires
        0 <= p <= s.len(),
    ensures
        p <= lex_step(s, p).1 <= s.len(),
{
    let q = skip_space(s, p);
    lemma_skip_space(s, p);
    lemma_scan_digits(s, q);
    lemma_scan_word(s, q);
}

/// A step from inside the input either moves forward or reads `EOF` at the end of the input.
pub proof fn lemma_lex_step_progress(s: Seq<char>, p: int)
    ensures
        0 <= p <= s.len() ==> p <= lex_step(s, p).1 <= s.len(),
        0 <= p <= s.len() && lex_step(s, p).1 == p ==> lex_step(s, p).0.kind == TokenKind::EOF,
        p > s.len() ==> lex_step(s, p).1 == s.len() && lex_step(s, p).0.kind == TokenKind::EOF,
        p < 0 ==> lex_step(s, p).0.kind == TokenKind::EOF && lex_step(s, p).1 <= p + 1,
{
    if 0 <= p <= s.len() {
        let q = skip_space(s, p);
        lemma_skip_space(s, p);
        lemma_scan_digits(s, q);
        lemma_scan_word(s, q);
        if q < s.len() {
            let c = s[q];
            if is_digit(c) {
                assert(scan_digits(s, q) == scan_digits(s, q + 1));
                lemma_scan_digits(s, q + 1);
            } else if is_alpha(c) || c == '_' {
                assert(scan_word(s, q) == scan_word(s, q + 1));
                lemma_scan_word(s, q + 1);
            }
        }
    }
}

/// At the end of the input the lexer reads `EOF`, whose text is a NUL character, and stays
/// there: every later step reads `EOF` again.
pub proof fn lemma_eof_stays(s: Seq<char>)
    ensures
        lex_step(s, s.len() as int) == (TokenModel { kind: TokenKind::EOF, literal: seq!['\0'] }, s.len() as int),
{
}

/// The token read at the end of the input: `EOF`, whose text is a NUL character.
pub open spec fn eof_token() -> TokenModel {
    TokenModel { kind: TokenKind::EOF, literal: seq!['\0'] }
}

/// Whether the input holds no NUL character.
pub open spec fn no_nul(s: Seq<char>) -> bool {
    forall|i: int| 0 <= i < s.len() ==> s[i] != '\0'
}

/// On input without NUL characters, a step reads `EOF` only where nothing but whitespace
/// is left, and then it ends at the end of the input.
proof fn lemma_eof_only_at_end(s: Seq<char>, p: int)
    requires
        0 <= p <= s.len(),
        no_nul(s),
        lex_step(s, p).0.kind == TokenKind::EOF,
    ensures
        lex_step(s, p) == (eof_token(), s.len() as int),
{
    let q = skip_space(s, p);
    lemma_skip_space(s, p);
    if q < s.len() {
        let c = s[q];
        assert(c != '\0');
        assert(keyword_kind(s.subrange(q, scan_word(s, q))) != TokenKind::EOF);
        assert(false);
    }
    assert(seq![char_at(s, q)] =~= seq!['\0']);
}

proof fn lemma_pos_stays_at_end(s: Seq<char>, k: nat, m: nat)
    requires
        pos_after(s, k) == s.len(),
        k <= m,
    ensures
        pos_after(s, m) == s.len(),
        token_at(s, m) == eof_token(),
    decreases m - k,
{
    lemma_eof_stays(s);
    if k < m {
        assert(pos_after(s, (k + 1) as nat) == s.len());
        lemma_pos_stays_at_end(s, (k + 1) as nat, m);
    }
}

/// No token before the `k`-th is `EOF`.
#[verifier::opaque]
pub open spec fn no_eof_before(s: Seq<char>, k: nat) -> bool {
    forall|m: nat| m < k ==> (#[trigger] token_at(s, m)).kind != TokenKind::EOF
}

/// Every token from the `n`-th on is `EOF` with a NUL text.
#[verifier::opaque]
pub open spec fn eof_from(s: Seq<char>, n: nat) -> bool {
    forall|m: nat| m >= n ==> #[trigger] token_at(s, m) == eof_token()
}

proof fn lemma_find_eof(s: Seq<char>, k: nat) -> (n: nat)
    requires
        no_nul(s),
        no_eof_before(s, k),
        k <= pos_after(s, k),
    ensures
        n <= s.len(),
        token_at(s, n).kind == TokenKind::EOF,
        no_eof_before(s, n),
    decreases s.len() - k,
{
    lemma_pos_after_bounds(s, k);
    lemma_lex_step_progress(s, pos_after(s, k));
    if token_at(s, k).kind == TokenKind::EOF {
        k
    } else {
        assert(pos_after(s, k + 1) == lex_step(s, pos_after(s, k)).1);
        lemma_pos_after_bounds(s, k + 1);
        assert(no_eof_before(s, k + 1)) by {
            reveal(no_eof_before);
            assert forall|m: nat| m < k + 1 implies (#[trigger] token_at(s, m)).kind != TokenKind::EOF by {
                if m < k {
                    assert(token_at(s, m).kind != TokenKind::EOF);
                }
            }
        }
        lemma_find_eof(s, k + 1)
    }
}

/// Reading a whole input without NUL characters: within the input's length plus one steps
/// the lexer reads `EOF` (a NUL text), no token before it is `EOF`, every later step reads
/// `EOF` again, and the texts of the tokens before it, joined, are the input with its
/// whitespace removed.
pub proof fn lemma_reads_to_eof(s: Seq<char>)
    requires
        no_nul(s),
    ensures
        exists|n: nat| n <= s.len() && #[trigger] no_eof_before(s, n) && eof_from(s, n),
        tokens_text(s, 0) == strip_space(s),
{
    assert(no_eof_before(s, 0)) by {
        reveal(no_eof_before);
    }
    let n = lemma_find_eof(s, 0);
    lemma_pos_after_bounds(s, n);
    lemma_eof_only_at_end(s, pos_after(s, n));
    assert(pos_after(s, n + 1) == s.len());
    assert(eof_from(s, n)) by {
        reveal(eof_from);
        assert forall|m: nat| m >= n implies #[trigger] token_at(s, m) == eof_token() by {
            if m > n {
                lemma_pos_stays_at_end(s, n + 1, m);
            }
        }
    }
    lemma_tokens_text(s, 0);
    assert(s.subrange(0, s.len() as int) =~= s);
}

/// One step of the lexer, spelled out: what `lex_step` computes for any input and position.
pub proof fn lemma_lex_step_def(s: Seq<char>, p: int)
    ensures
        lex_step(s, p) == ({
            let q = skip_space(s, p);
            let c = char_at(s, q);
            if is_digit(c) {
                let e = scan_digits(s, q);
                (TokenModel { kind: TokenKind::Number, literal: s.subrange(q, e) }, e)
            } else if is_alpha(c) || c == '_' {
                let e = scan_word(s, q);
                (TokenModel { kind: keyword_kind(s.subrange(q, e)), literal: s.subrange(q, e) }, e)
            } else if with_eq_kind(c) is Some && char_at(s, q + 1) == '=' {
                (TokenModel { kind: with_eq_kind(c)->0, literal: seq![c, '='] }, q + 2)
            } else {
                (TokenModel { kind: single_kind(c), literal: seq![c] }, if q < s.len() { q + 1 } else { s.len() as int })
            }
        }),
{
}

/// The characters of `s` that are not whitespace, in order.
pub open spec fn strip_space(s: Seq<char>) -> Seq<char>
    decreases s.len(),
{
    if s.len() == 0 {
        Seq::empty()
    } else if is_space(s[0]) {
        strip_space(s.subrange(1, s.len() as int))
    } else {
        seq![s[0]] + strip_space(s.subrange(1, s.len() as int))
    }
}

/// The texts of the tokens read from position `p` up to the first `EOF`, joined.
pub open spec fn tokens_text(s: Seq<char>, p: int) -> Seq<char>
    decreases s.len() - p,
{
    let (t, q) = lex_step(s, p);
    if t.kind == TokenKind::EOF || !(p < q <= s.len()) {
        Seq::empty()
    } else {
        t.literal + tokens_text(s, q)
    }
}

proof fn lemma_skip_space_stop(s: Seq<char>, p: int)
    requires
        0 <= p <= s.len(),
    ensures
        skip_space(s, p) < s.len() ==> !is_space(s[skip_space(s, p)]),
    decreases s.len() - p,
{
    if 0 <= p < s.len() && is_space(s[p]) {
        lemma_skip_space_stop(s, p + 1);
    }
}

proof fn lemma_strip_concat(a: Seq<char>, b: Seq<char>)
    ensures
        strip_space(a + b) == strip_space(a) + strip_space(b),
    decreases a.len(),
{
    if a.len() == 0 {
        assert(a + b =~= b);
    } else {
        let ra = a.subrange(1, a.len() as int);
        lemma_strip_concat(ra, b);
        assert((a + b).subrange(1, (a + b).len() as int) =~= ra + b);
        assert((a + b)[0] == a[0]);
        if !is_space(a[0]) {
            assert(seq![a[0]] + (strip_space(ra) + strip_space(b)) =~= (seq![a[0]] + strip_space(ra)) + strip_space(b));
        }
    }
}

proof fn lemma_strip_spaces(a: Seq<char>)
    requires
        forall|i: int| 0 <= i < a.len() ==> is_space(#[trigger] a[i]),
    ensures
        strip_space(a) == Seq::<char>::empty(),
    decreases a.len(),
{
    if a.len() > 0 {
        lemma_strip_spaces(a.subrange(1, a.len() as int));
    }
}

proof fn lemma_strip_solid(a: Seq<char>)
    requires
        forall|i: int| 0 <= i < a.len() ==> !is_space(#[trigger] a[i]),
    ensures
        strip_space(a) == a,
    decreases a.len(),
{
    if a.len() > 0 {
        let ra = a.subrange(1, a.len() as int);
        lemma_strip_solid(ra);
        assert(seq![a[0]] + ra =~= a);
    }
}

proof fn lemma_word_chars(s: Seq<char>, p: int)
    requires
        0 <= p <= s.len(),
    ensures
        forall|i: int| p <= i < scan_word(s, p) ==> is_word_char(#[trigger] s[i]),
    decreases s.len() - p,
{
    if 0 <= p < s.len() && is_word_char(s[p]) {
        lemma_word_chars(s, p + 1);
    }
}

proof fn lemma_digit_chars(s: Seq<char>, p: int)
    requires
        0 <= p <= s.len(),
    ensures
        forall|i: int| p <= i < scan_digits(s, p) ==> is_digit(#[trigger] s[i]),
    decreases s.len() - p,
{
    if 0 <= p < s.len() && is_digit(s[p]) {
        lemma_digit_chars(s, p + 1);
    }
}

/// The lexer loses nothing but whitespace: on input without NUL characters, the texts of
/// the tokens it reads before `EOF`, joined, are the input with its whitespace removed.
pub proof fn lemma_tokens_text(s: Seq<char>, p: int)
    requires
        0 <= p <= s.len(),
        forall|i: int| 0 <= i < s.len() ==> s[i] != '\0',
    ensures
        tokens_text(s, p) == strip_space(s.subrange(p, s.len() as int)),
    decreases s.len() - p,
{
    let q = skip_space(s, p);
    lemma_skip_space(s, p);
    lemma_scan_digits(s, q);
    lemma_scan_word(s, q);
    lemma_lex_step_progress(s, p);
    let rest = s.subrange(p, s.len() as int);
    assert(rest =~= s.subrange(p, q) + s.subrange(q, s.len() as int));
    lemma_strip_concat(s.subrange(p, q), s.subrange(q, s.len() as int));
    lemma_strip_spaces(s.subrange(p, q));
    assert(Seq::<char>::empty() + strip_space(s.subrange(q, s.len() as int)) =~= strip_space(s.subrange(q, s.len() as int)));
    let (t, e) = lex_step(s, p);
    if q == s.len() {
        assert(s.subrange(q, s.len() as int) =~= Seq::<char>::empty());
    } else {
        let c = s[q];
        lemma_skip_space_stop(s, p);
        assert(!is_space(c));
        if is_digit(c) {
            assert(scan_digits(s, q) == scan_digits(s, q + 1));
            lemma_scan_digits(s, q + 1);
            lemma_digit_chars(s, q);
        } else if is_alpha(c) || c == '_' {
            assert(scan_word(s, q) == scan_word(s, q + 1));
            lemma_scan_word(s, q + 1);
            lemma_word_chars(s, q);
        } else if with_eq_kind(c) is Some && char_at(s, q + 1) == '=' {
            assert(t.literal =~= s.subrange(q, q + 2));
        } else {
            assert(t.literal =~= s.subrange(q, q + 1));
        }
        assert(t.literal == s.subrange(q, e));
        assert(e > q);
        assert(t.kind != TokenKind::EOF);
        assert(forall|i: int| q <= i < e ==> !is_space(#[trigger] s[i]));
        assert(forall|i: int| 0 <= i < t.literal.len() ==> !is_space(#[trigger] t.literal[i]));
        lemma_strip_solid(t.literal);
        assert(s.subrange(q, s.len() as int) =~= t.literal + s.subrange(e, s.len() as int));
        lemma_strip_concat(t.literal, s.subrange(e, s.len() as int));
        lemma_tokens_text(s, e);
    }
}

pub proof fn lemma_pos_after_bounds(s: Seq<char>, n: nat)
    ensures
        0 <= pos_after(s, n) <= s.len(),
    decreases n,
{
    if n > 0 {
        lemma_pos_after_bounds(s, (n - 1) as nat);
        lemma_lex_step_bounds(s, pos_after(s, (n - 1) as nat));
    }
}

/// A run of one or more decimal digits.
pub open spec fn all_digits(d: Seq<char>) -> bool {
    d.len() > 0 && forall|i: int| 0 <= i < d.len() ==> is_digit(#[trigger] d[i])
}

/// A number token holds a non-empty run of digits.
pub open spec fn token_ok(t: TokenModel) -> bool {
    t.kind == TokenKind::Number ==> all_digits(t.literal)
}

/// Every token the lexer reads is well formed.
pub proof fn lemma_lexed_token_ok(s: Seq<char>, p: int)
    ensures
        token_ok(lex_step(s, p).0),
{
    let q = skip_space(s, p);
    let c = char_at(s, q);
    if is_digit(c) {
        lemma_digits_run(s, q);
    }
}

pub proof fn lemma_digits_run(s: Seq<char>, q: int)
    requires
        is_digit(char_at(s, q)),
    ensures
        all_digits(s.subrange(q, scan_digits(s, q))),
{
    lemma_digits_run_from(s, q, q);
}

proof fn lemma_digits_run_from(s: Seq<char>, q: int, p: int)
    requires
        0 <= q <= p <= s.len(),
        forall|i: int| q <= i < p ==> is_digit(#[trigger] s[i]),
        p > q || (p < s.len() && is_digit(s[p])),
    ensures
        all_digits(s.subrange(q, scan_digits(s, p))),
        scan_digits(s, p) == scan_digits(s, q) || p > q,
    decreases s.len() - p,
{
    if p < s.len() && is_digit(s[p]) {
        lemma_digits_run_from(s, q, p + 1);
    } else {
        assert(s.subrange(q, p).len() > 0);
    }
}

pub struct Lexer {
    input: Vec<char>,
    position: usize,
    read_position: usize,
    ch: char,
}

impl Lexer {
    /// The characters being lexed.
    pub closed spec fn source(&self) -> Seq<char> {
        self.input@
    }

    /// The position of the next character to look at.
    pub closed spec fn pos(&self) -> int {
        self.position as int
    }

    pub proof fn lemma_source_len(&self)
        requires
            self.wf(),
        ensures
            self.source().len() < usize::MAX,
            0 <= self.pos() <= self.source().len(),
    {
    }

    pub closed spec fn wf(&self) -> bool {
        &&& self.position <= self.input@.len()
        &&& self.input@.len() < usize::MAX
        &&& self.read_position == self.position + 1
        &&& self.ch == char_at(self.input@, self.position as int)
    }

    pub fn new(input: &str) -> (lexer: Lexer)
        requires
            input@.len() < usize::MAX,
            input.is_ascii(),
        ensures
            lexer.wf(),
            lexer.source() == input@,
            lexer.pos() == 0,
    {
        let chars = chars_of(input);
        let mut lexer = Lexer { input: chars, position: 0, read_position: 0, ch: '\0' };
        lexer.ch = if 0 < lexer.input.len() { lexer.input[0] } else { '\0' };
        lexer.read_position = 1;
        lexer
    }

    /// Moves to the next character; past the end of the input the lexer stays at the end.
    fn read_char(&mut self)
        requires
            old(self).wf(),
        ensures
            final(self).wf(),
            final(self).input@ == old(self).input@,
            final(self).position == if old(self).position < old(self).input@.len() {
                old(self).position + 1
            } else {
                old(self).position as int
            },
    {
        if self.position < self.input.len() {
            self.position = self.position + 1;
        }
        self.read_position = self.position + 1;
        self.ch = if self.position < self.input.len() { self.input[self.position] } else { '\0' };
    }

    fn peek_char(&self) -> (c: char)
        requires
            self.wf(),
        ensures
            c == char_at(self.input@, self.position + 1),
    {
        if self.read_position >= self.input.len() {
            '\0'
        } else {
            self.input[self.read_position]
        }
    }

    /// Reads the next token and moves past it.
    pub fn next_token(&mut self) -> (token: Token)
        requires
            old(self).wf(),
        ensures
            final(self).wf(),
            final(self).source() == old(self).source(),
            (token@, final(self).pos()) == lex_step(old(self).source(), old(self).pos()),
    {
        let ghost s = self.input@;
        proof {
            lemma_skip_space(s, self.position as int);
        }
        self.eat_whitespace();
        let ghost q = self.position as int;
        proof {
            lemma_scan_digits(s, q);
            lemma_scan_word(s, q);
        }
        let c = self.ch;
        if self.is_number() {
            let start = self.position;
            let literal = self.read_number();
            return Token { kind: TokenKind::Number, literal };
        }
        if self.is_ident() {
            let literal = self.read_ident();
            let kind = TokenKind::lookup_ident(literal.as_str());
            return Token { kind, literal };
        }
        if (c == '=' || c == '<' || c == '>' || c == '!') && self.peek_char() == '=' {
            let kind = if c == '=' {
                TokenKind::Eq
            } else if c == '<' {
                TokenKind::Le
            } else if c == '>' {
                TokenKind::Ge
            } else {
                TokenKind::Ne
            };
            self.read_char();
            self.read_char();
            let mut literal = string_of_char(c);
            literal.push('=');
            assert(literal@ =~= seq![c, '=']);
            return Token { kind, literal };
        }
        let kind = match c {
            '=' => TokenKind::Assign,
            '<' => TokenKind::Lt,
            '>' => TokenKind::Gt,
            '!' => TokenKind::Bang,
            '+' => TokenKind::Plus,
            '-' => TokenKind::Minus,
            '*' => TokenKind::Asterisk,
            '/' => TokenKind::Slash,
            '&' => TokenKind::Ampersand,
            ';' => TokenKind::SemiColon,
            ':' => TokenKind::Colon,
            ',' => TokenKind::Comma,
            '(' => TokenKind::LParen,
            ')' => TokenKind::RParen,
            '{' => TokenKind::LBrace,
            '}' => TokenKind::RBrace,
            '[' => TokenKind::LBracket,
            ']' => TokenKind::RBracket,
            '\0' => TokenKind::EOF,
            _ => TokenKind::Unknown,
        };
        self.read_char();
        Token { kind, literal: string_of_char(c) }
    }

    fn eat_whitespace(&mut self)
        requires
            old(self).wf(),
        ensures
            final(self).wf(),
            final(self).input@ == old(self).input@,
            final(self).position == skip_space(old(self).input@, old(self).position as int),
    {
        let ghost s = self.input@;
        let ghost p0 = self.position as int;
        while self.is_whitespace()
            invariant
                self.wf(),
                self.input@ == s,
                skip_space(s, p0) == skip_space(s, self.position as int),
            decreases self.input@.len() - self.position,
        {
            self.read_char();
        }
    }

    fn is_whitespace(&self) -> (b: bool)
        requires
            self.wf(),
        ensures
            b == (self.position < self.input@.len() && is_space(self.input@[self.position as int])),
    {
        space(self.ch)
    }

    fn read_number(&mut self) -> (literal: String)
        requires
            old(self).wf(),
        ensures
            final(self).wf(),
            final(self).input@ == old(self).input@,
            final(self).position == scan_digits(old(self).input@, old(self).position as int),
            literal@ == old(self).input@.subrange(
                old(self).position as int,
                scan_digits(old(self).input@, old(self).position as int),
            ),
    {
        let ghost s = self.input@;
        let position = self.position;
        proof {
            lemma_scan_digits(s, position as int);
        }
        while self.is_number()
            invariant
                self.wf(),
                self.input@ == s,
                position <= self.position,
                scan_digits(s, position as int) == scan_digits(s, self.position as int),
            decreases self.input@.len() - self.position,
        {
            self.read_char();
        }
        string_of(&self.input, position, self.position)
    }

    fn is_number(&self) -> (b: bool)
        requires
            self.wf(),
        ensures
            b == (self.position < self.input@.len() && is_digit(self.input@[self.position as int])),
    {
        digit(self.ch)
    }

    fn read_ident(&mut self) -> (literal: String)
        requires
            old(self).wf(),
        ensures
            final(self).wf(),
            final(self).input@ == old(self).input@,
            final(self).position == scan_word(old(self).input@, old(self).position as int),
            literal@ == old(self).input@.subrange(
                old(self).position as int,
                scan_word(old(self).input@, old(self).position as int),
            ),
    {
        let ghost s = self.input@;
        let position = self.position;
        proof {
            lemma_scan_word(s, position as int);
        }
        while self.is_number() || self.is_ident()
            invariant
                self.wf(),
                self.input@ == s,
                position <= self.position,
                scan_word(s, position as int) == scan_word(s, self.position as int),
            decreases self.input@.len() - self.position,
        {
            self.read_char();
        }
        string_of(&self.input, position, self.position)
    }

    fn is_ident(&self) -> (b: bool)
        requires
            self.wf(),
        ensures
            b == (self.position < self.input@.len() && (is_alpha(self.input@[self.position as int])
                || self.input@[self.position as int] == '_')),
    {
        alpha(self.ch) || self.ch == '_'
    }
}

} // verus!
