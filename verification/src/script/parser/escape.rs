//! Escape sequences in string literals.
use vstd::prelude::*;
use crate::text::chars_of;
use crate::script::parser::error::ParseError;

verus! {

/// The character that a backslash followed by `c` stands for.
pub open spec fn escaped(c: char) -> char {
    if c == 'n' {
        '\n'
    } else {
        c
    }
}

/// The text that the body of a string literal stands for: a backslash and the character
/// after it become one character (`\n` a line break, any other the character itself);
/// `None` where the body ends in a lone backslash.
pub open spec fn unescape(s: Seq<char>) -> Option<Seq<char>>
    decreases s.len(),
{
    if s.len() == 0 {
        Some(Seq::empty())
    } else if s[0] == '\\' {
        if s.len() == 1 {
            None
        } else {
            match unescape(s.subrange(2, s.len() as int)) {
                Some(r) => Some(seq![escaped(s[1])] + r),
                None => None,
            }
        }
    } else {
        match unescape(s.subrange(1, s.len() as int)) {
            Some(r) => Some(seq![s[0]] + r),
            None => None,
        }
    }
}

/// A text without backslashes stands for itself.
pub proof fn lemma_unescape_plain(s: Seq<char>)
    requires
        forall|i: int| 0 <= i < s.len() ==> s[i] != '\\',
    ensures
        unescape(s) == Some(s),
    decreases s.len(),
{
    if s.len() > 0 {
        let rest = s.subrange(1, s.len() as int);
        lemma_unescape_plain(rest);
        assert(seq![s[0]] + rest =~= s);
    }
}

pub fn escape(str: &str) -> (r: Result<String, ParseError>)
    ensures
        match unescape(str@) {
            Some(t) => r matches Ok(out) && out@ == t,
            None => r == Err::<String, ParseError>(ParseError::ParseEscapeError),
        },
{
    let chars = chars_of(str);
    let ghost s = chars@;
    let n = chars.len();
    let mut result = String::new();
    let mut i: usize = 0;
    assert(s.subrange(0, n as int) =~= s);
    while i < n
        invariant
            i <= n,
            n == s.len(),
            s == chars@,
            s == str@,
            match unescape(s.subrange(i as int, n as int)) {
                Some(t) => unescape(s) == Some(result@ + t),
                None => unescape(s) is None,
            },
        decreases n - i,
    {
        let ghost rest = s.subrange(i as int, n as int);
        if chars[i] == '\\' {
            if i + 1 >= n {
                return Err(ParseError::ParseEscapeError);
            }
            let c = chars[i + 1];
            let out = if c == 'n' { '\n' } else { c };
            assert(rest.subrange(2, rest.len() as int) =~= s.subrange(i + 2, n as int));
            proof {
                match unescape(s.subrange(i + 2, n as int)) {
                    Some(t) => {
                        assert(result@.push(out) + t =~= result@ + (seq![out] + t));
                    },
                    None => {},
                }
            }
            result.push(out);
            i = i + 2;
        } else {
            let c = chars[i];
            assert(rest.subrange(1, rest.len() as int) =~= s.subrange(i + 1, n as int));
            proof {
                match unescape(s.subrange(i + 1, n as int)) {
                    Some(t) => {
                        assert(result@.push(c) + t =~= result@ + (seq![c] + t));
                    },
                    None => {},
                }
            }
            result.push(c);
            i = i + 1;
        }
    }
    assert(s.subrange(n as int, n as int) =~= Seq::<char>::empty());
    assert(result@ + Seq::<char>::empty() =~= result@);
    Ok(result)
}

} // verus!
