//! Shell-style word splitting for command lines: whitespace separates tokens,
//! single and double quotes group characters into one token, and backslash
//! escapes the next character.  An unmatched quote or a trailing escape is
//! rejected with a specific diagnostic instead of being silently truncated.

use vstd::prelude::*;

use crate::strutil::{is_space, is_space_char, views_of};

verus! {

/// Why a raw line could not be split into tokens.
#[derive(Clone, Copy, Debug, PartialEq, Eq, Structural)]
pub enum TokenizeError {
    /// A single or double quote was opened and never closed.
    UnmatchedQuote,
    /// The line ends in a backslash that escapes nothing.
    DanglingEscape,
}

/// The quoting state of the splitter.
#[derive(Clone, Copy, Debug, PartialEq, Eq, Structural)]
pub enum QuoteMode {
    /// Outside any quotes.
    Normal,
    /// Inside single quotes: every character is literal.
    Single,
    /// Inside double quotes: backslash escapes `"` and `\`.
    Double,
}

impl TokenizeError {
    /// The diagnostic shown for this tokenization failure.
    pub fn message(&self) -> (m: String)
        ensures
            m@ == match *self {
                TokenizeError::UnmatchedQuote => "unmatched quote in input"@,
                TokenizeError::DanglingEscape => "trailing escape in input"@,
            },
    {
        match self {
            TokenizeError::UnmatchedQuote => String::from_str("unmatched quote in input"),
            TokenizeError::DanglingEscape => String::from_str("trailing escape in input"),
        }
    }
}

/// One step of the splitter, written as a recursion over the rest of the
/// input.  `cur` is the token being built, `started` whether any part of a
/// token has begun (a quoted empty string is a token), `acc` the finished
/// tokens.
pub open spec fn tok_rec(
    s: Seq<char>,
    i: int,
    mode: QuoteMode,
    cur: Seq<char>,
    started: bool,
    acc: Seq<Seq<char>>,
) -> Result<Seq<Seq<char>>, TokenizeError>
    decreases s.len() - i,
    when 0 <= i <= s.len()
{
    if i == s.len() {
        match mode {
            QuoteMode::Normal => if started {
                Ok(acc.push(cur))
            } else {
                Ok(acc)
            },
            _ => Err(TokenizeError::UnmatchedQuote),
        }
    } else {
        let c = s[i];
        match mode {
            QuoteMode::Normal => {
                if is_space_char(c) {
                    if started {
                        tok_rec(s, i + 1, QuoteMode::Normal, Seq::empty(), false, acc.push(cur))
                    } else {
                        tok_rec(s, i + 1, QuoteMode::Normal, cur, started, acc)
                    }
                } else if c == '\'' {
                    tok_rec(s, i + 1, QuoteMode::Single, cur, true, acc)
                } else if c == '"' {
                    tok_rec(s, i + 1, QuoteMode::Double, cur, true, acc)
                } else if c == '\\' {
                    if i + 1 < s.len() {
                        tok_rec(s, i + 2, QuoteMode::Normal, cur.push(s[i + 1]), true, acc)
                    } else {
                        Err(TokenizeError::DanglingEscape)
                    }
                } else {
                    tok_rec(s, i + 1, QuoteMode::Normal, cur.push(c), true, acc)
                }
            },
            QuoteMode::Single => {
                if c == '\'' {
                    tok_rec(s, i + 1, QuoteMode::Normal, cur, true, acc)
                } else {
                    tok_rec(s, i + 1, QuoteMode::Single, cur.push(c), true, acc)
                }
            },
            QuoteMode::Double => {
                if c == '"' {
                    tok_rec(s, i + 1, QuoteMode::Normal, cur, true, acc)
                } else if c == '\\' && i + 1 < s.len() && (s[i + 1] == '"' || s[i + 1] == '\\') {
                    tok_rec(s, i + 2, QuoteMode::Double, cur.push(s[i + 1]), true, acc)
                } else {
                    tok_rec(s, i + 1, QuoteMode::Double, cur.push(c), true, acc)
                }
            },
        }
    }
}

/// What splitting a whole line yields: the token list, or the error.
pub open spec fn tokenize_spec(s: Seq<char>) -> Result<Seq<Seq<char>>, TokenizeError> {
    tok_rec(s, 0, QuoteMode::Normal, Seq::empty(), false, Seq::empty())
}

/// Splits a raw command line into shell-style tokens.
pub fn split_line(line: &str) -> (r: Result<Vec<String>, TokenizeError>)
    ensures
        (r matches Ok(v) && tokenize_spec(line@) matches Ok(ts) && views_of(v@) == ts) || (r
            matches Err(e) && tokenize_spec(line@) matches Err(e2) && e == e2),
{
    let n = line.unicode_len();
    let mut i: usize = 0;
    let mut mode = QuoteMode::Normal;
    let mut cur = String::new();
    let mut started = false;
    let mut acc: Vec<String> = Vec::new();
    proof {
        assert(views_of(acc@) =~= Seq::<Seq<char>>::empty());
    }
    while i < n
        invariant
            n == line@.len(),
            i <= n,
            tokenize_spec(line@) == tok_rec(line@, i as int, mode, cur@, started, views_of(acc@)),
        decreases n - i,
    {
        let c = line.get_char(i);
        match mode {
            QuoteMode::Normal => {
                if is_space(c) {
                    if started {
                        proof {
                            assert(views_of(acc@.push(cur)) =~= views_of(acc@).push(cur@));
                        }
                        acc.push(cur);
                        cur = String::new();
                        started = false;
                    }
                    i = i + 1;
                } else if c == '\'' {
                    mode = QuoteMode::Single;
                    started = true;
                    i = i + 1;
                } else if c == '"' {
                    mode = QuoteMode::Double;
                    started = true;
                    i = i + 1;
                } else if c == '\\' {
                    if i + 1 < n {
                        let c2 = line.get_char(i + 1);
                        crate::strutil::push_char(&mut cur, c2);
                        started = true;
                        i = i + 2;
                    } else {
                        return Err(TokenizeError::DanglingEscape);
                    }
                } else {
                    crate::strutil::push_char(&mut cur, c);
                    started = true;
                    i = i + 1;
                }
            },
            QuoteMode::Single => {
                if c == '\'' {
                    mode = QuoteMode::Normal;
                    started = true;
                } else {
                    crate::strutil::push_char(&mut cur, c);
                    started = true;
                }
                i = i + 1;
            },
            QuoteMode::Double => {
                if c == '"' {
                    mode = QuoteMode::Normal;
                    started = true;
                    i = i + 1;
                } else if c == '\\' {
                    let next_escapable = if i + 1 < n {
                        let c2 = line.get_char(i + 1);
                        c2 == '"' || c2 == '\\'
                    } else {
                        false
                    };
                    if next_escapable {
                        let c2 = line.get_char(i + 1);
                        crate::strutil::push_char(&mut cur, c2);
                        i = i + 2;
                    } else {
                        crate::strutil::push_char(&mut cur, c);
                        i = i + 1;
                    }
                    started = true;
                } else {
                    crate::strutil::push_char(&mut cur, c);
                    started = true;
                    i = i + 1;
                }
            },
        }
    }
    match mode {
        QuoteMode::Normal => {
            if started {
                proof {
                    assert(views_of(acc@.push(cur)) =~= views_of(acc@).push(cur@));
                }
                acc.push(cur);
            }
            Ok(acc)
        },
        _ => Err(TokenizeError::UnmatchedQuote),
    }
}

} // verus!
