use vstd::prelude::*;
use vstd::string::*;

verus! {

/// The reserved words of the language.
#[derive(Debug, Clone, Copy, PartialEq, Eq)]
pub enum Keyword {
    Function,
    Let,
    Mut,
    Const,
    Loop,
    For,
    While,
    Break,
    Continue,
    If,
    Else,
    Match,
    Return,
    Struct,
    Enum,
    Interface,
    Impl,
    Export,
    Type,
    As,
    From,
    Import,
}

#[derive(Debug, Clone, PartialEq, Eq)]
pub enum KeywordParseError {
    /// No keyword is spelled so; `found` is the text read.
    Unknown { found: String },
}

/// The keyword that `s` spells, if any. Some keywords have several
/// spellings.
pub open spec fn keyword_of(s: Seq<char>) -> Option<Keyword> {
    if s == seq!['f', 'n'] || s == seq!['f', 'u', 'n', 'c'] || s == seq!['f', 'u', 'n', 'c', 't', 'i', 'o', 'n'] {
        Some(Keyword::Function)
    } else if s == seq!['l', 'e', 't'] {
        Some(Keyword::Let)
    } else if s == seq!['m', 'u', 't'] {
        Some(Keyword::Mut)
    } else if s == seq!['c', 'o', 'n', 's', 't'] {
        Some(Keyword::Const)
    } else if s == seq!['l', 'o', 'o', 'p'] {
        Some(Keyword::Loop)
    } else if s == seq!['f', 'o', 'r'] {
        Some(Keyword::For)
    } else if s == seq!['w', 'h', 'i', 'l', 'e'] {
        Some(Keyword::While)
    } else if s == seq!['b', 'r', 'e', 'a', 'k'] {
        Some(Keyword::Break)
    } else if s == seq!['c', 'o', 'n', 't', 'i', 'n', 'u', 'e'] {
        Some(Keyword::Continue)
    } else if s == seq!['i', 'f'] {
        Some(Keyword::If)
    } else if s == seq!['e', 'l', 's', 'e'] {
        Some(Keyword::Else)
    } else if s == seq!['m', 'a', 't', 'c', 'h'] {
        Some(Keyword::Match)
    } else if s == seq!['r', 'e', 't', 'u', 'r', 'n'] {
        Some(Keyword::Return)
    } else if s == seq!['s', 't', 'r', 'u', 'c', 't'] {
        Some(Keyword::Struct)
    } else if s == seq!['e', 'n', 'u', 'm'] {
        Some(Keyword::Enum)
    } else if s == seq!['i', 'n', 't', 'e', 'r', 'f', 'a', 'c', 'e'] {
        Some(Keyword::Interface)
    } else if s == seq!['i', 'm', 'p', 'l'] {
        Some(Keyword::Impl)
    } else if s == seq!['e', 'x', 'p', 'o', 'r', 't'] || s == seq!['p', 'u', 'b'] || s == seq![
        'p',
        'u',
        'b',
        'l',
        'i',
        'c',
    ] {
        Some(Keyword::Export)
    } else if s == seq!['t', 'y', 'p', 'e'] {
        Some(Keyword::Type)
    } else if s == seq!['a', 's'] {
        Some(Keyword::As)
    } else if s == seq!['f', 'r', 'o', 'm'] {
        Some(Keyword::From)
    } else if s == seq!['i', 'm', 'p', 'o', 'r', 't'] || s == seq!['u', 's', 'e'] {
        Some(Keyword::Import)
    } else {
        None
    }
}

/// Whether `s` holds exactly the characters of `expected`.
pub(crate) fn text_is(s: &str, expected: &[char]) -> (r: bool)
    ensures
        r == (s@ == expected@),
{
    let n = s.unicode_len();
    if n != expected.len() {
        return false;
    }
    let mut i: usize = 0;
    while i < n
        invariant
            n == s@.len(),
            n == expected@.len(),
            i <= n,
            forall|j: int| 0 <= j < i ==> s@[j] == expected@[j],
        decreases n - i,
    {
        if s.get_char(i) != expected[i] {
            return false;
        }
        i = i + 1;
    }
    proof {
        assert(s@ =~= expected@);
    }
    true
}

impl Keyword {
    /// The keyword spelled by `input`.
    pub fn from_str(input: &str) -> (r: Result<Keyword, KeywordParseError>)
        ensures
            match keyword_of(input@) {
                Some(k) => r == Ok::<Keyword, KeywordParseError>(k),
                None => r matches Err(KeywordParseError::Unknown { found }) && found@ == input@,
            },
    {
        let k = if text_is(input, &['f', 'n']) || text_is(input, &['f', 'u', 'n', 'c']) || text_is(
            input,
            &['f', 'u', 'n', 'c', 't', 'i', 'o', 'n'],
        ) {
            Keyword::Function
        } else if text_is(input, &['l', 'e', 't']) {
            Keyword::Let
        } else if text_is(input, &['m', 'u', 't']) {
            Keyword::Mut
        } else if text_is(input, &['c', 'o', 'n', 's', 't']) {
            Keyword::Const
        } else if text_is(input, &['l', 'o', 'o', 'p']) {
            Keyword::Loop
        } else if text_is(input, &['f', 'o', 'r']) {
            Keyword::For
        } else if text_is(input, &['w', 'h', 'i', 'l', 'e']) {
            Keyword::While
        } else if text_is(input, &['b', 'r', 'e', 'a', 'k']) {
            Keyword::Break
        } else if text_is(input, &['c', 'o', 'n', 't', 'i', 'n', 'u', 'e']) {
            Keyword::Continue
        } else if text_is(input, &['i', 'f']) {
            Keyword::If
        } else if text_is(input, &['e', 'l', 's', 'e']) {
            Keyword::Else
        } else if text_is(input, &['m', 'a', 't', 'c', 'h']) {
            Keyword::Match
        } else if text_is(input, &['r', 'e', 't', 'u', 'r', 'n']) {
            Keyword::Return
        } else if text_is(input, &['s', 't', 'r', 'u', 'c', 't']) {
            Keyword::Struct
        } else if text_is(input, &['e', 'n', 'u', 'm']) {
            Keyword::Enum
        } else if text_is(input, &['i', 'n', 't', 'e', 'r', 'f', 'a', 'c', 'e']) {
            Keyword::Interface
        } else if text_is(input, &['i', 'm', 'p', 'l']) {
            Keyword::Impl
        } else if text_is(input, &['e', 'x', 'p', 'o', 'r', 't']) || text_is(input, &['p', 'u', 'b'])
            || text_is(input, &['p', 'u', 'b', 'l', 'i', 'c']) {
            Keyword::Export
        } else if text_is(input, &['t', 'y', 'p', 'e']) {
            Keyword::Type
        } else if text_is(input, &['a', 's']) {
            Keyword::As
        } else if text_is(input, &['f', 'r', 'o', 'm']) {
            Keyword::From
        } else if text_is(input, &['i', 'm', 'p', 'o', 'r', 't']) || text_is(input, &['u', 's', 'e']) {
            Keyword::Import
        } else {
            return Err(KeywordParseError::Unknown { found: input.to_owned() });
        };
        Ok(k)
    }
}

impl core::str::FromStr for Keyword {
    type Err = KeywordParseError;

    fn from_str(input: &str) -> Result<Keyword, KeywordParseError> {
        Keyword::from_str(input)
    }
}

} // verus!
