use vstd::prelude::*;
use crate::codepoint::{CodePoint, CodePointInterface};
use crate::delimiter::{codes_of, displayed_codes};
use crate::input::{InputStream, ScanFilter};
use crate::keyword::text_is;
use crate::location::{push_char, Location};

verus! {

#[derive(Debug, Clone, Copy, PartialEq, Eq)]
pub enum CommentParseError {
    /// The input ended inside the comment; the location is where the comment
    /// starts.
    Unterminated { line: usize, column: usize },
    /// What follows is not a comment.
    IsNot,
}

/// `// ...` comments run to the end of the line, `/* ... */` comments to
/// the closing pair.
#[derive(Debug, Clone, Copy, PartialEq, Eq)]
pub enum CommentType {
    Line,
    Block,
}

impl CommentType {
    pub fn define(&mut self, ty: Self)
        ensures
            *final(self) == ty,
    {
        *self = ty;
    }
}

/// The upper-case form of a text, as Unicode case mapping gives it.
pub uninterp spec fn uppercase_of(s: Seq<char>) -> Seq<char>;

/// Relies on `str::to_uppercase`: the result depends on the characters alone.
#[verifier::external_body]
fn uppercase(s: &str) -> (r: String)
    ensures
        r@ == uppercase_of(s@),
{
    s.to_uppercase()
}

pub const COMMENT_TYPE_ERROR: &'static str = "a comment type is LINE or BLOCK";

/// The comment type that an upper-case name denotes.
pub open spec fn comment_type_named(name: Seq<char>) -> Option<CommentType> {
    if name == seq!['L', 'I', 'N', 'E'] {
        Some(CommentType::Line)
    } else if name == seq!['B', 'L', 'O', 'C', 'K'] {
        Some(CommentType::Block)
    } else {
        None
    }
}

impl CommentType {
    /// The comment type named `LINE` or `BLOCK`, exactly so.
    pub fn from_uppercase(name: &str) -> (r: Result<CommentType, &'static str>)
        ensures
            r == match comment_type_named(name@) {
                Some(t) => Ok::<CommentType, &'static str>(t),
                None => Err::<CommentType, &'static str>(COMMENT_TYPE_ERROR),
            },
    {
        if text_is(name, &['L', 'I', 'N', 'E']) {
            Ok(CommentType::Line)
        } else if text_is(name, &['B', 'L', 'O', 'C', 'K']) {
            Ok(CommentType::Block)
        } else {
            Err(COMMENT_TYPE_ERROR)
        }
    }

    /// The comment type named `LINE` or `BLOCK`, in any case.
    pub fn from_str(input: &str) -> (r: Result<CommentType, &'static str>)
        ensures
            r == match comment_type_named(uppercase_of(input@)) {
                Some(t) => Ok::<CommentType, &'static str>(t),
                None => Err::<CommentType, &'static str>(COMMENT_TYPE_ERROR),
            },
    {
        let upper = uppercase(input);
        CommentType::from_uppercase(upper.as_str())
    }

    /// The name of the comment type: `LINE` or `BLOCK`.
    pub fn to_string(&self) -> (r: String)
        ensures
            comment_type_named(r@) == Some(*self),
    {
        proof {
            reveal_strlit("LINE");
            reveal_strlit("BLOCK");
        }
        match self {
            CommentType::Line => {
                let r = "LINE".to_owned();
                proof {
                    assert(r@ =~= seq!['L', 'I', 'N', 'E']);
                }
                r
            },
            CommentType::Block => {
                let r = "BLOCK".to_owned();
                proof {
                    assert(r@ =~= seq!['B', 'L', 'O', 'C', 'K']);
                }
                r
            },
        }
    }
}

impl core::str::FromStr for CommentType {
    type Err = &'static str;

    fn from_str(input: &str) -> Result<CommentType, &'static str> {
        CommentType::from_str(input)
    }
}

impl Default for CommentType {
    fn default() -> (r: Self)
        ensures
            r == CommentType::Block,
    {
        CommentType::Block
    }
}

#[derive(Debug, Clone, PartialEq, Eq)]
pub struct CommentOutput {
    /// The text of the comment, without its delimiters.
    pub data: String,
    pub ty: CommentType,
    pub location: Location,
}

/// The states that a comment is read through.
#[derive(Debug, Clone, Copy, PartialEq, Eq)]
pub enum CommentState {
    Initial,
    Start,
    Singleline,
    SinglelineEnd,
    Multiline,
    MultilineAfterFirstCodePoint,
    MultilineEnd,
}

impl CommentState {
    pub fn switch(&mut self, state: CommentState)
        ensures
            *final(self) == state,
    {
        *self = state;
    }
}

impl Default for CommentState {
    fn default() -> (r: Self)
        ensures
            r == CommentState::Initial,
    {
        CommentState::Initial
    }
}

/// Where a line comment whose text starts at `i` ends: at the first
/// `Newline` or `EOF`, or at the end of the input.
pub open spec fn line_end<U>(u: Seq<CodePoint<U>>, i: int) -> int
    decreases u.len() - i,
{
    if i >= u.len() || u[i] is Newline || u[i] is EOF {
        i
    } else {
        line_end(u, i + 1)
    }
}

/// Where the `*` of the closing `*/` of a block comment whose text starts at
/// `i` stands; `None` when the input (or an `EOF`) comes first.
pub open spec fn block_end<U>(u: Seq<CodePoint<U>>, i: int) -> Option<int>
    decreases u.len() - i,
{
    if i < 0 || i >= u.len() || u[i] is EOF {
        None
    } else if u[i] is ASTERISK && i + 1 < u.len() && u[i + 1] is SOLIDUS {
        Some(i)
    } else {
        block_end(u, i + 1)
    }
}

pub open spec fn opens_comment<U>(u: Seq<CodePoint<U>>) -> bool {
    u.len() >= 2 && u[0] is SOLIDUS && (u[1] is SOLIDUS || u[1] is ASTERISK)
}

proof fn lemma_line_end_bounds<U>(u: Seq<CodePoint<U>>, i: int)
    requires
        0 <= i <= u.len(),
    ensures
        i <= line_end(u, i) <= u.len(),
    decreases u.len() - i,
{
    if !(i >= u.len() || u[i] is Newline || u[i] is EOF) {
        lemma_line_end_bounds(u, i + 1);
    }
}

proof fn lemma_displayed_push<U: CodePointInterface>(u: Seq<CodePoint<U>>, a: int, b: int)
    requires
        0 <= a <= b < u.len(),
    ensures
        displayed_codes(u.subrange(a, b + 1)) == match u[b].unit_code() {
            Some(c) => displayed_codes(u.subrange(a, b)).push(c),
            None => displayed_codes(u.subrange(a, b)),
        },
{
    assert(u.subrange(a, b + 1).drop_last() =~= u.subrange(a, b));
}

/// Appends the character that `c` displays, if any.
pub(crate) fn push_displayed<U: CodePointInterface>(text: &mut String, c: CodePoint<U>)
    ensures
        codes_of(final(text)@) == match c.unit_code() {
            Some(code) => codes_of(old(text)@).push(code),
            None => codes_of(old(text)@),
        },
{
    match c.maybe_unit() {
        Some(ch) => {
            push_char(text, ch);
            proof {
                assert(codes_of(final(text)@) =~= codes_of(old(text)@).push(ch as u32));
            }
        },
        None => {},
    }
}

/// Reads a comment that starts at `location`.
///
/// `//` opens a line comment, which takes everything up to (not including)
/// the next `Newline` or the end of the input. `/*` opens a block comment,
/// which takes everything up to the first `*/`; if the input ends first, the
/// comment is unterminated. Anything else is no comment, and nothing is
/// consumed.
pub fn consume_comments<U: CodePointInterface, F: ScanFilter<U>>(
    stream: &mut InputStream<U, F>,
    location: Location,
) -> (r: Result<CommentOutput, CommentParseError>)
    requires
        old(stream).wf(),
    ensures
        final(stream).wf(),
        final(stream).filter() == old(stream).filter(),
        ({
            let u = old(stream).upcoming();
            if !opens_comment(u) {
                r == Err::<CommentOutput, CommentParseError>(CommentParseError::IsNot)
                    && final(stream).upcoming() == u
            } else if u[1] is SOLIDUS {
                let e = line_end(u, 2);
                &&& r is Ok
                &&& r->Ok_0.ty == CommentType::Line
                &&& r->Ok_0.location == location
                &&& codes_of(r->Ok_0.data@) == displayed_codes(u.subrange(2, e))
                &&& final(stream).upcoming() == u.skip(e)
            } else {
                match block_end(u, 2) {
                    Some(j) => {
                        &&& r is Ok
                        &&& r->Ok_0.ty == CommentType::Block
                        &&& r->Ok_0.location == location
                        &&& codes_of(r->Ok_0.data@) == displayed_codes(u.subrange(2, j))
                        &&& final(stream).upcoming() == u.skip(j + 2)
                    },
                    None => r == Err::<CommentOutput, CommentParseError>(
                        CommentParseError::Unterminated { line: location.line, column: location.column },
                    ),
                }
            }
        }),
{
    let ghost u = stream.upcoming();
    proof {
        crate::input::lemma_upcoming_fits(*stream);
    }
    let ahead = stream.peek_n_next(2);
    let is_line = match (ahead[0], ahead[1]) {
        (Ok(CodePoint::SOLIDUS), Ok(CodePoint::SOLIDUS)) => true,
        (Ok(CodePoint::SOLIDUS), Ok(CodePoint::ASTERISK)) => false,
        _ => {
            return Err(CommentParseError::IsNot);
        },
    };
    proof {
        assert(ahead@[0] == Ok::<CodePoint<U>, crate::input::InputStreamError>(u[0]));
        assert(ahead@[1] == Ok::<CodePoint<U>, crate::input::InputStreamError>(u[1]));
    }
    let _ = stream.consume_next();
    let _ = stream.consume_next();
    proof {
        assert(u.drop_first().drop_first() =~= u.skip(2));
    }
    let mut data = String::new();
    let mut i: usize = 2;
    proof {
        assert(u.subrange(2, 2) =~= Seq::<CodePoint<U>>::empty());
        assert(codes_of(data@) =~= Seq::<u32>::empty());
        assert(displayed_codes(u.subrange(2, 2)) =~= Seq::<u32>::empty());
    }
    if is_line {
        proof {
            lemma_line_end_bounds(u, 2);
        }
        loop
            invariant
                stream.wf(),
                stream.filter() == old(stream).filter(),
                u == old(stream).upcoming(),
                u.len() <= usize::MAX,
                opens_comment(u) && u[1] is SOLIDUS,
                2 <= i <= line_end(u, 2),
                line_end(u, 2) <= u.len(),
                line_end(u, i as int) == line_end(u, 2),
                stream.upcoming() == u.skip(i as int),
                codes_of(data@) == displayed_codes(u.subrange(2, i as int)),
            ensures
                i == line_end(u, 2),
            decreases u.len() - i,
        {
            let next = match stream.peek_next() {
                Ok(c) => c,
                Err(_) => CodePoint::EOF,
            };
            if matches!(next, CodePoint::Newline(_)) || matches!(next, CodePoint::EOF) {
                proof {
                    if i < u.len() {
                        assert(u.skip(i as int)[0] == u[i as int]);
                    }
                    assert(line_end(u, i as int) == i);
                }
                break;
            }
            proof {
                assert(u.skip(i as int)[0] == u[i as int]);
                assert(u.skip(i as int).drop_first() =~= u.skip(i + 1));
                lemma_displayed_push(u, 2, i as int);
                assert(line_end(u, i as int) == line_end(u, i + 1));
                lemma_line_end_bounds(u, i + 1);
            }
            let c = match stream.consume_next() {
                Ok(c) => c,
                Err(_) => CodePoint::EOF,
            };
            push_displayed(&mut data, c);
            i = i + 1;
        }
        Ok(CommentOutput { data, ty: CommentType::Line, location })
    } else {
        loop
            invariant
                stream.wf(),
                stream.filter() == old(stream).filter(),
                u == old(stream).upcoming(),
                u.len() <= usize::MAX,
                opens_comment(u) && u[1] is ASTERISK,
                2 <= i <= u.len(),
                block_end(u, i as int) == block_end(u, 2),
                stream.upcoming() == u.skip(i as int),
                codes_of(data@) == displayed_codes(u.subrange(2, i as int)),
            decreases u.len() - i,
        {
            let c = match stream.consume_next() {
                Ok(c) => c,
                Err(_) => CodePoint::EOF,
            };
            if matches!(c, CodePoint::EOF) {
                proof {
                    if i < u.len() {
                        assert(u.skip(i as int)[0] == u[i as int]);
                    }
                    assert(block_end(u, i as int) is None);
                }
                return Err(CommentParseError::Unterminated { line: location.line, column: location.column });
            }
            proof {
                assert(u.skip(i as int)[0] == u[i as int]);
                assert(u.skip(i as int).drop_first() =~= u.skip(i + 1));
                lemma_displayed_push(u, 2, i as int);
            }
            if matches!(c, CodePoint::ASTERISK) {
                let next = match stream.peek_next() {
                    Ok(n) => n,
                    Err(_) => CodePoint::EOF,
                };
                if matches!(next, CodePoint::SOLIDUS) {
                    proof {
                        assert(u.skip(i + 1)[0] == u[i + 1]);
                        assert(u.skip(i + 1).drop_first() =~= u.skip(i + 2));
                        assert(block_end(u, i as int) == Some(i as int));
                    }
                    let _ = stream.consume_next();
                    return Ok(CommentOutput { data, ty: CommentType::Block, location });
                }
            }
            proof {
                assert(block_end(u, i as int) == block_end(u, i + 1));
            }
            push_displayed(&mut data, c);
            i = i + 1;
        }
    }
}

} // verus!
