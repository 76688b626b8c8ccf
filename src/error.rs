use vstd::prelude::*;
use crate::comment::CommentParseError;
use crate::delimiter::DelimiterParseError;
use crate::iterator::StreamIteratorError;

verus! {

/// An error of the lexical analysis, wrapping the error of the sub-system
/// that raised it.
#[derive(Debug, Clone, PartialEq, Eq)]
pub enum LexicalError {
    Comment(CommentParseError),
    Delimiter(DelimiterParseError),
    EOS,
}

impl From<CommentParseError> for LexicalError {
    fn from(error: CommentParseError) -> (r: Self) {
        LexicalError::Comment(error)
    }
}

impl vstd::std_specs::convert::FromSpecImpl<CommentParseError> for LexicalError {
    open spec fn obeys_from_spec() -> bool {
        true
    }

    open spec fn from_spec(error: CommentParseError) -> Self {
        LexicalError::Comment(error)
    }
}

impl From<DelimiterParseError> for LexicalError {
    fn from(error: DelimiterParseError) -> (r: Self) {
        LexicalError::Delimiter(error)
    }
}

impl vstd::std_specs::convert::FromSpecImpl<DelimiterParseError> for LexicalError {
    open spec fn obeys_from_spec() -> bool {
        true
    }

    open spec fn from_spec(error: DelimiterParseError) -> Self {
        LexicalError::Delimiter(error)
    }
}

impl StreamIteratorError for LexicalError {
    open spec fn spec_is_eos(&self) -> bool {
        *self is EOS
    }

    open spec fn spec_eos() -> Self {
        LexicalError::EOS
    }

    fn eos() -> (r: Self) {
        LexicalError::EOS
    }

    fn is_eos(&self) -> (r: bool) {
        matches!(self, LexicalError::EOS)
    }
}

} // verus!
