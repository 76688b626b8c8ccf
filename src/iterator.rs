use vstd::prelude::*;
use crate::codepoint::{CodePoint, CodePointInterface};

verus! {

/// The error side of a stream: it has a value that signals exhaustion.
pub trait StreamIteratorError: Sized {
    spec fn spec_is_eos(&self) -> bool;

    spec fn spec_eos() -> Self;

    /// The end-of-stream value.
    fn eos() -> (r: Self)
        ensures
            r == Self::spec_eos(),
            r.spec_is_eos(),
    ;

    fn is_eos(&self) -> (r: bool)
        ensures
            r == self.spec_is_eos(),
    ;
}

/// The item side of a stream: some items mark the end of the input, others
/// are to be skipped.
pub trait StreamIteratorItem: Sized {
    spec fn spec_is_eof(&self) -> bool;

    spec fn spec_is_ignored(&self) -> bool;

    fn is_eof(&self) -> (r: bool)
        ensures
            r == self.spec_is_eof(),
    ;

    fn is_ignored(&self) -> (r: bool)
        ensures
            r == self.spec_is_ignored(),
    ;
}

/// Marker for the buffers that back a stream.
pub trait StreamIteratorQueue {
}

/// Whether a stream result marks the end: an end-of-file item or the
/// end-of-stream error.
pub open spec fn is_stop<T: StreamIteratorItem, E: StreamIteratorError>(r: Result<T, E>) -> bool {
    match r {
        Ok(t) => t.spec_is_eof(),
        Err(e) => e.spec_is_eos(),
    }
}

/// A stream that can be consumed item by item and peeked without consuming.
///
/// `produced` is what the stream will give, in order, up to and including
/// the first result that marks the end.
pub trait StreamIterator: Sized {
    type Item: StreamIteratorItem;

    type Error: StreamIteratorError;

    spec fn stream_wf(&self) -> bool;

    spec fn produced(&self) -> Seq<Result<Self::Item, Self::Error>>;

    fn consume_next(&mut self) -> (r: Result<Self::Item, Self::Error>)
        requires
            old(self).stream_wf(),
        ensures
            final(self).stream_wf(),
            old(self).produced().len() > 0,
            r == old(self).produced()[0],
            !is_stop(r) ==> final(self).produced() == old(self).produced().drop_first(),
    ;

    fn peek_next(&mut self) -> (r: Result<Self::Item, Self::Error>)
        requires
            old(self).stream_wf(),
        ensures
            final(self).stream_wf(),
            final(self).produced() == old(self).produced(),
            old(self).produced().len() > 0,
            r == old(self).produced()[0],
    ;

    fn current(&self) -> Option<Self::Item>;
}

impl<U: CodePointInterface> StreamIteratorItem for CodePoint<U> {
    open spec fn spec_is_eof(&self) -> bool {
        *self is EOF
    }

    open spec fn spec_is_ignored(&self) -> bool {
        *self is Ignore
    }

    fn is_eof(&self) -> (r: bool) {
        matches!(self, CodePoint::EOF)
    }

    fn is_ignored(&self) -> (r: bool) {
        matches!(self, CodePoint::Ignore)
    }
}

} // verus!
