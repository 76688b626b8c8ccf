use vstd::prelude::*;
use crate::codepoint::{classify, CodePoint, CodePointInterface};
use crate::iterator::{StreamIterator, StreamIteratorError};
use crate::queue::Queue;

verus! {

/// How an input stream turns a raw unit into a code point. A filter may map
/// a unit to `Ignore`, which hides it from every reader of the stream.
pub trait ScanFilter<U> {
    spec fn spec_scan(&self, unit: U) -> CodePoint<U>;

    fn scan(&self, unit: &U) -> (r: CodePoint<U>)
        ensures
            r == self.spec_scan(*unit),
    ;
}

/// The default filter: plain classification, nothing ignored.
#[derive(Debug, Clone, Copy)]
pub struct DefaultFilter;

impl<U: CodePointInterface> ScanFilter<U> for DefaultFilter {
    open spec fn spec_scan(&self, unit: U) -> CodePoint<U> {
        classify(unit)
    }

    fn scan(&self, unit: &U) -> (r: CodePoint<U>) {
        CodePoint::from_unit(*unit)
    }
}

/// The code points that readers see for the units `s`: each unit through the
/// filter, with those it maps to `Ignore` left out.
pub open spec fn visible<U, F: ScanFilter<U>>(f: F, s: Seq<U>) -> Seq<CodePoint<U>>
    decreases s.len(),
{
    if s.len() == 0 {
        Seq::empty()
    } else if f.spec_scan(s[0]) is Ignore {
        visible(f, s.drop_first())
    } else {
        seq![f.spec_scan(s[0])] + visible(f, s.drop_first())
    }
}

/// Whatever the filter, readers never see an `Ignore` and never see more code
/// points than there are units.
pub proof fn lemma_visible_hides_ignored<U, F: ScanFilter<U>>(f: F, s: Seq<U>)
    ensures
        visible(f, s).len() <= s.len(),
        forall|i: int| 0 <= i < visible(f, s).len() ==> !(#[trigger] visible(f, s)[i] is Ignore),
    decreases s.len(),
{
    if s.len() > 0 {
        lemma_visible_hides_ignored(f, s.drop_first());
        if !(f.spec_scan(s[0]) is Ignore) {
            let v = visible(f, s);
            assert forall|i: int| 0 <= i < v.len() implies !(#[trigger] v[i] is Ignore) by {
                if i > 0 {
                    assert(v[i] == visible(f, s.drop_first())[i - 1]);
                }
            }
        }
    }
}

#[derive(Debug, Clone, Copy, PartialEq, Eq)]
pub enum InputStreamError {
    EOS,
}

impl StreamIteratorError for InputStreamError {
    open spec fn spec_is_eos(&self) -> bool {
        *self is EOS
    }

    open spec fn spec_eos() -> Self {
        InputStreamError::EOS
    }

    fn eos() -> (r: Self) {
        InputStreamError::EOS
    }

    fn is_eos(&self) -> (r: bool) {
        matches!(self, InputStreamError::EOS)
    }
}

/// A stream of code points over a sequence of units, read through a filter.
pub struct InputStream<U, F = DefaultFilter> {
    queue: Queue<U>,
    filter_scan_fn: F,
    current_input: Option<U>,
}

impl<U: CodePointInterface, F: ScanFilter<U>> InputStream<U, F> {
    pub closed spec fn wf(&self) -> bool {
        self.queue.wf()
    }

    pub closed spec fn queue(&self) -> Queue<U> {
        self.queue
    }

    pub closed spec fn filter(&self) -> F {
        self.filter_scan_fn
    }

    /// The raw units not yet consumed.
    pub closed spec fn pending(&self) -> Seq<U> {
        self.queue.pending()
    }

    /// The raw units consumed so far, ignored ones included.
    pub closed spec fn consumed(&self) -> Seq<U> {
        self.queue.consumed()
    }

    /// The units that the stream was made from.
    pub closed spec fn source(&self) -> Seq<U> {
        self.queue.source()
    }

    /// The code points still to be read.
    pub open spec fn upcoming(&self) -> Seq<CodePoint<U>> {
        visible(self.filter(), self.pending())
    }

    /// The last unit consumed, if the last consume found one.
    pub closed spec fn current_unit(&self) -> Option<U> {
        self.current_input
    }

    /// The current unit was the last one taken from the queue, so it can be
    /// put back.
    pub open spec fn can_reconsume(&self) -> bool {
        &&& self.current_unit() is Some
        &&& self.consumed().len() > 0
        &&& self.current_unit()->0 == self.consumed().last()
    }

    /// Replaces the filter; what was consumed stays consumed.
    pub fn define_filter_scan<G: ScanFilter<U>>(self, filter_scan_fn: G) -> (r: InputStream<U, G>)
        requires
            self.wf(),
        ensures
            r.wf(),
            r.filter() == filter_scan_fn,
            r.pending() == self.pending(),
            r.consumed() == self.consumed(),
            r.source() == self.source(),
            r.current_unit() == self.current_unit(),
    {
        InputStream { queue: self.queue, filter_scan_fn, current_input: self.current_input }
    }

    /// The queue of raw units under the stream.
    pub fn meanwhile(&mut self) -> (r: &mut Queue<U>)
        ensures
            *r == old(self).queue(),
            final(self).queue() == *final(r),
            final(self).filter() == old(self).filter(),
            final(self).current_unit() == old(self).current_unit(),
    {
        &mut self.queue
    }

    /// The code point of the last unit consumed, through the filter.
    pub fn current(&self) -> (r: Option<CodePoint<U>>)
        ensures
            r == match self.current_unit() {
                Some(u) => Some(self.filter().spec_scan(u)),
                None => None::<CodePoint<U>>,
            },
    {
        match self.current_input {
            Some(u) => Some(self.filter_scan_fn.scan(&u)),
            None => None,
        }
    }

    /// Consumes the next code point, passing over the units that the filter
    /// ignores. At the end of the input every consume gives `EOF`.
    pub fn consume_next(&mut self) -> (r: Result<CodePoint<U>, InputStreamError>)
        requires
            old(self).wf(),
        ensures
            final(self).wf(),
            final(self).filter() == old(self).filter(),
            final(self).source() == old(self).source(),
            !(r matches Ok(CodePoint::Ignore)),
            ({
                let k = final(self).consumed().len() - old(self).consumed().len();
                &&& 0 <= k <= old(self).pending().len()
                &&& final(self).consumed() == old(self).consumed() + old(self).pending().take(k)
                &&& final(self).pending() == old(self).pending().skip(k)
                &&& old(self).upcoming().len() == 0 ==> k == old(self).pending().len()
                &&& forall|j: int|
                    old(self).consumed().len() <= j < final(self).consumed().len() - (if old(self).upcoming().len()
                        > 0 { 1int } else { 0int }) ==> (#[trigger] old(self).filter().spec_scan(
                        final(self).consumed()[j],
                    )) is Ignore
            }),
            old(self).upcoming().len() == 0 ==> {
                &&& r == Ok::<CodePoint<U>, InputStreamError>(CodePoint::EOF)
                &&& final(self).pending().len() == 0
                &&& final(self).consumed() == final(self).source()
                &&& final(self).current_unit() is None
            },
            old(self).upcoming().len() > 0 ==> {
                &&& r == Ok::<CodePoint<U>, InputStreamError>(old(self).upcoming()[0])
                &&& final(self).upcoming() == old(self).upcoming().drop_first()
                &&& final(self).pending().len() < old(self).pending().len()
                &&& final(self).can_reconsume()
                &&& final(self).current_unit() is Some
                &&& old(self).filter().spec_scan(final(self).current_unit()->0) == old(self).upcoming()[0]
            },
    {
        let ghost c0 = self.queue.consumed();
        let ghost p0 = self.queue.pending();
        proof {
            assert(p0.take(0) =~= Seq::<U>::empty());
            assert(c0 + p0.take(0) =~= c0);
            assert(p0.skip(0) =~= p0);
        }
        proof {
            lemma_visible_hides_ignored(self.filter_scan_fn, self.queue.pending());
        }
        loop
            invariant
                self.queue.wf(),
                self.filter_scan_fn == old(self).filter_scan_fn,
                self.queue.source() == old(self).queue.source(),
                visible(self.filter_scan_fn, self.queue.pending()) == old(self).upcoming(),
                self.queue.pending().len() <= old(self).pending().len(),
                c0 == old(self).consumed(),
                p0 == old(self).pending(),
                c0.len() <= self.queue.consumed().len() <= c0.len() + p0.len(),
                self.queue.consumed() == c0 + p0.take(self.queue.consumed().len() - c0.len()),
                self.queue.pending() == p0.skip(self.queue.consumed().len() - c0.len()),
                forall|j: int|
                    c0.len() <= j < self.queue.consumed().len() ==> (#[trigger] self.filter_scan_fn.spec_scan(
                        self.queue.consumed()[j],
                    )) is Ignore,
            decreases self.queue.pending().len(),
        {
            let ghost before = self.queue.pending();
            let ghost k = self.queue.consumed().len() - c0.len();
            match self.queue.next() {
                None => {
                    self.current_input = None;
                    proof {
                        lemma_consumed_all(self.queue);
                        assert(before.len() == 0);
                        assert(p0.skip(k).len() == 0);
                    }
                    return Ok(CodePoint::EOF);
                },
                Some(unit) => {
                    self.current_input = Some(unit);
                    let codepoint = self.filter_scan_fn.scan(&unit);
                    proof {
                        assert(before[0] == unit);
                        assert(p0.skip(k) =~= before);
                        assert(p0.take(k + 1) =~= p0.take(k).push(unit));
                        assert(self.queue.consumed() =~= c0 + p0.take(k + 1));
                        assert(self.queue.pending() =~= p0.skip(k + 1));
                        assert(self.queue.consumed()[self.queue.consumed().len() - 1] == unit);
                    }
                    if !matches!(codepoint, CodePoint::Ignore) {
                        proof {
                            assert(visible(self.filter_scan_fn, before) == seq![codepoint] + visible(
                                self.filter_scan_fn,
                                self.queue.pending(),
                            ));
                            assert((seq![codepoint] + visible(self.filter_scan_fn, self.queue.pending())).drop_first()
                                =~= visible(self.filter_scan_fn, self.queue.pending()));
                        }
                        return Ok(codepoint);
                    }
                },
            }
        }
    }

    /// The code point that is `n` places ahead in the queue if the first `n`
    /// units are all ignored; `None` when the queue holds no unit there.
    fn peek_visible(&mut self) -> (r: Option<CodePoint<U>>)
        requires
            old(self).wf(),
        ensures
            final(self).wf(),
            final(self).filter() == old(self).filter(),
            final(self).pending() == old(self).pending(),
            final(self).consumed() == old(self).consumed(),
            final(self).source() == old(self).source(),
            final(self).current_unit() == old(self).current_unit(),
            r == if old(self).upcoming().len() > 0 { Some(old(self).upcoming()[0]) } else { None },
    {
        let ghost p = self.queue.pending();
        let mut i: usize = 0;
        proof {
            assert(p.skip(0) =~= p);
        }
        loop
            invariant
                self.queue.wf(),
                self.filter_scan_fn == old(self).filter_scan_fn,
                self.queue.pending() == p,
                p == old(self).pending(),
                self.queue.consumed() == old(self).consumed(),
                self.queue.source() == old(self).source(),
                self.current_input == old(self).current_input,
                i <= p.len(),
                visible(self.filter_scan_fn, p) == visible(self.filter_scan_fn, p.skip(i as int)),
            decreases p.len() - i,
        {
            match self.queue.peek_at(i) {
                None => {
                    proof {
                        assert(p.skip(i as int) =~= Seq::<U>::empty());
                    }
                    return None;
                },
                Some(unit) => {
                    let codepoint = self.filter_scan_fn.scan(&unit);
                    proof {
                        assert(p.skip(i as int)[0] == unit);
                        assert(p.skip(i as int).drop_first() =~= p.skip(i + 1));
                    }
                    if !matches!(codepoint, CodePoint::Ignore) {
                        return Some(codepoint);
                    }
                    proof {
                        crate::queue::lemma_consumed_is_source_prefix(self.queue);
                    }
                    i = i + 1;
                },
            }
        }
    }

    /// The code point that the next consume will give, without consuming.
    pub fn peek_next(&mut self) -> (r: Result<CodePoint<U>, InputStreamError>)
        requires
            old(self).wf(),
        ensures
            final(self).wf(),
            final(self).filter() == old(self).filter(),
            final(self).pending() == old(self).pending(),
            final(self).consumed() == old(self).consumed(),
            final(self).source() == old(self).source(),
            final(self).current_unit() == old(self).current_unit(),
            r == Ok::<CodePoint<U>, InputStreamError>(
                if old(self).upcoming().len() > 0 { old(self).upcoming()[0] } else { CodePoint::EOF },
            ),
    {
        match self.peek_visible() {
            Some(codepoint) => Ok(codepoint),
            None => Ok(CodePoint::EOF),
        }
    }

    /// The next `n` code points, without consuming; positions past the end
    /// of the input hold `EOF`.
    pub fn peek_n_next(&mut self, n: usize) -> (r: Vec<Result<CodePoint<U>, InputStreamError>>)
        requires
            old(self).wf(),
        ensures
            final(self).wf(),
            final(self).filter() == old(self).filter(),
            final(self).pending() == old(self).pending(),
            final(self).consumed() == old(self).consumed(),
            final(self).source() == old(self).source(),
            final(self).current_unit() == old(self).current_unit(),
            r.len() == n,
            forall|i: int|
                0 <= i < n ==> #[trigger] r@[i] == Ok::<CodePoint<U>, InputStreamError>(
                    if i < old(self).upcoming().len() { old(self).upcoming()[i] } else { CodePoint::EOF },
                ),
    {
        let ghost p = self.queue.pending();
        let ghost u = self.upcoming();
        let mut r: Vec<Result<CodePoint<U>, InputStreamError>> = Vec::new();
        let mut j: usize = 0;
        proof {
            assert(p.skip(0) =~= p);
            assert(u =~= r@.map_values(|x: Result<CodePoint<U>, InputStreamError>| x->Ok_0) + visible(
                self.filter_scan_fn,
                p.skip(0),
            ));
        }
        while r.len() < n
            invariant
                self.queue.wf(),
                self.filter_scan_fn == old(self).filter_scan_fn,
                self.queue.pending() == p,
                p == old(self).pending(),
                u == old(self).upcoming(),
                self.queue.consumed() == old(self).consumed(),
                self.queue.source() == old(self).source(),
                self.current_input == old(self).current_input,
                j <= p.len(),
                r.len() <= n,
                forall|i: int| 0 <= i < r.len() ==> #[trigger] r@[i] is Ok,
                u == r@.map_values(|x: Result<CodePoint<U>, InputStreamError>| x->Ok_0) + visible(
                    self.filter_scan_fn,
                    p.skip(j as int),
                ),
            ensures
                r.len() == n || j == p.len(),
            decreases p.len() - j,
        {
            let unit = match self.queue.peek_at(j) {
                Some(unit) => unit,
                None => {
                    break;
                },
            };
            let codepoint = self.filter_scan_fn.scan(&unit);
            proof {
                assert(p.skip(j as int)[0] == unit);
                assert(p.skip(j as int).drop_first() =~= p.skip(j + 1));
                crate::queue::lemma_consumed_is_source_prefix(self.queue);
            }
            if !matches!(codepoint, CodePoint::Ignore) {
                let ghost before = r@;
                r.push(Ok(codepoint));
                proof {
                    assert(r@.map_values(|x: Result<CodePoint<U>, InputStreamError>| x->Ok_0) =~= before.map_values(
                        |x: Result<CodePoint<U>, InputStreamError>| x->Ok_0,
                    ).push(codepoint));
                }
            }
            j = j + 1;
        }
        let ghost found = r.len();
        proof {
            if r.len() < n {
                assert(p.skip(j as int) =~= Seq::<U>::empty());
            }
            assert(u.take(found as int) =~= r@.map_values(|x: Result<CodePoint<U>, InputStreamError>| x->Ok_0));
        }
        while r.len() < n
            invariant
                found <= r.len() <= n,
                found < n ==> u.len() == found,
                forall|i: int| 0 <= i < found ==> #[trigger] r@[i] == Ok::<CodePoint<U>, InputStreamError>(u[i]),
                forall|i: int| found <= i < r.len() ==> #[trigger] r@[i] == Ok::<CodePoint<U>, InputStreamError>(CodePoint::EOF),
            decreases n - r.len(),
        {
            r.push(Ok(CodePoint::EOF));
        }
        proof {
            assert forall|i: int| 0 <= i < found implies #[trigger] r@[i] == Ok::<CodePoint<U>, InputStreamError>(u[i]) by {
                assert(u.take(found as int)[i] == u[i]);
            }
        }
        r
    }

    /// Puts the last consumed unit back, so that the next consume reads it
    /// again.
    pub fn reconsume_current(&mut self)
        requires
            old(self).wf(),
            old(self).can_reconsume(),
        ensures
            final(self).wf(),
            final(self).filter() == old(self).filter(),
            final(self).source() == old(self).source(),
            final(self).current_unit() == old(self).current_unit(),
            final(self).pending() == seq![old(self).current_unit()->0] + old(self).pending(),
            final(self).consumed() == old(self).consumed().drop_last(),
            !(old(self).filter().spec_scan(old(self).current_unit()->0) is Ignore) ==> final(self).upcoming()
                == seq![old(self).filter().spec_scan(old(self).current_unit()->0)] + old(self).upcoming(),
    {
        let own_current_input = self.current_input;
        self.queue.reconsume(own_current_input);
        proof {
            let p = self.queue.pending();
            assert(p.drop_first() =~= old(self).pending());
        }
    }

    /// Consumes code points while `predicate` holds of the next one, stopping
    /// at the end of the input.
    fn advance_while<P: Fn(&CodePoint<U>) -> bool>(&mut self, predicate: &P) -> (r: Vec<CodePoint<U>>)
        requires
            old(self).wf(),
            forall|c: &CodePoint<U>| predicate.requires((c,)),
        ensures
            final(self).wf(),
            final(self).filter() == old(self).filter(),
            final(self).source() == old(self).source(),
            r.len() <= old(self).upcoming().len(),
            r@ == old(self).upcoming().take(r.len() as int),
            final(self).upcoming() == old(self).upcoming().skip(r.len() as int),
            forall|i: int| 0 <= i < r.len() ==> predicate.ensures((&r@[i],), true),
            r.len() == old(self).upcoming().len() || predicate.ensures(
                (&old(self).upcoming()[r.len() as int],),
                false,
            ),
    {
        let mut result: Vec<CodePoint<U>> = Vec::new();
        let ghost start = self.upcoming();
        proof {
            assert(start.skip(0) =~= start);
        }
        loop
            invariant
                self.wf(),
                self.filter() == old(self).filter(),
                self.source() == old(self).source(),
                start == old(self).upcoming(),
                forall|c: &CodePoint<U>| predicate.requires((c,)),
                result.len() <= start.len(),
                result@ == start.take(result.len() as int),
                self.upcoming() == start.skip(result.len() as int),
                forall|i: int| 0 <= i < result.len() ==> predicate.ensures((&result@[i],), true),
            decreases start.len() - result.len(),
        {
            let next = match self.peek_visible() {
                Some(codepoint) => codepoint,
                None => {
                    return result;
                },
            };
            if !(*predicate)(&next) {
                return result;
            }
            let _ = self.consume_next();
            proof {
                assert(start.skip(result.len() as int)[0] == start[result.len() as int]);
                assert(start.skip(result.len() as int).drop_first() =~= start.skip(result.len() + 1));
                assert(start.take(result.len() + 1) =~= start.take(result.len() as int).push(next));
            }
            result.push(next);
        }
    }

    /// Consumes code points while `predicate` holds of the next one, at most
    /// `limit + 1` of them. Past the end of the input the next code point is
    /// `EOF`, so `EOF` is taken again for as long as the predicate holds of it.
    fn advance_bounded<P: Fn(&CodePoint<U>) -> bool>(&mut self, predicate: &P, limit: usize) -> (r: Vec<
        CodePoint<U>,
    >)
        requires
            old(self).wf(),
            forall|c: &CodePoint<U>| predicate.requires((c,)),
        ensures
            final(self).wf(),
            final(self).filter() == old(self).filter(),
            final(self).source() == old(self).source(),
            r.len() <= limit + 1,
            forall|i: int| 0 <= i < r.len() ==> #[trigger] r@[i] == upcoming_or_eof(old(self).upcoming(), i),
            forall|i: int| 0 <= i < r.len() ==> predicate.ensures((&r@[i],), true),
            r.len() == limit + 1 || predicate.ensures((&upcoming_or_eof(old(self).upcoming(), r.len() as int),), false),
            final(self).upcoming() == old(self).upcoming().skip(min_int(r.len() as int, old(self).upcoming().len() as int)),
    {
        let mut result: Vec<CodePoint<U>> = Vec::new();
        let ghost start = self.upcoming();
        proof {
            assert(start.skip(0) =~= start);
        }
        loop
            invariant
                self.wf(),
                self.filter() == old(self).filter(),
                self.source() == old(self).source(),
                start == old(self).upcoming(),
                forall|c: &CodePoint<U>| predicate.requires((c,)),
                result.len() <= limit + 1,
                forall|i: int| 0 <= i < result.len() ==> #[trigger] result@[i] == upcoming_or_eof(start, i),
                forall|i: int| 0 <= i < result.len() ==> predicate.ensures((&result@[i],), true),
                self.upcoming() == start.skip(min_int(result.len() as int, start.len() as int)),
            decreases limit + 1 - result.len(),
        {
            if result.len() > limit {
                return result;
            }
            let next = match self.peek_next() {
                Ok(codepoint) => codepoint,
                Err(_) => CodePoint::EOF,
            };
            proof {
                let m = min_int(result.len() as int, start.len() as int);
                if result.len() < start.len() {
                    assert(start.skip(m)[0] == start[result.len() as int]);
                }
            }
            if !(*predicate)(&next) {
                return result;
            }
            let _ = self.consume_next();
            proof {
                let m = min_int(result.len() as int, start.len() as int);
                if result.len() < start.len() {
                    assert(start.skip(m).drop_first() =~= start.skip(m + 1));
                }
            }
            result.push(next);
        }
    }

    /// Consumes code points while `predicate` holds of the next one and
    /// returns them in order.
    ///
    /// Without a limit, the end of the input also stops it. With a limit `n`,
    /// at most `n + 1` code points are taken; past the end of the input the
    /// next code point is `EOF`, which is taken again for as long as the
    /// predicate holds of it.
    pub fn advance_as_long_as_possible_with_limit<P: Fn(&CodePoint<U>) -> bool>(
        &mut self,
        predicate: P,
        with_limit: Option<usize>,
    ) -> (r: Vec<CodePoint<U>>)
        requires
            old(self).wf(),
            forall|c: &CodePoint<U>| predicate.requires((c,)),
        ensures
            final(self).wf(),
            final(self).filter() == old(self).filter(),
            final(self).source() == old(self).source(),
            forall|i: int| 0 <= i < r.len() ==> predicate.ensures((&r@[i],), true),
            with_limit is None ==> {
                &&& r.len() <= old(self).upcoming().len()
                &&& r@ == old(self).upcoming().take(r.len() as int)
                &&& final(self).upcoming() == old(self).upcoming().skip(r.len() as int)
                &&& r.len() == old(self).upcoming().len() || predicate.ensures(
                    (&old(self).upcoming()[r.len() as int],),
                    false,
                )
            },
            with_limit is Some ==> {
                let n = with_limit->0;
                &&& r.len() <= n + 1
                &&& forall|i: int| 0 <= i < r.len() ==> #[trigger] r@[i] == upcoming_or_eof(old(self).upcoming(), i)
                &&& r.len() == n + 1 || predicate.ensures(
                    (&upcoming_or_eof(old(self).upcoming(), r.len() as int),),
                    false,
                )
                &&& final(self).upcoming() == old(self).upcoming().skip(
                    min_int(r.len() as int, old(self).upcoming().len() as int),
                )
            },
    {
        match with_limit {
            None => self.advance_while(&predicate),
            Some(limit) => self.advance_bounded(&predicate, limit),
        }
    }

    /// Consumes code points while `predicate` holds of the next one, and
    /// hands each to `callback` as it is consumed.
    pub fn advance_as_long_as_possible_and_apply<P: Fn(&CodePoint<U>) -> bool, C: FnMut(&CodePoint<U>)>(
        &mut self,
        predicate: P,
        callback: C,
    ) -> (r: Vec<CodePoint<U>>)
        requires
            old(self).wf(),
            forall|c: &CodePoint<U>| predicate.requires((c,)),
            forall|c: &CodePoint<U>| callback.requires((c,)),
        ensures
            final(self).wf(),
            final(self).filter() == old(self).filter(),
            final(self).source() == old(self).source(),
            r@ == old(self).upcoming().take(r.len() as int),
            final(self).upcoming() == old(self).upcoming().skip(r.len() as int),
            forall|i: int| 0 <= i < r.len() ==> predicate.ensures((&r@[i],), true),
            r.len() == old(self).upcoming().len() || predicate.ensures(
                (&old(self).upcoming()[r.len() as int],),
                false,
            ),
    {
        let mut callback = callback;
        let mut result: Vec<CodePoint<U>> = Vec::new();
        let ghost start = self.upcoming();
        proof {
            assert(start.skip(0) =~= start);
        }
        loop
            invariant
                self.wf(),
                self.filter() == old(self).filter(),
                self.source() == old(self).source(),
                start == old(self).upcoming(),
                forall|c: &CodePoint<U>| predicate.requires((c,)),
                forall|c: &CodePoint<U>| callback.requires((c,)),
                result.len() <= start.len(),
                result@ == start.take(result.len() as int),
                self.upcoming() == start.skip(result.len() as int),
                forall|i: int| 0 <= i < result.len() ==> predicate.ensures((&result@[i],), true),
            ensures
                result.len() == start.len() || predicate.ensures((&start[result.len() as int],), false),
            decreases start.len() - result.len(),
        {
            let next = match self.peek_visible() {
                Some(codepoint) => codepoint,
                None => {
                    break;
                },
            };
            if !predicate(&next) {
                break;
            }
            let _ = self.consume_next();
            callback(&next);
            proof {
                assert(start.skip(result.len() as int)[0] == start[result.len() as int]);
                assert(start.skip(result.len() as int).drop_first() =~= start.skip(result.len() + 1));
                assert(start.take(result.len() + 1) =~= start.take(result.len() as int).push(next));
            }
            result.push(next);
        }
        result
    }

    /// Consumes code points while `predicate` holds of the next one.
    pub fn advance_as_long_as_possible<P: Fn(&CodePoint<U>) -> bool>(&mut self, predicate: P) -> (r: Vec<
        CodePoint<U>,
    >)
        requires
            old(self).wf(),
            forall|c: &CodePoint<U>| predicate.requires((c,)),
        ensures
            final(self).wf(),
            final(self).filter() == old(self).filter(),
            final(self).source() == old(self).source(),
            r@ == old(self).upcoming().take(r.len() as int),
            final(self).upcoming() == old(self).upcoming().skip(r.len() as int),
            forall|i: int| 0 <= i < r.len() ==> predicate.ensures((&r@[i],), true),
            r.len() == old(self).upcoming().len() || predicate.ensures(
                (&old(self).upcoming()[r.len() as int],),
                false,
            ),
    {
        self.advance_as_long_as_possible_with_limit(predicate, None)
    }
}

impl<U: CodePointInterface> InputStream<U, DefaultFilter> {
    /// A stream over `codepoints`, read through the default filter.
    pub fn new(codepoints: Vec<U>) -> (r: Self)
        ensures
            r.wf(),
            r.pending() == codepoints@,
            r.source() == codepoints@,
            r.consumed() == Seq::<U>::empty(),
            r.current_unit() is None,
    {
        InputStream { queue: Queue::new(codepoints), filter_scan_fn: DefaultFilter, current_input: None }
    }
}

/// Once nothing is pending, everything has been consumed.
proof fn lemma_consumed_all<U: Copy>(q: Queue<U>)
    requires
        q.wf(),
        q.pending().len() == 0,
    ensures
        q.consumed() == q.source(),
{
    crate::queue::lemma_consumed_is_source_prefix(q);
    assert(q.source().take(q.consumed().len() as int) =~= q.source());
}

/// The code point at position `i` of `u`, and `EOF` past its end: what the
/// `i`-th consume from now gives when nothing is ignored in between.
pub open spec fn upcoming_or_eof<U>(u: Seq<CodePoint<U>>, i: int) -> CodePoint<U> {
    if 0 <= i < u.len() {
        u[i]
    } else {
        CodePoint::EOF
    }
}

pub open spec fn min_int(a: int, b: int) -> int {
    if a < b {
        a
    } else {
        b
    }
}

/// What consuming code points `u` gives, up to and including the first
/// `EOF`; an `EOF` ends the list when `u` runs out.
pub open spec fn results_until_eof<U>(u: Seq<CodePoint<U>>) -> Seq<Result<CodePoint<U>, InputStreamError>>
    decreases u.len(),
{
    if u.len() == 0 || u[0] is EOF {
        seq![Ok(CodePoint::EOF)]
    } else {
        seq![Ok(u[0])] + results_until_eof(u.drop_first())
    }
}

/// A stream never has more code points to come than a `Vec` can hold.
pub proof fn lemma_upcoming_fits<U: CodePointInterface, F: ScanFilter<U>>(s: InputStream<U, F>)
    requires
        s.wf(),
    ensures
        s.upcoming().len() <= s.pending().len() <= usize::MAX,
{
    crate::queue::lemma_consumed_is_source_prefix(s.queue);
    lemma_visible_hides_ignored(s.filter_scan_fn, s.queue.pending());
}

impl<U: CodePointInterface, F: ScanFilter<U>> StreamIterator for InputStream<U, F> {
    type Item = CodePoint<U>;

    type Error = InputStreamError;

    open spec fn stream_wf(&self) -> bool {
        self.wf()
    }

    open spec fn produced(&self) -> Seq<Result<CodePoint<U>, InputStreamError>> {
        results_until_eof(self.upcoming())
    }

    fn consume_next(&mut self) -> (r: Result<CodePoint<U>, InputStreamError>) {
        let r = InputStream::consume_next(self);
        proof {
            if old(self).upcoming().len() > 0 {
                assert(self.upcoming() == old(self).upcoming().drop_first());
            }
        }
        r
    }

    fn peek_next(&mut self) -> (r: Result<CodePoint<U>, InputStreamError>) {
        InputStream::peek_next(self)
    }

    fn current(&self) -> Option<CodePoint<U>> {
        InputStream::current(self)
    }
}

} // verus!
