use vstd::prelude::*;
use crate::iterator::{is_stop, StreamIterator, StreamIteratorError, StreamIteratorItem};

verus! {

/// What consuming the list `t` gives, up to and including the first result
/// that marks the end; the end-of-stream error ends the list when `t` runs
/// out.
pub open spec fn results_until_stop<T: StreamIteratorItem, E: StreamIteratorError>(t: Seq<Result<T, E>>) -> Seq<
    Result<T, E>,
>
    decreases t.len(),
{
    if t.len() == 0 {
        seq![Err(E::spec_eos())]
    } else if is_stop(t[0]) {
        seq![t[0]]
    } else {
        seq![t[0]] + results_until_stop(t.drop_first())
    }
}

/// The tokens that draining `p` keeps: those before the first result that
/// marks the end, without the ignored ones.
pub open spec fn drained<T: StreamIteratorItem, E: StreamIteratorError>(p: Seq<Result<T, E>>) -> Seq<Result<T, E>>
    decreases p.len(),
{
    if p.len() == 0 || is_stop(p[0]) {
        Seq::empty()
    } else if p[0] matches Ok(t) && t.spec_is_ignored() {
        drained(p.drop_first())
    } else {
        seq![p[0]] + drained(p.drop_first())
    }
}

/// A replayable cursor over a fully materialised list of tokens.
///
/// Consuming pops the front token and makes it current; the token that was
/// current before goes to the recycle bin, from which it can be recovered.
pub struct TokenStream<T, E> {
    list_of_tokens: Vec<Result<T, E>>,
    token_currently_being_operated_on: Option<Result<T, E>>,
    reconsume_now: bool,
    recycle: Vec<Result<T, E>>,
}

#[derive(Debug, Clone, Copy, PartialEq, Eq)]
pub enum TokenStreamError {
    EOF,
}

impl<T: Copy, E: Copy> TokenStream<T, E> {
    /// The tokens not yet consumed.
    pub closed spec fn tokens(&self) -> Seq<Result<T, E>> {
        self.list_of_tokens@
    }

    /// The token last consumed, if any.
    pub closed spec fn current_token(&self) -> Option<Result<T, E>> {
        self.token_currently_being_operated_on
    }

    /// Whether the current token was put back and is due again.
    pub closed spec fn reconsume_pending(&self) -> bool {
        self.reconsume_now
    }

    /// The tokens that were current before, oldest first.
    pub closed spec fn recycle_bin(&self) -> Seq<Result<T, E>> {
        self.recycle@
    }

    pub closed spec fn wf(&self) -> bool {
        self.reconsume_now ==> {
            &&& self.token_currently_being_operated_on is Some
            &&& self.list_of_tokens@.len() > 0
            &&& self.list_of_tokens@[0] == self.token_currently_being_operated_on->0
        }
    }

    /// The tokens not yet consumed.
    pub fn collect(&self) -> (r: Vec<Result<T, E>>)
        ensures
            r@ == self.tokens(),
    {
        let mut r: Vec<Result<T, E>> = Vec::new();
        let mut i: usize = 0;
        while i < self.list_of_tokens.len()
            invariant
                i <= self.list_of_tokens@.len(),
                r@ == self.list_of_tokens@.take(i as int),
            decreases self.list_of_tokens@.len() - i,
        {
            r.push(self.list_of_tokens[i]);
            i = i + 1;
            proof {
                assert(r@ =~= self.list_of_tokens@.take(i as int));
            }
        }
        proof {
            assert(self.list_of_tokens@.take(i as int) =~= self.list_of_tokens@);
        }
        r
    }

    /// The current token, if there is one and it is not an error.
    pub fn current(&self) -> (r: Option<T>)
        ensures
            r == match self.current_token() {
                Some(Ok(t)) => Some(t),
                _ => None::<T>,
            },
    {
        match self.token_currently_being_operated_on {
            Some(Ok(t)) => Some(t),
            _ => None,
        }
    }

    /// Puts the current token back at the front; the next peek and the next
    /// consume give it again.
    pub fn reconsume_current(&mut self)
        requires
            old(self).wf(),
            old(self).current_token() is Some,
        ensures
            final(self).wf(),
            final(self).tokens() == seq![old(self).current_token()->0] + old(self).tokens(),
            final(self).current_token() == old(self).current_token(),
            final(self).recycle_bin() == old(self).recycle_bin(),
            final(self).reconsume_pending(),
    {
        self.reconsume_now = true;
        let last_consumed_element = self.token_currently_being_operated_on.unwrap();
        self.list_of_tokens.insert(0, last_consumed_element);
        proof {
            assert(self.list_of_tokens@ =~= seq![old(self).current_token()->0] + old(self).tokens());
        }
    }

    /// Takes back from the recycle bin, most recent first, the tokens for
    /// which `predicate` holds, up to the first for which it does not.
    /// Exactly the tokens returned leave the bin; nothing else changes.
    pub fn recover_as_long_as_possible<P: Fn(&Result<T, E>) -> bool>(&mut self, predicate: P) -> (r: Vec<
        Result<T, E>,
    >)
        requires
            old(self).wf(),
            forall|x: &Result<T, E>| predicate.requires((x,)),
        ensures
            final(self).wf(),
            r.len() <= old(self).recycle_bin().len(),
            final(self).recycle_bin().len() == old(self).recycle_bin().len() - r.len(),
            final(self).recycle_bin() == old(self).recycle_bin().take(
                old(self).recycle_bin().len() - r.len(),
            ),
            forall|i: int|
                0 <= i < r.len() ==> #[trigger] r@[i] == old(self).recycle_bin()[old(self).recycle_bin().len()
                    - 1 - i],
            forall|i: int| 0 <= i < r.len() ==> predicate.ensures((&r@[i],), true),
            r.len() == old(self).recycle_bin().len() || predicate.ensures(
                (&old(self).recycle_bin()[old(self).recycle_bin().len() - 1 - r.len()],),
                false,
            ),
            final(self).tokens() == old(self).tokens(),
            final(self).current_token() == old(self).current_token(),
            final(self).reconsume_pending() == old(self).reconsume_pending(),
    {
        let mut result: Vec<Result<T, E>> = Vec::new();
        let n = self.recycle.len();
        loop
            invariant
                n == self.recycle@.len(),
                self.recycle@ == old(self).recycle@,
                forall|x: &Result<T, E>| predicate.requires((x,)),
                result.len() <= n,
                forall|i: int| 0 <= i < result.len() ==> #[trigger] result@[i] == self.recycle@[n - 1 - i],
                forall|i: int| 0 <= i < result.len() ==> predicate.ensures((&result@[i],), true),
            ensures
                result.len() == n || predicate.ensures((&self.recycle@[n - 1 - result.len()],), false),
            decreases n - result.len(),
        {
            if result.len() == n {
                break;
            }
            let token = self.recycle[n - 1 - result.len()];
            if !predicate(&token) {
                break;
            }
            result.push(token);
        }
        let count = result.len();
        self.recycle.truncate(n - count);
        proof {
            assert(self.recycle@ =~= old(self).recycle@.take(n - count));
        }
        result
    }
}

impl<T: Copy, E: Copy + StreamIteratorError> TokenStream<T, E> {
    /// Consumes the front token: the token that was current goes to the
    /// recycle bin and the front token becomes current. With no token left,
    /// the current token is dropped and the end-of-stream error is returned.
    pub fn consume_next(&mut self) -> (r: Result<T, E>)
        requires
            old(self).wf(),
        ensures
            final(self).wf(),
            !final(self).reconsume_pending(),
            old(self).tokens().len() == 0 ==> {
                &&& r == Err::<T, E>(E::spec_eos())
                &&& (r matches Err(e) && e.spec_is_eos())
                &&& final(self).current_token() is None
                &&& final(self).tokens() == old(self).tokens()
                &&& final(self).recycle_bin() == old(self).recycle_bin()
            },
            old(self).tokens().len() > 0 ==> {
                &&& r == old(self).tokens()[0]
                &&& final(self).current_token() == Some(old(self).tokens()[0])
                &&& final(self).tokens() == old(self).tokens().drop_first()
                &&& final(self).recycle_bin() == match old(self).current_token() {
                    Some(c) => old(self).recycle_bin().push(c),
                    None => old(self).recycle_bin(),
                }
            },
    {
        self.reconsume_now = false;
        if self.list_of_tokens.len() == 0 {
            self.token_currently_being_operated_on = None;
            return Err(E::eos());
        }
        if let Some(previous) = self.token_currently_being_operated_on {
            self.recycle.push(previous);
        }
        let next_token = self.list_of_tokens.remove(0);
        self.token_currently_being_operated_on = Some(next_token);
        next_token
    }

    /// The token that the next consume will give, without consuming.
    pub fn peek_next(&mut self) -> (r: Result<T, E>)
        requires
            old(self).wf(),
        ensures
            *final(self) == *old(self),
            old(self).tokens().len() == 0 ==> r == Err::<T, E>(E::spec_eos()),
            old(self).tokens().len() > 0 ==> r == old(self).tokens()[0],
    {
        if self.reconsume_now {
            if let Some(current) = self.token_currently_being_operated_on {
                return current;
            }
        }
        if self.list_of_tokens.len() == 0 {
            return Err(E::eos());
        }
        self.list_of_tokens[0]
    }
}

impl<T: Copy + StreamIteratorItem, E: Copy + StreamIteratorError> TokenStream<T, E> {
    /// Drains `stream` into a token stream: an end-of-file token or the
    /// end-of-stream error ends the drain, ignored tokens are dropped, and
    /// everything else, errors included, is kept in order.
    pub fn from_stream<S: StreamIterator<Item = T, Error = E>>(stream: S) -> (r: Self)
        requires
            stream.stream_wf(),
        ensures
            r.wf(),
            r.tokens() == drained(stream.produced()),
            r.current_token() is None,
            !r.reconsume_pending(),
            r.recycle_bin().len() == 0,
    {
        let ghost all = stream.produced();
        let mut stream = stream;
        let mut list_of_tokens: Vec<Result<T, E>> = Vec::new();
        proof {
            assert(drained(all) =~= list_of_tokens@ + drained(stream.produced()));
        }
        loop
            invariant_except_break
                drained(all) == list_of_tokens@ + drained(stream.produced()),
            invariant
                stream.stream_wf(),
            ensures
                drained(all) == list_of_tokens@,
            decreases stream.produced().len(),
        {
            let ghost before = stream.produced();
            let token = stream.consume_next();
            proof {
                if is_stop(token) {
                    assert(drained(before) =~= Seq::<Result<T, E>>::empty());
                    assert(list_of_tokens@ + Seq::<Result<T, E>>::empty() =~= list_of_tokens@);
                } else if token matches Ok(t) && t.spec_is_ignored() {
                } else {
                    assert(list_of_tokens@.push(token) + drained(stream.produced()) =~= list_of_tokens@ + (seq![
                        token,
                    ] + drained(stream.produced())));
                }
            }
            match token {
                Ok(t) => {
                    if t.is_eof() {
                        break;
                    }
                    if !t.is_ignored() {
                        list_of_tokens.push(Ok(t));
                    }
                },
                Err(e) => {
                    if e.is_eos() {
                        break;
                    }
                    list_of_tokens.push(Err(e));
                },
            }
        }
        TokenStream {
            list_of_tokens,
            token_currently_being_operated_on: None,
            reconsume_now: false,
            recycle: Vec::new(),
        }
    }
}

impl<T: Copy + StreamIteratorItem, E: Copy + StreamIteratorError> StreamIterator for TokenStream<T, E> {
    type Item = T;

    type Error = E;

    open spec fn stream_wf(&self) -> bool {
        self.wf()
    }

    open spec fn produced(&self) -> Seq<Result<T, E>> {
        results_until_stop(self.tokens())
    }

    fn consume_next(&mut self) -> (r: Result<T, E>) {
        let r = TokenStream::consume_next(self);
        proof {
            if old(self).tokens().len() > 0 && !is_stop(r) {
                assert(results_until_stop(old(self).tokens()).drop_first() =~= results_until_stop(
                    old(self).tokens().drop_first(),
                ));
            }
        }
        r
    }

    fn peek_next(&mut self) -> (r: Result<T, E>) {
        TokenStream::peek_next(self)
    }

    fn current(&self) -> Option<T> {
        TokenStream::current(self)
    }
}

} // verus!
