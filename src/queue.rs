use vstd::prelude::*;

verus! {

/// A lookahead buffer over a source of items.
///
/// Items are pulled from the source into `temporary_list` when a peek needs
/// them; consuming takes from that buffer first and from the source after.
/// The ghost `consumed` records every item handed out, so that what was
/// consumed followed by what is pending is always the source itself.
pub struct Queue<I> {
    source: Vec<I>,
    next_index: usize,
    temporary_list: Vec<I>,
    consumed: Ghost<Seq<I>>,
}

impl<I: Copy> Queue<I> {
    /// The items still to come, in order.
    pub closed spec fn pending(&self) -> Seq<I> {
        self.temporary_list@ + self.source@.skip(self.next_index as int)
    }

    /// The items handed out so far, in order.
    pub closed spec fn consumed(&self) -> Seq<I> {
        self.consumed@
    }

    /// The items that the queue was made from.
    pub closed spec fn source(&self) -> Seq<I> {
        self.source@
    }

    /// The number of items pulled from the source but not yet consumed.
    pub closed spec fn buffered(&self) -> nat {
        self.temporary_list@.len()
    }

    pub closed spec fn wf(&self) -> bool {
        &&& self.next_index <= self.source@.len()
        &&& self.source@.len() <= usize::MAX
        &&& self.consumed@ + self.pending() == self.source@
    }

    pub fn new(source: Vec<I>) -> (r: Self)
        ensures
            r.wf(),
            r.source() == source@,
            r.pending() == source@,
            r.consumed() == Seq::<I>::empty(),
            r.buffered() == 0,
    {
        let _len = source.len();
        let r = Queue { source, next_index: 0, temporary_list: Vec::new(), consumed: Ghost(Seq::empty()) };
        proof {
            assert(r.pending() =~= r.source@);
            assert(r.consumed@ + r.pending() =~= r.source@);
        }
        r
    }

    /// Removes and returns the first buffered item; `None` when nothing is
    /// buffered (the source is not read).
    pub fn dequeue(&mut self) -> (r: Option<I>)
        requires
            old(self).wf(),
        ensures
            final(self).wf(),
            final(self).source() == old(self).source(),
            old(self).buffered() == 0 ==> r is None && *final(self) == *old(self),
            old(self).buffered() > 0 ==> {
                &&& r == Some(old(self).pending()[0])
                &&& final(self).pending() == old(self).pending().drop_first()
                &&& final(self).consumed() == old(self).consumed().push(old(self).pending()[0])
                &&& final(self).buffered() == old(self).buffered() - 1
            },
    {
        if self.temporary_list.len() == 0 {
            return None;
        }
        let item = self.temporary_list.remove(0);
        self.consumed = Ghost(self.consumed@.push(item));
        proof {
            assert(self.pending() =~= old(self).pending().drop_first());
            assert(self.consumed@ + self.pending() =~= old(self).consumed@ + old(self).pending());
        }
        Some(item)
    }

    /// Moves the next item of the source into the buffer, if the source has
    /// one. What is pending does not change.
    pub fn enqueue(&mut self)
        requires
            old(self).wf(),
        ensures
            final(self).wf(),
            final(self).source() == old(self).source(),
            final(self).pending() == old(self).pending(),
            final(self).consumed() == old(self).consumed(),
            final(self).buffered() == if old(self).buffered() < old(self).pending().len() {
                old(self).buffered() + 1
            } else {
                old(self).buffered()
            },
    {
        if self.next_index < self.source.len() {
            let item = self.source[self.next_index];
            self.temporary_list.push(item);
            self.next_index = self.next_index + 1;
            proof {
                assert(self.pending() =~= old(self).pending());
            }
        }
    }

    /// Buffers items until `required + 1` are buffered or the source runs
    /// out; a buffer that already holds more is left alone.
    fn fill(&mut self, required: usize)
        requires
            old(self).wf(),
        ensures
            final(self).wf(),
            final(self).source() == old(self).source(),
            final(self).pending() == old(self).pending(),
            final(self).consumed() == old(self).consumed(),
            old(self).buffered() > required ==> *final(self) == *old(self),
            old(self).buffered() <= required ==> final(self).buffered() == if required + 1 <= old(
                self,
            ).pending().len() {
                required + 1
            } else {
                old(self).pending().len() as int
            },
    {
        while self.temporary_list.len() <= required && self.next_index < self.source.len()
            invariant
                self.wf(),
                self.source() == old(self).source(),
                self.pending() == old(self).pending(),
                self.consumed() == old(self).consumed(),
                old(self).buffered() > required ==> *self == *old(self),
                old(self).buffered() <= required ==> self.buffered() <= required + 1,
                self.buffered() <= self.pending().len(),
            decreases self.source@.len() - self.next_index,
        {
            self.enqueue();
        }
    }

    /// The next item, without consuming it.
    pub fn peek_next(&mut self) -> (r: Option<I>)
        requires
            old(self).wf(),
        ensures
            final(self).wf(),
            final(self).source() == old(self).source(),
            final(self).pending() == old(self).pending(),
            final(self).consumed() == old(self).consumed(),
            r == if old(self).pending().len() > 0 { Some(old(self).pending()[0]) } else { None },
    {
        self.peek_at(0)
    }

    /// The item `n` places ahead, without consuming anything.
    pub fn peek_at(&mut self, n: usize) -> (r: Option<I>)
        requires
            old(self).wf(),
        ensures
            final(self).wf(),
            final(self).source() == old(self).source(),
            final(self).pending() == old(self).pending(),
            final(self).consumed() == old(self).consumed(),
            r == if n < old(self).pending().len() { Some(old(self).pending()[n as int]) } else { None },
    {
        self.fill(n);
        if n < self.temporary_list.len() {
            Some(self.temporary_list[n])
        } else {
            None
        }
    }

    /// Consumes the next item: from the buffer if it holds one, else from the
    /// source.
    pub fn next(&mut self) -> (r: Option<I>)
        requires
            old(self).wf(),
        ensures
            final(self).wf(),
            final(self).source() == old(self).source(),
            old(self).pending().len() == 0 ==> r is None && final(self).pending() == old(self).pending()
                && final(self).consumed() == old(self).consumed(),
            old(self).pending().len() > 0 ==> {
                &&& r == Some(old(self).pending()[0])
                &&& final(self).pending() == old(self).pending().drop_first()
                &&& final(self).consumed() == old(self).consumed().push(old(self).pending()[0])
            },
    {
        if self.temporary_list.len() == 0 {
            if self.next_index < self.source.len() {
                let item = self.source[self.next_index];
                self.next_index = self.next_index + 1;
                self.consumed = Ghost(self.consumed@.push(item));
                proof {
                    assert(old(self).pending() =~= old(self).source@.skip(old(self).next_index as int));
                    assert(self.pending() =~= old(self).pending().drop_first());
                    assert(self.consumed@ + self.pending() =~= old(self).consumed@ + old(self).pending());
                }
                Some(item)
            } else {
                proof {
                    assert(old(self).pending() =~= Seq::<I>::empty());
                }
                None
            }
        } else {
            self.dequeue()
        }
    }

    /// Puts the last consumed item back at the front, so that the next
    /// consume returns it again. Only the item consumed last can be put back.
    pub fn reconsume(&mut self, maybe_last_consumed_element: Option<I>)
        requires
            old(self).wf(),
            old(self).consumed().len() > 0,
            maybe_last_consumed_element == Some(old(self).consumed().last()),
        ensures
            final(self).wf(),
            final(self).source() == old(self).source(),
            final(self).pending() == seq![old(self).consumed().last()] + old(self).pending(),
            final(self).consumed() == old(self).consumed().drop_last(),
    {
        let item = maybe_last_consumed_element.unwrap();
        self.temporary_list.insert(0, item);
        self.consumed = Ghost(self.consumed@.drop_last());
        proof {
            assert(self.pending() =~= seq![item] + old(self).pending());
            assert(self.consumed@ + self.pending() =~= old(self).consumed@ + old(self).pending());
        }
    }
}

/// Whatever peeks are interleaved with the consumes, the items consumed so far
/// are exactly the first items of the source, in order.
pub proof fn lemma_consumed_is_source_prefix<I: Copy>(q: Queue<I>)
    requires
        q.wf(),
    ensures
        q.source().len() <= usize::MAX,
        q.consumed().len() <= q.source().len(),
        q.consumed() == q.source().take(q.consumed().len() as int),
        q.pending() == q.source().skip(q.consumed().len() as int),
{
    assert(q.consumed() + q.pending() == q.source());
    assert(q.source().take(q.consumed().len() as int) =~= q.consumed());
    assert(q.source().skip(q.consumed().len() as int) =~= q.pending());
}

} // verus!
