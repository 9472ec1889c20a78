//! Producers to start from: ranges of `usize`, and the endless repetition of
//! one item.

use vstd::prelude::*;
use core::ops::Range;
use crate::producer::{ExactProducer, FusedProducer, Producer};

verus! {

/// The number of integers in `range`: none where its start is not below its end.
pub open spec fn span(range: Range<usize>) -> nat {
    if range.start < range.end {
        (range.end - range.start) as nat
    } else {
        0
    }
}

/// A range yields its integers in increasing order, from `start` up to but
/// without `end`.
impl Producer for Range<usize> {
    type Item = usize;

    open spec fn finite(&self) -> bool {
        true
    }

    open spec fn remaining(&self) -> Seq<usize> {
        Seq::new(span(*self), |i: int| (self.start + i) as usize)
    }

    open spec fn peek(&self) -> Option<usize> {
        if self.start < self.end {
            Some(self.start)
        } else {
            None
        }
    }

    open spec fn estimate(&self) -> (usize, Option<usize>) {
        (span(*self) as usize, Some(span(*self) as usize))
    }

    fn next(&mut self) -> (item: Option<usize>) {
        if self.start < self.end {
            let x: usize = self.start;
            self.start = x + 1;
            assert(self.remaining() =~= old(self).remaining().drop_first());
            Some(x)
        } else {
            None
        }
    }

    fn size_hint(&self) -> (hint: (usize, Option<usize>)) {
        let n: usize = ExactProducer::len(self);
        (n, Some(n))
    }
}

impl FusedProducer for Range<usize> {
    proof fn lemma_none_only_at_end(&self) {
    }
}

impl ExactProducer for Range<usize> {
    fn len(&self) -> (n: usize) {
        if self.start < self.end {
            self.end - self.start
        } else {
            0
        }
    }
}

/// What a range does next depends only on the integers that it has left: two
/// ranges with the same integers left announce the same item and give the
/// same estimate.
pub proof fn lemma_range_known_by_remaining(one: Range<usize>, other: Range<usize>)
    requires
        one.remaining() == other.remaining(),
    ensures
        span(one) == span(other),
        one.peek() == other.peek(),
        one.estimate() == other.estimate(),
{
    assert(one.remaining().len() == span(one));
    assert(other.remaining().len() == span(other));
    if span(one) > 0 {
        assert(one.remaining()[0] == one.start);
        assert(other.remaining()[0] == other.start);
    }
}

/// A producer that yields one item again and again, without end.
pub struct Repeat<T> {
    /// The item that every pull returns.
    pub item: T,
}

/// The producer that yields `item` without end.
pub fn repeat<T: Copy>(item: T) -> (source: Repeat<T>)
    ensures
        source.item == item,
{
    Repeat { item }
}

impl<T: Copy> Producer for Repeat<T> {
    type Item = T;

    open spec fn finite(&self) -> bool {
        false
    }

    open spec fn remaining(&self) -> Seq<T> {
        Seq::empty()
    }

    open spec fn peek(&self) -> Option<T> {
        Some(self.item)
    }

    open spec fn estimate(&self) -> (usize, Option<usize>) {
        (usize::MAX, None)
    }

    fn next(&mut self) -> (item: Option<T>)
        ensures
            *final(self) == *old(self),
    {
        Some(self.item)
    }

    fn size_hint(&self) -> (hint: (usize, Option<usize>)) {
        (usize::MAX, None)
    }
}

impl<T: Copy> FusedProducer for Repeat<T> {
    proof fn lemma_none_only_at_end(&self) {
    }
}

} // verus!
