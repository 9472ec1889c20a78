//! The interface of a producer: a value that hands out items one at a time.

use vstd::prelude::*;

verus! {

/// A source of items that are pulled one at a time with [`Producer::next`].
///
/// A pull that returns `None` reports that no item came out of this call. It
/// never loses an item: whatever was left before such a pull is still left
/// after it. A producer for which `None` always means that nothing is left is
/// a [`FusedProducer`].
pub trait Producer: Sized {
    /// The type of the items.
    type Item;

    /// Whether only finitely many items are left.
    spec fn finite(&self) -> bool;

    /// The items that are left, in the order in which they come out.
    /// It describes the producer only while [`Producer::finite`] holds.
    spec fn remaining(&self) -> Seq<Self::Item>;

    /// What the next pull returns.
    spec fn peek(&self) -> Option<Self::Item>;

    /// What [`Producer::size_hint`] reports: a lower bound for the number of
    /// items that are left and, where one is known, an upper bound.
    spec fn estimate(&self) -> (usize, Option<usize>);

    /// Pulls the next item.
    ///
    /// The clauses are those of [`advances`], from the producer before the
    /// call to the producer after it.
    fn next(&mut self) -> (item: Option<Self::Item>)
        ensures
            item == old(self).peek(),
            final(self).finite() == old(self).finite(),
            old(self).finite() ==> match item {
                Some(x) => {
                    &&& old(self).remaining().len() > 0
                    &&& x == old(self).remaining()[0]
                    &&& final(self).remaining() == old(self).remaining().drop_first()
                },
                None => final(self).remaining() == old(self).remaining(),
            },
    ;

    /// Estimates how many items are left. The lower bound never exceeds the
    /// true count, and the upper bound, where there is one, is never below it.
    fn size_hint(&self) -> (hint: (usize, Option<usize>))
        ensures
            hint == self.estimate(),
            self.finite() ==> hint.0 <= self.remaining().len(),
            hint.1 matches Some(upper) ==> self.finite() && self.remaining().len() <= upper,
    ;
}

/// One pull: `pre` is the producer before it, `item` what it returns and
/// `post` the producer after it.
///
/// The pull returns what `pre` announces. A finite producer stays finite and
/// an endless one endless. Of a finite producer, a returned item is the first
/// of those that were left and is taken off them, and a pull that returns
/// nothing leaves them as they were.
pub open spec fn advances<P: Producer>(pre: P, item: Option<P::Item>, post: P) -> bool {
    &&& item == pre.peek()
    &&& post.finite() == pre.finite()
    &&& pre.finite() ==> match item {
        Some(x) => {
            &&& pre.remaining().len() > 0
            &&& x == pre.remaining()[0]
            &&& post.remaining() == pre.remaining().drop_first()
        },
        None => post.remaining() == pre.remaining(),
    }
}

/// A producer that returns `None` only when it is finite and nothing is left.
/// Since a pull that returns `None` loses nothing, such a producer goes on
/// returning `None` from then on.
pub trait FusedProducer: Producer {
    /// A pull returns nothing only at the end.
    proof fn lemma_none_only_at_end(&self)
        ensures
            self.peek() is None ==> self.finite() && self.remaining().len() == 0,
    ;
}

/// A producer that knows exactly how many items are left.
pub trait ExactProducer: Producer {
    /// The number of items that are left.
    ///
    /// The count has to fit in `usize`. The size estimate of such a producer
    /// is then precise: both of its bounds are this number.
    fn len(&self) -> (n: usize)
        requires
            self.remaining().len() <= usize::MAX,
        ensures
            self.finite(),
            n == self.remaining().len(),
            self.estimate() == (n, Some(n)),
    ;
}

} // verus!
