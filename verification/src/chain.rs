//! The chain of two producers, and the extension that builds it.

use vstd::prelude::*;
use crate::producer::{advances, ExactProducer, FusedProducer, Producer};

verus! {

/// Two producers, pulled one after the other.
///
/// The chain holds the first producer until that one returns `None`. The pull
/// that sees this lets go of the first producer and returns `None` itself.
/// Every later pull goes to the second producer. The first producer never
/// comes back.
///
/// The first producer has to be fused, because the chain takes its first
/// `None` for its end. The chain is a producer too, but not a fused one: it
/// returns `None` once between the items of the first producer and those of
/// the second. So a chain can be the second producer of another chain, and
/// three producers are chained as `a.chain_exact(b.chain_exact(c))`.
pub struct ExactChain<A, B> {
    a: Option<A>,
    b: B,
}

impl<A, B> ExactChain<A, B> {
    /// The first producer, as long as the chain holds it.
    pub closed spec fn first(&self) -> Option<A> {
        self.a
    }

    /// The second producer.
    pub closed spec fn second(&self) -> B {
        self.b
    }

    /// Chains `a` and `b`. The chain holds `a`, also where `a` has nothing to
    /// yield.
    pub fn new(a: A, b: B) -> (chain: Self)
        ensures
            chain.first() == Some(a),
            chain.second() == b,
    {
        ExactChain { a: Some(a), b }
    }
}

/// The size estimate for two producers that are pulled one after the other,
/// from the estimates of the two.
///
/// The lower bounds are added, and the sum stops at `usize::MAX`. The upper
/// bounds are added where both are known and the sum fits in `usize`. In
/// every other case no upper bound is known.
pub open spec fn combined_size_hint(first: (usize, Option<usize>), second: (usize, Option<usize>)) -> (
    usize,
    Option<usize>,
) {
    (
        if first.0 + second.0 <= usize::MAX {
            (first.0 + second.0) as usize
        } else {
            usize::MAX
        },
        match (first.1, second.1) {
            (Some(x), Some(y)) => if x + y <= usize::MAX {
                Some((x + y) as usize)
            } else {
                None
            },
            _ => None,
        },
    )
}

/// Computes [`combined_size_hint`].
pub fn combine_size_hints(first: (usize, Option<usize>), second: (usize, Option<usize>)) -> (hint: (
    usize,
    Option<usize>,
))
    ensures
        hint == combined_size_hint(first, second),
{
    let lower = first.0.saturating_add(second.0);
    let upper = match (first.1, second.1) {
        (Some(x), Some(y)) => x.checked_add(y),
        _ => None,
    };
    (lower, upper)
}

impl<A: FusedProducer, B: Producer<Item = A::Item>> ExactChain<A, B> {
    /// One pull of a chain: `self` is the chain before it, `item` what it
    /// returns and `post` the chain after it.
    ///
    /// A chain that holds its first producer pulls that one and leaves the
    /// second as it is. It hands on an item that it gets and keeps the first
    /// producer. Where it gets none, it returns none and lets go of the first
    /// producer. A chain that has let go of its first producer pulls the
    /// second one and hands on whatever that returns.
    pub open spec fn pulled(self, item: Option<A::Item>, post: Self) -> bool {
        match self.first() {
            Some(a) => {
                &&& item == a.peek()
                &&& post.second() == self.second()
                &&& match item {
                    Some(_) => post.first() matches Some(a_post) && advances(a, item, a_post),
                    None => post.first() is None,
                }
            },
            None => post.first() is None && advances(self.second(), item, post.second()),
        }
    }
}

impl<A: FusedProducer, B: Producer<Item = A::Item>> Producer for ExactChain<A, B> {
    type Item = A::Item;

    open spec fn finite(&self) -> bool {
        match self.first() {
            Some(a) => a.finite() && self.second().finite(),
            None => self.second().finite(),
        }
    }

    open spec fn remaining(&self) -> Seq<A::Item> {
        match self.first() {
            Some(a) => a.remaining() + self.second().remaining(),
            None => self.second().remaining(),
        }
    }

    open spec fn peek(&self) -> Option<A::Item> {
        match self.first() {
            Some(a) => a.peek(),
            None => self.second().peek(),
        }
    }

    open spec fn estimate(&self) -> (usize, Option<usize>) {
        match self.first() {
            Some(a) => combined_size_hint(a.estimate(), self.second().estimate()),
            None => self.second().estimate(),
        }
    }

    /// Pulls the next item of the chain, as [`ExactChain::pulled`] says.
    #[inline]
    fn next(&mut self) -> (item: Option<A::Item>)
        ensures
            old(self).pulled(item, *final(self)),
    {
        let ghost second = self.b.remaining();
        match self.a {
            Some(ref mut a) => {
                let ghost before = *a;
                match a.next() {
                    None => {
                        proof {
                            before.lemma_none_only_at_end();
                            assert(before.remaining() + second =~= second);
                        }
                        self.a = None;
                        None
                    },
                    some => {
                        proof {
                            if before.finite() {
                                assert((before.remaining() + second).drop_first()
                                    =~= before.remaining().drop_first() + second);
                            }
                        }
                        some
                    },
                }
            },
            None => self.b.next(),
        }
    }

    /// The estimates of both producers combined while the chain holds the
    /// first one, and the estimate of the second one after that.
    #[inline]
    fn size_hint(&self) -> (hint: (usize, Option<usize>)) {
        let second = self.b.size_hint();
        match self.a {
            Some(ref a) => combine_size_hints(a.size_hint(), second),
            None => second,
        }
    }
}

impl<A: ExactProducer + FusedProducer, B: ExactProducer<Item = A::Item>> ExactProducer for ExactChain<
    A,
    B,
> {
    /// The number of items that are left in both producers together.
    ///
    /// The sum has to fit in `usize`. A caller that was not verified and asks
    /// for a larger one is stopped by a panic: no number is returned.
    fn len(&self) -> (n: usize)
        ensures
            n == match self.first() {
                Some(a) => a.remaining().len() + self.second().remaining().len(),
                None => self.second().remaining().len(),
            },
    {
        match self.a {
            Some(ref a) => a.len().checked_add(self.b.len()).expect(
                "ExactChain size overflows `usize`",
            ),
            None => self.b.len(),
        }
    }
}

/// Lets any producer be chained with another by a method call.
pub trait IteratorExt<T>: Sized {
    /// Chains this producer with `other`, which yields items of the same type.
    fn chain_exact<I: Producer<Item = T>>(self, other: I) -> (chain: ExactChain<Self, I>)
        ensures
            chain.first() == Some(self),
            chain.second() == other,
    ;
}

impl<J: Producer> IteratorExt<J::Item> for J {
    fn chain_exact<I: Producer<Item = J::Item>>(self, other: I) -> (chain: ExactChain<Self, I>) {
        ExactChain::new(self, other)
    }
}

} // verus!
