//! What holds of a chain over any number of pulls.
//!
//! A run of pulls is recorded as two sequences: the chain before the first
//! pull and after each pull, and what each pull returned. The laws here hold
//! of every such record.

use vstd::prelude::*;
use crate::chain::ExactChain;
use crate::producer::{advances, FusedProducer, Producer};

verus! {

/// Whether `states` and `results` record successive pulls of one chain: pull
/// `i` finds the chain as `states[i]`, returns `results[i]` and leaves the
/// chain as `states[i + 1]`.
pub open spec fn pulls<A: FusedProducer, B: Producer<Item = A::Item>>(
    states: Seq<ExactChain<A, B>>,
    results: Seq<Option<A::Item>>,
) -> bool {
    &&& states.len() == results.len() + 1
    &&& forall|i: int|
        0 <= i < results.len() ==> (#[trigger] states[i]).pulled(results[i], states[i + 1])
}

/// The items among `results`, in the order in which they came.
pub open spec fn yielded<T>(results: Seq<Option<T>>) -> Seq<T>
    decreases results.len(),
{
    if results.len() == 0 {
        Seq::empty()
    } else {
        match results.last() {
            Some(item) => yielded(results.drop_last()).push(item),
            None => yielded(results.drop_last()),
        }
    }
}

/// The item at place `i` of `items`, or `None` where there is no such place.
pub open spec fn item_at<T>(items: Seq<T>, i: int) -> Option<T> {
    if 0 <= i < items.len() {
        Some(items[i])
    } else {
        None
    }
}

/// What pull `i` of `chain` returns, counted from 0, where both producers are
/// fused and finite.
///
/// While the chain holds a first producer with `m` items left, pulls `0` to
/// `m - 1` return those items, pull `m` returns nothing, and the pulls after
/// it return the items of the second producer and then nothing. A chain that
/// has let go of its first producer returns the items of the second one and
/// then nothing.
pub open spec fn nth_pull<A: FusedProducer, B: Producer<Item = A::Item>>(
    chain: ExactChain<A, B>,
    i: int,
) -> Option<A::Item> {
    match chain.first() {
        Some(a) => if i < a.remaining().len() {
            item_at(a.remaining(), i)
        } else {
            item_at(chain.second().remaining(), i - a.remaining().len() - 1)
        },
        None => item_at(chain.second().remaining(), i),
    }
}

/// `items` without its first `n` places: nothing where it has no more than `n`.
spec fn rest<T>(items: Seq<T>, n: int) -> Seq<T> {
    if 0 <= n <= items.len() {
        items.skip(n)
    } else {
        Seq::empty()
    }
}

/// What a finite chain of fused producers has become after `i` pulls.
spec fn after<A: FusedProducer, B: FusedProducer<Item = A::Item>>(
    start: ExactChain<A, B>,
    i: int,
    now: ExactChain<A, B>,
) -> bool {
    &&& now.finite()
    &&& match start.first() {
        Some(a) => if i <= a.remaining().len() {
            &&& now.first() matches Some(a_now) && a_now.remaining() == rest(a.remaining(), i)
            &&& now.second() == start.second()
        } else {
            &&& now.first() is None
            &&& now.second().remaining() == rest(
                start.second().remaining(),
                i - a.remaining().len() - 1,
            )
        },
        None => {
            &&& now.first() is None
            &&& now.second().remaining() == rest(start.second().remaining(), i)
        },
    }
}

proof fn lemma_rest_step<T>(items: Seq<T>, n: int)
    requires
        0 <= n,
    ensures
        rest(items, n).len() > 0 <==> n < items.len(),
        n < items.len() ==> rest(items, n)[0] == items[n],
        n < items.len() ==> rest(items, n).drop_first() == rest(items, n + 1),
        n >= items.len() ==> rest(items, n + 1) == rest(items, n),
        rest(items, 0) == items,
{
    if n < items.len() {
        assert(rest(items, n).drop_first() =~= rest(items, n + 1));
    } else {
        assert(rest(items, n + 1) =~= rest(items, n));
    }
    assert(rest(items, 0) =~= items);
}

proof fn lemma_after<A: FusedProducer, B: FusedProducer<Item = A::Item>>(
    states: Seq<ExactChain<A, B>>,
    results: Seq<Option<A::Item>>,
    i: int,
)
    requires
        pulls(states, results),
        states[0].finite(),
        0 <= i <= results.len(),
    ensures
        after(states[0], i, states[i]),
    decreases i,
{
    let start = states[0];
    if i == 0 {
        match start.first() {
            Some(a) => lemma_rest_step(a.remaining(), 0),
            None => lemma_rest_step(start.second().remaining(), 0),
        }
    } else {
        lemma_after(states, results, i - 1);
        let pre = states[i - 1];
        let post = states[i];
        assert(pre.pulled(results[i - 1], post));
        match pre.first() {
            Some(a_pre) => {
                let a = start.first().unwrap();
                a_pre.lemma_none_only_at_end();
                lemma_rest_step(a.remaining(), i - 1);
                lemma_rest_step(start.second().remaining(), 0);
            },
            None => {
                let n = match start.first() {
                    Some(a) => i - 1 - a.remaining().len() - 1,
                    None => i - 1,
                };
                pre.second().lemma_none_only_at_end();
                lemma_rest_step(start.second().remaining(), n);
            },
        }
    }
}

/// What one pull returns depends only on what the producers held at the
/// start and on the number of pulls before it: pull `i` of a run that starts
/// with a finite chain of fused producers returns `nth_pull` of that chain
/// and `i`.
pub proof fn lemma_nth_pull<A: FusedProducer, B: FusedProducer<Item = A::Item>>(
    states: Seq<ExactChain<A, B>>,
    results: Seq<Option<A::Item>>,
    i: int,
)
    requires
        pulls(states, results),
        states[0].finite(),
        0 <= i < results.len(),
    ensures
        results[i] == nth_pull(states[0], i),
{
    let start = states[0];
    let pre = states[i];
    lemma_after(states, results, i);
    assert(pre.pulled(results[i], states[i + 1]));
    match pre.first() {
        Some(a_pre) => {
            a_pre.lemma_none_only_at_end();
            lemma_rest_step(start.first().unwrap().remaining(), i);
        },
        None => {
            let n = match start.first() {
                Some(a) => i - a.remaining().len() - 1,
                None => i,
            };
            pre.second().lemma_none_only_at_end();
            lemma_rest_step(start.second().remaining(), n);
        },
    }
}

/// One pull of a chain is one pull of a producer: seen as a single producer,
/// the chain returns what it announced and loses no item.
pub proof fn lemma_pulled_advances<A: FusedProducer, B: Producer<Item = A::Item>>(
    pre: ExactChain<A, B>,
    item: Option<A::Item>,
    post: ExactChain<A, B>,
)
    requires
        pre.pulled(item, post),
    ensures
        advances(pre, item, post),
{
    let second = pre.second().remaining();
    match pre.first() {
        Some(a) => {
            a.lemma_none_only_at_end();
            if pre.finite() {
                match item {
                    Some(_) => {
                        assert((a.remaining() + second).drop_first() =~= a.remaining().drop_first()
                            + second);
                    },
                    None => {
                        assert(a.remaining() + second =~= second);
                    },
                }
            }
        },
        None => {},
    }
}

proof fn lemma_yielded_prefix<A: FusedProducer, B: Producer<Item = A::Item>>(
    states: Seq<ExactChain<A, B>>,
    results: Seq<Option<A::Item>>,
    k: int,
)
    requires
        pulls(states, results),
        states[0].finite(),
        0 <= k <= results.len(),
    ensures
        states[k].finite(),
        yielded(results.take(k)) + states[k].remaining() == states[0].remaining(),
    decreases k,
{
    if k == 0 {
        assert(yielded(results.take(0)) + states[0].remaining() =~= states[0].remaining());
    } else {
        lemma_yielded_prefix(states, results, k - 1);
        let pre = states[k - 1];
        let before = results.take(k - 1);
        assert(pre.pulled(results[k - 1], states[k]));
        lemma_pulled_advances(pre, results[k - 1], states[k]);
        assert(results.take(k).drop_last() =~= before);
        assert(results.take(k).last() == results[k - 1]);
        match results[k - 1] {
            Some(item) => {
                assert(yielded(before).push(item) + pre.remaining().drop_first() =~= yielded(before)
                    + pre.remaining());
            },
            None => {},
        }
    }
}

/// At every point of a run, the items that were yielded so far, followed by
/// those that are left, are the items that were left at the start: none is
/// lost, none is added and their order stays. So a run that leaves nothing
/// has yielded exactly what was left at its start, which is as many items as
/// `len` counted there.
pub proof fn lemma_yielded_then_remaining<A: FusedProducer, B: Producer<Item = A::Item>>(
    states: Seq<ExactChain<A, B>>,
    results: Seq<Option<A::Item>>,
)
    requires
        pulls(states, results),
        states[0].finite(),
    ensures
        states.last().finite(),
        yielded(results) + states.last().remaining() == states[0].remaining(),
        yielded(results).len() + states.last().remaining().len() == states[0].remaining().len(),
        states.last().remaining().len() == 0 ==> yielded(results) == states[0].remaining(),
{
    lemma_yielded_prefix(states, results, results.len() as int);
    assert(results.take(results.len() as int) =~= results);
    if states.last().remaining().len() == 0 {
        assert(yielded(results) + states.last().remaining() =~= yielded(results));
    }
}

/// A chain of two finite fused producers `a` and `b` yields the items of `a`
/// in order, then the items of `b` in order, and from then on nothing: a run
/// of more pulls than the two have items yields exactly those items, as many
/// as `a` and `b` have together, and every pull past that number returns
/// `None`.
pub proof fn lemma_yields_first_then_second<A: FusedProducer, B: FusedProducer<Item = A::Item>>(
    a: A,
    b: B,
    states: Seq<ExactChain<A, B>>,
    results: Seq<Option<A::Item>>,
)
    requires
        a.finite(),
        b.finite(),
        pulls(states, results),
        states[0].first() == Some(a),
        states[0].second() == b,
        results.len() > a.remaining().len() + b.remaining().len(),
    ensures
        yielded(results) == a.remaining() + b.remaining(),
        yielded(results).len() == a.remaining().len() + b.remaining().len(),
        forall|i: int|
            a.remaining().len() + b.remaining().len() < i < results.len() ==> results[i] is None,
{
    lemma_after(states, results, results.len() as int);
    lemma_yielded_then_remaining(states, results);
    assert forall|i: int|
        a.remaining().len() + b.remaining().len() < i < results.len() implies results[i] is None by {
        lemma_nth_pull(states, results, i);
    }
}

/// Whether `chain` is finite and has nothing left.
spec fn spent<A: FusedProducer, B: Producer<Item = A::Item>>(chain: ExactChain<A, B>) -> bool {
    chain.finite() && chain.remaining().len() == 0
}

proof fn lemma_spent_stays<A: FusedProducer, B: Producer<Item = A::Item>>(
    states: Seq<ExactChain<A, B>>,
    results: Seq<Option<A::Item>>,
    i: int,
    j: int,
)
    requires
        pulls(states, results),
        0 <= i <= j < results.len(),
        spent(states[i]),
    ensures
        spent(states[j]),
        results[j] is None,
    decreases j - i,
{
    if i < j {
        lemma_spent_stays(states, results, i, j - 1);
        assert(states[j - 1].pulled(results[j - 1], states[j]));
        lemma_pulled_advances(states[j - 1], results[j - 1], states[j]);
    }
    assert(states[j].pulled(results[j], states[j + 1]));
    lemma_pulled_advances(states[j], results[j], states[j + 1]);
}

/// Once a chain of fused producers has returned `None`, it returns `None`
/// ever after, with one exception: a chain that still holds its first
/// producer while the second one has an item to give returns `None` once, in
/// the pull that finds the first producer at its end, and then goes on with
/// the items of the second.
pub proof fn lemma_completion_is_permanent<A: FusedProducer, B: FusedProducer<Item = A::Item>>(
    states: Seq<ExactChain<A, B>>,
    results: Seq<Option<A::Item>>,
    i: int,
)
    requires
        pulls(states, results),
        0 <= i < results.len(),
        results[i] is None,
        !(states[i].first() is Some && states[i].second().peek() is Some),
    ensures
        forall|j: int| i <= j < results.len() ==> results[j] is None,
{
    assert(states[i].pulled(results[i], states[i + 1]));
    states[i].second().lemma_none_only_at_end();
    match states[i].first() {
        Some(a) => {
            a.lemma_none_only_at_end();
            assert(a.remaining() + states[i].second().remaining() =~= Seq::empty());
        },
        None => {},
    }
    assert forall|j: int| i <= j < results.len() implies results[j] is None by {
        lemma_spent_stays(states, results, i, j);
    }
}

/// A chain that has let go of its first producer never holds one again.
pub proof fn lemma_first_never_returns<A: FusedProducer, B: Producer<Item = A::Item>>(
    states: Seq<ExactChain<A, B>>,
    results: Seq<Option<A::Item>>,
    i: int,
    j: int,
)
    requires
        pulls(states, results),
        0 <= i <= j <= results.len(),
        states[i].first() is None,
    ensures
        states[j].first() is None,
    decreases j - i,
{
    if i < j {
        lemma_first_never_returns(states, results, i, j - 1);
        assert(states[j - 1].pulled(results[j - 1], states[j]));
    }
}

} // verus!
