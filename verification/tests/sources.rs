use exact_chain::{repeat, ExactChain, ExactProducer, IteratorExt, Producer, Repeat};

// `(&Probe(p)).offers_len()` is `true` exactly where `p` is an exact producer:
// the method of `WithLen` is found first, and only where its bound holds.
struct Probe<P>(P);

trait WithLen {
    fn offers_len(&self) -> bool {
        true
    }
}

impl<P: ExactProducer> WithLen for Probe<P> {}

trait WithoutLen {
    fn offers_len(&self) -> bool {
        false
    }
}

impl<P> WithoutLen for &Probe<P> {}

#[test]
fn range_yields_its_integers() {
    let mut range = 3..6;
    assert_eq!(ExactProducer::len(&range), 3);
    assert_eq!(Producer::size_hint(&range), (3, Some(3)));
    assert_eq!(Producer::next(&mut range), Some(3));
    assert_eq!(Producer::next(&mut range), Some(4));
    assert_eq!(ExactProducer::len(&range), 1);
    assert_eq!(Producer::next(&mut range), Some(5));
    assert_eq!(Producer::next(&mut range), None);
    assert_eq!(Producer::next(&mut range), None);
    assert_eq!(ExactProducer::len(&range), 0);
    assert_eq!(Producer::size_hint(&range), (0, Some(0)));
}

#[test]
fn range_that_ends_before_it_starts_is_empty() {
    let mut range = 6..3;
    assert_eq!(ExactProducer::len(&range), 0);
    assert_eq!(Producer::size_hint(&range), (0, Some(0)));
    assert_eq!(Producer::next(&mut range), None);
    assert_eq!(range, 6..3);
}

#[test]
fn range_up_to_the_largest_integer() {
    let mut range = usize::MAX - 1..usize::MAX;
    assert_eq!(ExactProducer::len(&(0..usize::MAX)), usize::MAX);
    assert_eq!(Producer::next(&mut range), Some(usize::MAX - 1));
    assert_eq!(Producer::next(&mut range), None);
}

#[test]
fn repeat_never_ends() {
    let mut source = repeat('x');
    assert_eq!(source.size_hint(), (usize::MAX, None));
    for _ in 0..100 {
        assert_eq!(source.next(), Some('x'));
    }
    assert_eq!(source.size_hint(), (usize::MAX, None));
}

#[test]
fn chain_with_endless_second_has_no_upper_bound() {
    let mut chain = ExactChain::new(0..10, repeat(7));
    assert_eq!(chain.size_hint(), (usize::MAX, None));
    for expected in 0..10 {
        assert_eq!(chain.next(), Some(expected));
    }
    assert_eq!(chain.next(), None);
    assert_eq!(chain.size_hint(), (usize::MAX, None));
    for _ in 0..50 {
        assert_eq!(chain.next(), Some(7));
    }
}

#[test]
fn exact_length_needs_two_exact_producers() {
    assert!((&Probe(0..10)).offers_len());
    assert!((&Probe((0..10).chain_exact(1..5))).offers_len());
    assert!(!(&Probe(repeat(7))).offers_len());
    assert!(!(&Probe((0..10).chain_exact(repeat(7)))).offers_len());
    assert!(!(&Probe(repeat(7).chain_exact(0..10))).offers_len());
    assert_eq!(
        (0..10).chain_exact(repeat(7)).size_hint(),
        (usize::MAX, None)
    );
}

#[test]
fn chain_with_endless_first_never_reaches_second() {
    let mut chain = Repeat { item: 1 }.chain_exact(5..8);
    assert_eq!(chain.size_hint(), (usize::MAX, None));
    for _ in 0..50 {
        assert_eq!(chain.next(), Some(1));
    }
}
