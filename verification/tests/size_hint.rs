use exact_chain::combine_size_hints;

#[test]
fn bounds_are_added() {
    assert_eq!(combine_size_hints((10, Some(10)), (4, Some(4))), (14, Some(14)));
    assert_eq!(combine_size_hints((10, Some(10)), (0, Some(4))), (10, Some(14)));
    assert_eq!(combine_size_hints((2, Some(9)), (3, Some(5))), (5, Some(14)));
    assert_eq!(combine_size_hints((0, Some(0)), (0, Some(0))), (0, Some(0)));
}

#[test]
fn unknown_upper_bound_stays_unknown() {
    assert_eq!(combine_size_hints((1, None), (2, Some(5))), (3, None));
    assert_eq!(combine_size_hints((1, Some(5)), (2, None)), (3, None));
    assert_eq!(combine_size_hints((1, None), (2, None)), (3, None));
}

#[test]
fn lower_bound_saturates() {
    assert_eq!(
        combine_size_hints((usize::MAX, None), (10, None)),
        (usize::MAX, None)
    );
    assert_eq!(
        combine_size_hints((usize::MAX - 3, None), (3, None)),
        (usize::MAX, None)
    );
    assert_eq!(
        combine_size_hints((usize::MAX - 3, None), (2, None)),
        (usize::MAX - 1, None)
    );
}

#[test]
fn upper_bound_that_overflows_is_unknown() {
    assert_eq!(
        combine_size_hints((0, Some(usize::MAX)), (0, Some(1))),
        (0, None)
    );
    assert_eq!(
        combine_size_hints((3, Some(usize::MAX)), (10, Some(10))),
        (13, None)
    );
    assert_eq!(
        combine_size_hints((0, Some(usize::MAX - 1)), (0, Some(1))),
        (0, Some(usize::MAX))
    );
    assert_eq!(
        combine_size_hints((usize::MAX, Some(usize::MAX)), (10, Some(10))),
        (usize::MAX, None)
    );
}
