use header_vec::HeaderVec;

#[test]
fn test_atomic_append() {
    let mut hv = HeaderVec::with_capacity(10, ());

    hv.push(1);
    hv.push_atomic(2).unwrap();
    hv.push(3);

    assert_eq!(hv.len(), 3);
    assert_eq!(hv.as_slice(), [1, 2, 3]);
}

#[test]
fn push_atomic_hands_back_what_does_not_fit() {
    let mut hv = HeaderVec::with_capacity(2, "head");
    let at = hv.ptr();

    assert_eq!(hv.push_atomic(10), Ok(()));
    assert_eq!(hv.push_atomic(20), Ok(()));
    assert_eq!(hv.push_atomic(30), Err(30));
    assert_eq!(hv.push_atomic(40), Err(40));

    assert_eq!(hv.as_slice(), [10, 20]);
    assert_eq!(hv.len(), 2);
    assert_eq!(hv.capacity(), 2);
    assert_eq!(hv.ptr(), at);
    assert_eq!(*hv, "head");
}

#[test]
fn push_atomic_fits_again_after_growth() {
    let mut hv = HeaderVec::with_capacity(1, ());

    assert_eq!(hv.push_atomic('a'), Ok(()));
    assert_eq!(hv.push_atomic('b'), Err('b'));
    hv.reserve(1);
    assert_eq!(hv.capacity(), 2);
    assert_eq!(hv.push_atomic('b'), Ok(()));
    assert_eq!(hv.as_slice(), ['a', 'b']);
    assert!(!hv.is_empty_atomic_acquire());
    assert_eq!(hv.as_slice_atomic_acquire(), ['a', 'b']);
}
