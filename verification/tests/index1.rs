use one_indexed_vec::Index1;

#[test]
fn new_and_get_roundtrip() {
    let i = Index1::new(5);
    assert_eq!(i.get(), 5);
    assert_eq!(Index1::from_one_based(5), i);
}

#[test]
fn to_zero_based_conversion() {
    assert_eq!(Index1::new(1).to_zero_based(), Some(0));
    assert_eq!(Index1::new(3).to_zero_based(), Some(2));
    assert_eq!(Index1::new(0).to_zero_based(), None); // invalid position
}

#[test]
fn saturating_arithmetic() {
    assert_eq!(Index1::new(3).saturating_add(2).get(), 5);
    assert_eq!(Index1::new(3).saturating_sub(2).get(), 1);
    assert_eq!(Index1::new(1).saturating_sub(10).get(), 1); // lower bound 1
}

#[test]
fn copy_and_compare() {
    let a = Index1::new(2);
    let b = a; // Copy
    assert_eq!(a, b);
    assert!(Index1::new(1) < Index1::new(2));
    assert_eq!(Index1::default(), Index1::new(0));
}

#[test]
fn display_and_from_usize() {
    assert_eq!(Index1::new(42).to_string(), "42");
    let n: usize = Index1::new(7).into();
    assert_eq!(n, 7);
}

#[test]
fn saturating_add_stops_at_usize_max() {
    assert_eq!(Index1::new(usize::MAX - 1).saturating_add(5).get(), usize::MAX);
    assert_eq!(Index1::new(usize::MAX).saturating_add(0).get(), usize::MAX);
}

#[test]
fn saturating_sub_from_invalid_zero_gives_one() {
    assert_eq!(Index1::new(0).saturating_sub(0).get(), 1);
    assert_eq!(Index1::new(10).saturating_sub(0).get(), 10);
}

#[test]
fn to_string_writes_decimal_digits() {
    assert_eq!(Index1::new(0).to_string(), "0");
    assert_eq!(Index1::new(7).to_string(), "7");
    assert_eq!(Index1::new(1005).to_string(), "1005");
    assert_eq!(Index1::new(usize::MAX).to_string(), usize::MAX.to_string());
}

#[test]
fn to_zero_based_of_largest_position() {
    assert_eq!(Index1::new(usize::MAX).to_zero_based(), Some(usize::MAX - 1));
}
