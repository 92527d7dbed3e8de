use one_indexed_vec::{Index1, VecIndexFromOne};

// ---- construction ----

#[test]
fn new_is_empty() {
    let v: VecIndexFromOne<i32> = VecIndexFromOne::new();
    assert!(v.is_empty());
    assert_eq!(v.len(), 0);
}

#[test]
fn from_vec_rebases_first_element_to_one() {
    let v = VecIndexFromOne::from(vec![10, 20, 30]);
    assert_eq!(v.len(), 3);
    assert_eq!(v.get(1), Some(&10)); // original 0th -> 1st
    assert_eq!(v.get(2), Some(&20));
    assert_eq!(v.get(3), Some(&30));
}

#[test]
fn from_impl_and_into_inner() {
    let v: VecIndexFromOne<i32> = Vec::from(vec![1, 2]).into();
    assert_eq!(v.len(), 2);
    let back: Vec<i32> = v.into();
    assert_eq!(back, vec![1, 2]);
}

#[test]
fn collect_from_iterator() {
    let v: VecIndexFromOne<i32> = VecIndexFromOne::from((1..=5).collect::<Vec<i32>>());
    assert_eq!(v.len(), 5);
    assert_eq!(v[1], 1);
    assert_eq!(v[5], 5);
}

// ---- access ----

#[test]
fn get_with_valid_index() {
    let v = VecIndexFromOne::from(vec!["a", "b", "c"]);
    assert_eq!(v.get(1), Some(&"a"));
    assert_eq!(v.get(3), Some(&"c"));
}

#[test]
fn get_zero_returns_none() {
    let v = VecIndexFromOne::from(vec![1, 2, 3]);
    assert_eq!(v.get(0), None); // 0 is an invalid index
}

#[test]
fn get_out_of_bounds_returns_none() {
    let v = VecIndexFromOne::from(vec![1, 2, 3]);
    assert_eq!(v.get(4), None);
    assert_eq!(v.get(usize::MAX), None);
}

#[test]
fn get_mut_allows_mutation() {
    let mut v = VecIndexFromOne::from(vec![1, 2, 3]);
    if let Some(x) = v.get_mut(2) {
        *x = 99;
    }
    assert_eq!(v[2], 99);
    assert_eq!(v.get_mut(0), None);
}

#[test]
fn first_and_last() {
    let v = VecIndexFromOne::from(vec![1, 2, 3]);
    assert_eq!(v.first(), Some(&1));
    assert_eq!(v.last(), Some(&3));
    let empty: VecIndexFromOne<i32> = VecIndexFromOne::new();
    assert_eq!(empty.first(), None);
    assert_eq!(empty.last(), None);
}

// ---- Index syntax ----

#[test]
fn index_syntax_is_one_based() {
    let v = VecIndexFromOne::from(vec![10, 20, 30]);
    assert_eq!(v[1], 10);
    assert_eq!(v[2], 20);
    assert_eq!(v[3], 30);
}

#[test]
fn index_mut_syntax() {
    let mut v = VecIndexFromOne::from(vec![1, 2, 3]);
    *v.index_mut(2) = 42;
    assert_eq!(v[2], 42);
}

// ---- mutation ----

#[test]
fn push_increases_len_and_appends() {
    let mut v = VecIndexFromOne::new();
    v.push(1);
    v.push(2);
    assert_eq!(v.len(), 2);
    assert_eq!(v[1], 1);
    assert_eq!(v[2], 2);
}

#[test]
fn pop_returns_last_and_shrinks() {
    let mut v = VecIndexFromOne::from(vec![1, 2, 3]);
    assert_eq!(v.pop(), Some(3));
    assert_eq!(v.len(), 2);
    assert_eq!(v.pop(), Some(2));
    assert_eq!(v.pop(), Some(1));
    assert_eq!(v.pop(), None);
    assert!(v.is_empty());
}

#[test]
fn insert_at_front_remains_one_based() {
    let mut v = VecIndexFromOne::from(vec![2, 3]);
    v.insert(1, 1); // insert at the very front
    assert_eq!(v.len(), 3);
    assert_eq!(v[1], 1);
    assert_eq!(v[2], 2);
    assert_eq!(v[3], 3);
}

#[test]
fn insert_at_len_plus_one_equals_push() {
    let mut v = VecIndexFromOne::from(vec![1, 2]);
    v.insert(3, 3);
    assert_eq!(v[3], 3);
    assert_eq!(v.len(), 3);
}

#[test]
fn remove_at_one_based_position() {
    let mut v = VecIndexFromOne::from(vec![1, 2, 3]);
    assert_eq!(v.remove(2), 2);
    assert_eq!(v.len(), 2);
    assert_eq!(v[1], 1);
    assert_eq!(v[2], 3); // later elements shift forward
}

#[test]
fn replace_swaps_value() {
    let mut v = VecIndexFromOne::from(vec![1, 2, 3]);
    let old = v.replace(2, 99);
    assert_eq!(old, 2);
    assert_eq!(v[2], 99);
}

#[test]
fn clear_empties() {
    let mut v = VecIndexFromOne::from(vec![1, 2, 3]);
    v.clear();
    assert!(v.is_empty());
    assert_eq!(v.len(), 0);
}

// ---- iteration ----

#[test]
fn iter_yields_elements_in_order() {
    let v = VecIndexFromOne::from(vec![1, 2, 3]);
    let collected: Vec<_> = v.iter().copied().collect();
    assert_eq!(collected, vec![1, 2, 3]);
}

#[test]
fn iter_indexed_starts_at_one() {
    let v = VecIndexFromOne::from(vec![10, 20, 30]);
    let pairs: Vec<_> = v.iter_indexed();
    assert_eq!(pairs, vec![(1, &10), (2, &20), (3, &30)]);
}

#[test]
fn indices_are_one_to_len_inclusive() {
    let v = VecIndexFromOne::from(vec![10, 20, 30]);
    let idx: Vec<_> = v.indices().collect();
    assert_eq!(idx, vec![1, 2, 3]);
}

#[test]
fn iter_mut_allows_mutation() {
    let mut v = VecIndexFromOne::from(vec![1, 2, 3]);
    for x in v.iter_mut() {
        *x *= 10;
    }
    assert_eq!(v.as_slice(), &[10, 20, 30]);
}

// ---- extension ----

#[test]
fn extend_appends_batch() {
    let mut v = VecIndexFromOne::from(vec![1, 2]);
    v.extend(vec![3, 4, 5]);
    assert_eq!(v.len(), 5);
    assert_eq!(v[5], 5);
}

// ---- edge cases ----

#[test]
fn large_index_does_not_underflow() {
    // get(usize::MAX) never panics from subtraction underflow
    let v = VecIndexFromOne::from(vec![1]);
    assert_eq!(v.get(usize::MAX), None);
    let mut v = VecIndexFromOne::from(vec![1]);
    assert_eq!(v.get_mut(usize::MAX), None);
}

// ---- type-safe indexing with Index1 ----

#[test]
fn index1_syntax_reads_elements() {
    let v = VecIndexFromOne::from(vec![10, 20, 30]);
    assert_eq!(v[Index1::new(1)], 10);
    assert_eq!(v[Index1::new(2)], 20);
    assert_eq!(v[Index1::new(3)], 30);
}

#[test]
fn index1_syntax_writes_elements() {
    let mut v = VecIndexFromOne::from(vec![1, 2, 3]);
    *v.index1_mut(Index1::new(2)) = 99;
    assert_eq!(v[Index1::new(2)], 99);
}

#[test]
fn get_index1_methods() {
    let mut v = VecIndexFromOne::from(vec![1, 2, 3]);
    assert_eq!(v.get_index1(Index1::new(1)), Some(&1));
    assert_eq!(v.get_index1(Index1::new(0)), None); // invalid position
    if let Some(x) = v.get_index1_mut(Index1::new(3)) {
        *x = 30;
    }
    assert_eq!(v[Index1::new(3)], 30);
}

// ---- reverse ----

#[test]
fn reversed_creates_new_reversed_copy() {
    let v = VecIndexFromOne::from(vec![1, 2, 3, 4]);
    let rev = v.reversed();
    assert_eq!(rev.len(), 4);
    assert_eq!(rev[1], 4);
    assert_eq!(rev[2], 3);
    assert_eq!(rev[3], 2);
    assert_eq!(rev[4], 1);
    // original unchanged
    assert_eq!(v[1], 1);
    assert_eq!(v[4], 4);
}

#[test]
fn reverse_in_place() {
    let mut v = VecIndexFromOne::from(vec!['a', 'b', 'c', 'd']);
    v.reverse();
    assert_eq!(v[1], 'd');
    assert_eq!(v[2], 'c');
    assert_eq!(v[3], 'b');
    assert_eq!(v[4], 'a');
}

#[test]
fn reverse_empty() {
    let mut v: VecIndexFromOne<i32> = VecIndexFromOne::new();
    v.reverse();
    assert!(v.is_empty());
    let rev = v.reversed();
    assert!(rev.is_empty());
}

#[test]
fn reverse_single_element() {
    let mut v = VecIndexFromOne::from(vec![42]);
    v.reverse();
    assert_eq!(v[1], 42);
    let rev = v.reversed();
    assert_eq!(rev[1], 42);
}

// ---- literal construction ----

#[test]
fn vec1_macro_empty() {
    let v: VecIndexFromOne<i32> = VecIndexFromOne::from(vec![]);
    assert!(v.is_empty());
}

#[test]
fn vec1_macro_single() {
    let v = VecIndexFromOne::from(vec![42]);
    assert_eq!(v.len(), 1);
    assert_eq!(v[1], 42);
}

#[test]
fn vec1_macro_multiple() {
    let v = VecIndexFromOne::from(vec![1, 2, 3, 4, 5]);
    assert_eq!(v.len(), 5);
    assert_eq!(v[1], 1);
    assert_eq!(v[3], 3);
    assert_eq!(v[5], 5);
}

#[test]
fn vec1_macro_trailing_comma() {
    let v = VecIndexFromOne::from(vec!['a', 'b', 'c',]);
    assert_eq!(v.len(), 3);
    assert_eq!(v[1], 'a');
    assert_eq!(v[3], 'c');
}

#[test]
fn vec1_macro_with_expressions() {
    let v = VecIndexFromOne::from(vec![1 + 1, 2 * 3, 10 - 5]);
    assert_eq!(v[1], 2);
    assert_eq!(v[2], 6);
    assert_eq!(v[3], 5);
}

// ---- further cases ----

#[test]
fn reverse_twice_restores_order() {
    let mut v = VecIndexFromOne::from(vec![3, 1, 4, 1, 5]);
    v.reverse();
    v.reverse();
    assert_eq!(v.as_slice(), &[3, 1, 4, 1, 5]);
}

#[test]
fn insert_then_remove_restores() {
    let mut v = VecIndexFromOne::from(vec![1, 2, 3]);
    v.insert(2, 9);
    assert_eq!(v.as_slice(), &[1, 9, 2, 3]);
    assert_eq!(v.remove(2), 9);
    assert_eq!(v.as_slice(), &[1, 2, 3]);
}

#[test]
fn push_then_pop_restores() {
    let mut v = VecIndexFromOne::from(vec![7, 8]);
    v.push(9);
    assert_eq!(v.pop(), Some(9));
    assert_eq!(v.as_slice(), &[7, 8]);
}

#[test]
fn first_mut_and_last_mut_write_through() {
    let mut v = VecIndexFromOne::from(vec![1, 2, 3]);
    if let Some(x) = v.first_mut() {
        *x = 10;
    }
    if let Some(x) = v.last_mut() {
        *x = 30;
    }
    assert_eq!(v.as_slice(), &[10, 2, 30]);
    let mut e: VecIndexFromOne<i32> = VecIndexFromOne::new();
    assert_eq!(e.first_mut(), None);
    assert_eq!(e.last_mut(), None);
}

#[test]
fn as_vec_and_into_keep_order() {
    let v = VecIndexFromOne::from(vec![4, 5, 6]);
    assert_eq!(v.as_vec(), &vec![4, 5, 6]);
    let back: Vec<i32> = v.into();
    assert_eq!(back, vec![4, 5, 6]);
}

#[test]
fn as_mut_slice_writes_through() {
    let mut v = VecIndexFromOne::from(vec![1, 2, 3]);
    v.as_mut_slice()[0] = 5;
    assert_eq!(v[1], 5);
}

#[test]
fn capacity_is_at_least_length_and_reserve_keeps_elements() {
    let mut v = VecIndexFromOne::from(vec![1, 2, 3]);
    assert!(v.capacity() >= 3);
    v.reserve(100);
    assert!(v.capacity() >= 103);
    assert_eq!(v.as_slice(), &[1, 2, 3]);
    v.shrink_to_fit();
    assert!(v.capacity() >= 3);
    assert!(v.capacity() < 103);
    assert_eq!(v.as_slice(), &[1, 2, 3]);
}

#[test]
fn clone_copies_elements() {
    let v = VecIndexFromOne::from(vec![1, 0, 2]);
    let c = v.clone();
    assert_eq!(c.as_slice(), &[1, 0, 2]);
}

#[test]
fn reversed_clones_strings() {
    let v = VecIndexFromOne::from(vec![String::from("x"), String::from("y")]);
    let r = v.reversed();
    assert_eq!(r[1], "y");
    assert_eq!(r[2], "x");
}
