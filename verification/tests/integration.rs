use one_indexed_vec::{Index1, VecIndexFromOne};

#[test]
fn end_to_end_one_based_workflow() {
    let mut scores = VecIndexFromOne::new();
    scores.push(95);
    scores.push(87);
    scores.push(92);

    assert_eq!(scores[1], 95);
    assert_eq!(scores[3], 92);
    assert_eq!(scores.len(), 3);

    // update the 2nd item
    *scores.index_mut(2) = 90;
    assert_eq!(scores.get(2), Some(&90));

    // after removing the 1st item, later items move forward and stay 1-based
    let removed = scores.remove(1);
    assert_eq!(removed, 95);
    assert_eq!(scores[1], 90);
    assert_eq!(scores[2], 92);
}

#[test]
fn collection_interop() {
    let v: VecIndexFromOne<String> =
        VecIndexFromOne::from((0..5).map(|i| format!("item-{i}")).collect::<Vec<String>>());
    assert_eq!(v.len(), 5);
    assert_eq!(v[5], "item-4");

    let mut w = VecIndexFromOne::from(vec![1, 2]);
    w.extend(vec![3, 4]);
    assert_eq!(w[1], 1);
    assert_eq!(w[4], 4);

    let plain: Vec<i32> = w.into();
    assert_eq!(plain, vec![1, 2, 3, 4]);
}

#[test]
fn generic_code_works_with_one_based_container() {
    fn total<I>(iter: I) -> i64
    where
        I: IntoIterator<Item = i64>,
    {
        iter.into_iter().sum()
    }

    let v = VecIndexFromOne::from(vec![10, 20, 30]);
    assert_eq!(total(v.iter().copied()), 60);
    assert_eq!(total(v.iter_indexed().into_iter().map(|(_, x)| *x)), 60);
}

#[test]
fn one_based_enumeration_matches_positions() {
    let v = VecIndexFromOne::from(vec!["a", "b", "c"]);
    let positions: Vec<(usize, &str)> = v.iter_indexed().into_iter().map(|(i, s)| (i, *s)).collect();
    assert_eq!(positions, vec![(1, "a"), (2, "b"), (3, "c")]);

    let all: Vec<usize> = v.indices().collect();
    assert_eq!(all, vec![1, 2, 3]);
}

#[test]
fn type_safe_index1_usage() {
    let mut v = VecIndexFromOne::from(vec![10, 20, 30]);

    let second = Index1::new(2);
    assert_eq!(v[second], 20);
    *v.index1_mut(second) = 200;
    assert_eq!(v[second], 200);

    assert_eq!(second.get(), 2);
    assert_eq!(second.to_zero_based(), Some(1));
    let raw: usize = second.into();
    assert_eq!(raw, 2);

    assert_eq!(v.get_index1(Index1::new(1)), Some(&10));
    assert_eq!(v.get_index1(Index1::new(0)), None);
}

#[test]
fn numeric_algorithms_from_outside() {
    let v: VecIndexFromOne<i64> = VecIndexFromOne::from(vec![1, 2, 3, 4]);

    let ps = v.prefix_sum();
    assert_eq!(ps.as_slice(), &[1, 3, 6, 10]);
    assert_eq!(v.sum(), 10);

    let w = VecIndexFromOne::from(vec![2, 2, 2, 2]);
    assert_eq!(v.dot_product(&w), 20);

    let neg = VecIndexFromOne::from(vec![-1, -2]);
    assert!(neg.all_non_positive());
    assert!(!v.any_non_positive());
}

#[test]
fn index_zero_and_oob_are_rejected_by_get() {
    let v = VecIndexFromOne::from(vec![1, 2, 3]);
    assert_eq!(v.get(0), None);
    assert_eq!(v.get(4), None);
}
