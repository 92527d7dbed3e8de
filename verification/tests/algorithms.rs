use one_indexed_vec::ops::capacity::{growth_needed, shrink_by_excess_needed, shrink_by_factor_needed};
use one_indexed_vec::ops::interpolate::interpolation_segments;
use one_indexed_vec::VecIndexFromOne;

fn v64(items: Vec<i64>) -> VecIndexFromOne<i64> {
    VecIndexFromOne::from(items)
}

#[test]
fn readme_complete_example_values() {
    let data = v64(vec![2, 4, 6, 8, 10]);
    assert_eq!(data[1], 2);
    assert_eq!(data[5], 10);
    assert_eq!(data.get(0), None);
    let rev = data.reversed();
    assert_eq!(rev.as_slice(), &[10, 8, 6, 4, 2]);
    assert_eq!(data.product(), 3840);
    let prefix = data.prefix_sum_view();
    assert_eq!(prefix.range_sum(1, 3), 12);
    assert_eq!(prefix.total_sum(), 30);
    let other = v64(vec![1, 2, 3, 4, 5]);
    assert_eq!(data.dot_product(&other), 110);
    let mut windows = data.windows(3);
    assert_eq!(windows.next().unwrap(), &[2, 4, 6]);
    assert_eq!(windows.next().unwrap(), &[4, 6, 8]);
    assert_eq!(windows.next().unwrap(), &[6, 8, 10]);
    assert!(windows.next().is_none());
    assert_eq!(data.finite_difference().as_slice(), &[2, 2, 2, 2]);
}

#[test]
fn readme_dot_product_upto_of_longer_vectors() {
    let a = v64(vec![10, 20, 30, 40]);
    let b = v64(vec![1, 2, 3]);
    assert_eq!(a.dot_product_upto(&b, 3), 140);
}

#[test]
fn quadratic_has_constant_second_difference_equal_to_iterated_difference() {
    let v = v64(vec![1, 4, 9, 16, 25]);
    let d1 = v.finite_difference();
    assert_eq!(d1.as_slice(), &[3, 5, 7, 9]);
    assert_eq!(d1.finite_difference().as_slice(), v.second_finite_difference().as_slice());
}

#[test]
fn finite_difference_undoes_prefix_sum() {
    let v = v64(vec![5, -2, 7, 0, 3]);
    let d = v.prefix_sum().finite_difference();
    assert_eq!(d.as_slice(), &[-2, 7, 0, 3]);
}

#[test]
fn last_prefix_sum_is_sum_and_last_cumulative_product_is_product() {
    let v = v64(vec![3, -1, 4, 2]);
    assert_eq!(v.prefix_sum()[4], v.sum());
    assert_eq!(v.cumulative_product()[4], v.product());
    assert_eq!(v.cumsum_alloc().as_slice(), v.prefix_sum().as_slice());
}

#[test]
fn dot_range_is_difference_of_prefix_dots() {
    let a = v64(vec![1, -2, 3, 4, 5]);
    let b = v64(vec![2, 2, -1, 0, 3]);
    assert_eq!(
        a.dot_product_range(&b, 2, 5),
        a.dot_product_upto(&b, 5) - a.dot_product_upto(&b, 1)
    );
}

#[test]
fn central_difference_rounds_toward_zero() {
    let v = v64(vec![0, 5, 3, -4, 0]);
    // (3 - 0) / 2 = 1, (-4 - 5) / 2 = -4, (0 - 3) / 2 = -1
    assert_eq!(v.central_difference().as_slice(), &[1, -4, -1]);
}

#[test]
fn moving_average_divides_by_window_size() {
    let v = v64(vec![1, 2, 4, -7]);
    // (1+2)/2 = 1, (2+4)/2 = 3, (4-7)/2 = -1
    assert_eq!(v.moving_average(2).as_slice(), &[1, 3, -1]);
    let w = v64(vec![1; 300]);
    assert_eq!(w.moving_average(256).as_slice(), &[1; 45]);
    assert!(v.moving_average(usize::MAX).is_empty());
    assert!(v.moving_average(5).is_empty());
}

#[test]
fn mean_and_variance_of_integers() {
    let v = v64(vec![2, 4, 4, 4, 5, 5, 7, 9]);
    assert_eq!(v.mean(), 5);
    assert_eq!(v.variance(), 4);
    let w = v64(vec![-3, -4]);
    assert_eq!(w.mean(), -3);
    let long = v64(vec![2; 300]);
    assert_eq!(long.mean(), 2);
}

#[test]
fn sliding_extremes_with_ties_and_window_of_whole() {
    let v = v64(vec![2, 2, 1, 2, 3, 3, 0]);
    assert_eq!(v.sliding_window_max(2).as_slice(), &[2, 2, 2, 3, 3, 3]);
    assert_eq!(v.sliding_window_min(2).as_slice(), &[2, 1, 1, 2, 3, 0]);
    assert_eq!(v.sliding_window_max(7).as_slice(), &[3]);
    assert_eq!(v.sliding_window_min(7).as_slice(), &[0]);
    assert!(v.sliding_window_min(8).is_empty());
}

#[test]
fn sliding_median_with_duplicates_and_even_window() {
    let v = v64(vec![5, 1, 5, 5, 2, 2, 9]);
    assert_eq!(v.sliding_window_median(3).as_slice(), &[5, 5, 5, 2, 2]);
    // even window: lower median
    assert_eq!(v.sliding_window_median(4).as_slice(), &[5, 2, 2, 2]);
    assert_eq!(v.sliding_window_median(1).as_slice(), v.as_slice());
    assert!(v.sliding_window_median(8).is_empty());
}

#[test]
fn max_subarray_sum_ties_and_edges() {
    let empty: VecIndexFromOne<i64> = VecIndexFromOne::new();
    assert_eq!(empty.max_subarray_sum(), (0, 0, 0));
    let neg = v64(vec![-3, -1, -2]);
    assert_eq!(neg.max_subarray_sum(), (-1, 2, 2));
    // the optimum 3 is first reached by the run ending at position 2,
    // and the longest such run starts at position 1
    let ties = v64(vec![0, 3, -3, 3]);
    assert_eq!(ties.max_subarray_sum(), (3, 1, 2));
}

#[test]
fn max_subarray_product_finds_best_run() {
    let v = v64(vec![2, -5, -2, 4, -1]);
    assert_eq!(v.max_subarray_product(), (80, 1, 4));
    let w = v64(vec![-2, 0, -1]);
    assert_eq!(w.max_subarray_product(), (0, 1, 2));
    let single = v64(vec![-7]);
    assert_eq!(single.max_subarray_product(), (-7, 1, 1));
    let empty: VecIndexFromOne<i64> = VecIndexFromOne::new();
    assert_eq!(empty.max_subarray_product(), (0, 0, 0));
}

#[test]
fn majority_absent_and_empty() {
    assert_eq!(v64(vec![1, 2, 3, 1]).majority_element(), None);
    assert_eq!(v64(vec![]).majority_element(), None);
    assert_eq!(v64(vec![4]).majority_element(), Some(4));
    assert_eq!(v64(vec![1, 2, 2]).majority_element(), Some(2));
}

#[test]
fn majority_over_a_third_cases() {
    assert!(v64(vec![]).majority_elements_n3().is_empty());
    assert!(v64(vec![1, 2, 3]).majority_elements_n3().is_empty());
    assert_eq!(v64(vec![3, 3, 4]).majority_elements_n3().as_slice(), &[3]);
    assert_eq!(v64(vec![0, 0, 0]).majority_elements_n3().as_slice(), &[0]);
}

#[test]
fn cross_correlation_is_convolution_with_reversed_kernel() {
    let a = v64(vec![1, 2, 3]);
    let b = v64(vec![4, 5]);
    assert_eq!(a.cross_correlate(&b).as_slice(), &[5, 14, 23, 12]);
    assert_eq!(a.cross_correlate(&b).as_slice(), a.convolve(&b.reversed()).as_slice());
    assert!(a.convolve(&v64(vec![])).is_empty());
    assert!(v64(vec![]).cross_correlate(&b).is_empty());
}

#[test]
fn fills_with_leading_and_trailing_zeros() {
    let v = v64(vec![0, 0, 4, 0, 6, 0, 0]);
    assert_eq!(v.forward_fill().as_slice(), &[0, 0, 4, 4, 6, 6, 6]);
    assert_eq!(v.backward_fill().as_slice(), &[4, 4, 4, 6, 6, 0, 0]);
    let zeros = v64(vec![0, 0]);
    assert_eq!(zeros.forward_fill().as_slice(), &[0, 0]);
    assert_eq!(zeros.backward_fill().as_slice(), &[0, 0]);
}

#[test]
fn majority_n3_lists_candidates_in_vote_order() {
    let v = v64(vec![2, 2, 1, 1, 3]);
    assert_eq!(v.majority_elements_n3().as_slice(), &[2, 1]);
    let w = v64(vec![1, 2, 1, 3, 1, 2, 2]);
    assert_eq!(w.majority_elements_n3().as_slice(), &[1, 2]);
}

#[test]
fn convolution_commutes() {
    let a = v64(vec![1, 2, 3]);
    let b = v64(vec![4, 5]);
    assert_eq!(a.convolve(&b).as_slice(), b.convolve(&a).as_slice());
    assert_eq!(b.convolve(&a).as_slice(), &[4, 13, 22, 15]);
    let c = v64(vec![-2, 0, 7, 1]);
    assert_eq!(a.convolve(&c).as_slice(), c.convolve(&a).as_slice());
}

#[test]
fn backward_fill_keeps_trailing_zero() {
    let v = v64(vec![1, 0, 2, 0]);
    assert_eq!(v.backward_fill().as_slice(), &[1, 2, 2, 0]);
    let w = v64(vec![1, 0, 0, 2, 0, 3]);
    assert_eq!(w.backward_fill().as_slice(), &[1, 2, 2, 2, 3, 3]);
}

#[test]
fn reservoir_sample_sizes_and_membership() {
    let v = v64(vec![1, 2, 3, 4, 5, 6, 7, 8, 9, 10]);
    let s = v.reservoir_sample(3);
    assert_eq!(s.len(), 3);
    for x in s.iter() {
        assert!(v.as_slice().contains(x));
    }
    let mut seen: Vec<i64> = s.as_slice().to_vec();
    seen.sort();
    seen.dedup();
    assert_eq!(seen.len(), 3);
    assert_eq!(v.reservoir_sample(20).len(), 10);
    assert_eq!(v.reservoir_sample(20).as_slice(), v.as_slice());
    assert_eq!(v.reservoir_sample(10).as_slice(), v.as_slice());
    assert!(v.reservoir_sample(0).is_empty());
    assert!(v64(vec![]).reservoir_sample(2).is_empty());
}

#[test]
fn reservoir_sample_with_given_picks() {
    let v = v64(vec![10, 20, 30, 40, 50]);
    // positions 3, 4, 5 draw slots 1, 4, 2: 30 replaces slot 1, 40 is
    // dropped, 50 replaces slot 2
    let r = v.reservoir_sample_with_picks(2, &vec![1, 4, 2]);
    assert_eq!(r.as_slice(), &[30, 50]);
    let keep = v.reservoir_sample_with_picks(5, &vec![]);
    assert_eq!(keep.as_slice(), v.as_slice());
}

#[test]
fn capacity_decisions() {
    assert!(shrink_by_factor_needed(5, 1000, 4));
    assert!(!shrink_by_factor_needed(10, 100, 20));
    assert!(shrink_by_factor_needed(10, 10, 0));
    assert!(shrink_by_excess_needed(3, 1000, 10));
    assert!(!shrink_by_excess_needed(5, 20, 20));
    assert!(!shrink_by_excess_needed(5, 5, 0));
    assert_eq!(growth_needed(3, 4, 54), Some(51));
    assert_eq!(growth_needed(3, 100, 10), None);
}

#[test]
fn ensure_capacity_reaches_minimum() {
    let mut v = VecIndexFromOne::with_capacity(10);
    v.extend(vec![1, 2, 3, 4, 5, 6, 7, 8]);
    let cap = v.ensure_capacity(12);
    assert!(cap >= 12);
    assert_eq!(v.as_slice(), &[1, 2, 3, 4, 5, 6, 7, 8]);
}

#[test]
fn window_mut_slices_and_index() {
    let mut v = v64(vec![1, 2, 3, 4, 5]);
    {
        let mut w = v.window_mut(2, 3);
        assert_eq!(w.len(), 2);
        assert!(!w.is_empty());
        assert_eq!(w.as_slice(), &[2, 3]);
        assert_eq!(w[2], 3);
        w.as_mut_slice()[1] = 30;
    }
    assert_eq!(v.as_slice(), &[1, 2, 30, 4, 5]);
}

#[test]
fn windows_larger_than_container_yield_nothing() {
    let v = v64(vec![1, 2]);
    let mut w = v.windows(3);
    assert_eq!(w.len(), 0);
    assert!(w.next().is_none());
    let mut u = v64(vec![1, 2, 3]);
    let mut wm = u.windows_mut(2);
    assert_eq!(wm.size_hint(), (2, Some(2)));
    while let Some(win) = wm.next() {
        win[1] += win[0];
    }
    assert_eq!(u.as_slice(), &[1, 3, 6]);
}

#[test]
fn reservoir_sample_draws_vary() {
    let v = v64(vec![1, 2, 3, 4, 5, 6, 7, 8, 9, 10]);
    let first = v.reservoir_sample(1)[1];
    let mut differs = false;
    for _ in 0..200 {
        if v.reservoir_sample(1)[1] != first {
            differs = true;
        }
    }
    assert!(differs);
}

#[test]
fn max_subarray_sum_of_large_negatives() {
    // the sum of both elements is below i64::MIN, but no run that is
    // extended has a negative total, so nothing overflows
    let v = v64(vec![-i64::MAX, -i64::MAX]);
    assert_eq!(v.max_subarray_sum(), (-i64::MAX, 1, 1));
}

#[test]
fn forward_fill_twice_changes_nothing() {
    let v = v64(vec![0, 3, 0, 0, -1, 0]);
    let once = v.forward_fill();
    assert_eq!(once.as_slice(), &[0, 3, 3, 3, -1, -1]);
    assert_eq!(once.forward_fill().as_slice(), once.as_slice());
}

#[test]
fn read_after_write_and_insert_at_end() {
    let mut v = v64(vec![1, 2, 3]);
    v.replace(2, 20);
    assert_eq!(v.get(2), Some(&20));
    assert_eq!(v.get(1), Some(&1));
    assert_eq!(v.get(3), Some(&3));
    let mut w = v64(vec![1, 2]);
    let mut p = v64(vec![1, 2]);
    w.insert(3, 9);
    p.push(9);
    assert_eq!(w.as_slice(), p.as_slice());
}

#[test]
fn majority_elements_are_unique() {
    let v = v64(vec![7, 7, 7, 1, 2]);
    assert_eq!(v.majority_element(), Some(7));
    assert_eq!(v.majority_elements_n3().as_slice(), &[7]);
}

#[test]
fn interpolation_segments_bracket_each_position() {
    let known = vec![false, true, false, false, true, false, true, false];
    let segs = interpolation_segments(&known);
    assert_eq!(
        segs,
        vec![(2, 5), (2, 5), (2, 5), (2, 5), (2, 5), (5, 7), (5, 7), (5, 7)]
    );
    assert_eq!(interpolation_segments(&vec![true, true]), vec![(1, 2), (1, 2)]);
}
