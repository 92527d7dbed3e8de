//! Properties that relate the operations of the library to each other.
use vstd::prelude::*;

use super::ops::math::{count_of, dot_of, product_of, sum_of, trunc_div};
use super::ops::extremes::{seq_max, seq_min};
use super::ops::convolution::{conv_hi, conv_lo, convolution_at, lemma_conv_sum_swap};
use super::ops::fill::{backward_filled, forward_filled};
use super::ops::median::{ascending, lower_median};
use vstd::relations::total_ordering;

verus! {

/// Popping right after pushing `x` returns `x` and restores the container.
pub proof fn law_push_then_pop<T>(s: Seq<T>, x: T)
    ensures
        s.push(x).len() > 0,
        s.push(x).last() == x,
        s.push(x).drop_last() == s,
{
    assert(s.push(x).drop_last() =~= s);
}

/// Removing at the position where `x` was just inserted returns `x` and
/// restores the container.
pub proof fn law_insert_then_remove<T>(s: Seq<T>, index: int, x: T)
    requires
        1 <= index <= s.len() + 1,
    ensures
        s.insert(index - 1, x)[index - 1] == x,
        s.insert(index - 1, x).remove(index - 1) == s,
{
    assert(s.insert(index - 1, x).remove(index - 1) =~= s);
}

/// Inserting at position `len + 1` is the same as pushing.
pub proof fn law_insert_at_end_is_push<T>(s: Seq<T>, x: T)
    ensures
        s.insert(s.len() as int, x) == s.push(x),
{
    assert(s.insert(s.len() as int, x) =~= s.push(x));
}

/// After writing `x` at position `p`, position `p` reads `x` and every other
/// position reads what it held before.
pub proof fn law_read_after_write<T>(s: Seq<T>, p: int, x: T, q: int)
    requires
        1 <= p <= s.len(),
        1 <= q <= s.len(),
    ensures
        s.update(p - 1, x)[p - 1] == x,
        q != p ==> s.update(p - 1, x)[q - 1] == s[q - 1],
        s.update(p - 1, x).len() == s.len(),
{
}

/// Reversing twice restores the order.
pub proof fn law_reverse_involutive<T>(s: Seq<T>)
    ensures
        s.reverse().reverse() == s,
{
    assert(s.reverse().reverse() =~= s);
}

/// After reversal, position `p` holds what position `len + 1 - p` held.
pub proof fn law_reverse_positions<T>(s: Seq<T>, p: int)
    requires
        1 <= p <= s.len(),
    ensures
        s.reverse()[p - 1] == s[s.len() - p],
{
}

/// The last prefix sum is the sum of all elements.
pub proof fn law_prefix_sum_last_is_sum(s: Seq<i64>)
    ensures
        sum_of(s.take(s.len() as int)) == sum_of(s),
{
    assert(s.take(s.len() as int) =~= s);
}

/// The last cumulative product is the product of all elements.
pub proof fn law_cumulative_product_last_is_product(s: Seq<i64>)
    ensures
        product_of(s.take(s.len() as int)) == product_of(s),
{
    assert(s.take(s.len() as int) =~= s);
}

/// Forward differences undo prefix sums: the difference of the prefix sums
/// at positions `i + 1` and `i + 2` is the element at position `i + 2`.
pub proof fn law_difference_of_prefix_sums(s: Seq<i64>, i: int)
    requires
        0 <= i < s.len() - 1,
    ensures
        sum_of(s.take(i + 2)) - sum_of(s.take(i + 1)) == s[i + 1],
{
    assert(s.take(i + 2).drop_last() =~= s.take(i + 1));
}

/// The second difference is the forward difference of the forward
/// differences.
pub proof fn law_second_difference_is_iterated(s: Seq<i64>, i: int)
    requires
        0 <= i < s.len() - 2,
    ensures
        (s[i + 2] - s[i + 1]) - (s[i + 1] - s[i]) == s[i + 2] - 2 * s[i + 1] + s[i],
{
}

/// A dot product over `start..=end` is the dot product up to `end` minus the
/// dot product up to `start - 1`.
pub proof fn law_dot_range_is_difference(a: Seq<i64>, b: Seq<i64>, start: int, end: int)
    requires
        1 <= start <= end,
    ensures
        dot_of(a, b, start - 1, end) == dot_of(a, b, 0, end) - dot_of(a, b, 0, start - 1),
    decreases end - start,
{
    if end > start {
        law_dot_range_is_difference(a, b, start, end - 1);
    } else {
        assert(dot_of(a, b, start - 1, start - 1) == 0);
    }
}

/// A moving average over windows of one element reproduces the elements.
pub proof fn law_moving_average_of_one(s: Seq<i64>, j: int)
    requires
        0 <= j < s.len(),
    ensures
        trunc_div(sum_of(s.subrange(j, j + 1)), 1) == s[j],
{
    let w = s.subrange(j, j + 1);
    assert(w.drop_last() =~= Seq::<i64>::empty());
    assert(sum_of(w.drop_last()) == 0);
    assert(sum_of(w) == s[j]);
    let v = s[j] as int;
    assert(v >= 0 ==> v / 1 == v);
    assert(v < 0 ==> -((-v) / 1) == v);
}

/// Two distinct values cannot both fill more than half of the positions:
/// the majority element is unique.
pub proof fn law_majority_unique(s: Seq<i64>, x: i64, y: i64)
    requires
        2 * count_of(s, x) > s.len(),
        2 * count_of(s, y) > s.len(),
    ensures
        x == y,
{
    if x != y {
        lemma_two_counts(s, x, y);
    }
}

proof fn lemma_two_counts(s: Seq<i64>, x: i64, y: i64)
    requires
        x != y,
    ensures
        count_of(s, x) + count_of(s, y) <= s.len(),
    decreases s.len(),
{
    if s.len() > 0 {
        lemma_two_counts(s.drop_last(), x, y);
    }
}

/// At most two distinct values can each fill more than a third of the
/// positions.
pub proof fn law_at_most_two_over_a_third(s: Seq<i64>, x: i64, y: i64, z: i64)
    requires
        x != y,
        y != z,
        x != z,
        3 * count_of(s, x) > s.len(),
        3 * count_of(s, y) > s.len(),
    ensures
        3 * count_of(s, z) <= s.len(),
{
    lemma_three_counts(s, x, y, z);
}

proof fn lemma_three_counts(s: Seq<i64>, x: i64, y: i64, z: i64)
    requires
        x != y,
        y != z,
        x != z,
    ensures
        count_of(s, x) + count_of(s, y) + count_of(s, z) <= s.len(),
    decreases s.len(),
{
    if s.len() > 0 {
        lemma_three_counts(s.drop_last(), x, y, z);
    }
}

/// The lower median of a non-empty window is one of its elements.
pub proof fn law_lower_median_in_window(w: Seq<i64>)
    requires
        w.len() > 0,
    ensures
        w.contains(lower_median(w)),
{
    broadcast use vstd::seq_lib::group_to_multiset_ensures;

    assert(total_ordering(ascending()));
    w.lemma_sort_by_ensures(ascending());
    let sorted = w.sort_by(ascending());
    vstd::seq_lib::to_multiset_len(w);
    vstd::seq_lib::to_multiset_len(sorted);
    let m = sorted[(w.len() - 1) / 2];
    assert(sorted.contains(m));
    vstd::seq_lib::to_multiset_contains(sorted, m);
    vstd::seq_lib::to_multiset_contains(w, m);
}

/// A window of one element has that element as its maximum, minimum and
/// median, so the sliding statistics over windows of size 1 reproduce the
/// elements.
pub proof fn law_single_element_window(x: i64)
    ensures
        seq_max(seq![x]) == x,
        seq_min(seq![x]) == x,
        lower_median(seq![x]) == x,
{
    let w = seq![x];
    assert(total_ordering(ascending()));
    w.lemma_sort_by_ensures(ascending());
    let sorted = w.sort_by(ascending());
    vstd::seq_lib::to_multiset_len(w);
    vstd::seq_lib::to_multiset_len(sorted);
    assert(sorted.len() == 1);
    vstd::seq_lib::to_multiset_contains(sorted, sorted[0]);
    vstd::seq_lib::to_multiset_contains(w, sorted[0]);
    assert(sorted.contains(sorted[0]));
    assert(w.contains(sorted[0]));
}

/// Forward filling an already forward-filled sequence changes nothing.
pub proof fn law_forward_fill_idempotent(s: Seq<i64>, i: int)
    requires
        0 <= i < s.len(),
    ensures
        forward_filled(Seq::new(s.len(), |k: int| forward_filled(s, k)), i) == forward_filled(s, i),
    decreases i,
{
    let f = Seq::new(s.len(), |k: int| forward_filled(s, k));
    if i > 0 && f[i] == 0 {
        law_forward_fill_idempotent(s, i - 1);
        assert(s[i] == 0);
    }
}

/// Convolution is commutative: term `k` of `a` convolved with `b` equals
/// term `k` of `b` convolved with `a`.
pub proof fn law_convolution_commutative(a: Seq<i64>, b: Seq<i64>, k: int)
    ensures
        convolution_at(a, b, k) == convolution_at(b, a, k),
{
    let n = a.len() as int;
    let m = b.len() as int;
    lemma_conv_sum_swap(a, b, k, conv_lo(k, m), conv_hi(k, n));
}

/// Backward fill keeps every known (non-zero) value where it is.
pub proof fn law_backward_fill_keeps_known(s: Seq<i64>, i: int)
    requires
        0 <= i < s.len(),
        s[i] != 0,
    ensures
        backward_filled(s, i) == s[i],
{
}

/// Backward fill gives a missing (zero) value the first known value after
/// it: when `s[j] != 0` and every position from `i` up to `j` is `0`.
pub proof fn law_backward_fill_takes_next_known(s: Seq<i64>, i: int, j: int)
    requires
        0 <= i < j < s.len(),
        s[j] != 0,
        forall|t: int| i <= t < j ==> #[trigger] s[t] == 0,
    ensures
        backward_filled(s, i) == s[j],
    decreases j - i,
{
    assert(backward_filled(s, j) == s[j]);
    if i + 1 < j {
        law_backward_fill_takes_next_known(s, i + 1, j);
    }
    assert(s[i] == 0);
}

/// Backward fill leaves `0` at every missing position with no known value
/// after it.
pub proof fn law_backward_fill_trailing_zeros(s: Seq<i64>, i: int)
    requires
        0 <= i < s.len(),
        forall|t: int| i <= t < s.len() ==> #[trigger] s[t] == 0,
    ensures
        backward_filled(s, i) == 0,
    decreases s.len() - i,
{
    assert(s[i] == 0);
    if i + 1 < s.len() {
        law_backward_fill_trailing_zeros(s, i + 1);
    }
}

/// Forward fill keeps every known (non-zero) value where it is.
pub proof fn law_forward_fill_keeps_known(s: Seq<i64>, i: int)
    requires
        0 <= i < s.len(),
        s[i] != 0,
    ensures
        forward_filled(s, i) == s[i],
{
}

/// Forward fill gives a missing (zero) value the last known value before
/// it: when `s[j] != 0` and every position after `j` up to `i` is `0`.
pub proof fn law_forward_fill_takes_previous_known(s: Seq<i64>, j: int, i: int)
    requires
        0 <= j < i < s.len(),
        s[j] != 0,
        forall|t: int| j < t <= i ==> #[trigger] s[t] == 0,
    ensures
        forward_filled(s, i) == s[j],
    decreases i - j,
{
    assert(s[i] == 0);
    assert(forward_filled(s, j) == s[j]);
    if j + 1 < i {
        law_forward_fill_takes_previous_known(s, j, i - 1);
    }
}

/// Forward fill leaves `0` at every missing position with no known value
/// before it.
pub proof fn law_forward_fill_leading_zeros(s: Seq<i64>, i: int)
    requires
        0 <= i < s.len(),
        forall|t: int| 0 <= t <= i ==> #[trigger] s[t] == 0,
    ensures
        forward_filled(s, i) == 0,
    decreases i,
{
    assert(s[i] == 0);
    if i > 0 {
        law_forward_fill_leading_zeros(s, i - 1);
    }
}

} // verus!
