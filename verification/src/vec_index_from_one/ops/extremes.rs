//! Sliding-window maximum and minimum with a monotonic queue of positions.
use vstd::prelude::*;

use crate::vec_index_from_one::VecIndexFromOne;

verus! {

/// The largest element of a non-empty sequence.
pub open spec fn seq_max(s: Seq<i64>) -> i64
    decreases s.len(),
{
    if s.len() <= 1 {
        s[0]
    } else if s.last() > seq_max(s.drop_last()) {
        s.last()
    } else {
        seq_max(s.drop_last())
    }
}

/// The smallest element of a non-empty sequence.
pub open spec fn seq_min(s: Seq<i64>) -> i64
    decreases s.len(),
{
    if s.len() <= 1 {
        s[0]
    } else if s.last() < seq_min(s.drop_last()) {
        s.last()
    } else {
        seq_min(s.drop_last())
    }
}

/// `seq_max` is an element of the sequence and bounds every element.
pub proof fn lemma_seq_max_bounds(s: Seq<i64>)
    requires
        s.len() > 0,
    ensures
        exists|i: int| 0 <= i < s.len() && s[i] == seq_max(s),
        forall|i: int| 0 <= i < s.len() ==> s[i] <= seq_max(s),
    decreases s.len(),
{
    if s.len() > 1 {
        lemma_seq_max_bounds(s.drop_last());
        let w = choose|i: int| 0 <= i < s.len() - 1 && s.drop_last()[i] == seq_max(s.drop_last());
        if s.last() > seq_max(s.drop_last()) {
            assert(s[s.len() - 1] == seq_max(s));
        } else {
            assert(s[w] == seq_max(s));
        }
        assert forall|i: int| 0 <= i < s.len() implies s[i] <= seq_max(s) by {
            if i < s.len() - 1 {
                assert(s.drop_last()[i] == s[i]);
            }
        }
    } else {
        assert(s[0] == seq_max(s));
    }
}

/// `seq_min` is an element of the sequence and is bounded by every element.
pub proof fn lemma_seq_min_bounds(s: Seq<i64>)
    requires
        s.len() > 0,
    ensures
        exists|i: int| 0 <= i < s.len() && s[i] == seq_min(s),
        forall|i: int| 0 <= i < s.len() ==> seq_min(s) <= s[i],
    decreases s.len(),
{
    if s.len() > 1 {
        lemma_seq_min_bounds(s.drop_last());
        let w = choose|i: int| 0 <= i < s.len() - 1 && s.drop_last()[i] == seq_min(s.drop_last());
        if s.last() < seq_min(s.drop_last()) {
            assert(s[s.len() - 1] == seq_min(s));
        } else {
            assert(s[w] == seq_min(s));
        }
        assert forall|i: int| 0 <= i < s.len() implies seq_min(s) <= s[i] by {
            if i < s.len() - 1 {
                assert(s.drop_last()[i] == s[i]);
            }
        }
    } else {
        assert(s[0] == seq_min(s));
    }
}

/// An element that bounds every element of the sequence is its maximum.
proof fn lemma_is_seq_max(s: Seq<i64>, w: int)
    requires
        0 <= w < s.len(),
        forall|i: int| 0 <= i < s.len() ==> s[i] <= s[w],
    ensures
        seq_max(s) == s[w],
{
    lemma_seq_max_bounds(s);
}

/// An element bounded by every element of the sequence is its minimum.
proof fn lemma_is_seq_min(s: Seq<i64>, w: int)
    requires
        0 <= w < s.len(),
        forall|i: int| 0 <= i < s.len() ==> s[w] <= s[i],
    ensures
        seq_min(s) == s[w],
{
    lemma_seq_min_bounds(s);
}

/// The first 1-based position of the window that ends at position `i`.
spec fn window_lo(i: int, n: int) -> int {
    if i >= n {
        i - n + 1
    } else {
        1
    }
}

/// Position `t` is dominated by a queued position at or after it.
spec fn covered_max(s: Seq<i64>, dq: Seq<usize>, t: int) -> bool {
    exists|k: int| 0 <= k < dq.len() && dq[k] >= t && s[dq[k] - 1] >= s[t - 1]
}

spec fn covered_min(s: Seq<i64>, dq: Seq<usize>, t: int) -> bool {
    exists|k: int| 0 <= k < dq.len() && dq[k] >= t && s[dq[k] - 1] <= s[t - 1]
}

/// The queue of 1-based positions after positions `1..=i` were seen: its
/// positions lie in the current window, increase, hold strictly decreasing
/// values, and dominate every position of the window.
spec fn queue_max_inv(s: Seq<i64>, dq: Seq<usize>, i: int, n: int) -> bool {
    &&& forall|k: int| 0 <= k < dq.len() ==> window_lo(i, n) <= #[trigger] dq[k] <= i
    &&& forall|a: int, b: int|
        0 <= a < b < dq.len() ==> #[trigger] dq[a] < #[trigger] dq[b] && s[dq[a] - 1] > s[dq[b]
            - 1]
    &&& forall|t: int| window_lo(i, n) <= t <= i ==> #[trigger] covered_max(s, dq, t)
    &&& i >= 1 ==> dq.len() > 0 && dq.last() == i
}

spec fn queue_min_inv(s: Seq<i64>, dq: Seq<usize>, i: int, n: int) -> bool {
    &&& forall|k: int| 0 <= k < dq.len() ==> window_lo(i, n) <= #[trigger] dq[k] <= i
    &&& forall|a: int, b: int|
        0 <= a < b < dq.len() ==> #[trigger] dq[a] < #[trigger] dq[b] && s[dq[a] - 1] < s[dq[b]
            - 1]
    &&& forall|t: int| window_lo(i, n) <= t <= i ==> #[trigger] covered_min(s, dq, t)
    &&& i >= 1 ==> dq.len() > 0 && dq.last() == i
}

impl VecIndexFromOne<i64> {
    /// Maximum of each window of `n` consecutive elements: position `j` of
    /// the result is the maximum of `v[j..=j + n - 1]`; the result has
    /// `len - n + 1` elements (none when `len < n`).
    pub fn sliding_window_max(&self, n: usize) -> (r: VecIndexFromOne<i64>)
        requires
            n > 0,
        ensures
            self@.len() < n ==> r@.len() == 0,
            self@.len() >= n ==> r@.len() == self@.len() - n + 1,
            forall|j: int| 0 <= j < r@.len() ==> #[trigger] r@[j] == seq_max(self@.subrange(j, j + n)),
    {
        let len = self.len();
        if len < n {
            return VecIndexFromOne::new();
        }
        let ghost s = self@;
        let mut result: VecIndexFromOne<i64> = VecIndexFromOne::with_capacity(len - n + 1);
        let mut deque: Vec<usize> = Vec::with_capacity(n);
        let mut i: usize = 0;
        while i < len
            invariant
                s == self@,
                len == s.len(),
                0 < n <= len,
                i <= len,
                queue_max_inv(s, deque@, i as int, n as int),
                result@.len() == if i >= n { i - n + 1 } else { 0 },
                forall|j: int|
                    0 <= j < result@.len() ==> #[trigger] result@[j] == seq_max(s.subrange(j, j + n)),
            decreases len - i,
        {
            i += 1;
            let ghost dq0 = deque@;
            if deque.len() > 0 {
                let front = deque[0];
                if i - front >= n {
                    deque.remove(0);
                }
            }
            proof {
                let lo = window_lo(i as int, n as int);
                let dq1 = deque@;
                assert forall|k: int| 0 <= k < dq1.len() implies lo <= #[trigger] dq1[k] <= i - 1 by {
                    if dq1.len() < dq0.len() {
                        assert(dq1[k] == dq0[k + 1]);
                        assert(dq0[0] < dq0[k + 1]);
                    }
                }
                assert forall|t: int| lo <= t <= i - 1 implies #[trigger] covered_max(s, dq1, t) by {
                    assert(covered_max(s, dq0, t));
                    let k = choose|k: int|
                        0 <= k < dq0.len() && dq0[k] >= t && s[dq0[k] - 1] >= s[t - 1];
                    if dq1.len() < dq0.len() {
                        if k == 0 {
                            assert(false);
                        }
                        assert(dq1[k - 1] == dq0[k]);
                    } else {
                        assert(dq1[k] == dq0[k]);
                    }
                }
            }
            let x = self[i];
            let mut popping = true;
            while popping
                invariant
                    s == self@,
                    len == s.len(),
                    0 < n <= len,
                    1 <= i <= len,
                    x == s[i - 1],
                    forall|k: int|
                        0 <= k < deque@.len() ==> window_lo(i as int, n as int) <= #[trigger] deque@[k]
                            <= i - 1,
                    forall|a: int, b: int|
                        0 <= a < b < deque@.len() ==> #[trigger] deque@[a] < #[trigger] deque@[b]
                            && s[deque@[a] - 1] > s[deque@[b] - 1],
                    forall|t: int|
                        window_lo(i as int, n as int) <= t <= i - 1 ==> #[trigger] covered_max(
                            s,
                            deque@,
                            t,
                        ) || s[t - 1] <= x,
                    !popping ==> deque@.len() == 0 || s[deque@.last() - 1] > x,
                decreases deque@.len() + if popping {
                    1int
                } else {
                    0int
                },
            {
                if deque.len() == 0 {
                    popping = false;
                } else {
                    let last = deque[deque.len() - 1];
                    if self[last] <= x {
                        let ghost dq2 = deque@;
                        deque.pop();
                        proof {
                            assert forall|t: int|
                                window_lo(i as int, n as int) <= t <= i - 1 implies #[trigger] covered_max(
                                s,
                                deque@,
                                t,
                            ) || s[t - 1] <= x by {
                                if covered_max(s, dq2, t) {
                                    let k = choose|k: int|
                                        0 <= k < dq2.len() && dq2[k] >= t && s[dq2[k] - 1] >= s[t
                                            - 1];
                                    if k < dq2.len() - 1 {
                                        assert(deque@[k] == dq2[k]);
                                    }
                                }
                            }
                        }
                    } else {
                        popping = false;
                    }
                }
            }
            let ghost dq3 = deque@;
            deque.push(i);
            proof {
                let lo = window_lo(i as int, n as int);
                let dq = deque@;
                assert forall|a: int, b: int|
                    0 <= a < b < dq.len() implies #[trigger] dq[a] < #[trigger] dq[b] && s[dq[a] - 1]
                    > s[dq[b] - 1] by {
                    if b == dq.len() - 1 && a < dq3.len() - 1 {
                        assert(dq3[a] < dq3[dq3.len() - 1] && s[dq3[a] - 1] > s[dq3[dq3.len() - 1]
                            - 1]);
                    }
                }
                assert forall|t: int| lo <= t <= i implies #[trigger] covered_max(s, dq, t) by {
                    if t == i {
                        assert(dq[dq.len() - 1] == i);
                    } else if covered_max(s, dq3, t) {
                        let k = choose|k: int|
                            0 <= k < dq3.len() && dq3[k] >= t && s[dq3[k] - 1] >= s[t - 1];
                        assert(dq[k] == dq3[k]);
                    } else {
                        assert(dq[dq.len() - 1] == i);
                    }
                }
            }
            if i >= n {
                let front = deque[0];
                let m = self[front];
                proof {
                    let lo = window_lo(i as int, n as int);
                    let w = s.subrange(i - n, i as int);
                    let dq = deque@;
                    assert forall|p: int| 0 <= p < w.len() implies #[trigger] w[p] <= w[front - lo] by {
                        let t = p + lo;
                        assert(w[p] == s[t - 1]);
                        assert(covered_max(s, dq, t));
                        let k = choose|k: int|
                            0 <= k < dq.len() && dq[k] >= t && s[dq[k] - 1] >= s[t - 1];
                        if k > 0 {
                            assert(dq[0] < dq[k] && s[dq[0] - 1] > s[dq[k] - 1]);
                        }
                    }
                    lemma_is_seq_max(w, front - lo);
                }
                result.push(m);
            }
        }
        result
    }

    /// Minimum of each window of `n` consecutive elements: position `j` of
    /// the result is the minimum of `v[j..=j + n - 1]`; the result has
    /// `len - n + 1` elements (none when `len < n`).
    pub fn sliding_window_min(&self, n: usize) -> (r: VecIndexFromOne<i64>)
        requires
            n > 0,
        ensures
            self@.len() < n ==> r@.len() == 0,
            self@.len() >= n ==> r@.len() == self@.len() - n + 1,
            forall|j: int| 0 <= j < r@.len() ==> #[trigger] r@[j] == seq_min(self@.subrange(j, j + n)),
    {
        let len = self.len();
        if len < n {
            return VecIndexFromOne::new();
        }
        let ghost s = self@;
        let mut result: VecIndexFromOne<i64> = VecIndexFromOne::with_capacity(len - n + 1);
        let mut deque: Vec<usize> = Vec::with_capacity(n);
        let mut i: usize = 0;
        while i < len
            invariant
                s == self@,
                len == s.len(),
                0 < n <= len,
                i <= len,
                queue_min_inv(s, deque@, i as int, n as int),
                result@.len() == if i >= n { i - n + 1 } else { 0 },
                forall|j: int|
                    0 <= j < result@.len() ==> #[trigger] result@[j] == seq_min(s.subrange(j, j + n)),
            decreases len - i,
        {
            i += 1;
            let ghost dq0 = deque@;
            if deque.len() > 0 {
                let front = deque[0];
                if i - front >= n {
                    deque.remove(0);
                }
            }
            proof {
                let lo = window_lo(i as int, n as int);
                let dq1 = deque@;
                assert forall|k: int| 0 <= k < dq1.len() implies lo <= #[trigger] dq1[k] <= i - 1 by {
                    if dq1.len() < dq0.len() {
                        assert(dq1[k] == dq0[k + 1]);
                        assert(dq0[0] < dq0[k + 1]);
                    }
                }
                assert forall|t: int| lo <= t <= i - 1 implies #[trigger] covered_min(s, dq1, t) by {
                    assert(covered_min(s, dq0, t));
                    let k = choose|k: int|
                        0 <= k < dq0.len() && dq0[k] >= t && s[dq0[k] - 1] <= s[t - 1];
                    if dq1.len() < dq0.len() {
                        if k == 0 {
                            assert(false);
                        }
                        assert(dq1[k - 1] == dq0[k]);
                    } else {
                        assert(dq1[k] == dq0[k]);
                    }
                }
            }
            let x = self[i];
            let mut popping = true;
            while popping
                invariant
                    s == self@,
                    len == s.len(),
                    0 < n <= len,
                    1 <= i <= len,
                    x == s[i - 1],
                    forall|k: int|
                        0 <= k < deque@.len() ==> window_lo(i as int, n as int) <= #[trigger] deque@[k]
                            <= i - 1,
                    forall|a: int, b: int|
                        0 <= a < b < deque@.len() ==> #[trigger] deque@[a] < #[trigger] deque@[b]
                            && s[deque@[a] - 1] < s[deque@[b] - 1],
                    forall|t: int|
                        window_lo(i as int, n as int) <= t <= i - 1 ==> #[trigger] covered_min(
                            s,
                            deque@,
                            t,
                        ) || s[t - 1] >= x,
                    !popping ==> deque@.len() == 0 || s[deque@.last() - 1] < x,
                decreases deque@.len() + if popping {
                    1int
                } else {
                    0int
                },
            {
                if deque.len() == 0 {
                    popping = false;
                } else {
                    let last = deque[deque.len() - 1];
                    if self[last] >= x {
                        let ghost dq2 = deque@;
                        deque.pop();
                        proof {
                            assert forall|t: int|
                                window_lo(i as int, n as int) <= t <= i - 1 implies #[trigger] covered_min(
                                s,
                                deque@,
                                t,
                            ) || s[t - 1] >= x by {
                                if covered_min(s, dq2, t) {
                                    let k = choose|k: int|
                                        0 <= k < dq2.len() && dq2[k] >= t && s[dq2[k] - 1] <= s[t
                                            - 1];
                                    if k < dq2.len() - 1 {
                                        assert(deque@[k] == dq2[k]);
                                    }
                                }
                            }
                        }
                    } else {
                        popping = false;
                    }
                }
            }
            let ghost dq3 = deque@;
            deque.push(i);
            proof {
                let lo = window_lo(i as int, n as int);
                let dq = deque@;
                assert forall|a: int, b: int|
                    0 <= a < b < dq.len() implies #[trigger] dq[a] < #[trigger] dq[b] && s[dq[a] - 1]
                    < s[dq[b] - 1] by {
                    if b == dq.len() - 1 && a < dq3.len() - 1 {
                        assert(dq3[a] < dq3[dq3.len() - 1] && s[dq3[a] - 1] < s[dq3[dq3.len() - 1]
                            - 1]);
                    }
                }
                assert forall|t: int| lo <= t <= i implies #[trigger] covered_min(s, dq, t) by {
                    if t == i {
                        assert(dq[dq.len() - 1] == i);
                    } else if covered_min(s, dq3, t) {
                        let k = choose|k: int|
                            0 <= k < dq3.len() && dq3[k] >= t && s[dq3[k] - 1] <= s[t - 1];
                        assert(dq[k] == dq3[k]);
                    } else {
                        assert(dq[dq.len() - 1] == i);
                    }
                }
            }
            if i >= n {
                let front = deque[0];
                let m = self[front];
                proof {
                    let lo = window_lo(i as int, n as int);
                    let w = s.subrange(i - n, i as int);
                    let dq = deque@;
                    assert forall|p: int| 0 <= p < w.len() implies w[front - lo] <= #[trigger] w[p] by {
                        let t = p + lo;
                        assert(w[p] == s[t - 1]);
                        assert(covered_min(s, dq, t));
                        let k = choose|k: int|
                            0 <= k < dq.len() && dq[k] >= t && s[dq[k] - 1] <= s[t - 1];
                        if k > 0 {
                            assert(dq[0] < dq[k] && s[dq[0] - 1] < s[dq[k] - 1]);
                        }
                    }
                    lemma_is_seq_min(w, front - lo);
                }
                result.push(m);
            }
        }
        result
    }
}

} // verus!
