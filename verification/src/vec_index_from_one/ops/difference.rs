//! Finite differences and moving averages.
use vstd::prelude::*;

use super::math::{div_by_count, fits_i64, sum_of, trunc_div};
use crate::vec_index_from_one::VecIndexFromOne;

verus! {

/// Every forward difference `s[i + 1] - s[i]` fits in an `i64`.
pub open spec fn differences_fit(s: Seq<i64>) -> bool {
    forall|i: int| 0 <= i < s.len() - 1 ==> fits_i64(#[trigger] s[i + 1] - s[i])
}

/// Every step of `s[i + 2] - s[i + 1] - s[i + 1] + s[i]`, evaluated left to
/// right, fits in an `i64`.
pub open spec fn second_differences_fit(s: Seq<i64>) -> bool {
    forall|i: int|
        0 <= i < s.len() - 2 ==> fits_i64(#[trigger] s[i + 2] - s[i + 1]) && fits_i64(s[i + 2] - 2
            * s[i + 1]) && fits_i64(s[i + 2] - 2 * s[i + 1] + s[i])
}

/// Every difference `s[i + 2] - s[i]` fits in an `i64`.
pub open spec fn central_differences_fit(s: Seq<i64>) -> bool {
    forall|i: int| 0 <= i < s.len() - 2 ==> fits_i64(#[trigger] s[i + 2] - s[i])
}

/// Every running total inside every window of `n` consecutive elements fits
/// in an `i64`.
pub open spec fn window_sums_fit(s: Seq<i64>, n: int) -> bool {
    forall|j: int, t: int|
        0 <= j <= s.len() - n && 1 <= t <= n ==> fits_i64(#[trigger] sum_of(s.subrange(j, j + t)))
}

impl VecIndexFromOne<i64> {
    /// Forward differences: position `i` holds `v[i + 1] - v[i]`; the result
    /// has `len - 1` elements (none when `len < 2`).
    pub fn finite_difference(&self) -> (r: VecIndexFromOne<i64>)
        requires
            differences_fit(self@),
        ensures
            self@.len() < 2 ==> r@.len() == 0,
            self@.len() >= 2 ==> r@.len() == self@.len() - 1,
            forall|i: int| 0 <= i < r@.len() ==> #[trigger] r@[i] == self@[i + 1] - self@[i],
    {
        let n = self.len();
        if n < 2 {
            return VecIndexFromOne::new();
        }
        let mut out: VecIndexFromOne<i64> = VecIndexFromOne::with_capacity(n - 1);
        let mut i: usize = 1;
        while i < n
            invariant
                n == self@.len(),
                1 <= i <= n,
                differences_fit(self@),
                out@.len() == i - 1,
                forall|j: int| 0 <= j < i - 1 ==> #[trigger] out@[j] == self@[j + 1] - self@[j],
            decreases n - i,
        {
            proof {
                assert(fits_i64(self@[(i - 1) + 1] - self@[i - 1]));
            }
            out.push(self[i + 1] - self[i]);
            i += 1;
        }
        out
    }

    /// Second differences: position `i` holds `v[i + 2] - 2 * v[i + 1] + v[i]`;
    /// the result has `len - 2` elements (none when `len < 3`).
    pub fn second_finite_difference(&self) -> (r: VecIndexFromOne<i64>)
        requires
            second_differences_fit(self@),
        ensures
            self@.len() < 3 ==> r@.len() == 0,
            self@.len() >= 3 ==> r@.len() == self@.len() - 2,
            forall|i: int|
                0 <= i < r@.len() ==> #[trigger] r@[i] == self@[i + 2] - 2 * self@[i + 1] + self@[i],
    {
        let n = self.len();
        if n < 3 {
            return VecIndexFromOne::new();
        }
        let mut out: VecIndexFromOne<i64> = VecIndexFromOne::with_capacity(n - 2);
        let mut i: usize = 1;
        while i <= n - 2
            invariant
                n == self@.len(),
                n >= 3,
                1 <= i <= n - 1,
                second_differences_fit(self@),
                out@.len() == i - 1,
                forall|j: int|
                    0 <= j < i - 1 ==> #[trigger] out@[j] == self@[j + 2] - 2 * self@[j + 1] + self@[j],
            decreases n - i,
        {
            proof {
                let j = i - 1;
                assert(fits_i64(self@[j + 2] - self@[j + 1]));
            }
            out.push(self[i + 2] - self[i + 1] - self[i + 1] + self[i]);
            i += 1;
        }
        out
    }

    /// Central differences: position `i` holds `(v[i + 2] - v[i]) / 2`
    /// (rounded toward zero); the result has `len - 2` elements (none when
    /// `len < 3`).
    pub fn central_difference(&self) -> (r: VecIndexFromOne<i64>)
        requires
            central_differences_fit(self@),
        ensures
            self@.len() < 3 ==> r@.len() == 0,
            self@.len() >= 3 ==> r@.len() == self@.len() - 2,
            forall|i: int|
                0 <= i < r@.len() ==> #[trigger] r@[i] == trunc_div(self@[i + 2] - self@[i], 2),
    {
        let n = self.len();
        if n < 3 {
            return VecIndexFromOne::new();
        }
        let mut out: VecIndexFromOne<i64> = VecIndexFromOne::with_capacity(n - 2);
        let mut i: usize = 2;
        while i < n
            invariant
                n == self@.len(),
                2 <= i <= n,
                central_differences_fit(self@),
                out@.len() == i - 2,
                forall|j: int|
                    0 <= j < i - 2 ==> #[trigger] out@[j] == trunc_div(self@[j + 2] - self@[j], 2),
            decreases n - i,
        {
            proof {
                let j = i - 2;
                assert(fits_i64(self@[j + 2] - self@[j]));
            }
            out.push((self[i + 1] - self[i - 1]) / 2);
            i += 1;
        }
        out
    }

    /// Moving average over windows of `n` elements: position `j` holds the
    /// sum of `v[j..=j + n - 1]` divided by `n` (rounded toward zero); the
    /// result has `len - n + 1` elements (none when `len < n`).
    pub fn moving_average(&self, n: usize) -> (r: VecIndexFromOne<i64>)
        requires
            n > 0,
            window_sums_fit(self@, n as int),
        ensures
            self@.len() < n ==> r@.len() == 0,
            self@.len() >= n ==> r@.len() == self@.len() - n + 1,
            forall|j: int|
                0 <= j < r@.len() ==> #[trigger] r@[j] == trunc_div(
                    sum_of(self@.subrange(j, j + n)),
                    n as int,
                ),
    {
        let len = self.len();
        if len < n {
            return VecIndexFromOne::new();
        }
        let mut out: VecIndexFromOne<i64> = VecIndexFromOne::with_capacity(len - n + 1);
        let mut start: usize = 0;
        while start <= len - n
            invariant
                len == self@.len(),
                0 < n <= len,
                start <= len - n + 1,
                window_sums_fit(self@, n as int),
                out@.len() == start,
                forall|j: int|
                    0 <= j < start ==> #[trigger] out@[j] == trunc_div(
                        sum_of(self@.subrange(j, j + n)),
                        n as int,
                    ),
            decreases len - n + 1 - start,
        {
            let mut sum: i64 = 0;
            let mut t: usize = 0;
            proof {
                assert(self@.subrange(start as int, start as int) =~= Seq::<i64>::empty());
            }
            while t < n
                invariant
                    len == self@.len(),
                    0 < n <= len,
                    start <= len - n,
                    t <= n,
                    window_sums_fit(self@, n as int),
                    sum == sum_of(self@.subrange(start as int, start + t)),
                decreases n - t,
            {
                proof {
                    assert(self@.subrange(start as int, start + t + 1).drop_last() =~= self@.subrange(
                        start as int,
                        start + t,
                    ));
                    assert(fits_i64(sum_of(self@.subrange(start as int, start + (t + 1)))));
                }
                sum = sum + self[start + t + 1];
                t += 1;
            }
            out.push(div_by_count(sum, n));
            start += 1;
        }
        out
    }
}

} // verus!
