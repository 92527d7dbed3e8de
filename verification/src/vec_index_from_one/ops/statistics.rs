//! Mean and variance.
use vstd::prelude::*;

use super::math::{div_by_count, fits_i64, prefix_sums_fit, sum_of, trunc_div};
use crate::vec_index_from_one::VecIndexFromOne;

verus! {

/// The mean of a non-empty sequence, rounded toward zero (0 when empty).
pub open spec fn mean_of(s: Seq<i64>) -> int {
    if s.len() == 0 {
        0
    } else {
        trunc_div(sum_of(s), s.len() as int)
    }
}

/// `(s[0] - m)^2 + ... + (s[k - 1] - m)^2`.
pub open spec fn squared_deviations(s: Seq<i64>, m: int, k: int) -> int
    decreases k,
{
    if k <= 0 {
        0
    } else {
        squared_deviations(s, m, k - 1) + (s[k - 1] - m) * (s[k - 1] - m)
    }
}

/// Each deviation from `m`, its square and each running total of the
/// squares fits in an `i64`.
pub open spec fn deviations_fit(s: Seq<i64>, m: int) -> bool {
    forall|k: int|
        1 <= k <= s.len() ==> fits_i64(s[k - 1] - m) && fits_i64((s[k - 1] - m) * (s[k - 1] - m))
            && fits_i64(#[trigger] squared_deviations(s, m, k))
}

impl VecIndexFromOne<i64> {
    /// The mean: the sum divided by the length (rounded toward zero); 0 for
    /// the empty container.
    pub fn mean(&self) -> (r: i64)
        requires
            prefix_sums_fit(self@, 0),
        ensures
            r == mean_of(self@),
    {
        let n = self.len();
        if n == 0 {
            0
        } else {
            div_by_count(self.sum(), n)
        }
    }

    /// The population variance about the (rounded) mean: the sum of squared
    /// deviations divided by the length, rounded toward zero; 0 when there
    /// are fewer than two elements.
    pub fn variance(&self) -> (r: i64)
        requires
            prefix_sums_fit(self@, 0),
            self@.len() >= 2 ==> deviations_fit(self@, mean_of(self@)),
        ensures
            self@.len() < 2 ==> r == 0,
            self@.len() >= 2 ==> r == trunc_div(
                squared_deviations(self@, mean_of(self@), self@.len() as int),
                self@.len() as int,
            ),
    {
        let n = self.len();
        if n < 2 {
            return 0;
        }
        let mean = self.mean();
        let mut acc: i64 = 0;
        let mut i: usize = 0;
        while i < n
            invariant
                n == self@.len(),
                2 <= n,
                i <= n,
                mean == mean_of(self@),
                deviations_fit(self@, mean as int),
                acc == squared_deviations(self@, mean as int, i as int),
            decreases n - i,
        {
            proof {
                assert(fits_i64(squared_deviations(self@, mean as int, i + 1)));
            }
            let diff = self[i + 1] - mean;
            acc = acc + diff * diff;
            i += 1;
        }
        div_by_count(acc, n)
    }
}

} // verus!
