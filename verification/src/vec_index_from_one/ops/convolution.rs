//! Full discrete convolution and cross-correlation.
use vstd::prelude::*;

use super::math::fits_i64;
use crate::vec_index_from_one::VecIndexFromOne;

verus! {

/// `a[lo] * b[k - lo] + ... + a[hi - 1] * b[k - hi + 1]`.
pub open spec fn conv_sum(a: Seq<i64>, b: Seq<i64>, k: int, lo: int, hi: int) -> int
    decreases hi - lo,
{
    if hi <= lo {
        0
    } else {
        conv_sum(a, b, k, lo, hi - 1) + a[hi - 1] * b[k - (hi - 1)]
    }
}

/// The first index `j` of `a` that pairs with an index of `b` in term `k`.
pub open spec fn conv_lo(k: int, m: int) -> int {
    if k >= m {
        k - m + 1
    } else {
        0
    }
}

/// One past the last index `j` of `a` that pairs with an index of `b` in
/// term `k`.
pub open spec fn conv_hi(k: int, n: int) -> int {
    if k + 1 < n {
        k + 1
    } else {
        n
    }
}

/// Term `k` (0-based) of the full convolution: the sum of `a[j] * b[k - j]`
/// over every `j` with both indices in range.
pub open spec fn convolution_at(a: Seq<i64>, b: Seq<i64>, k: int) -> int {
    conv_sum(a, b, k, conv_lo(k, b.len() as int), conv_hi(k, a.len() as int))
}

/// Term `k` (0-based) of the full cross-correlation: the sum of
/// `a[j] * b[j + len(b) - 1 - k]` over every `j` with both indices in range,
/// which is the convolution of `a` with `b` reversed.
pub open spec fn cross_correlation_at(a: Seq<i64>, b: Seq<i64>, k: int) -> int {
    convolution_at(a, b.reverse(), k)
}

/// Every product and every running total of every term of the convolution
/// fits in an `i64`.
pub open spec fn convolution_fits(a: Seq<i64>, b: Seq<i64>) -> bool {
    forall|k: int, t: int|
        0 <= k < a.len() + b.len() - 1 && conv_lo(k, b.len() as int) < t <= conv_hi(
            k,
            a.len() as int,
        ) ==> fits_i64(a[t - 1] * b[k - (t - 1)]) && fits_i64(
            #[trigger] conv_sum(a, b, k, conv_lo(k, b.len() as int), t),
        )
}

/// Splitting off the first term of a convolution sum.
pub proof fn lemma_conv_sum_first(a: Seq<i64>, b: Seq<i64>, k: int, lo: int, hi: int)
    requires
        lo < hi,
    ensures
        conv_sum(a, b, k, lo, hi) == a[lo] * b[k - lo] + conv_sum(a, b, k, lo + 1, hi),
    decreases hi - lo,
{
    if lo + 1 < hi {
        lemma_conv_sum_first(a, b, k, lo, hi - 1);
        assert(conv_sum(a, b, k, lo + 1, hi) == conv_sum(a, b, k, lo + 1, hi - 1) + a[hi - 1] * b[k
            - (hi - 1)]);
    } else {
        assert(conv_sum(a, b, k, lo, lo) == 0);
        assert(conv_sum(a, b, k, lo + 1, hi) == 0);
    }
}

/// A convolution sum over `a`'s indices `lo..hi` is the sum over `b`'s
/// indices `k - hi + 1..k - lo + 1` with the factors swapped.
pub proof fn lemma_conv_sum_swap(a: Seq<i64>, b: Seq<i64>, k: int, lo: int, hi: int)
    ensures
        conv_sum(a, b, k, lo, hi) == conv_sum(b, a, k, k - hi + 1, k - lo + 1),
    decreases hi - lo,
{
    if lo < hi {
        lemma_conv_sum_swap(a, b, k, lo, hi - 1);
        lemma_conv_sum_first(b, a, k, k - hi + 1, k - lo + 1);
        assert(a[hi - 1] * b[k - (hi - 1)] == b[k - hi + 1] * a[k - (k - hi + 1)]) by (nonlinear_arith)
            requires
                k - (hi - 1) == k - hi + 1,
                k - (k - hi + 1) == hi - 1,
        ;
    }
}

impl VecIndexFromOne<i64> {
    /// Full discrete convolution: `len(a) + len(b) - 1` terms, term `k`
    /// (position `k + 1`) is `sum a[j] * b[k - j]`; empty when either input
    /// is empty.
    pub fn convolve(&self, other: &VecIndexFromOne<i64>) -> (r: VecIndexFromOne<i64>)
        requires
            self@.len() + other@.len() <= usize::MAX,
            convolution_fits(self@, other@),
        ensures
            self@.len() == 0 || other@.len() == 0 ==> r@.len() == 0,
            self@.len() > 0 && other@.len() > 0 ==> r@.len() == self@.len() + other@.len() - 1,
            forall|k: int| 0 <= k < r@.len() ==> #[trigger] r@[k] == convolution_at(self@, other@, k),
    {
        if self.is_empty() || other.is_empty() {
            return VecIndexFromOne::new();
        }
        let n = self.len();
        let m = other.len();
        let mut result: VecIndexFromOne<i64> = VecIndexFromOne::with_capacity(n + m - 1);
        let mut i: usize = 0;
        while i < n + m - 1
            invariant
                n == self@.len(),
                m == other@.len(),
                n > 0,
                m > 0,
                n + m <= usize::MAX,
                i <= n + m - 1,
                convolution_fits(self@, other@),
                result@.len() == i,
                forall|k: int| 0 <= k < i ==> #[trigger] result@[k] == convolution_at(self@, other@, k),
            decreases n + m - 1 - i,
        {
            let start = if i >= m { i - m + 1 } else { 0 };
            let end = if i + 1 < n { i + 1 } else { n };
            let mut sum: i64 = 0;
            let mut j: usize = start;
            while j < end
                invariant
                    n == self@.len(),
                    m == other@.len(),
                    i < n + m - 1,
                    start == conv_lo(i as int, m as int),
                    end == conv_hi(i as int, n as int),
                    start <= j <= end,
                    convolution_fits(self@, other@),
                    sum == conv_sum(self@, other@, i as int, start as int, j as int),
                decreases end - j,
            {
                proof {
                    assert(fits_i64(conv_sum(self@, other@, i as int, start as int, j + 1)));
                }
                sum = sum + self[j + 1] * other[i - j + 1];
                j += 1;
            }
            result.push(sum);
            i += 1;
        }
        result
    }

    /// Full cross-correlation: `len(a) + len(b) - 1` terms, term `k`
    /// (position `k + 1`) is `sum a[j] * b[j + len(b) - 1 - k]`; empty when
    /// either input is empty.
    pub fn cross_correlate(&self, other: &VecIndexFromOne<i64>) -> (r: VecIndexFromOne<i64>)
        requires
            self@.len() + other@.len() <= usize::MAX,
            convolution_fits(self@, other@.reverse()),
        ensures
            self@.len() == 0 || other@.len() == 0 ==> r@.len() == 0,
            self@.len() > 0 && other@.len() > 0 ==> r@.len() == self@.len() + other@.len() - 1,
            forall|k: int|
                0 <= k < r@.len() ==> #[trigger] r@[k] == cross_correlation_at(self@, other@, k),
    {
        let m = other.len();
        let mut flipped: VecIndexFromOne<i64> = VecIndexFromOne::with_capacity(m);
        let mut j: usize = 0;
        while j < m
            invariant
                m == other@.len(),
                j <= m,
                flipped@.len() == j,
                forall|t: int| 0 <= t < j ==> #[trigger] flipped@[t] == other@[m - 1 - t],
            decreases m - j,
        {
            flipped.push(other[m - j]);
            j += 1;
        }
        assert(flipped@ =~= other@.reverse());
        self.convolve(&flipped)
    }
}

} // verus!
