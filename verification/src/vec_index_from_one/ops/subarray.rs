//! Maximum-sum and maximum-product contiguous subarrays.
use vstd::prelude::*;

use super::math::{fits_i64, product_of, sum_of};
use crate::vec_index_from_one::VecIndexFromOne;

verus! {

/// The sum of the elements at 1-based positions `a + 1 ..= b`.
pub open spec fn range_sum(s: Seq<i64>, a: int, b: int) -> int {
    sum_of(s.subrange(a, b))
}

/// The product of the elements at 1-based positions `a + 1 ..= b`.
pub open spec fn range_product(s: Seq<i64>, a: int, b: int) -> int {
    product_of(s.subrange(a, b))
}

/// No sum of a run of consecutive elements exceeds `i64::MAX`.
pub open spec fn range_sums_bounded(s: Seq<i64>) -> bool {
    forall|a: int, b: int| 0 <= a < b <= s.len() ==> #[trigger] range_sum(s, a, b) <= i64::MAX
}

/// Every product of a non-empty run of consecutive elements fits in an `i64`.
pub open spec fn range_products_fit(s: Seq<i64>) -> bool {
    forall|a: int, b: int| 0 <= a < b <= s.len() ==> fits_i64(#[trigger] range_product(s, a, b))
}

/// `(best, start, end)` names the run `start..=end` (1-based) that has the
/// largest value of `f`, and among the runs with that value the one that ends
/// first and, of those, the longest.
pub open spec fn is_first_best_run(
    f: spec_fn(int, int) -> int,
    len: int,
    best: int,
    start: int,
    end: int,
) -> bool {
    &&& 1 <= start <= end <= len
    &&& best == f(start - 1, end)
    &&& forall|a: int, b: int| 0 <= a < b <= len ==> #[trigger] f(a, b) <= best
    &&& forall|a: int, b: int| 0 <= a < b < end ==> #[trigger] f(a, b) < best
    &&& forall|a: int| 0 <= a < start - 1 ==> #[trigger] f(a, end) < best
}

proof fn lemma_range_sum_extend(s: Seq<i64>, i: int)
    requires
        0 <= i < s.len(),
    ensures
        forall|a: int| 0 <= a <= i ==> #[trigger] range_sum(s, a, i + 1) == range_sum(s, a, i) + s[i],
{
    assert forall|a: int| 0 <= a <= i implies #[trigger] range_sum(s, a, i + 1) == range_sum(s, a, i)
        + s[i] by {
        assert(s.subrange(a, i + 1).drop_last() =~= s.subrange(a, i));
        if a == i {
            assert(s.subrange(a, i) =~= Seq::<i64>::empty());
        }
    }
}

proof fn lemma_range_product_extend(s: Seq<i64>, i: int)
    requires
        0 <= i < s.len(),
    ensures
        forall|a: int|
            0 <= a <= i ==> #[trigger] range_product(s, a, i + 1) == range_product(s, a, i) * s[i],
{
    assert forall|a: int| 0 <= a <= i implies #[trigger] range_product(s, a, i + 1) == range_product(
        s,
        a,
        i,
    ) * s[i] by {
        assert(s.subrange(a, i + 1).drop_last() =~= s.subrange(a, i));
        if a == i {
            assert(s.subrange(a, i) =~= Seq::<i64>::empty());
        }
    }
}

proof fn lemma_mul_le_pos(a: int, b: int, x: int)
    requires
        a <= b,
        x > 0,
    ensures
        a * x <= b * x,
        a < b ==> a * x < b * x,
{
    assert(a <= b && x > 0 ==> a * x <= b * x) by (nonlinear_arith);
    assert(a < b && x > 0 ==> a * x < b * x) by (nonlinear_arith);
}

proof fn lemma_mul_le_neg(a: int, b: int, x: int)
    requires
        a <= b,
        x < 0,
    ensures
        b * x <= a * x,
        a < b ==> b * x < a * x,
{
    assert(a <= b && x < 0 ==> b * x <= a * x) by (nonlinear_arith);
    assert(a < b && x < 0 ==> b * x < a * x) by (nonlinear_arith);
}

impl VecIndexFromOne<i64> {
    /// Maximum subarray sum (Kadane's algorithm): returns `(sum, start, end)`
    /// where `v[start..=end]` is the run of consecutive elements with the
    /// largest sum (among equal sums, the run that ends first, and of those
    /// the longest). The empty container gives `(0, 0, 0)`.
    pub fn max_subarray_sum(&self) -> (r: (i64, usize, usize))
        requires
            range_sums_bounded(self@),
        ensures
            self@.len() == 0 ==> r == (0i64, 0usize, 0usize),
            self@.len() > 0 ==> is_first_best_run(
                |a: int, b: int| range_sum(self@, a, b),
                self@.len() as int,
                r.0 as int,
                r.1 as int,
                r.2 as int,
            ),
    {
        let len = self.len();
        if len == 0 {
            return (0, 0, 0);
        }
        let ghost s = self@;
        proof {
            lemma_range_sum_extend(s, 0);
            assert(range_sum(s, 0, 0) == 0) by {
                assert(s.subrange(0, 0) =~= Seq::<i64>::empty());
            }
            assert(s.subrange(0, 1).drop_last() =~= s.subrange(0, 0));
            assert(range_sum(s, 0, 1) == s[0]);
        }
        let mut cur = self[1];
        let mut cur_start: usize = 0;
        let mut best = self[1];
        let mut best_start: usize = 0;
        let mut best_end: usize = 1;
        let mut i: usize = 1;
        while i < len
            invariant
                s == self@,
                len == s.len(),
                1 <= i <= len,
                range_sums_bounded(s),
                0 <= cur_start < i,
                cur == range_sum(s, cur_start as int, i as int),
                forall|a: int| 0 <= a < i ==> #[trigger] range_sum(s, a, i as int) <= cur,
                forall|a: int| 0 <= a < cur_start ==> #[trigger] range_sum(s, a, i as int) < cur,
                0 <= best_start < best_end <= i,
                best == range_sum(s, best_start as int, best_end as int),
                forall|a: int, b: int| 0 <= a < b <= i ==> #[trigger] range_sum(s, a, b) <= best,
                forall|a: int, b: int| 0 <= a < b < best_end ==> #[trigger] range_sum(s, a, b) < best,
                forall|a: int| 0 <= a < best_start ==> #[trigger] range_sum(s, a, best_end as int) < best,
            decreases len - i,
        {
            let x = self[i + 1];
            proof {
                lemma_range_sum_extend(s, i as int);
                assert(range_sum(s, i as int, i as int) == 0) by {
                    assert(s.subrange(i as int, i as int) =~= Seq::<i64>::empty());
                }
                assert(range_sum(s, cur_start as int, i + 1) <= i64::MAX);
            }
            if cur < 0 {
                cur = x;
                cur_start = i;
            } else {
                cur = cur + x;
            }
            if cur > best {
                best = cur;
                best_start = cur_start;
                best_end = i + 1;
            }
            i += 1;
        }
        (best, best_start + 1, best_end)
    }

    /// Maximum subarray product: returns `(product, start, end)` where
    /// `v[start..=end]` is the run of consecutive elements with the largest
    /// product (among equal products, the run that ends first, and of those
    /// the longest). The empty container gives `(0, 0, 0)`.
    pub fn max_subarray_product(&self) -> (r: (i64, usize, usize))
        requires
            range_products_fit(self@),
        ensures
            self@.len() == 0 ==> r == (0i64, 0usize, 0usize),
            self@.len() > 0 ==> is_first_best_run(
                |a: int, b: int| range_product(self@, a, b),
                self@.len() as int,
                r.0 as int,
                r.1 as int,
                r.2 as int,
            ),
    {
        let len = self.len();
        if len == 0 {
            return (0, 0, 0);
        }
        let ghost s = self@;
        proof {
            lemma_range_product_extend(s, 0);
            assert(range_product(s, 0, 0) == 1) by {
                assert(s.subrange(0, 0) =~= Seq::<i64>::empty());
            }
            assert(s.subrange(0, 1).drop_last() =~= s.subrange(0, 0));
            assert(range_product(s, 0, 1) == s[0]);
        }
        let mut hi = self[1];
        let mut hi_start: usize = 0;
        let mut lo = self[1];
        let mut lo_start: usize = 0;
        let mut best = self[1];
        let mut best_start: usize = 0;
        let mut best_end: usize = 1;
        let mut i: usize = 1;
        while i < len
            invariant
                s == self@,
                len == s.len(),
                1 <= i <= len,
                range_products_fit(s),
                0 <= hi_start < i,
                hi == range_product(s, hi_start as int, i as int),
                forall|a: int| 0 <= a < i ==> #[trigger] range_product(s, a, i as int) <= hi,
                forall|a: int| 0 <= a < hi_start ==> #[trigger] range_product(s, a, i as int) < hi,
                0 <= lo_start < i,
                lo == range_product(s, lo_start as int, i as int),
                forall|a: int| 0 <= a < i ==> lo <= #[trigger] range_product(s, a, i as int),
                forall|a: int| 0 <= a < lo_start ==> lo < #[trigger] range_product(s, a, i as int),
                0 <= best_start < best_end <= i,
                best == range_product(s, best_start as int, best_end as int),
                forall|a: int, b: int| 0 <= a < b <= i ==> #[trigger] range_product(s, a, b) <= best,
                forall|a: int, b: int|
                    0 <= a < b < best_end ==> #[trigger] range_product(s, a, b) < best,
                forall|a: int|
                    0 <= a < best_start ==> #[trigger] range_product(s, a, best_end as int) < best,
            decreases len - i,
        {
            let x = self[i + 1];
            let ghost i0 = i as int;
            proof {
                lemma_range_product_extend(s, i0);
                assert(range_product(s, i0, i0) == 1) by {
                    assert(s.subrange(i0, i0) =~= Seq::<i64>::empty());
                }
                assert(range_product(s, i0, i0 + 1) == x);
                assert(fits_i64(range_product(s, hi_start as int, i0 + 1)));
                assert(fits_i64(range_product(s, lo_start as int, i0 + 1)));
            }
            let new_hi: i64;
            let new_hi_start: usize;
            let new_lo: i64;
            let new_lo_start: usize;
            if x == 0 {
                new_hi = 0;
                new_hi_start = 0;
                new_lo = 0;
                new_lo_start = 0;
                proof {
                    assert forall|a: int| 0 <= a <= i0 implies #[trigger] range_product(s, a, i0 + 1)
                        == 0 by {
                        assert(range_product(s, a, i0) * 0 == 0);
                    }
                }
            } else if x > 0 {
                let ext_hi = hi * x;
                let ext_lo = lo * x;
                proof {
                    assert forall|a: int| 0 <= a < i0 implies #[trigger] range_product(s, a, i0 + 1)
                        <= ext_hi && ext_lo <= range_product(s, a, i0 + 1) && (a < hi_start
                        ==> range_product(s, a, i0 + 1) < ext_hi) && (a < lo_start ==> ext_lo
                        < range_product(s, a, i0 + 1)) by {
                        lemma_mul_le_pos(range_product(s, a, i0), hi as int, x as int);
                        lemma_mul_le_pos(lo as int, range_product(s, a, i0), x as int);
                    }
                }
                if ext_hi >= x {
                    new_hi = ext_hi;
                    new_hi_start = hi_start;
                } else {
                    new_hi = x;
                    new_hi_start = i;
                }
                if ext_lo <= x {
                    new_lo = ext_lo;
                    new_lo_start = lo_start;
                } else {
                    new_lo = x;
                    new_lo_start = i;
                }
            } else {
                let ext_hi = lo * x;
                let ext_lo = hi * x;
                proof {
                    assert forall|a: int| 0 <= a < i0 implies #[trigger] range_product(s, a, i0 + 1)
                        <= ext_hi && ext_lo <= range_product(s, a, i0 + 1) && (a < lo_start
                        ==> range_product(s, a, i0 + 1) < ext_hi) && (a < hi_start ==> ext_lo
                        < range_product(s, a, i0 + 1)) by {
                        lemma_mul_le_neg(lo as int, range_product(s, a, i0), x as int);
                        lemma_mul_le_neg(range_product(s, a, i0), hi as int, x as int);
                    }
                }
                if ext_hi >= x {
                    new_hi = ext_hi;
                    new_hi_start = lo_start;
                } else {
                    new_hi = x;
                    new_hi_start = i;
                }
                if ext_lo <= x {
                    new_lo = ext_lo;
                    new_lo_start = hi_start;
                } else {
                    new_lo = x;
                    new_lo_start = i;
                }
            }
            hi = new_hi;
            hi_start = new_hi_start;
            lo = new_lo;
            lo_start = new_lo_start;
            if hi > best {
                best = hi;
                best_start = hi_start;
                best_end = i + 1;
            }
            i += 1;
        }
        (best, best_start + 1, best_end)
    }
}

} // verus!
