//! Prefix sums, sums, products, dot products and sign checks.
use vstd::prelude::*;

use super::math::{
    dot_of, dot_terms_fit, fits_i64, lemma_product_take_step, lemma_sum_take_step, lemma_take_all,
    prefix_products_fit, prefix_sums_fit, product_of, sum_of,
};
use crate::vec_index_from_one::index1::Index1;
use crate::vec_index_from_one::VecIndexFromOne;

verus! {

impl VecIndexFromOne<i64> {
    /// Prefix sum: position `i` of the result holds `v[1] + ... + v[i]`.
    pub fn prefix_sum(&self) -> (r: VecIndexFromOne<i64>)
        requires
            prefix_sums_fit(self@, 0),
        ensures
            r@.len() == self@.len(),
            forall|i: int| 0 <= i < self@.len() ==> #[trigger] r@[i] == sum_of(self@.take(i + 1)),
    {
        self.prefix_sum_with(0)
    }

    /// Prefix sum starting from `identity`: position `i` of the result holds
    /// `identity + v[1] + ... + v[i]`.
    pub fn prefix_sum_with(&self, identity: i64) -> (r: VecIndexFromOne<i64>)
        requires
            prefix_sums_fit(self@, identity as int),
        ensures
            r@.len() == self@.len(),
            forall|i: int|
                0 <= i < self@.len() ==> #[trigger] r@[i] == identity + sum_of(self@.take(i + 1)),
    {
        let n = self.len();
        let mut out: VecIndexFromOne<i64> = VecIndexFromOne::with_capacity(n);
        let mut acc = identity;
        let mut i: usize = 0;
        while i < n
            invariant
                n == self@.len(),
                i <= n,
                prefix_sums_fit(self@, identity as int),
                acc == identity + sum_of(self@.take(i as int)),
                out@.len() == i,
                forall|j: int|
                    0 <= j < i ==> #[trigger] out@[j] == identity + sum_of(self@.take(j + 1)),
            decreases n - i,
        {
            proof {
                lemma_sum_take_step(self@, i as int);
                assert(fits_i64(identity + sum_of(self@.take(i + 1))));
            }
            acc = acc + self[i + 1];
            out.push(acc);
            i += 1;
        }
        out
    }

    /// Sum of all elements.
    pub fn sum(&self) -> (r: i64)
        requires
            prefix_sums_fit(self@, 0),
        ensures
            r == sum_of(self@),
    {
        self.sum_with(0)
    }

    /// `identity` plus the sum of all elements.
    pub fn sum_with(&self, identity: i64) -> (r: i64)
        requires
            prefix_sums_fit(self@, identity as int),
        ensures
            r == identity + sum_of(self@),
    {
        let n = self.len();
        let mut acc = identity;
        let mut i: usize = 0;
        while i < n
            invariant
                n == self@.len(),
                i <= n,
                prefix_sums_fit(self@, identity as int),
                acc == identity + sum_of(self@.take(i as int)),
            decreases n - i,
        {
            proof {
                lemma_sum_take_step(self@, i as int);
                assert(fits_i64(identity + sum_of(self@.take(i + 1))));
            }
            acc = acc + self[i + 1];
            i += 1;
        }
        proof {
            lemma_take_all(self@);
        }
        acc
    }

    /// Cumulative product: position `i` of the result holds
    /// `v[1] * ... * v[i]`.
    pub fn cumulative_product(&self) -> (r: VecIndexFromOne<i64>)
        requires
            prefix_products_fit(self@, 1),
        ensures
            r@.len() == self@.len(),
            forall|i: int| 0 <= i < self@.len() ==> #[trigger] r@[i] == product_of(self@.take(i + 1)),
    {
        let n = self.len();
        let mut out: VecIndexFromOne<i64> = VecIndexFromOne::with_capacity(n);
        let mut acc: i64 = 0;
        let mut i: usize = 0;
        while i < n
            invariant
                n == self@.len(),
                i <= n,
                prefix_products_fit(self@, 1),
                i > 0 ==> acc == product_of(self@.take(i as int)),
                out@.len() == i,
                forall|j: int| 0 <= j < i ==> #[trigger] out@[j] == product_of(self@.take(j + 1)),
            decreases n - i,
        {
            proof {
                lemma_product_take_step(self@, i as int);
                assert(fits_i64(1 * product_of(self@.take(i + 1))));
                assert(product_of(self@.take(0)) == 1) by {
                    assert(self@.take(0) =~= Seq::<i64>::empty());
                }
            }
            let x = self[i + 1];
            if i == 0 {
                acc = x;
            } else {
                acc = acc * x;
            }
            assert(acc == product_of(self@.take(i + 1)));
            out.push(acc);
            i += 1;
        }
        out
    }

    /// Product of all elements.
    pub fn product(&self) -> (r: i64)
        requires
            prefix_products_fit(self@, 1),
        ensures
            r == product_of(self@),
    {
        self.product_with(1)
    }

    /// `identity` times the product of all elements.
    pub fn product_with(&self, identity: i64) -> (r: i64)
        requires
            prefix_products_fit(self@, identity as int),
        ensures
            r == identity * product_of(self@),
    {
        let n = self.len();
        let mut acc = identity;
        let mut i: usize = 0;
        proof {
            assert(self@.take(0) =~= Seq::<i64>::empty());
        }
        while i < n
            invariant
                n == self@.len(),
                i <= n,
                prefix_products_fit(self@, identity as int),
                acc == identity * product_of(self@.take(i as int)),
            decreases n - i,
        {
            let x = self[i + 1];
            proof {
                lemma_product_take_step(self@, i as int);
                let p = product_of(self@.take(i as int));
                assert(identity * (p * x) == (identity * p) * x) by (nonlinear_arith);
                assert(fits_i64(identity * product_of(self@.take(i + 1))));
            }
            acc = acc * x;
            i += 1;
        }
        proof {
            lemma_take_all(self@);
        }
        acc
    }

    /// Dot product `v[1] * w[1] + ... + v[len] * w[len]` of two containers of
    /// equal length.
    pub fn dot_product(&self, other: &VecIndexFromOne<i64>) -> (r: i64)
        requires
            self@.len() == other@.len(),
            dot_terms_fit(self@, other@, 0, self@.len() as int),
        ensures
            r == dot_of(self@, other@, 0, self@.len() as int),
    {
        let n = self.len();
        self.dot_product_range_impl(other, 1, n)
    }

    /// Dot product of the first `i` positions: `v[1] * w[1] + ... + v[i] * w[i]`.
    pub fn dot_product_upto(&self, other: &VecIndexFromOne<i64>, i: usize) -> (r: i64)
        requires
            1 <= i,
            i <= self@.len(),
            i <= other@.len(),
            dot_terms_fit(self@, other@, 0, i as int),
        ensures
            r == dot_of(self@, other@, 0, i as int),
    {
        self.dot_product_range_impl(other, 1, i)
    }

    /// Type-safe form of [`dot_product_upto`](VecIndexFromOne::dot_product_upto).
    pub fn dot_product_upto_index1(&self, other: &VecIndexFromOne<i64>, i: Index1) -> (r: i64)
        requires
            1 <= i@,
            i@ <= self@.len(),
            i@ <= other@.len(),
            dot_terms_fit(self@, other@, 0, i@ as int),
        ensures
            r == dot_of(self@, other@, 0, i@ as int),
    {
        self.dot_product_upto(other, i.get())
    }

    /// Dot product over the positions `start..=end`:
    /// `v[start] * w[start] + ... + v[end] * w[end]`.
    pub fn dot_product_range(&self, other: &VecIndexFromOne<i64>, start: usize, end: usize) -> (r:
        i64)
        requires
            1 <= start,
            start <= end,
            end <= self@.len(),
            end <= other@.len(),
            dot_terms_fit(self@, other@, start - 1, end as int),
        ensures
            r == dot_of(self@, other@, start - 1, end as int),
    {
        self.dot_product_range_impl(other, start, end)
    }

    /// Type-safe form of [`dot_product_range`](VecIndexFromOne::dot_product_range).
    pub fn dot_product_range_index1(&self, other: &VecIndexFromOne<i64>, start: Index1, end: Index1) -> (r: i64)
        requires
            1 <= start@,
            start@ <= end@,
            end@ <= self@.len(),
            end@ <= other@.len(),
            dot_terms_fit(self@, other@, start@ - 1, end@ as int),
        ensures
            r == dot_of(self@, other@, start@ - 1, end@ as int),
    {
        self.dot_product_range(other, start.get(), end.get())
    }

    /// The running dot product over `start..=end`; an empty range
    /// (`start == end + 1`) gives 0.
    fn dot_product_range_impl(&self, other: &VecIndexFromOne<i64>, start: usize, end: usize) -> (r: i64)
        requires
            1 <= start,
            start <= end + 1,
            end <= self@.len(),
            end <= other@.len(),
            dot_terms_fit(self@, other@, start - 1, end as int),
        ensures
            r == dot_of(self@, other@, start - 1, end as int),
    {
        let mut acc: i64 = 0;
        let mut k: usize = start - 1;
        while k < end
            invariant
                1 <= start,
                start - 1 <= k <= end,
                end <= self@.len(),
                end <= other@.len(),
                dot_terms_fit(self@, other@, start - 1, end as int),
                acc == dot_of(self@, other@, start - 1, k as int),
            decreases end - k,
        {
            proof {
                assert(fits_i64(dot_of(self@, other@, start - 1, k + 1)));
            }
            acc = acc + self[k + 1] * other[k + 1];
            k += 1;
        }
        acc
    }

    /// Whether some element is `<= 0`.
    pub fn any_non_positive(&self) -> (r: bool)
        ensures
            r == (exists|i: int| 0 <= i < self@.len() && #[trigger] self@[i] <= 0),
    {
        let n = self.len();
        let mut i: usize = 0;
        while i < n
            invariant
                n == self@.len(),
                i <= n,
                forall|j: int| 0 <= j < i ==> #[trigger] self@[j] > 0,
            decreases n - i,
        {
            if self[i + 1] <= 0 {
                return true;
            }
            i += 1;
        }
        false
    }

    /// Whether every element is `<= 0` (true for the empty container).
    pub fn all_non_positive(&self) -> (r: bool)
        ensures
            r == (forall|i: int| 0 <= i < self@.len() ==> #[trigger] self@[i] <= 0),
    {
        let n = self.len();
        let mut i: usize = 0;
        while i < n
            invariant
                n == self@.len(),
                i <= n,
                forall|j: int| 0 <= j < i ==> #[trigger] self@[j] <= 0,
            decreases n - i,
        {
            if self[i + 1] > 0 {
                return false;
            }
            i += 1;
        }
        true
    }

    /// Same as [`any_non_positive`](VecIndexFromOne::any_non_positive).
    pub fn has_non_positive(&self) -> (r: bool)
        ensures
            r == (exists|i: int| 0 <= i < self@.len() && #[trigger] self@[i] <= 0),
    {
        self.any_non_positive()
    }
}

} // verus!
