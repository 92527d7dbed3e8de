//! A prefix-sum view for constant-time range sums.
use vstd::prelude::*;

use super::math::{fits_i64, lemma_sum_subrange, lemma_take_all, prefix_sums_fit, sum_of};
use crate::vec_index_from_one::VecIndexFromOne;

verus! {

/// The prefix sums of a container, kept beside a reference to it: position
/// `i` of the cumulative sums is `v[1] + ... + v[i]`.
pub struct PrefixSumView<'a> {
    inner: &'a VecIndexFromOne<i64>,
    cumulative: VecIndexFromOne<i64>,
}

impl<'a> PrefixSumView<'a> {
    #[verifier::type_invariant]
    spec fn cumulative_matches(self) -> bool {
        &&& self.cumulative@.len() == self.inner@.len()
        &&& forall|i: int|
            0 <= i < self.inner@.len() ==> #[trigger] self.cumulative@[i] == sum_of(
                self.inner@.take(i + 1),
            )
    }

    /// The elements of the container the view was built from.
    pub closed spec fn source(&self) -> Seq<i64> {
        self.inner@
    }

    pub(crate) fn new(inner: &'a VecIndexFromOne<i64>) -> (r: Self)
        requires
            prefix_sums_fit(inner@, 0),
        ensures
            r.source() == inner@,
    {
        let cumulative = inner.prefix_sum();
        PrefixSumView { inner, cumulative }
    }

    /// The prefix sum `v[1] + ... + v[i]` for a valid position `i`.
    pub fn get(&self, i: usize) -> (r: i64)
        requires
            1 <= i <= self.source().len(),
        ensures
            r == sum_of(self.source().take(i as int)),
    {
        proof {
            use_type_invariant(self);
        }
        self.cumulative[i]
    }

    /// The sum `v[start] + ... + v[end]` over valid positions
    /// `start <= end`.
    pub fn range_sum(&self, start: usize, end: usize) -> (r: i64)
        requires
            1 <= start <= end <= self.source().len(),
            fits_i64(sum_of(self.source().subrange(start - 1, end as int))),
        ensures
            r == sum_of(self.source().subrange(start - 1, end as int)),
    {
        proof {
            use_type_invariant(self);
            lemma_sum_subrange(self.source(), start - 1, end as int);
            assert(self.source().take(0) =~= Seq::<i64>::empty());
        }
        if start == 1 {
            self.get(end)
        } else {
            self.get(end) - self.get(start - 1)
        }
    }

    /// The sum of all elements (0 when empty).
    pub fn total_sum(&self) -> (r: i64)
        ensures
            r == sum_of(self.source()),
    {
        proof {
            use_type_invariant(self);
            lemma_take_all(self.source());
        }
        let n = self.inner.len();
        if n == 0 {
            0
        } else {
            self.cumulative[n]
        }
    }
}

impl VecIndexFromOne<i64> {
    /// A view answering prefix and range sums in constant time.
    pub fn prefix_sum_view(&self) -> (r: PrefixSumView<'_>)
        requires
            prefix_sums_fit(self@, 0),
        ensures
            r.source() == self@,
    {
        PrefixSumView::new(self)
    }

    /// The prefix sums as a new container (same as
    /// [`prefix_sum`](VecIndexFromOne::prefix_sum)).
    pub fn cumsum_alloc(&self) -> (r: VecIndexFromOne<i64>)
        requires
            prefix_sums_fit(self@, 0),
        ensures
            r@.len() == self@.len(),
            forall|i: int| 0 <= i < self@.len() ==> #[trigger] r@[i] == sum_of(self@.take(i + 1)),
    {
        self.prefix_sum()
    }
}

} // verus!
