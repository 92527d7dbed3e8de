//! Forward and backward filling of missing values (zeros), and copying.
use vstd::prelude::*;

use crate::vec_index_from_one::laws::{
    law_backward_fill_keeps_known,
    law_backward_fill_takes_next_known,
    law_backward_fill_trailing_zeros,
    law_forward_fill_keeps_known,
    law_forward_fill_leading_zeros,
    law_forward_fill_takes_previous_known,
};
use crate::vec_index_from_one::VecIndexFromOne;

verus! {

/// Index `i` after forward filling: the value at the nearest position at or
/// before `i` that is not `0`, or `0` when there is none.
pub open spec fn forward_filled(s: Seq<i64>, i: int) -> i64
    decreases i,
{
    if i <= 0 || s[i] != 0 {
        s[i]
    } else {
        forward_filled(s, i - 1)
    }
}

/// Index `i` after backward filling: the value at the nearest position at or
/// after `i` that is not `0`, or `0` when there is none.
pub open spec fn backward_filled(s: Seq<i64>, i: int) -> i64
    decreases s.len() - i,
{
    if i >= s.len() - 1 || s[i] != 0 {
        s[i]
    } else {
        backward_filled(s, i + 1)
    }
}

impl VecIndexFromOne<i64> {
    /// Forward fill: each `0` is replaced by the nearest non-zero value
    /// before it; leading zeros stay `0`.
    pub fn forward_fill(&self) -> (r: VecIndexFromOne<i64>)
        ensures
            r@.len() == self@.len(),
            forall|i: int| 0 <= i < self@.len() ==> #[trigger] r@[i] == forward_filled(self@, i),
            forall|i: int| 0 <= i < self@.len() && self@[i] != 0 ==> #[trigger] r@[i] == self@[i],
            forall|j: int, i: int|
                #![trigger self@[j], r@[i]]
                0 <= j < i < self@.len() && self@[j] != 0 && (forall|t: int|
                    j < t <= i ==> #[trigger] self@[t] == 0) ==> r@[i] == self@[j],
            forall|i: int|
                0 <= i < self@.len() && (forall|t: int| 0 <= t <= i ==> #[trigger] self@[t] == 0)
                    ==> #[trigger] r@[i] == 0,
    {
        let n = self.len();
        let mut result: VecIndexFromOne<i64> = VecIndexFromOne::with_capacity(n);
        let mut last_val: i64 = 0;
        let mut found = false;
        let mut i: usize = 0;
        while i < n
            invariant
                n == self@.len(),
                i <= n,
                found ==> i > 0 && last_val == forward_filled(self@, i - 1) && last_val != 0,
                !found ==> forall|j: int| 0 <= j < i ==> #[trigger] self@[j] == 0,
                result@.len() == i,
                forall|j: int| 0 <= j < i ==> #[trigger] result@[j] == forward_filled(self@, j),
            decreases n - i,
        {
            let x = self[i + 1];
            if x != 0 {
                last_val = x;
                found = true;
            }
            proof {
                if !found && i > 0 {
                    assert(self@[i - 1] == 0);
                    assert(forward_filled(self@, i - 1) == 0) by {
                        assert forall|j: int| 0 <= j < i implies forward_filled(self@, j) == 0 by {
                            lemma_forward_filled_zero_prefix(self@, j, i as int);
                        }
                    }
                }
            }
            if found {
                result.push(last_val);
            } else {
                result.push(x);
            }
            i += 1;
        }
        proof {
            Self::lemma_fill_forward_direct(self@, result@);
        }
        result
    }

    /// Backward fill: each `0` is replaced by the nearest non-zero value
    /// after it; trailing zeros stay `0`.
    pub fn backward_fill(&self) -> (r: VecIndexFromOne<i64>)
        ensures
            r@.len() == self@.len(),
            forall|i: int| 0 <= i < self@.len() ==> #[trigger] r@[i] == backward_filled(self@, i),
            forall|i: int| 0 <= i < self@.len() && self@[i] != 0 ==> #[trigger] r@[i] == self@[i],
            forall|i: int, j: int|
                #![trigger r@[i], self@[j]]
                0 <= i < j < self@.len() && self@[j] != 0 && (forall|t: int|
                    i <= t < j ==> #[trigger] self@[t] == 0) ==> r@[i] == self@[j],
            forall|i: int|
                0 <= i < self@.len() && (forall|t: int| i <= t < self@.len() ==> #[trigger] self@[t]
                    == 0) ==> #[trigger] r@[i] == 0,
    {
        let n = self.len();
        let ghost s = self@;
        let mut next_val: i64 = 0;
        let mut rev: VecIndexFromOne<i64> = VecIndexFromOne::with_capacity(n);
        let mut t: usize = 0;
        while t < n
            invariant
                s == self@,
                n == s.len(),
                t <= n,
                next_val == if t == 0 {
                    0
                } else {
                    backward_filled(s, n - t)
                },
                rev@.len() == t,
                forall|j: int| 0 <= j < t ==> #[trigger] rev@[j] == backward_filled(s, n - 1 - j),
            decreases n - t,
        {
            let x = self[n - t];
            if x != 0 {
                next_val = x;
            }
            proof {
                assert(next_val == backward_filled(s, n - 1 - t));
            }
            rev.push(next_val);
            t += 1;
        }
        let ghost rv = rev@;
        rev.reverse();
        proof {
            assert forall|i: int| 0 <= i < n implies #[trigger] rev@[i] == backward_filled(s, i) by {
                assert(rev@[i] == rv[n - 1 - i]);
            }
            Self::lemma_fill_backward_direct(s, rev@);
        }
        rev
    }
}

impl VecIndexFromOne<i64> {
    proof fn lemma_fill_forward_direct(s: Seq<i64>, r: Seq<i64>)
        requires
            r.len() == s.len(),
            forall|i: int| 0 <= i < s.len() ==> #[trigger] r[i] == forward_filled(s, i),
        ensures
            forall|i: int| 0 <= i < s.len() && s[i] != 0 ==> #[trigger] r[i] == s[i],
            forall|j: int, i: int|
                #![trigger s[j], r[i]]
                0 <= j < i < s.len() && s[j] != 0 && (forall|t: int|
                    j < t <= i ==> #[trigger] s[t] == 0) ==> r[i] == s[j],
            forall|i: int|
                0 <= i < s.len() && (forall|t: int| 0 <= t <= i ==> #[trigger] s[t] == 0)
                    ==> #[trigger] r[i] == 0,
    {
        assert forall|i: int| 0 <= i < s.len() && s[i] != 0 implies #[trigger] r[i] == s[i] by {
            law_forward_fill_keeps_known(s, i);
        }
        assert forall|j: int, i: int|
            #![trigger s[j], r[i]]
            0 <= j < i < s.len() && s[j] != 0 && (forall|t: int|
                j < t <= i ==> #[trigger] s[t] == 0) implies r[i] == s[j] by {
            law_forward_fill_takes_previous_known(s, j, i);
        }
        assert forall|i: int|
            0 <= i < s.len() && (forall|t: int| 0 <= t <= i ==> #[trigger] s[t] == 0) implies #[trigger] r[i]
                == 0 by {
            law_forward_fill_leading_zeros(s, i);
        }
    }

    proof fn lemma_fill_backward_direct(s: Seq<i64>, r: Seq<i64>)
        requires
            r.len() == s.len(),
            forall|i: int| 0 <= i < s.len() ==> #[trigger] r[i] == backward_filled(s, i),
        ensures
            forall|i: int| 0 <= i < s.len() && s[i] != 0 ==> #[trigger] r[i] == s[i],
            forall|i: int, j: int|
                #![trigger r[i], s[j]]
                0 <= i < j < s.len() && s[j] != 0 && (forall|t: int|
                    i <= t < j ==> #[trigger] s[t] == 0) ==> r[i] == s[j],
            forall|i: int|
                0 <= i < s.len() && (forall|t: int| i <= t < s.len() ==> #[trigger] s[t] == 0)
                    ==> #[trigger] r[i] == 0,
    {
        assert forall|i: int| 0 <= i < s.len() && s[i] != 0 implies #[trigger] r[i] == s[i] by {
            law_backward_fill_keeps_known(s, i);
        }
        assert forall|i: int, j: int|
            #![trigger r[i], s[j]]
            0 <= i < j < s.len() && s[j] != 0 && (forall|t: int|
                i <= t < j ==> #[trigger] s[t] == 0) implies r[i] == s[j] by {
            law_backward_fill_takes_next_known(s, i, j);
        }
        assert forall|i: int|
            0 <= i < s.len() && (forall|t: int| i <= t < s.len() ==> #[trigger] s[t] == 0) implies #[trigger] r[i]
                == 0 by {
            law_backward_fill_trailing_zeros(s, i);
        }
    }
}

proof fn lemma_forward_filled_zero_prefix(s: Seq<i64>, j: int, i: int)
    requires
        0 <= j < i <= s.len(),
        forall|t: int| 0 <= t < i ==> #[trigger] s[t] == 0,
    ensures
        forward_filled(s, j) == 0,
    decreases j,
{
    if j > 0 {
        lemma_forward_filled_zero_prefix(s, j - 1, i);
    }
}

impl<T: Copy> VecIndexFromOne<T> {
    /// An element-by-element copy.
    pub fn clone(&self) -> (r: VecIndexFromOne<T>)
        ensures
            r@ == self@,
    {
        let n = self.len();
        let mut result: VecIndexFromOne<T> = VecIndexFromOne::with_capacity(n);
        let mut i: usize = 0;
        while i < n
            invariant
                n == self@.len(),
                i <= n,
                result@ == self@.take(i as int),
            decreases n - i,
        {
            result.push(self[i + 1]);
            i += 1;
            proof {
                assert(result@ =~= self@.take(i as int));
            }
        }
        proof {
            assert(self@.take(n as int) =~= self@);
        }
        result
    }
}

} // verus!
