//! Finding positions of a value.
use vstd::prelude::*;

use crate::vec_index_from_one::VecIndexFromOne;

verus! {

impl VecIndexFromOne<i64> {
    /// The 1-based position of the first occurrence of `value`, if any.
    pub fn find_first(&self, value: &i64) -> (r: Option<usize>)
        ensures
            r matches Some(p) ==> 1 <= p <= self@.len() && self@[p - 1] == *value && forall|q: int|
                0 <= q < p - 1 ==> #[trigger] self@[q] != *value,
            r is None ==> forall|q: int| 0 <= q < self@.len() ==> #[trigger] self@[q] != *value,
    {
        let n = self.len();
        let mut i: usize = 0;
        while i < n
            invariant
                n == self@.len(),
                i <= n,
                forall|q: int| 0 <= q < i ==> #[trigger] self@[q] != *value,
            decreases n - i,
        {
            if self[i + 1] == *value {
                return Some(i + 1);
            }
            i += 1;
        }
        None
    }

    /// The 1-based position of the last occurrence of `value`, if any.
    pub fn find_last(&self, value: &i64) -> (r: Option<usize>)
        ensures
            r matches Some(p) ==> 1 <= p <= self@.len() && self@[p - 1] == *value && forall|q: int|
                p <= q < self@.len() ==> #[trigger] self@[q] != *value,
            r is None ==> forall|q: int| 0 <= q < self@.len() ==> #[trigger] self@[q] != *value,
    {
        let n = self.len();
        let mut i: usize = n;
        while i > 0
            invariant
                n == self@.len(),
                i <= n,
                forall|q: int| i <= q < n ==> #[trigger] self@[q] != *value,
            decreases i,
        {
            if self[i] == *value {
                return Some(i);
            }
            i -= 1;
        }
        None
    }
}

} // verus!
