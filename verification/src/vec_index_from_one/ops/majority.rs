//! Majority votes: the element occurring in more than half of the positions
//! (Boyer-Moore), and the elements occurring in more than a third of them.
use vstd::prelude::*;

use super::math::{count_of, lemma_count_take_step, lemma_take_all};
use crate::vec_index_from_one::VecIndexFromOne;

verus! {

/// One step of the two-candidate vote on `x`, over the state
/// `(candidate1, count1, candidate2, count2)`; a candidate whose count is `0`
/// is vacant and keeps its stale value until it is taken again.
pub open spec fn vote_step(st: (i64, int, i64, int), x: i64) -> (i64, int, i64, int) {
    if st.1 > 0 && x == st.0 {
        (st.0, st.1 + 1, st.2, st.3)
    } else if st.3 > 0 && x == st.2 {
        (st.0, st.1, st.2, st.3 + 1)
    } else if st.1 == 0 {
        (x, 1, st.2, st.3)
    } else if st.3 == 0 {
        (st.0, st.1, x, 1)
    } else {
        (st.0, st.1 - 1, st.2, st.3 - 1)
    }
}

/// The state of the two-candidate vote after reading `s` from the front,
/// starting from `(0, 0, 0, 0)`.
pub open spec fn vote_scan(s: Seq<i64>) -> (i64, int, i64, int)
    decreases s.len(),
{
    if s.len() == 0 {
        (0, 0, 0, 0)
    } else {
        vote_step(vote_scan(s.drop_last()), s.last())
    }
}

/// The candidates left by the vote that occur at more than a third of the
/// positions: the first candidate, then the second.
pub open spec fn third_majorities(s: Seq<i64>) -> Seq<i64> {
    let st = vote_scan(s);
    (if st.1 > 0 && 3 * count_of(s, st.0) > s.len() {
        seq![st.0]
    } else {
        Seq::<i64>::empty()
    }) + (if st.3 > 0 && 3 * count_of(s, st.2) > s.len() {
        seq![st.2]
    } else {
        Seq::<i64>::empty()
    })
}

impl VecIndexFromOne<i64> {
    /// The number of positions holding `x`.
    fn count_occurrences(&self, x: i64) -> (r: usize)
        ensures
            r == count_of(self@, x),
    {
        let n = self.len();
        let mut c: usize = 0;
        let mut i: usize = 0;
        proof {
            assert(self@.take(0) =~= Seq::<i64>::empty());
        }
        while i < n
            invariant
                n == self@.len(),
                i <= n,
                c == count_of(self@.take(i as int), x),
                c <= i,
            decreases n - i,
        {
            proof {
                lemma_count_take_step(self@, i as int, x);
            }
            if self[i + 1] == x {
                c += 1;
            }
            i += 1;
        }
        proof {
            lemma_take_all(self@);
        }
        c
    }

    /// The majority element: `Some(x)` for the element `x` that occurs at
    /// more than half of the positions, `None` when there is none.
    pub fn majority_element(&self) -> (r: Option<i64>)
        ensures
            r matches Some(x) ==> 2 * count_of(self@, x) > self@.len(),
            r is None ==> forall|x: i64| 2 * #[trigger] count_of(self@, x) <= self@.len(),
    {
        let n = self.len();
        if n == 0 {
            proof {
                assert forall|x: i64| 2 * #[trigger] count_of(self@, x) <= self@.len() by {}
            }
            return None;
        }
        let ghost s = self@;
        let mut candidate = self[1];
        let mut count: usize = 0;
        let mut i: usize = 0;
        proof {
            assert(s.take(0) =~= Seq::<i64>::empty());
        }
        while i < n
            invariant
                s == self@,
                n == s.len(),
                i <= n,
                count <= i,
                2 * count_of(s.take(i as int), candidate) <= i + count,
                forall|x: i64|
                    x != candidate ==> 2 * #[trigger] count_of(s.take(i as int), x) <= i - count,
            decreases n - i,
        {
            let x = self[i + 1];
            let ghost old_candidate = candidate;
            let ghost old_count = count;
            proof {
                assert forall|y: i64| #[trigger]
                    count_of(s.take(i + 1), y) == count_of(s.take(i as int), y) + if x == y {
                        1int
                    } else {
                        0int
                    } by {
                    lemma_count_take_step(s, i as int, y);
                }
            }
            if count == 0 {
                candidate = x;
                count = 1;
            } else if x == candidate {
                count += 1;
            } else {
                count -= 1;
            }
            proof {
                assert forall|y: i64| y != candidate implies 2 * #[trigger] count_of(s.take(i + 1), y)
                    <= i + 1 - count by {
                    if y == old_candidate {
                        assert(2 * count_of(s.take(i as int), y) <= i + old_count);
                    } else {
                        assert(2 * count_of(s.take(i as int), y) <= i - old_count);
                    }
                }
                if candidate == old_candidate {
                    assert(2 * count_of(s.take(i as int), candidate) <= i + old_count);
                } else {
                    assert(2 * count_of(s.take(i as int), candidate) <= i - old_count);
                }
            }
            i += 1;
        }
        proof {
            lemma_take_all(s);
        }
        let c = self.count_occurrences(candidate);
        if c > n / 2 {
            Some(candidate)
        } else {
            proof {
                assert forall|x: i64| 2 * #[trigger] count_of(self@, x) <= self@.len() by {
                    if x != candidate {
                        assert(2 * count_of(s.take(n as int), x) <= n - count);
                    }
                }
            }
            None
        }
    }

    /// The elements that occur at more than a third of the positions, each
    /// once (at most two of them), in the order in which the vote holds them.
    pub fn majority_elements_n3(&self) -> (r: VecIndexFromOne<i64>)
        ensures
            r@ == third_majorities(self@),
            r@.len() <= 2,
            r@.no_duplicates(),
            forall|j: int| 0 <= j < r@.len() ==> 3 * count_of(self@, #[trigger] r@[j]) > self@.len(),
            forall|x: i64| 3 * #[trigger] count_of(self@, x) > self@.len() ==> r@.contains(x),
    {
        let n = self.len();
        let ghost s = self@;
        if n == 0 {
            return VecIndexFromOne::new();
        }
        let mut candidate1: i64 = 0;
        let mut candidate2: i64 = 0;
        let mut count1: usize = 0;
        let mut count2: usize = 0;
        let mut initialized1 = false;
        let mut initialized2 = false;
        let ghost mut dropped: int = 0;
        let mut i: usize = 0;
        proof {
            assert(s.take(0) =~= Seq::<i64>::empty());
        }
        while i < n
            invariant
                s == self@,
                n == s.len(),
                i <= n,
                dropped >= 0,
                initialized1 ==> count1 >= 1,
                !initialized1 ==> count1 == 0,
                initialized2 ==> count2 >= 1,
                !initialized2 ==> count2 == 0,
                initialized2 ==> candidate1 != candidate2,
                (candidate1, count1 as int, candidate2, count2 as int) == vote_scan(s.take(i as int)),
                i == count1 + count2 + 3 * dropped,
                forall|x: i64|
                    #[trigger] count_of(s.take(i as int), x) <= (if initialized1 && x == candidate1 {
                        count1 as int
                    } else {
                        0int
                    }) + (if initialized2 && x == candidate2 {
                        count2 as int
                    } else {
                        0int
                    }) + dropped,
            decreases n - i,
        {
            let x = self[i + 1];
            let ghost c1 = candidate1;
            let ghost c2 = candidate2;
            let ghost n1 = count1;
            let ghost n2 = count2;
            let ghost i1 = initialized1;
            let ghost i2 = initialized2;
            let ghost d = dropped;
            proof {
                assert(s.take(i + 1).drop_last() =~= s.take(i as int));
                assert forall|y: i64| #[trigger]
                    count_of(s.take(i + 1), y) == count_of(s.take(i as int), y) + if x == y {
                        1int
                    } else {
                        0int
                    } by {
                    lemma_count_take_step(s, i as int, y);
                }
            }
            if initialized1 && x == candidate1 {
                count1 += 1;
            } else if initialized2 && x == candidate2 {
                count2 += 1;
            } else if !initialized1 {
                candidate1 = x;
                initialized1 = true;
                count1 = 1;
            } else if !initialized2 {
                candidate2 = x;
                initialized2 = true;
                count2 = 1;
            } else {
                count1 -= 1;
                count2 -= 1;
                proof {
                    dropped = dropped + 1;
                }
                if count1 == 0 {
                    initialized1 = false;
                }
                if count2 == 0 {
                    initialized2 = false;
                }
            }
            proof {
                assert forall|y: i64| #[trigger] count_of(s.take(i + 1), y) <= (if initialized1 && y
                    == candidate1 {
                    count1 as int
                } else {
                    0int
                }) + (if initialized2 && y == candidate2 {
                    count2 as int
                } else {
                    0int
                }) + dropped by {
                    assert(count_of(s.take(i as int), y) <= (if i1 && y == c1 {
                        n1 as int
                    } else {
                        0int
                    }) + (if i2 && y == c2 {
                        n2 as int
                    } else {
                        0int
                    }) + d);
                }
            }
            i += 1;
        }
        proof {
            lemma_take_all(s);
            assert forall|x: i64| 3 * #[trigger] count_of(s, x) > n implies (initialized1 && x
                == candidate1) || (initialized2 && x == candidate2) by {
                assert(count_of(s.take(n as int), x) <= (if initialized1 && x == candidate1 {
                    count1 as int
                } else {
                    0int
                }) + (if initialized2 && x == candidate2 {
                    count2 as int
                } else {
                    0int
                }) + dropped);
            }
        }
        let mut result: VecIndexFromOne<i64> = VecIndexFromOne::new();
        let threshold = n / 3;
        if initialized1 {
            let c = self.count_occurrences(candidate1);
            if c > threshold {
                result.push(candidate1);
            }
        }
        if initialized2 && candidate2 != candidate1 {
            let c = self.count_occurrences(candidate2);
            if c > threshold {
                result.push(candidate2);
            }
        }
        proof {
            assert(result@ =~= third_majorities(s));
            assert forall|x: i64| 3 * #[trigger] count_of(self@, x) > self@.len() implies result@.contains(x) by {
                if initialized1 && x == candidate1 {
                    assert(result@[0] == x);
                } else {
                    assert(result@[result@.len() - 1] == x);
                }
            }
        }
        result
    }
}

} // verus!
