//! Sliding-window median over a sorted copy of the current window.
use vstd::prelude::*;
use vstd::relations::{sorted_by, total_ordering};
use vstd::seq_lib::{
    lemma_sorted_unique, to_multiset_build, to_multiset_contains, to_multiset_len, to_multiset_remove,
};

use crate::vec_index_from_one::VecIndexFromOne;

verus! {

/// The ascending order on `i64`.
pub open spec fn ascending() -> spec_fn(i64, i64) -> bool {
    |x: i64, y: i64| x <= y
}

/// The lower median of a non-empty sequence: the element at index
/// `(len - 1) / 2` of the sequence sorted in ascending order (for an even
/// length, the smaller of the two middle elements).
pub open spec fn lower_median(w: Seq<i64>) -> i64 {
    w.sort_by(ascending())[(w.len() - 1) / 2]
}

/// `s` is in ascending order.
spec fn sorted_asc(s: Seq<i64>) -> bool {
    forall|a: int, b: int| 0 <= a < b < s.len() ==> #[trigger] s[a] <= #[trigger] s[b]
}

proof fn lemma_ascending_total()
    ensures
        total_ordering(ascending()),
{
}

/// An ascending sequence with the same elements as `w` is `w` sorted.
proof fn lemma_sorted_is_sort(p: Seq<i64>, w: Seq<i64>)
    requires
        sorted_asc(p),
        p.to_multiset() == w.to_multiset(),
    ensures
        p == w.sort_by(ascending()),
{
    lemma_ascending_total();
    assert(sorted_by(p, ascending()));
    w.lemma_sort_by_ensures(ascending());
    lemma_sorted_unique(p, w.sort_by(ascending()), ascending());
}

/// Inserts `x` into the ascending vector `win`, keeping it ascending.
fn insert_sorted(win: &mut Vec<i64>, x: i64)
    requires
        sorted_asc(old(win)@),
    ensures
        sorted_asc(final(win)@),
        final(win)@.to_multiset() == old(win)@.to_multiset().insert(x),
        final(win)@.len() == old(win)@.len() + 1,
{
    broadcast use vstd::seq_lib::group_to_multiset_ensures;

    let mut pos: usize = 0;
    let mut scanning = true;
    while scanning
        invariant
            pos <= win@.len(),
            win@ == old(win)@,
            sorted_asc(win@),
            forall|k: int| 0 <= k < pos ==> #[trigger] win@[k] <= x,
            !scanning ==> pos == win@.len() || win@[pos as int] > x,
        decreases win@.len() - pos + if scanning {
            1int
        } else {
            0int
        },
    {
        if pos == win.len() {
            scanning = false;
        } else if win[pos] <= x {
            pos += 1;
        } else {
            scanning = false;
        }
    }
    let ghost w0 = win@;
    win.insert(pos, x);
    proof {
        let w = win@;
        assert forall|a: int, b: int| 0 <= a < b < w.len() implies #[trigger] w[a] <= #[trigger] w[b] by {
            if b < pos {
                assert(w[a] == w0[a] && w[b] == w0[b]);
            } else if b == pos {
                assert(w[a] == w0[a]);
            } else if a == pos {
                assert(w[b] == w0[b - 1]);
                assert(w0[pos as int] <= w0[b - 1]);
            } else if a < pos {
                assert(w[a] == w0[a] && w[b] == w0[b - 1]);
            } else {
                assert(w[a] == w0[a - 1] && w[b] == w0[b - 1]);
            }
        }
    }
}

/// Removes one occurrence of `x` from the ascending vector `win`.
fn remove_sorted(win: &mut Vec<i64>, x: i64)
    requires
        sorted_asc(old(win)@),
        old(win)@.to_multiset().count(x) > 0,
    ensures
        sorted_asc(final(win)@),
        final(win)@.to_multiset() == old(win)@.to_multiset().remove(x),
        final(win)@.len() == old(win)@.len() - 1,
{
    broadcast use vstd::seq_lib::group_to_multiset_ensures;

    assert(win@.contains(x));
    let mut pos: usize = 0;
    while win[pos] != x
        invariant
            win@ == old(win)@,
            pos < win.len(),
            exists|k: int| pos <= k < win@.len() && win@[k] == x,
        decreases win@.len() - pos,
    {
        pos += 1;
    }
    let ghost w0 = win@;
    win.remove(pos);
    proof {
        let w = win@;
        assert forall|a: int, b: int| 0 <= a < b < w.len() implies #[trigger] w[a] <= #[trigger] w[b] by {
            if b < pos {
                assert(w[a] == w0[a] && w[b] == w0[b]);
            } else if a < pos {
                assert(w[a] == w0[a] && w[b] == w0[b + 1]);
            } else {
                assert(w[a] == w0[a + 1] && w[b] == w0[b + 1]);
            }
        }
    }
}

/// The first index of the window of at most `n` elements that ends before
/// index `i`.
spec fn window_start(i: int, n: int) -> int {
    if i >= n {
        i - n
    } else {
        0
    }
}

impl VecIndexFromOne<i64> {
    /// Lower median of each window of `n` consecutive elements: position `j`
    /// of the result is the element at index `(n - 1) / 2` of
    /// `v[j..=j + n - 1]` sorted ascending; the result has `len - n + 1`
    /// elements (none when `len < n`).
    pub fn sliding_window_median(&self, n: usize) -> (r: VecIndexFromOne<i64>)
        requires
            n > 0,
        ensures
            self@.len() < n ==> r@.len() == 0,
            self@.len() >= n ==> r@.len() == self@.len() - n + 1,
            forall|j: int|
                0 <= j < r@.len() ==> #[trigger] r@[j] == lower_median(self@.subrange(j, j + n)),
    {
        broadcast use vstd::seq_lib::group_to_multiset_ensures, vstd::multiset::group_multiset_axioms;

        let len = self.len();
        if len < n {
            return VecIndexFromOne::new();
        }
        let ghost s = self@;
        let k = (n - 1) / 2;
        let mut result: VecIndexFromOne<i64> = VecIndexFromOne::with_capacity(len - n + 1);
        let mut win: Vec<i64> = Vec::with_capacity(n);
        let mut i: usize = 0;
        proof {
            assert(s.subrange(0, 0) =~= Seq::<i64>::empty());
        }
        while i < len
            invariant
                s == self@,
                len == s.len(),
                0 < n <= len,
                k == (n - 1) / 2,
                i <= len,
                sorted_asc(win@),
                win@.to_multiset() == s.subrange(window_start(i as int, n as int), i as int).to_multiset(),
                result@.len() == if i >= n { i - n + 1 } else { 0 },
                forall|j: int|
                    0 <= j < result@.len() ==> #[trigger] result@[j] == lower_median(s.subrange(j, j + n)),
            decreases len - i,
        {
            let lo = if i >= n { i - n } else { 0 };
            let ghost before = s.subrange(lo as int, i as int);
            if i >= n {
                let old_val = self[i - n + 1];
                proof {
                    assert(before[0] == old_val);
                    assert(before.contains(old_val));
                    assert(before.remove(0) =~= s.subrange(lo + 1, i as int));
                    to_multiset_contains(before, old_val);
                    to_multiset_remove(before, 0);
                    assert(before.remove(0).to_multiset() == before.to_multiset().remove(old_val));
                }
                remove_sorted(&mut win, old_val);
            }
            let new_lo: usize = if i >= n { lo + 1 } else { 0 };
            let x = self[i + 1];
            let ghost mid = win@;
            proof {
                assert(mid.to_multiset() == s.subrange(new_lo as int, i as int).to_multiset());
            }
            insert_sorted(&mut win, x);
            proof {
                let pre = s.subrange(new_lo as int, i as int);
                assert(pre.push(x) =~= s.subrange(new_lo as int, i + 1));
                to_multiset_build(pre, x);
                assert(pre.push(x).to_multiset() == pre.to_multiset().insert(x));
            }
            i += 1;
            if i >= n {
                proof {
                    let w = s.subrange(i - n, i as int);
                    assert(w.len() == n);
                    to_multiset_len(win@);
                    to_multiset_len(w);
                    assert(win@.len() == n);
                    lemma_sorted_is_sort(win@, w);
                }
                let m = win[k];
                result.push(m);
            }
        }
        result
    }
}

} // verus!
