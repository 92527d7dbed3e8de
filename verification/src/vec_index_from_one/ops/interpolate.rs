//! The bookkeeping of linear interpolation: for each position, the two known
//! positions whose values are interpolated (or extrapolated) there.
use vstd::prelude::*;

verus! {

/// The 0-based indices of the `true` entries of `known`, in increasing order.
pub open spec fn known_positions(known: Seq<bool>) -> Seq<int>
    decreases known.len(),
{
    if known.len() == 0 {
        Seq::empty()
    } else {
        let prev = known_positions(known.drop_last());
        if known.last() {
            prev.push(known.len() - 1)
        } else {
            prev
        }
    }
}

/// The segment used at 0-based index `i`: with `c` known positions before
/// `i` and `m` in all, the pair of consecutive known positions numbered
/// `c - 1` and `c`, clamped to the first pair before the first known
/// position and to the last pair after the last one.
pub open spec fn segment_of(known: Seq<bool>, i: int) -> int {
    let c = known_positions(known.take(i)).len() as int;
    let m = known_positions(known).len() as int;
    if c == 0 {
        0
    } else if c - 1 > m - 2 {
        m - 2
    } else {
        c - 1
    }
}

proof fn lemma_known_positions_bounds(known: Seq<bool>)
    ensures
        known_positions(known).len() <= known.len(),
        forall|j: int|
            0 <= j < known_positions(known).len() ==> 0 <= #[trigger] known_positions(known)[j]
                < known.len(),
        forall|j: int, k: int|
            0 <= j < k < known_positions(known).len() ==> #[trigger] known_positions(known)[j]
                < #[trigger] known_positions(known)[k],
    decreases known.len(),
{
    if known.len() > 0 {
        lemma_known_positions_bounds(known.drop_last());
    }
}

proof fn lemma_known_positions_step(known: Seq<bool>, i: int)
    requires
        0 <= i < known.len(),
    ensures
        known_positions(known.take(i + 1)) == if known[i] {
            known_positions(known.take(i)).push(i)
        } else {
            known_positions(known.take(i))
        },
{
    assert(known.take(i + 1).drop_last() =~= known.take(i));
}

/// For every position (1-based `i + 1` at entry `i`), the 1-based pair of
/// known positions `(p, q)`, `p < q`, between which a missing value there is
/// interpolated: the known positions numbered `segment_of(known, i)` and the
/// one after it, so `p < q`. Needs at least two known positions.
pub fn interpolation_segments(known: &Vec<bool>) -> (r: Vec<(usize, usize)>)
    requires
        known_positions(known@).len() >= 2,
    ensures
        r@.len() == known@.len(),
        forall|i: int|
            0 <= i < known@.len() ==> (#[trigger] r@[i]).0 == known_positions(known@)[segment_of(
                known@,
                i,
            )] + 1 && r@[i].1 == known_positions(known@)[segment_of(known@, i) + 1] + 1,
        forall|i: int| 0 <= i < known@.len() ==> (#[trigger] r@[i]).0 < r@[i].1,
{
    let n = known.len();
    let ghost ks = known_positions(known@);
    let mut pos: Vec<usize> = Vec::new();
    let mut i: usize = 0;
    proof {
        assert(known@.take(0) =~= Seq::<bool>::empty());
    }
    while i < n
        invariant
            n == known@.len(),
            i <= n,
            pos@.len() == known_positions(known@.take(i as int)).len(),
            forall|j: int|
                0 <= j < pos@.len() ==> #[trigger] pos@[j] == known_positions(known@.take(i as int))[j],
        decreases n - i,
    {
        proof {
            lemma_known_positions_step(known@, i as int);
        }
        if known[i] {
            pos.push(i);
        }
        i += 1;
    }
    proof {
        assert(known@.take(n as int) =~= known@);
        lemma_known_positions_bounds(known@);
    }
    let m = pos.len();
    let mut r: Vec<(usize, usize)> = Vec::new();
    let mut c: usize = 0;
    i = 0;
    while i < n
        invariant
            n == known@.len(),
            i <= n,
            ks == known_positions(known@),
            m == ks.len(),
            2 <= m <= n,
            pos@.len() == m,
            forall|j: int| 0 <= j < m ==> #[trigger] pos@[j] == ks[j],
            forall|j: int| 0 <= j < m ==> 0 <= #[trigger] ks[j] < n,
            forall|j: int, k: int| 0 <= j < k < m ==> #[trigger] ks[j] < #[trigger] ks[k],
            c == known_positions(known@.take(i as int)).len(),
            r@.len() == i,
            forall|t: int|
                0 <= t < i ==> (#[trigger] r@[t]).0 == ks[segment_of(known@, t)] + 1 && r@[t].1
                    == ks[segment_of(known@, t) + 1] + 1 && r@[t].0 < r@[t].1,
        decreases n - i,
    {
        proof {
            lemma_known_positions_bounds(known@.take(i as int));
        }
        let seg = if c == 0 {
            0
        } else if c - 1 > m - 2 {
            m - 2
        } else {
            c - 1
        };
        assert(seg == segment_of(known@, i as int));
        assert(ks[seg as int] < ks[seg + 1]);
        r.push((pos[seg] + 1, pos[seg + 1] + 1));
        proof {
            lemma_known_positions_step(known@, i as int);
        }
        if known[i] {
            c += 1;
        }
        i += 1;
    }
    r
}

} // verus!
