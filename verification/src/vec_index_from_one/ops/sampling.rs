//! Reservoir sampling of `k` elements.
use rand::Rng;
use vstd::prelude::*;

use crate::vec_index_from_one::VecIndexFromOne;

verus! {

#[verifier::external_type_specification]
#[verifier::external_body]
pub struct ExThreadRng(rand::rngs::ThreadRng);

/// `rand::thread_rng()`: a handle to the thread-local random generator.
///
/// Trusted: nothing is claimed of the generator's state.
#[verifier::external_body]
fn thread_rng() -> rand::rngs::ThreadRng {
    rand::thread_rng()
}

/// `Rng::gen_range(low..=high)` on the thread-local generator: a random
/// `usize` in the inclusive range.
///
/// Trusted: the crate documents that the sample lies in the given range
/// (and panics only on an empty range, which `requires` rules out); which
/// value comes back is left open.
#[verifier::external_body]
fn gen_index_inclusive(rng: &mut rand::rngs::ThreadRng, low: usize, high: usize) -> (r: usize)
    requires
        low <= high,
    ensures
        low <= r <= high,
{
    rng.gen_range(low..=high)
}

/// The reservoir after the first `t` replacement draws: it starts as the
/// first `k` elements, and draw `u` (for element index `k + u`) puts that
/// element into slot `picks[u]` (1-based) when `picks[u] <= k`.
pub open spec fn reservoir_after(s: Seq<i64>, k: int, picks: Seq<usize>, t: int) -> Seq<i64>
    decreases t,
{
    if t <= 0 {
        s.take(k)
    } else {
        let prev = reservoir_after(s, k, picks, t - 1);
        let j = picks[t - 1] as int;
        if j <= k {
            prev.update(j - 1, s[k + t - 1])
        } else {
            prev
        }
    }
}

/// Each draw in `picks` is a valid slot choice: draw `u` lies in
/// `1..=k + 1 + u`.
pub open spec fn picks_in_range(picks: Seq<usize>, k: int) -> bool {
    forall|u: int| 0 <= u < picks.len() ==> 1 <= #[trigger] picks[u] <= k + 1 + u
}

/// The reservoir size for a request of `k` elements from `n`: `min(k, n)`.
pub open spec fn reservoir_size(k: int, n: int) -> int {
    if k < n {
        k
    } else {
        n
    }
}

/// `r` consists of elements of `s` taken from pairwise distinct positions.
pub open spec fn is_sample_of(r: Seq<i64>, s: Seq<i64>) -> bool {
    exists|idx: Seq<int>|
        idx.len() == r.len() && (forall|a: int|
            0 <= a < r.len() ==> 0 <= #[trigger] idx[a] < s.len() && r[a] == s[idx[a]]) && (
        forall|a: int, b: int| 0 <= a < b < r.len() ==> #[trigger] idx[a] != #[trigger] idx[b])
}

/// The 0-based source position of each slot of `reservoir_after(s, k, picks, t)`.
spec fn reservoir_sources(k: int, picks: Seq<usize>, t: int) -> Seq<int>
    decreases t,
{
    if t <= 0 {
        Seq::new(k as nat, |a: int| a)
    } else {
        let prev = reservoir_sources(k, picks, t - 1);
        let j = picks[t - 1] as int;
        if j <= k {
            prev.update(j - 1, k + t - 1)
        } else {
            prev
        }
    }
}

proof fn lemma_reservoir_sources(s: Seq<i64>, k: int, picks: Seq<usize>, t: int)
    requires
        0 <= k,
        0 <= t <= picks.len(),
        k + t <= s.len(),
        picks_in_range(picks, k),
    ensures
        reservoir_after(s, k, picks, t).len() == k,
        reservoir_sources(k, picks, t).len() == k,
        forall|a: int|
            0 <= a < k ==> 0 <= #[trigger] reservoir_sources(k, picks, t)[a] < k + t
                && reservoir_after(s, k, picks, t)[a] == s[reservoir_sources(k, picks, t)[a]],
        forall|a: int, b: int|
            0 <= a < b < k ==> #[trigger] reservoir_sources(k, picks, t)[a]
                != #[trigger] reservoir_sources(k, picks, t)[b],
    decreases t,
{
    if t > 0 {
        lemma_reservoir_sources(s, k, picks, t - 1);
        assert(1 <= picks[t - 1]);
    }
}

proof fn lemma_reservoir_is_sample(s: Seq<i64>, k: int, picks: Seq<usize>)
    requires
        0 <= k,
        k + picks.len() <= s.len(),
        picks_in_range(picks, k),
    ensures
        is_sample_of(reservoir_after(s, k, picks, picks.len() as int), s),
{
    let t = picks.len() as int;
    lemma_reservoir_sources(s, k, picks, t);
    let idx = reservoir_sources(k, picks, t);
    let r = reservoir_after(s, k, picks, t);
    assert(forall|a: int| 0 <= a < r.len() ==> 0 <= #[trigger] idx[a] < s.len() && r[a] == s[idx[a]]);
}

/// Drawing one more value leaves the reservoir after the earlier draws as it was.
proof fn lemma_reservoir_after_push(s: Seq<i64>, k: int, picks: Seq<usize>, j: usize, t: int)
    requires
        0 <= t <= picks.len(),
    ensures
        reservoir_after(s, k, picks.push(j), t) == reservoir_after(s, k, picks, t),
    decreases t,
{
    if t > 0 {
        lemma_reservoir_after_push(s, k, picks, j, t - 1);
        assert(picks.push(j)[t - 1] == picks[t - 1]);
    }
}

impl VecIndexFromOne<i64> {
    /// Reservoir sampling driven by given draws: the reservoir holds the
    /// first `k` elements, then for each later position `k + 1 + u`
    /// (`u = 0, 1, ...`) the draw `picks[u]`, in `1..=k + 1 + u`, chooses the
    /// slot it replaces (no replacement when `picks[u] > k`).
    pub fn reservoir_sample_with_picks(&self, k: usize, picks: &Vec<usize>) -> (r: VecIndexFromOne<
        i64,
    >)
        requires
            1 <= k <= self@.len(),
            picks@.len() == self@.len() - k,
            picks_in_range(picks@, k as int),
        ensures
            r@ == reservoir_after(self@, k as int, picks@, picks@.len() as int),
            r@.len() == k,
            is_sample_of(r@, self@),
    {
        let n = self.len();
        let ghost s = self@;
        let mut reservoir = self.first_k(k);
        let mut u: usize = 0;
        while u < n - k
            invariant
                s == self@,
                1 <= k <= n == s.len(),
                picks@.len() == n - k,
                picks_in_range(picks@, k as int),
                u <= n - k,
                reservoir@ == reservoir_after(s, k as int, picks@, u as int),
                reservoir@.len() == k,
            decreases n - k - u,
        {
            let j = picks[u];
            if j <= k {
                reservoir.replace(j, self[k + u + 1]);
            }
            u += 1;
        }
        proof {
            lemma_reservoir_is_sample(s, k as int, picks@);
        }
        reservoir
    }

    /// The first `k` elements, in order.
    fn first_k(&self, k: usize) -> (r: VecIndexFromOne<i64>)
        requires
            k <= self@.len(),
        ensures
            r@ == self@.take(k as int),
    {
        let mut reservoir: VecIndexFromOne<i64> = VecIndexFromOne::with_capacity(k);
        let mut i: usize = 0;
        while i < k
            invariant
                k <= self@.len(),
                i <= k,
                reservoir@ == self@.take(i as int),
            decreases k - i,
        {
            reservoir.push(self[i + 1]);
            i += 1;
            proof {
                assert(reservoir@ =~= self@.take(i as int));
            }
        }
        reservoir
    }

    /// Reservoir sampling: `min(k, len)` elements taken from distinct
    /// positions, chosen at random (empty when `k == 0` or the container is
    /// empty). The result is what `reservoir_sample_with_picks` gives for
    /// some sequence of draws in range; when `k >= len` it is the whole
    /// container, in order.
    pub fn reservoir_sample(&self, k: usize) -> (r: VecIndexFromOne<i64>)
        ensures
            k == 0 || self@.len() == 0 ==> r@.len() == 0,
            k > 0 && self@.len() > 0 ==> r@.len() == reservoir_size(k as int, self@.len() as int),
            k > 0 && self@.len() > 0 ==> exists|p: Seq<usize>|
                p.len() == self@.len() - reservoir_size(k as int, self@.len() as int)
                    && picks_in_range(p, reservoir_size(k as int, self@.len() as int))
                    && r@ == #[trigger] reservoir_after(
                    self@,
                    reservoir_size(k as int, self@.len() as int),
                    p,
                    p.len() as int,
                ),
            k >= self@.len() ==> r@ == self@,
            is_sample_of(r@, self@),
    {
        let n = self.len();
        let ghost s = self@;
        if k == 0 || n == 0 {
            let r: VecIndexFromOne<i64> = VecIndexFromOne::new();
            proof {
                assert(is_sample_of(r@, self@)) by {
                    let idx = Seq::<int>::empty();
                    assert(idx.len() == r@.len());
                }
            }
            return r;
        }
        let kk = if k < n {
            k
        } else {
            n
        };
        let mut rng = thread_rng();
        let mut reservoir = self.first_k(kk);
        let ghost mut picks: Seq<usize> = Seq::empty();
        let mut i: usize = kk;
        while i < n
            invariant
                s == self@,
                1 <= kk <= n == s.len(),
                kk == reservoir_size(k as int, n as int),
                kk <= i <= n,
                picks.len() == i - kk,
                picks_in_range(picks, kk as int),
                reservoir@ == reservoir_after(s, kk as int, picks, picks.len() as int),
                reservoir@.len() == kk,
            decreases n - i,
        {
            let j = gen_index_inclusive(&mut rng, 1, i + 1);
            proof {
                lemma_reservoir_after_push(s, kk as int, picks, j, picks.len() as int);
                picks = picks.push(j);
                assert(picks[picks.len() - 1] == j);
            }
            if j <= kk {
                reservoir.replace(j, self[i + 1]);
            }
            i += 1;
        }
        proof {
            lemma_reservoir_is_sample(s, kk as int, picks);
            if k >= n {
                assert(s.take(n as int) =~= s);
            }
        }
        reservoir
    }
}

} // verus!
