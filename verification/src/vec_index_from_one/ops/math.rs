//! Mathematical definitions that the contracts of the numeric algorithms are
//! stated in, and the lemmas that relate them.
use vstd::prelude::*;

verus! {

/// Whether the integer `x` is representable as an `i64`.
pub open spec fn fits_i64(x: int) -> bool {
    i64::MIN <= x <= i64::MAX
}

/// `s[0] + s[1] + ... + s[len - 1]` (0 for the empty sequence).
pub open spec fn sum_of(s: Seq<i64>) -> int
    decreases s.len(),
{
    if s.len() == 0 {
        0
    } else {
        sum_of(s.drop_last()) + s.last()
    }
}

/// `s[0] * s[1] * ... * s[len - 1]` (1 for the empty sequence).
pub open spec fn product_of(s: Seq<i64>) -> int
    decreases s.len(),
{
    if s.len() == 0 {
        1
    } else {
        product_of(s.drop_last()) * s.last()
    }
}

/// `a[lo] * b[lo] + ... + a[hi - 1] * b[hi - 1]` (0 when `hi <= lo`).
pub open spec fn dot_of(a: Seq<i64>, b: Seq<i64>, lo: int, hi: int) -> int
    decreases hi - lo,
{
    if hi <= lo {
        0
    } else {
        dot_of(a, b, lo, hi - 1) + a[hi - 1] * b[hi - 1]
    }
}

/// The number of occurrences of `x` in `s`.
pub open spec fn count_of(s: Seq<i64>, x: i64) -> nat
    decreases s.len(),
{
    if s.len() == 0 {
        0
    } else {
        count_of(s.drop_last(), x) + if s.last() == x {
            1nat
        } else {
            0nat
        }
    }
}

/// Integer division rounding toward zero, as Rust's `/` on signed integers.
pub open spec fn trunc_div(a: int, b: int) -> int {
    if a >= 0 {
        a / b
    } else {
        -((-a) / b)
    }
}

/// `a / n` rounded toward zero, for any positive count `n`; the quotient
/// never exceeds `a` in size, so it fits in an `i64`.
pub(crate) fn div_by_count(a: i64, n: usize) -> (q: i64)
    requires
        n >= 1,
    ensures
        q == trunc_div(a as int, n as int),
{
    let q = (a as i128) / (n as i128);
    proof {
        let x = a as int;
        let b = n as int;
        if x >= 0 {
            assert(0 <= x / b <= x) by (nonlinear_arith)
                requires
                    x >= 0,
                    b >= 1,
            ;
        } else {
            assert(0 <= (-x) / b <= -x) by (nonlinear_arith)
                requires
                    -x >= 0,
                    b >= 1,
            ;
        }
    }
    q as i64
}

/// Every running total `init + s[0] + ... + s[k - 1]`, `1 <= k <= len`, fits
/// in an `i64`.
pub open spec fn prefix_sums_fit(s: Seq<i64>, init: int) -> bool {
    forall|k: int| 1 <= k <= s.len() ==> fits_i64(init + #[trigger] sum_of(s.take(k)))
}

/// Every running product `init * s[0] * ... * s[k - 1]`, `1 <= k <= len`,
/// fits in an `i64`.
pub open spec fn prefix_products_fit(s: Seq<i64>, init: int) -> bool {
    forall|k: int| 1 <= k <= s.len() ==> fits_i64(init * #[trigger] product_of(s.take(k)))
}

/// Each term `a[k] * b[k]` and each running total of the dot product over
/// `lo..hi` fits in an `i64`.
pub open spec fn dot_terms_fit(a: Seq<i64>, b: Seq<i64>, lo: int, hi: int) -> bool {
    forall|k: int|
        lo < k <= hi ==> fits_i64(a[k - 1] * b[k - 1]) && fits_i64(#[trigger] dot_of(a, b, lo, k))
}

/// Taking one more element adds it to the sum.
pub proof fn lemma_sum_take_step(s: Seq<i64>, k: int)
    requires
        0 <= k < s.len(),
    ensures
        sum_of(s.take(k + 1)) == sum_of(s.take(k)) + s[k],
{
    assert(s.take(k + 1).drop_last() =~= s.take(k));
}

/// Taking one more element multiplies it into the product.
pub proof fn lemma_product_take_step(s: Seq<i64>, k: int)
    requires
        0 <= k < s.len(),
    ensures
        product_of(s.take(k + 1)) == product_of(s.take(k)) * s[k],
{
    assert(s.take(k + 1).drop_last() =~= s.take(k));
}

/// Taking one more element counts it.
pub proof fn lemma_count_take_step(s: Seq<i64>, k: int, x: i64)
    requires
        0 <= k < s.len(),
    ensures
        count_of(s.take(k + 1), x) == count_of(s.take(k), x) + if s[k] == x {
            1int
        } else {
            0int
        },
{
    assert(s.take(k + 1).drop_last() =~= s.take(k));
}

/// The whole sequence is its longest prefix.
pub proof fn lemma_take_all(s: Seq<i64>)
    ensures
        s.take(s.len() as int) == s,
{
    assert(s.take(s.len() as int) =~= s);
}

/// The sum of a slice `s[b..e]` is the difference of two prefix sums.
pub proof fn lemma_sum_subrange(s: Seq<i64>, b: int, e: int)
    requires
        0 <= b <= e <= s.len(),
    ensures
        sum_of(s.subrange(b, e)) == sum_of(s.take(e)) - sum_of(s.take(b)),
    decreases e - b,
{
    if e == b {
        assert(s.subrange(b, e) =~= Seq::<i64>::empty());
        assert(s.take(e) =~= s.take(b));
    } else {
        lemma_sum_subrange(s, b, e - 1);
        assert(s.subrange(b, e).drop_last() =~= s.subrange(b, e - 1));
        lemma_sum_take_step(s, e - 1);
    }
}

} // verus!
