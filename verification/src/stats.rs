//! Order statistics over scaled amounts.
//!
//! The spread estimator needs a median, a mean, and an integer square root;
//! this module provides them over `i64` samples, together with the sorting
//! they rest on.

use vstd::prelude::*;
use vstd::arithmetic::div_mod::{lemma_div_is_ordered, lemma_div_multiples_vanish, lemma_div_pos_is_pos};
use vstd::relations::sorted_by;
use vstd::seq_lib::lemma_sorted_unique;
use crate::fixed::tdiv;

verus! {

/// The ascending order on `i64`, the order every sort here uses.
pub open spec fn ascending() -> spec_fn(i64, i64) -> bool {
    |a: i64, b: i64| a <= b
}

/// Inserting anywhere into a sequence adds the element to its multiset.
proof fn lemma_insert_multiset(s: Seq<i64>, j: int, x: i64)
    requires
        0 <= j <= s.len(),
    ensures
        s.insert(j, x).to_multiset() =~= s.to_multiset().insert(x),
    decreases s.len(),
{
    broadcast use vstd::seq_lib::group_to_multiset_ensures;

    if j == s.len() {
        assert(s.insert(j, x) =~= s.push(x));
    } else {
        assert(s.insert(j, x) =~= s.drop_last().insert(j, x).push(s.last()));
        lemma_insert_multiset(s.drop_last(), j, x);
        assert(s =~= s.drop_last().push(s.last()));
    }
}

/// Sorts the samples ascending. The result is exactly the canonical sorted
/// permutation of the input.
pub fn sort_i64(v: &Vec<i64>) -> (r: Vec<i64>)
    ensures
        r@ == v@.sort_by(ascending()),
{
    let mut out: Vec<i64> = Vec::new();
    proof {
        broadcast use vstd::seq_lib::group_to_multiset_ensures;

        assert(v@.take(0) =~= out@);
    }
    let mut i: usize = 0;
    while i < v.len()
        invariant
            0 <= i <= v.len(),
            sorted_by(out@, ascending()),
            out@.to_multiset() == v@.take(i as int).to_multiset(),
            out@.len() == i,
        decreases v.len() - i,
    {
        let x = v[i];
        let mut j: usize = 0;
        while j < out.len() && out[j] <= x
            invariant
                0 <= j <= out.len(),
                forall|k: int| 0 <= k < j ==> #[trigger] out@[k] <= x,
            decreases out.len() - j,
        {
            j = j + 1;
        }
        let ghost pre = out@;
        let ghost jj = j as int;
        proof {
            assert(jj < pre.len() ==> !ascending()(pre[jj], x));
        }
        out.insert(j, x);
        proof {
            broadcast use vstd::seq_lib::group_to_multiset_ensures;

            pre.insert_ensures(jj, x);
            assert(out@ == pre.insert(jj, x));
            assert forall|p: int, q: int| 0 <= p < q < out@.len() implies ascending()(out@[p], out@[q]) by {
                if q < jj {
                    assert(ascending()(pre[p], pre[q]));
                } else if q == jj {
                    assert(out@[q] == x);
                    if p < jj {
                        assert(out@[p] == pre[p]);
                    }
                } else {
                    assert(out@[q] == pre[q - 1]);
                    if p < jj {
                        if p < q - 1 {
                            assert(ascending()(pre[p], pre[q - 1]));
                        }
                    } else if p == jj {
                        assert(out@[p] == x);
                        if jj < q - 1 {
                            assert(ascending()(pre[jj], pre[q - 1]));
                        }
                    } else {
                        assert(out@[p] == pre[p - 1]);
                        assert(ascending()(pre[p - 1], pre[q - 1]));
                    }
                }
            }
            lemma_insert_multiset(pre, jj, x);
            assert(v@.take(i + 1).drop_last() =~= v@.take(i as int));
            assert(v@.take(i + 1) =~= v@.take(i as int).push(v@[i as int]));
            assert(v@.take(i as int).push(v@[i as int]).to_multiset()
                =~= v@.take(i as int).to_multiset().insert(v@[i as int]));
            assert(out@.to_multiset() =~= v@.take(i + 1).to_multiset());
        }
        i = i + 1;
    }
    proof {
        assert(v@.take(v@.len() as int) =~= v@);
        v@.lemma_sort_by_ensures(ascending());
        lemma_sorted_unique(out@, v@.sort_by(ascending()), ascending());
        assert(out@ =~= v@.sort_by(ascending()));
    }
    out
}

/// Sum of a sample sequence.
pub open spec fn spec_sum(s: Seq<i64>) -> int
    decreases s.len(),
{
    if s.len() == 0 {
        0
    } else {
        spec_sum(s.drop_last()) + s.last()
    }
}

/// The truncated mean of a non-empty sample sequence.
pub open spec fn spec_mean(s: Seq<i64>) -> int
    recommends s.len() > 0,
{
    tdiv(spec_sum(s), s.len() as int)
}

/// The truncated mean of the samples.
pub fn mean_i64(v: &Vec<i64>) -> (m: i64)
    requires
        v.len() > 0,
    ensures
        m as int == spec_mean(v@),
{
    let mut acc: i128 = 0;
    let mut i: usize = 0;
    while i < v.len()
        invariant
            0 <= i <= v.len(),
            acc == spec_sum(v@.take(i as int)),
            -(i as int * 0x8000000000000000int) <= acc <= i as int * 0x7fffffffffffffffint,
        decreases v.len() - i,
    {
        proof {
            assert(v@.take(i + 1).drop_last() =~= v@.take(i as int));
            assert(v@.take(i + 1).last() == v@[i as int]);
        }
        acc = acc + v[i] as i128;
        i = i + 1;
    }
    let n: i128 = v.len() as i128;
    let m = crate::fixed::tdiv_i128(acc, n);
    proof {
        assert(v@.take(v@.len() as int) =~= v@);
        let ni = v@.len() as int;
        let big = 0x8000000000000000int;
        if acc >= 0 {
            lemma_div_is_ordered(acc as int, ni * (big - 1), ni);
            lemma_div_multiples_vanish(big - 1, ni);
            lemma_div_pos_is_pos(acc as int, ni);
        } else {
            lemma_div_is_ordered(-(acc as int), ni * big, ni);
            lemma_div_multiples_vanish(big, ni);
            lemma_div_pos_is_pos(-(acc as int), ni);
        }
    }
    m as i64
}

/// Sum of the squared deviations of the samples from `m`.
pub open spec fn spec_sq_dev_sum(s: Seq<i64>, m: int) -> int
    decreases s.len(),
{
    if s.len() == 0 {
        0
    } else {
        spec_sq_dev_sum(s.drop_last(), m) + (s.last() - m) * (s.last() - m)
    }
}

/// A square is never negative.
pub proof fn lemma_square_nonneg(a: int)
    ensures
        a * a >= 0,
{
    assert(a * a >= 0) by (nonlinear_arith);
}

/// Dropping samples from the end never increases the squared-deviation sum.
pub proof fn lemma_sq_dev_sum_prefix(s: Seq<i64>, m: int, i: int)
    requires
        0 <= i <= s.len(),
    ensures
        spec_sq_dev_sum(s, m) >= spec_sq_dev_sum(s.take(i), m),
    decreases s.len(),
{
    if i == s.len() {
        assert(s.take(i) =~= s);
    } else {
        assert(s.drop_last().take(i) =~= s.take(i));
        lemma_sq_dev_sum_prefix(s.drop_last(), m, i);
        lemma_square_nonneg(s.last() - m);
    }
}

/// The median a relational store computes over a sample column: the middle
/// element of the sorted samples, or the truncated mean of the two middle
/// elements when the count is even.
pub open spec fn spec_median(s: Seq<i64>) -> int
    recommends s.len() > 0,
{
    let t = s.sort_by(ascending());
    let n = s.len() as int;
    if n % 2 == 1 {
        t[(n - 1) / 2] as int
    } else {
        tdiv(t[n / 2 - 1] + t[n / 2], 2)
    }
}

/// The truncated half-sum of two ordered values lies between them.
pub proof fn lemma_avg2_bounds(a: int, b: int)
    requires
        a <= b,
    ensures
        a <= tdiv(a + b, 2) <= b,
{
    let s = a + b;
    if s >= 0 {
        lemma_div_is_ordered(2 * a, s, 2);
        lemma_div_is_ordered(s, 2 * b, 2);
        lemma_div_multiples_vanish(a, 2);
        lemma_div_multiples_vanish(b, 2);
        if s > 0 {
            lemma_div_pos_is_pos(s, 2);
        }
    } else {
        lemma_div_is_ordered(-s, 2 * -a, 2);
        lemma_div_is_ordered(2 * -b, -s, 2);
        lemma_div_multiples_vanish(-a, 2);
        lemma_div_multiples_vanish(-b, 2);
        lemma_div_pos_is_pos(-s, 2);
    }
}

/// The median of a non-empty sample sequence fits in an `i64`.
pub proof fn lemma_median_fits(s: Seq<i64>)
    requires
        s.len() > 0,
    ensures
        i64::MIN <= spec_median(s) <= i64::MAX,
{
    broadcast use vstd::seq_lib::group_to_multiset_ensures;

    let t = s.sort_by(ascending());
    s.lemma_sort_by_ensures(ascending());
    assert(t.to_multiset().len() == t.len());
    assert(s.to_multiset().len() == s.len());
    let n = s.len() as int;
    if n % 2 == 0 {
        assert(ascending()(t[n / 2 - 1], t[n / 2]));
        lemma_avg2_bounds(t[n / 2 - 1] as int, t[n / 2] as int);
    }
}

/// The median of non-empty sorted samples, assuming the input is already the
/// canonical sorted permutation of the underlying samples.
pub fn median_of_sorted(sorted: &Vec<i64>, Ghost(samples): Ghost<Seq<i64>>) -> (m: i64)
    requires
        sorted@ == samples.sort_by(ascending()),
        samples.len() > 0,
    ensures
        m as int == spec_median(samples),
{
    proof {
        broadcast use vstd::seq_lib::group_to_multiset_ensures;

        samples.lemma_sort_by_ensures(ascending());
        assert(sorted@.to_multiset().len() == sorted@.len());
        assert(samples.to_multiset().len() == samples.len());
    }
    let n = sorted.len();
    if n % 2 == 1 {
        sorted[(n - 1) / 2]
    } else {
        let a = sorted[n / 2 - 1];
        let b = sorted[n / 2];
        proof {
            assert(sorted_by(sorted@, ascending()));
            assert(ascending()(sorted@[n as int / 2 - 1], sorted@[n as int / 2]));
            assert(a <= b);
            lemma_avg2_bounds(a as int, b as int);
        }
        crate::fixed::tdiv_i128(a as i128 + b as i128, 2) as i64
    }
}

/// The non-negative integer square root: the greatest `r` with `r * r <= x`.
pub open spec fn spec_isqrt(x: int) -> int
    recommends x >= 0,
{
    choose|r: int| r >= 0 && #[trigger] (r * r) <= x && (r + 1) * (r + 1) > x
}

/// The integer square root is unique, so any witness equals `spec_isqrt`.
pub proof fn lemma_isqrt_witness(x: int, r: int)
    requires
        r >= 0,
        r * r <= x,
        (r + 1) * (r + 1) > x,
    ensures
        spec_isqrt(x) == r,
{
    assert(r >= 0 && #[trigger] (r * r) <= x && (r + 1) * (r + 1) > x);
    let c = spec_isqrt(x);
    assert(c >= 0 && c * c <= x && (c + 1) * (c + 1) > x);
    assert(c == r) by (nonlinear_arith)
        requires
            c >= 0,
            c * c <= x,
            (c + 1) * (c + 1) > x,
            r >= 0,
            r * r <= x,
            (r + 1) * (r + 1) > x,
    ;
}

/// Integer square root of a 128-bit value, by bisection.
pub fn isqrt_u128(x: u128) -> (r: u128)
    ensures
        r as int * r as int <= x as int,
        (r as int + 1) * (r as int + 1) > x as int,
        r as int == spec_isqrt(x as int),
{
    let mut lo: u128 = 0;
    let mut hi: u128 = 0x10000000000000000;
    proof {
        assert((0x10000000000000000int) * (0x10000000000000000int) > u128::MAX as int);
    }
    while lo + 1 < hi
        invariant
            0 <= lo < hi <= 0x10000000000000000,
            lo as int * lo as int <= x as int,
            hi as int * hi as int > x as int,
        decreases hi - lo,
    {
        let mid: u128 = lo + (hi - lo) / 2;
        proof {
            assert(mid as int * mid as int <= 0xffffffffffffffffint * 0xffffffffffffffffint)
                by (nonlinear_arith)
                requires 0 <= mid as int <= 0xffffffffffffffffint,
            ;
        }
        let sq: u128 = mid * mid;
        if sq <= x {
            lo = mid;
        } else {
            hi = mid;
        }
    }
    proof {
        lemma_isqrt_witness(x as int, lo as int);
    }
    lo
}

} // verus!
