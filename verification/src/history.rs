//! Price history accessor.
//!
//! Computes simple moving averages over the most recent stored ticks of a
//! pair. The input slice is the pair's history as the tick store returns
//! it, newest first; with fewer stored rows than the requested window the
//! average simply covers what is there.

use vstd::prelude::*;
use vstd::arithmetic::div_mod::{lemma_div_is_ordered, lemma_div_multiples_vanish, lemma_div_pos_is_pos};
use crate::fixed::tdiv;
use crate::ticker::Ticker;

verus! {

/// Sum of the `last` prices of a history slice.
pub open spec fn sum_lasts(ticks: Seq<Ticker>) -> int
    decreases ticks.len(),
{
    if ticks.len() == 0 {
        0
    } else {
        sum_lasts(ticks.drop_last()) + ticks.last().last
    }
}

/// The simple moving average over the `window` most recent ticks: the
/// truncated mean of the first `min(window, len)` `last` prices of the
/// newest-first history, or `None` where no rows exist (or no rows are
/// requested).
pub open spec fn spec_moving_average(ticks: Seq<Ticker>, window: int) -> Option<int> {
    if ticks.len() == 0 || window <= 0 {
        None
    } else {
        let k = if window <= ticks.len() { window } else { ticks.len() as int };
        Some(tdiv(sum_lasts(ticks.take(k)), k))
    }
}

/// Average of the `window` most recent `last` prices for the pair whose
/// newest-first history is `ticks`; `None` exactly where the history or the
/// window is empty.
pub fn moving_average(ticks: &Vec<Ticker>, window: usize) -> (r: Option<i64>)
    ensures
        ({
            let s = spec_moving_average(ticks@, window as int);
            match r {
                Some(v) => s == Some(v as int),
                None => s is None,
            }
        }),
{
    if ticks.len() == 0 || window == 0 {
        return None;
    }
    let k: usize = if window <= ticks.len() { window } else { ticks.len() };
    let mut acc: i128 = 0;
    let mut i: usize = 0;
    while i < k
        invariant
            0 < k <= ticks.len(),
            0 <= i <= k,
            acc == sum_lasts(ticks@.take(i as int)),
            -(i as int * 0x8000000000000000int) <= acc <= i as int * 0x8000000000000000int,
        decreases k - i,
    {
        proof {
            assert(ticks@.take(i + 1).drop_last() =~= ticks@.take(i as int));
            assert(ticks@.take(i + 1).last() == ticks@[i as int]);
        }
        acc = acc + ticks[i].last as i128;
        i = i + 1;
    }
    let avg: i128 = crate::fixed::tdiv_i128(acc, k as i128);
    proof {
        let ki = k as int;
        let big = 0x8000000000000000int;
        if acc >= 0 {
            assert(sum_lasts(ticks@.take(ki)) <= ki * (big - 1)) by {
                lemma_sum_lasts_upper(ticks@.take(ki));
            }
            lemma_div_is_ordered(acc as int, ki * (big - 1), ki);
            lemma_div_multiples_vanish(big - 1, ki);
            lemma_div_pos_is_pos(acc as int, ki);
        } else {
            lemma_div_is_ordered(-(acc as int), ki * big, ki);
            lemma_div_multiples_vanish(big, ki);
            lemma_div_pos_is_pos(-(acc as int), ki);
        }
    }
    Some(avg as i64)
}

/// The read-path idempotence law: the moving average is a pure function
/// of the stored history and the window, so any two reads of the same
/// history with the same window return the same result.
pub proof fn lemma_moving_average_idempotent(
    ticks: Seq<Ticker>,
    window: int,
    r1: Option<int>,
    r2: Option<int>,
)
    requires
        r1 == spec_moving_average(ticks, window),
        r2 == spec_moving_average(ticks, window),
    ensures
        r1 == r2,
{
}

/// A sum of `last` prices is at most the slice length times `i64::MAX`.
proof fn lemma_sum_lasts_upper(ticks: Seq<Ticker>)
    ensures
        sum_lasts(ticks) <= ticks.len() as int * 0x7fffffffffffffffint,
    decreases ticks.len(),
{
    if ticks.len() > 0 {
        lemma_sum_lasts_upper(ticks.drop_last());
    }
}

} // verus!
