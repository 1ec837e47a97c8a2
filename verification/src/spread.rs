//! Dynamic spread estimator.
//!
//! Computes, over all stored ticks of a pair, the relative bid/ask spread
//! per row as a scaled percentage, and suggests `median + standard
//! deviation` as the pair's acceptable spread. Currencies with naturally
//! wide spreads thereby get a threshold of their own instead of a single
//! global constant. With fewer than two samples the standard deviation is
//! undefined and is treated as zero rather than failing the pair.

use vstd::prelude::*;
use crate::error::AppError;
use crate::fixed::{fits_i64, lemma_tdiv_abs, tdiv, SCALE};
use crate::stats::{
    ascending, lemma_median_fits, lemma_sq_dev_sum_prefix, lemma_square_nonneg, isqrt_u128,
    mean_i64, median_of_sorted, sort_i64, spec_isqrt, spec_mean, spec_median, spec_sq_dev_sum,
};
use crate::ticker::Ticker;

verus! {

/// The relative spread of a quote as a scaled percentage: the exact value
/// of `((ask - bid) / bid) * 100`, truncated toward zero at the scale.
pub open spec fn spec_spread(bid: int, ask: int) -> int
    recommends bid != 0,
{
    tdiv((ask - bid) * (100 * SCALE as int), bid)
}

/// The spread of one quote as the engine reports it: a zero bid or a value
/// outside the scaled `i64` range is an error.
pub open spec fn spec_spread_checked(bid: int, ask: int) -> Result<i64, AppError> {
    if bid == 0 {
        Err(AppError::ZeroBid)
    } else if fits_i64(spec_spread(bid, ask)) {
        Ok(spec_spread(bid, ask) as i64)
    } else {
        Err(AppError::Overflow)
    }
}

/// The relative spread of a live quote, as a scaled percentage of the bid.
pub fn relative_spread(bid: i64, ask: i64) -> (r: Result<i64, AppError>)
    ensures
        r == spec_spread_checked(bid as int, ask as int),
{
    if bid == 0 {
        return Err(AppError::ZeroBid);
    }
    proof {
        let d: int = ask as int - bid as int;
        assert((-0x2000000000000000000000000000int) <= d * 100000000
            <= 0x2000000000000000000000000000int) by (nonlinear_arith)
            requires
                (-0x10000000000000000int) <= d <= 0x10000000000000000int,
        ;
    }
    let num: i128 = (ask as i128 - bid as i128) * ((100 * SCALE) as i128);
    proof {
        lemma_tdiv_abs(num as int, bid as int);
    }
    match num.checked_div(bid as i128) {
        Some(q) => {
            if q >= i64::MIN as i128 && q <= i64::MAX as i128 {
                Ok(q as i64)
            } else {
                Err(AppError::Overflow)
            }
        },
        None => {
            proof {
                assert(false);
            }
            Err(AppError::Overflow)
        },
    }
}

/// The per-row spreads of a history slice, walked front to back: the first
/// row that cannot yield a spread decides the error.
pub open spec fn spec_spreads(ticks: Seq<Ticker>) -> Result<Seq<i64>, AppError>
    decreases ticks.len(),
{
    if ticks.len() == 0 {
        Ok(Seq::empty())
    } else {
        match spec_spreads(ticks.drop_last()) {
            Ok(s) => match spec_spread_checked(ticks.last().bid as int, ticks.last().ask as int) {
                Ok(v) => Ok(s.push(v)),
                Err(e) => Err(e),
            },
            Err(e) => Err(e),
        }
    }
}

/// If every row before `i` yields a spread and row `i` does not, the whole
/// slice yields row `i`'s error.
proof fn lemma_spreads_first_error(ticks: Seq<Ticker>, i: int)
    requires
        0 <= i < ticks.len(),
        spec_spreads(ticks.take(i)) is Ok,
        spec_spread_checked(ticks[i].bid as int, ticks[i].ask as int) is Err,
    ensures
        spec_spreads(ticks) == Err::<Seq<i64>, AppError>(
            spec_spread_checked(ticks[i].bid as int, ticks[i].ask as int)->Err_0,
        ),
    decreases ticks.len(),
{
    if i == ticks.len() - 1 {
        assert(ticks.drop_last() =~= ticks.take(i));
    } else {
        assert(ticks.drop_last().take(i) =~= ticks.take(i));
        lemma_spreads_first_error(ticks.drop_last(), i);
    }
}

/// The suggested spread threshold over a pair's stored history: the median
/// of the per-row spreads plus their sample standard deviation (the integer
/// square root of the sample variance), both at the scale. `Err` on an
/// empty history, on a zero bid, or where an exact value leaves its range.
pub open spec fn spec_spread_threshold(ticks: Seq<Ticker>) -> Result<i64, AppError> {
    match spec_spreads(ticks) {
        Err(e) => Err(e),
        Ok(s) => {
            if s.len() == 0 {
                Err(AppError::EmptyHistory)
            } else {
                let med = spec_median(s);
                if s.len() < 2 {
                    Ok(med as i64)
                } else {
                    let m = spec_mean(s);
                    let ss = spec_sq_dev_sum(s, m);
                    if ss > u128::MAX as int {
                        Err(AppError::Overflow)
                    } else {
                        let sd = spec_isqrt(ss / (s.len() - 1) as int);
                        if fits_i64(med + sd) {
                            Ok((med + sd) as i64)
                        } else {
                            Err(AppError::Overflow)
                        }
                    }
                }
            }
        },
    }
}

/// Suggested acceptable spread for the pair whose stored history is
/// `ticks`: median plus standard deviation of the historical spreads.
pub fn get_dynamic_spread_threshold(ticks: &Vec<Ticker>) -> (r: Result<i64, AppError>)
    ensures
        r == spec_spread_threshold(ticks@),
{
    let mut spreads: Vec<i64> = Vec::new();
    let mut i: usize = 0;
    proof {
        assert(ticks@.take(0) =~= Seq::<Ticker>::empty());
    }
    while i < ticks.len()
        invariant
            0 <= i <= ticks.len(),
            spec_spreads(ticks@.take(i as int)) == Ok::<Seq<i64>, AppError>(spreads@),
            spreads@.len() == i,
        decreases ticks.len() - i,
    {
        proof {
            assert(ticks@.take(i + 1).drop_last() =~= ticks@.take(i as int));
            assert(ticks@.take(i + 1).last() == ticks@[i as int]);
        }
        match relative_spread(ticks[i].bid, ticks[i].ask) {
            Ok(v) => spreads.push(v),
            Err(e) => {
                proof {
                    lemma_spreads_first_error(ticks@, i as int);
                }
                return Err(e);
            },
        }
        i = i + 1;
    }
    proof {
        assert(ticks@.take(ticks@.len() as int) =~= ticks@);
    }
    if spreads.len() == 0 {
        return Err(AppError::EmptyHistory);
    }
    let ghost samples = spreads@;
    let sorted = sort_i64(&spreads);
    let med: i64 = median_of_sorted(&sorted, Ghost(samples));
    if spreads.len() < 2 {
        return Ok(med);
    }
    let mean: i64 = mean_i64(&spreads);
    let n: usize = spreads.len();
    let mut ss: u128 = 0;
    let mut k: usize = 0;
    proof {
        assert(samples.take(0) =~= Seq::<i64>::empty());
    }
    while k < n
        invariant
            0 <= k <= n,
            n == samples.len(),
            n >= 2,
            spreads@ == samples,
            spec_spreads(ticks@) == Ok::<Seq<i64>, AppError>(samples),
            mean as int == spec_mean(samples),
            ss == spec_sq_dev_sum(samples.take(k as int), mean as int),
        decreases n - k,
    {
        proof {
            assert(samples.take(k + 1).drop_last() =~= samples.take(k as int));
            assert(samples.take(k + 1).last() == samples[k as int]);
        }
        let dev: i128 = spreads[k] as i128 - mean as i128;
        let mag: u128 = if dev < 0 {
            (-dev) as u128
        } else {
            dev as u128
        };
        proof {
            let di: int = dev as int;
            let mi: int = mag as int;
            assert(mi * mi == di * di && mi * mi <= 0xffffffffffffffffint * 0xffffffffffffffffint)
                by (nonlinear_arith)
                requires
                    (di < 0 && mi == di * -1) || (di >= 0 && mi == di),
                    (-0xffffffffffffffffint) <= di <= 0xffffffffffffffffint,
            ;
        }
        let sq: u128 = mag * mag;
        match ss.checked_add(sq) {
            Some(t) => ss = t,
            None => {
                proof {
                    lemma_sq_dev_sum_prefix(samples, mean as int, k + 1);
                }
                return Err(AppError::Overflow);
            },
        }
        k = k + 1;
    }
    proof {
        assert(samples.take(samples.len() as int) =~= samples);
    }
    let variance: u128 = ss / (n - 1) as u128;
    let sd: u128 = isqrt_u128(variance);
    proof {
        assert(sd as int <= 0xffffffffffffffffint) by (nonlinear_arith)
            requires
                sd as int >= 0,
                sd as int * sd as int <= 0xffffffffffffffffffffffffffffffffint,
        ;
        lemma_median_fits(samples);
    }
    let total: i128 = med as i128 + sd as i128;
    if total >= i64::MIN as i128 && total <= i64::MAX as i128 {
        Ok(total as i64)
    } else {
        Err(AppError::Overflow)
    }
}

} // verus!
