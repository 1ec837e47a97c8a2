//! Stored price observations.
//!
//! A [`Ticker`] is one exchange snapshot for a trading pair, read back from
//! the append-only tick store. The store hands the engine the rows for one
//! pair ordered newest first; the engine never writes them.

use vstd::prelude::*;
use vstd::arithmetic::div_mod::lemma_div_pos_is_pos;
use crate::fixed::{fits_i64, SCALE};

verus! {

/// One stored price observation. All prices and the volume are scaled
/// amounts; the timestamp is a Unix second count. `bid <= ask` is expected
/// but not enforced: readers tolerate inverted or equal quotes.
#[derive(Clone, Debug, PartialEq, Eq)]
pub struct Ticker {
    /// Trading pair the observation belongs to.
    pub pair: String,
    /// Price of the most recent trade.
    pub last: i64,
    /// Best bid at observation time.
    pub bid: i64,
    /// Best ask at observation time.
    pub ask: i64,
    /// Highest trade price of the covered period.
    pub high: i64,
    /// Lowest trade price of the covered period.
    pub low: i64,
    /// Traded volume of the covered period.
    pub volume: i64,
    /// Observation time, Unix seconds.
    pub timestamp: i64,
}

/// Whether a history slice is ordered newest first, as the tick store
/// returns it.
pub open spec fn newest_first(ticks: Seq<Ticker>) -> bool {
    forall|i: int, j: int| 0 <= i <= j < ticks.len() ==> #[trigger] ticks[i].timestamp >= #[trigger] ticks[j].timestamp
}

/// Number of rows the retention policy removes: none while the store holds
/// fewer than `retention_threshold` rows, else the row count times
/// `purge_ratio`, rounded up.
pub open spec fn spec_purge_count(total: int, retention_threshold: int, purge_ratio: int) -> int {
    if total >= retention_threshold {
        (total * purge_ratio + (SCALE - 1)) / (SCALE as int)
    } else {
        0
    }
}

impl Ticker {
    /// How many of the oldest rows the retention policy evicts for a store
    /// of `total` rows, with the purge fraction as a scaled ratio. `None`
    /// where the exact count does not fit in an `i64`.
    pub fn purge_count(total: i64, retention_threshold: i64, purge_ratio: i64) -> (r: Option<i64>)
        requires
            total >= 0,
            purge_ratio >= 0,
        ensures
            fits_i64(spec_purge_count(total as int, retention_threshold as int, purge_ratio as int))
                ==> r == Some(spec_purge_count(total as int, retention_threshold as int, purge_ratio as int) as i64),
            !fits_i64(spec_purge_count(total as int, retention_threshold as int, purge_ratio as int))
                ==> r is None,
    {
        if total < retention_threshold {
            return Some(0);
        }
        proof {
            let ti = total as int;
            let ri = purge_ratio as int;
            assert(0 <= ti * ri <= 0x40000000000000000000000000000000int) by (nonlinear_arith)
                requires
                    0 <= ti <= 0x7fffffffffffffffint,
                    0 <= ri <= 0x7fffffffffffffffint,
            ;
            lemma_div_pos_is_pos(ti * ri + (SCALE - 1), SCALE as int);
        }
        let p: u128 = (total as u128) * (purge_ratio as u128) + (SCALE - 1) as u128;
        let q: u128 = p / (SCALE as u128);
        if q <= i64::MAX as u128 {
            Some(q as i64)
        } else {
            None
        }
    }
}

} // verus!
