//! Parameter selector over backtested window pairs.
//!
//! An offline batch process fills a table with, per trading pair, the win
//! rate each (short, long) moving-average window pair would have had. The
//! selector picks the best-performing stored pair; only rows at or above a
//! fifty percent win rate are ever eligible, and the caller separately
//! holds the winner against its own configured minimum.

use vstd::prelude::*;
use crate::fixed::SCALE;

verus! {

/// One backtested result row for a trading pair.
#[derive(Clone, Debug, PartialEq, Eq)]
pub struct OptimizedMa {
    /// Trading pair the backtest ran over.
    pub pair: String,
    /// Short moving-average window, in ticks.
    pub short_ma: i32,
    /// Long moving-average window, in ticks.
    pub long_ma: i32,
    /// Minutes held after a crossover before counting win or loss.
    pub offset_minutes: i32,
    /// Backtested win rate as a scaled percentage, where computed.
    pub win_rate_pct: Option<i64>,
    /// Total crossovers observed, where computed.
    pub total: Option<i32>,
    /// Winning crossovers observed, where computed.
    pub wins: Option<i32>,
}

/// A selected window pair with its backtested win rate.
#[derive(Clone, Copy, Debug, PartialEq, Eq, Structural)]
pub struct WindowChoice {
    /// Short moving-average window, in ticks.
    pub short_ma: i32,
    /// Long moving-average window, in ticks.
    pub long_ma: i32,
    /// Backtested win rate, scaled percent.
    pub win_rate_pct: i64,
}

/// Whether a stored row may be selected for `pair`: it belongs to the pair,
/// its win rate is computed, and that rate is at least fifty percent.
pub open spec fn eligible(row: OptimizedMa, pair: Seq<char>) -> bool {
    &&& row.pair@ == pair
    &&& row.win_rate_pct is Some
    &&& row.win_rate_pct->0 >= 50 * SCALE as int
}

/// Folds one row into the current choice: an eligible row replaces the
/// choice only with a strictly higher win rate, so the earliest of equally
/// good rows wins.
pub open spec fn spec_fold_best(cur: Option<WindowChoice>, row: OptimizedMa, pair: Seq<char>) -> Option<WindowChoice> {
    if eligible(row, pair) && (cur is None || row.win_rate_pct->0 > cur->0.win_rate_pct) {
        Some(WindowChoice {
            short_ma: row.short_ma,
            long_ma: row.long_ma,
            win_rate_pct: row.win_rate_pct->0,
        })
    } else {
        cur
    }
}

/// The best eligible row for `pair` among `rows`, walked front to back.
pub open spec fn spec_find_best(rows: Seq<OptimizedMa>, pair: Seq<char>) -> Option<WindowChoice>
    decreases rows.len(),
{
    if rows.len() == 0 {
        None
    } else {
        spec_fold_best(spec_find_best(rows.drop_last(), pair), rows.last(), pair)
    }
}

/// Whatever `spec_find_best` returns is an eligible row's data, and no
/// eligible row beats its win rate.
pub proof fn lemma_find_best_sound(rows: Seq<OptimizedMa>, pair: Seq<char>)
    ensures
        spec_find_best(rows, pair) matches Some(c) ==> exists|i: int|
            0 <= i < rows.len() && #[trigger] eligible(rows[i], pair)
                && rows[i].short_ma == c.short_ma && rows[i].long_ma == c.long_ma
                && rows[i].win_rate_pct == Some(c.win_rate_pct),
        spec_find_best(rows, pair) matches Some(c) ==> forall|i: int|
            0 <= i < rows.len() && #[trigger] eligible(rows[i], pair)
                ==> rows[i].win_rate_pct->0 <= c.win_rate_pct,
        spec_find_best(rows, pair) is None ==> forall|i: int|
            0 <= i < rows.len() ==> !#[trigger] eligible(rows[i], pair),
    decreases rows.len(),
{
    if rows.len() > 0 {
        lemma_find_best_sound(rows.drop_last(), pair);
        assert(rows.drop_last() =~= rows.take(rows.len() - 1));
        assert forall|i: int| 0 <= i < rows.len() - 1 implies rows.drop_last()[i] == rows[i] by {}
    }
}

impl OptimizedMa {
    /// The single best-performing eligible window pair stored for `pair`,
    /// or `None` where no row qualifies.
    pub fn find_best_for_ma(rows: &Vec<OptimizedMa>, pair: &String) -> (r: Option<WindowChoice>)
        ensures
            r == spec_find_best(rows@, pair@),
    {
        let mut best: Option<WindowChoice> = None;
        let mut i: usize = 0;
        proof {
            assert(rows@.take(0) =~= Seq::<OptimizedMa>::empty());
        }
        while i < rows.len()
            invariant
                0 <= i <= rows.len(),
                best == spec_find_best(rows@.take(i as int), pair@),
            decreases rows.len() - i,
        {
            proof {
                assert(rows@.take(i + 1).drop_last() =~= rows@.take(i as int));
                assert(rows@.take(i + 1).last() == rows@[i as int]);
            }
            let row = &rows[i];
            let is_eligible: bool = row.pair == *pair && match row.win_rate_pct {
                Some(w) => w >= 50 * SCALE,
                None => false,
            };
            if is_eligible {
                let w = match row.win_rate_pct {
                    Some(w) => w,
                    None => 0,
                };
                let replace: bool = match best {
                    None => true,
                    Some(c) => w > c.win_rate_pct,
                };
                if replace {
                    best = Some(WindowChoice {
                        short_ma: row.short_ma,
                        long_ma: row.long_ma,
                        win_rate_pct: w,
                    });
                }
            }
            i = i + 1;
        }
        proof {
            assert(rows@.take(rows@.len() as int) =~= rows@);
        }
        best
    }
}

} // verus!
