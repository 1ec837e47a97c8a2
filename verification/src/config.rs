//! Operator-supplied configuration.
//!
//! The engine reads no ambient environment: the process builds one `Config`
//! at start-up and passes it by reference into the strategies and the
//! allocator. Ratios and percentages are scaled amounts (see [`crate::fixed`]).

use vstd::prelude::*;

verus! {

/// Tuning constants for the strategies and the capital allocator.
#[derive(Clone, Copy, Debug, PartialEq, Eq, Structural)]
pub struct Config {
    /// Fallback short moving-average window, for the strategy variants that
    /// do not consult the backtest table.
    pub ma_short: i32,
    /// Fallback long moving-average window.
    pub ma_long: i32,
    /// Minimum backtested win rate (scaled percent) needed to trust a
    /// stored window pair.
    pub ma_border_threshold_ratio: i64,
    /// Scaled fraction of the crypto balance sold on a dead cross.
    pub sell_ratio: i64,
    /// Scaled fraction of the fiat balance deployed by the fixed-threshold
    /// strategy variant.
    pub buy_ratio: i64,
    /// Fixed acceptable spread (scaled percent) for the strategy variant
    /// that does not estimate one from history.
    pub spread_threshold: i64,
    /// Minimum tradable quantity (scaled): a smaller sell becomes a hold.
    pub min_trade_qty: i64,
    /// First balance breakpoint of the tiered fiat-deployment curve.
    pub buy_threshold_1: i64,
    /// Second balance breakpoint.
    pub buy_threshold_2: i64,
    /// Third balance breakpoint.
    pub buy_threshold_3: i64,
    /// Scaled deployment ratio below the first breakpoint.
    pub buy_ratio_1: i64,
    /// Scaled deployment ratio below the second breakpoint.
    pub buy_ratio_2: i64,
    /// Scaled deployment ratio below the third breakpoint.
    pub buy_ratio_3: i64,
    /// Scaled deployment ratio at or above every breakpoint.
    pub buy_ratio_default: i64,
}

} // verus!
