//! The simplest strategy variant: fixed windows, a fixed spread
//! threshold, immediate sizing.
//!
//! Unlike the variants behind [`crate::strategy::Strategy`], this one
//! compares the live spread against a configured constant instead of an
//! estimated one, and sizes its buy directly from the fiat balance rather
//! than deferring to the allocator.

use vstd::prelude::*;
use crate::config::Config;
use crate::error::AppError;
use crate::fixed::{fits_i64, tdiv, SCALE};
use crate::history::{moving_average, spec_moving_average};
use crate::spread::{relative_spread, spec_spread_checked};
use crate::strategy::spec_sell_amount;
use crate::ticker::Ticker;

verus! {

/// A fully sized signal of this variant.
#[derive(Clone, Copy, Debug, PartialEq, Eq, Structural)]
pub enum TradeSignal {
    /// Golden cross: spend the carried fiat amount.
    MarketBuy(i64),
    /// Dead cross: sell the carried crypto amount.
    MarketSell(i64),
    /// Stay out.
    Hold,
    /// A needed moving average was unavailable.
    InsufficientData,
}

/// The golden-cross buy amount of this variant: the fiat balance times the
/// configured buy ratio.
pub open spec fn spec_buy_amount(cfg: Config, jpy_balance: i64) -> Result<i64, AppError> {
    if fits_i64(tdiv(jpy_balance * cfg.buy_ratio, SCALE as int)) {
        Ok(tdiv(jpy_balance * cfg.buy_ratio, SCALE as int) as i64)
    } else {
        Err(AppError::Overflow)
    }
}

/// The signal this variant owes: hold on a spread above the configured
/// constant, insufficient-data where an average is unavailable, else buy
/// or sell sized on the spot.
pub open spec fn spec_fixed_signal(
    cfg: Config,
    ticks: Seq<Ticker>,
    bid: i64,
    ask: i64,
    jpy_balance: i64,
    crypto_balance: i64,
) -> Result<TradeSignal, AppError> {
    let short_avg = spec_moving_average(ticks, cfg.ma_short as int);
    let long_avg = spec_moving_average(ticks, cfg.ma_long as int);
    match spec_spread_checked(bid as int, ask as int) {
        Err(e) => Err(e),
        Ok(spread_rate) => {
            if spread_rate > cfg.spread_threshold {
                Ok(TradeSignal::Hold)
            } else {
                match (short_avg, long_avg) {
                    (Some(sa), Some(la)) => {
                        if sa > la {
                            match spec_buy_amount(cfg, jpy_balance) {
                                Ok(amount) => Ok(TradeSignal::MarketBuy(amount)),
                                Err(e) => Err(e),
                            }
                        } else if sa < la {
                            match spec_sell_amount(cfg, crypto_balance) {
                                Ok(amount) => Ok(TradeSignal::MarketSell(amount)),
                                Err(e) => Err(e),
                            }
                        } else {
                            Ok(TradeSignal::Hold)
                        }
                    },
                    _ => Ok(TradeSignal::InsufficientData),
                }
            }
        },
    }
}

/// Classifies the market state of a pair against the fixed spread
/// threshold, sizing any order immediately.
pub fn determine_trade_signal(
    cfg: &Config,
    ticks: &Vec<Ticker>,
    bid: i64,
    ask: i64,
    jpy_balance: i64,
    crypto_balance: i64,
) -> (r: Result<TradeSignal, AppError>)
    ensures
        r == spec_fixed_signal(*cfg, ticks@, bid, ask, jpy_balance, crypto_balance),
{
    let short_avg = moving_average(ticks, clamp_window(cfg.ma_short));
    let long_avg = moving_average(ticks, clamp_window(cfg.ma_long));
    let spread_rate = match relative_spread(bid, ask) {
        Ok(v) => v,
        Err(e) => {
            return Err(e);
        },
    };
    if spread_rate > cfg.spread_threshold {
        return Ok(TradeSignal::Hold);
    }
    match (short_avg, long_avg) {
        (Some(sa), Some(la)) => {
            if sa > la {
                match crate::fixed::mul_scaled(jpy_balance, cfg.buy_ratio) {
                    Some(amount) => Ok(TradeSignal::MarketBuy(amount)),
                    None => Err(AppError::Overflow),
                }
            } else if sa < la {
                match crate::fixed::mul_scaled(crypto_balance, cfg.sell_ratio) {
                    Some(amount) => Ok(TradeSignal::MarketSell(amount)),
                    None => Err(AppError::Overflow),
                }
            } else {
                Ok(TradeSignal::Hold)
            }
        },
        _ => Ok(TradeSignal::InsufficientData),
    }
}

/// Clamps a stored window to a usable size; a negative window requests no
/// rows and so yields no average.
fn clamp_window(w: i32) -> (r: usize)
    ensures
        w >= 0 ==> r == w as int,
        w < 0 ==> r == 0,
{
    if w < 0 {
        0
    } else {
        w as usize
    }
}

} // verus!
