//! Strategy engine.
//!
//! A [`Strategy`] turns stored history, backtest data and a live quote into
//! one [`TradeSignal`] per currency. Two variants exist behind the same
//! interface: [`MaOptimizerStrategy`] resolves its windows from the
//! backtest table and estimates its spread threshold from history;
//! [`BasicStrategy`] uses fixed configured windows with the same estimated
//! threshold. Every transition is a pure function of its inputs.

use vstd::prelude::*;
use crate::config::Config;
use crate::error::AppError;
use crate::fixed::{fits_i64, tdiv, SCALE};
use crate::history::{moving_average, spec_moving_average};
use crate::optimizer::{spec_find_best, OptimizedMa, WindowChoice};
use crate::signal::{Reason, SignalDiagnostics, TradeSignal};
use crate::spread::{get_dynamic_spread_threshold, relative_spread, spec_spread_checked, spec_spread_threshold};
use crate::ticker::Ticker;

verus! {

/// A trading strategy: one method that classifies a currency's market
/// state, specified exactly by the strategy's own signal function.
pub trait Strategy {
    /// The signal the strategy owes for these inputs.
    spec fn spec_signal(
        &self,
        cfg: Config,
        rows: Seq<OptimizedMa>,
        pair: Seq<char>,
        ticks: Seq<Ticker>,
        bid: i64,
        ask: i64,
        crypto_balance: i64,
    ) -> Result<TradeSignal, AppError>;

    /// Classifies the market state of `pair` from its backtest rows, its
    /// newest-first stored history, the live quote and the held balance.
    fn determine_trade_signal(
        &self,
        cfg: &Config,
        rows: &Vec<OptimizedMa>,
        pair: &String,
        ticks: &Vec<Ticker>,
        bid: i64,
        ask: i64,
        crypto_balance: i64,
    ) -> (r: Result<TradeSignal, AppError>)
        ensures
            r == self.spec_signal(*cfg, rows@, pair@, ticks@, bid, ask, crypto_balance),
    ;
}

/// The dead-cross sell amount: the held balance times the configured sell
/// ratio, or `Err` where the exact amount leaves the scaled range.
pub open spec fn spec_sell_amount(cfg: Config, crypto_balance: i64) -> Result<i64, AppError> {
    if fits_i64(tdiv(crypto_balance * cfg.sell_ratio, SCALE as int)) {
        Ok(tdiv(crypto_balance * cfg.sell_ratio, SCALE as int) as i64)
    } else {
        Err(AppError::Overflow)
    }
}

/// The crossover decision shared by both strategy variants, reached once
/// both averages are available and the spread is acceptable: a golden
/// cross buys (amount left for the allocator), a dead cross sells the
/// sized amount subject to the minimum where `check_min` holds, equality
/// holds back.
pub open spec fn spec_cross_decision(
    cfg: Config,
    crypto_balance: i64,
    short_avg: int,
    long_avg: int,
    diag: SignalDiagnostics,
    check_min: bool,
) -> Result<TradeSignal, AppError> {
    if short_avg > long_avg {
        Ok(TradeSignal::MarketBuy { amount: 0, diag })
    } else if short_avg < long_avg {
        match spec_sell_amount(cfg, crypto_balance) {
            Ok(amount) => {
                if check_min && amount < cfg.min_trade_qty {
                    Ok(TradeSignal::Hold {
                        diag: SignalDiagnostics { reason: Some(Reason::BelowMinimumSellSize), ..diag },
                    })
                } else {
                    Ok(TradeSignal::MarketSell { amount, diag })
                }
            },
            Err(e) => Err(e),
        }
    } else {
        Ok(TradeSignal::Hold {
            diag: SignalDiagnostics { reason: Some(Reason::EqualAverages), ..diag },
        })
    }
}

/// The spread gate and crossover decision shared by both variants, with
/// the moving-average diagnostics already in `ma_diag`.
pub open spec fn spec_spread_and_cross(
    cfg: Config,
    ticks: Seq<Ticker>,
    bid: i64,
    ask: i64,
    crypto_balance: i64,
    short_avg: int,
    long_avg: int,
    ma_diag: SignalDiagnostics,
    check_min: bool,
) -> Result<TradeSignal, AppError> {
    match spec_spread_checked(bid as int, ask as int) {
        Err(e) => Err(e),
        Ok(spread_ratio) => match spec_spread_threshold(ticks) {
            Err(e) => Err(e),
            Ok(threshold) => {
                let diag = SignalDiagnostics {
                    spread_ratio: Some(spread_ratio),
                    spread_threshold: Some(threshold),
                    ..ma_diag
                };
                if spread_ratio > threshold {
                    Ok(TradeSignal::Hold {
                        diag: SignalDiagnostics { reason: Some(Reason::SpreadUnfavorable), ..diag },
                    })
                } else {
                    spec_cross_decision(cfg, crypto_balance, short_avg, long_avg, diag, check_min)
                }
            },
        },
    }
}

/// Runs the spread gate and crossover decision; the executable half of
/// [`spec_spread_and_cross`].
fn spread_and_cross(
    cfg: &Config,
    ticks: &Vec<Ticker>,
    bid: i64,
    ask: i64,
    crypto_balance: i64,
    short_avg: i64,
    long_avg: i64,
    ma_diag: SignalDiagnostics,
    check_min: bool,
) -> (r: Result<TradeSignal, AppError>)
    ensures
        r == spec_spread_and_cross(
            *cfg, ticks@, bid, ask, crypto_balance, short_avg as int, long_avg as int, ma_diag, check_min,
        ),
{
    let spread_ratio = match relative_spread(bid, ask) {
        Ok(v) => v,
        Err(e) => {
            return Err(e);
        },
    };
    let threshold = match get_dynamic_spread_threshold(ticks) {
        Ok(v) => v,
        Err(e) => {
            return Err(e);
        },
    };
    let diag = SignalDiagnostics {
        spread_ratio: Some(spread_ratio),
        spread_threshold: Some(threshold),
        ..ma_diag
    };
    if spread_ratio > threshold {
        return Ok(TradeSignal::Hold {
            diag: SignalDiagnostics { reason: Some(Reason::SpreadUnfavorable), ..diag },
        });
    }
    if short_avg > long_avg {
        Ok(TradeSignal::MarketBuy { amount: 0, diag })
    } else if short_avg < long_avg {
        match crate::fixed::mul_scaled(crypto_balance, cfg.sell_ratio) {
            Some(amount) => {
                if check_min && amount < cfg.min_trade_qty {
                    Ok(TradeSignal::Hold {
                        diag: SignalDiagnostics { reason: Some(Reason::BelowMinimumSellSize), ..diag },
                    })
                } else {
                    Ok(TradeSignal::MarketSell { amount, diag })
                }
            },
            None => Err(AppError::Overflow),
        }
    } else {
        Ok(TradeSignal::Hold {
            diag: SignalDiagnostics { reason: Some(Reason::EqualAverages), ..diag },
        })
    }
}

/// Clamps a stored window to a usable window size; a negative stored
/// window requests no rows and so yields no average.
fn window_size(w: i32) -> (r: usize)
    ensures
        w >= 0 ==> r == w as int,
        w < 0 ==> r == 0,
{
    if w < 0 {
        0
    } else {
        w as usize
    }
}

/// The golden-cross law: whenever a qualifying window pair is selected,
/// both averages are available with the short one strictly above the long
/// one, and the spread is within the threshold, the optimizer-backed
/// strategy signals a market buy whose amount is the placeholder zero,
/// left for the allocator to resolve.
pub proof fn lemma_golden_cross_buys(
    cfg: Config,
    rows: Seq<OptimizedMa>,
    pair: Seq<char>,
    ticks: Seq<Ticker>,
    bid: i64,
    ask: i64,
    crypto_balance: i64,
)
    requires
        (spec_find_best(rows, pair) matches Some(c) && c.win_rate_pct >= cfg.ma_border_threshold_ratio
            && (spec_moving_average(ticks, c.short_ma as int) matches Some(sa)
                && (spec_moving_average(ticks, c.long_ma as int) matches Some(la)
                    && sa > la))),
        (spec_spread_checked(bid as int, ask as int) matches Ok(ratio)
            && (spec_spread_threshold(ticks) matches Ok(threshold)
                && ratio <= threshold)),
    ensures
        (spec_optimizer_signal(cfg, rows, pair, ticks, bid, ask, crypto_balance)
            matches Ok(sig) && (sig matches TradeSignal::MarketBuy { amount, .. } && amount == 0)),
{
}

/// The dead-cross sizing law: under the same qualifying conditions with
/// the short average strictly below the long one, the sell amount is
/// exactly the held balance times the configured sell ratio; an amount
/// below the minimum tradable quantity becomes a hold, not a sell.
pub proof fn lemma_dead_cross_sizing(
    cfg: Config,
    rows: Seq<OptimizedMa>,
    pair: Seq<char>,
    ticks: Seq<Ticker>,
    bid: i64,
    ask: i64,
    crypto_balance: i64,
)
    requires
        (spec_find_best(rows, pair) matches Some(c) && c.win_rate_pct >= cfg.ma_border_threshold_ratio
            && (spec_moving_average(ticks, c.short_ma as int) matches Some(sa)
                && (spec_moving_average(ticks, c.long_ma as int) matches Some(la)
                    && sa < la))),
        (spec_spread_checked(bid as int, ask as int) matches Ok(ratio)
            && (spec_spread_threshold(ticks) matches Ok(threshold)
                && ratio <= threshold)),
        fits_i64(tdiv(crypto_balance * cfg.sell_ratio, SCALE as int)),
    ensures
        tdiv(crypto_balance * cfg.sell_ratio, SCALE as int) >= cfg.min_trade_qty
            ==> (spec_optimizer_signal(cfg, rows, pair, ticks, bid, ask, crypto_balance)
                matches Ok(sig) && (sig matches TradeSignal::MarketSell { amount, .. }
                    && amount == tdiv(crypto_balance * cfg.sell_ratio, SCALE as int))),
        tdiv(crypto_balance * cfg.sell_ratio, SCALE as int) < cfg.min_trade_qty
            ==> (spec_optimizer_signal(cfg, rows, pair, ticks, bid, ask, crypto_balance)
                matches Ok(sig) && (sig matches TradeSignal::Hold { diag }
                    && diag.reason == Some(Reason::BelowMinimumSellSize))),
{
}

/// The spread gate law: whenever a qualifying window pair is selected and
/// both averages are available, a live spread strictly above the
/// threshold holds the currency back, whatever the averages compare to.
pub proof fn lemma_spread_gate_holds(
    cfg: Config,
    rows: Seq<OptimizedMa>,
    pair: Seq<char>,
    ticks: Seq<Ticker>,
    bid: i64,
    ask: i64,
    crypto_balance: i64,
)
    requires
        (spec_find_best(rows, pair) matches Some(c) && c.win_rate_pct >= cfg.ma_border_threshold_ratio
            && spec_moving_average(ticks, c.short_ma as int) is Some
            && spec_moving_average(ticks, c.long_ma as int) is Some),
        (spec_spread_checked(bid as int, ask as int) matches Ok(ratio)
            && (spec_spread_threshold(ticks) matches Ok(threshold)
                && ratio > threshold)),
    ensures
        (spec_optimizer_signal(cfg, rows, pair, ticks, bid, ask, crypto_balance)
            matches Ok(sig) && (sig matches TradeSignal::Hold { diag }
                && diag.reason == Some(Reason::SpreadUnfavorable))),
{
}

/// The optimizer-backed strategy: windows and win rate come from the
/// backtest table, the spread threshold from the pair's stored history.
pub struct MaOptimizerStrategy;

/// The signal the optimizer-backed strategy owes: hold on missing or
/// untrusted backtest data, insufficient-data where an average is
/// unavailable, hold on an unfavorable spread, else the crossover decision
/// with the minimum-sell check.
pub open spec fn spec_optimizer_signal(
    cfg: Config,
    rows: Seq<OptimizedMa>,
    pair: Seq<char>,
    ticks: Seq<Ticker>,
    bid: i64,
    ask: i64,
    crypto_balance: i64,
) -> Result<TradeSignal, AppError> {
    match spec_find_best(rows, pair) {
        None => Ok(TradeSignal::Hold {
            diag: SignalDiagnostics {
                spread_threshold: None,
                spread_ratio: None,
                ma_short: None,
                ma_long: None,
                ma_win_rate: None,
                reason: Some(Reason::NoOptimizerData),
            },
        }),
        Some(c) => {
            let ma_diag = SignalDiagnostics {
                spread_threshold: None,
                spread_ratio: None,
                ma_short: Some(c.short_ma),
                ma_long: Some(c.long_ma),
                ma_win_rate: Some(c.win_rate_pct),
                reason: None,
            };
            if c.win_rate_pct < cfg.ma_border_threshold_ratio {
                Ok(TradeSignal::Hold {
                    diag: SignalDiagnostics { reason: Some(Reason::LowWinRate), ..ma_diag },
                })
            } else {
                let short_avg = spec_moving_average(ticks, c.short_ma as int);
                let long_avg = spec_moving_average(ticks, c.long_ma as int);
                if short_avg is None || long_avg is None {
                    Ok(TradeSignal::InsufficientData {
                        diag: SignalDiagnostics { reason: Some(Reason::InsufficientHistory), ..ma_diag },
                    })
                } else {
                    spec_spread_and_cross(
                        cfg, ticks, bid, ask, crypto_balance,
                        short_avg->0, long_avg->0, ma_diag, true,
                    )
                }
            }
        },
    }
}

impl Strategy for MaOptimizerStrategy {
    open spec fn spec_signal(
        &self,
        cfg: Config,
        rows: Seq<OptimizedMa>,
        pair: Seq<char>,
        ticks: Seq<Ticker>,
        bid: i64,
        ask: i64,
        crypto_balance: i64,
    ) -> Result<TradeSignal, AppError> {
        spec_optimizer_signal(cfg, rows, pair, ticks, bid, ask, crypto_balance)
    }

    fn determine_trade_signal(
        &self,
        cfg: &Config,
        rows: &Vec<OptimizedMa>,
        pair: &String,
        ticks: &Vec<Ticker>,
        bid: i64,
        ask: i64,
        crypto_balance: i64,
    ) -> (r: Result<TradeSignal, AppError>) {
        let best: Option<WindowChoice> = OptimizedMa::find_best_for_ma(rows, pair);
        let c = match best {
            None => {
                return Ok(TradeSignal::Hold {
                    diag: SignalDiagnostics {
                        spread_threshold: None,
                        spread_ratio: None,
                        ma_short: None,
                        ma_long: None,
                        ma_win_rate: None,
                        reason: Some(Reason::NoOptimizerData),
                    },
                });
            },
            Some(c) => c,
        };
        let ma_diag = SignalDiagnostics {
            spread_threshold: None,
            spread_ratio: None,
            ma_short: Some(c.short_ma),
            ma_long: Some(c.long_ma),
            ma_win_rate: Some(c.win_rate_pct),
            reason: None,
        };
        if c.win_rate_pct < cfg.ma_border_threshold_ratio {
            return Ok(TradeSignal::Hold {
                diag: SignalDiagnostics { reason: Some(Reason::LowWinRate), ..ma_diag },
            });
        }
        let short_avg = moving_average(ticks, window_size(c.short_ma));
        let long_avg = moving_average(ticks, window_size(c.long_ma));
        match (short_avg, long_avg) {
            (Some(sa), Some(la)) => spread_and_cross(
                cfg, ticks, bid, ask, crypto_balance, sa, la, ma_diag, true,
            ),
            _ => Ok(TradeSignal::InsufficientData {
                diag: SignalDiagnostics { reason: Some(Reason::InsufficientHistory), ..ma_diag },
            }),
        }
    }
}

/// The fixed-window strategy: windows come from configuration, the spread
/// threshold is still estimated from the pair's stored history. It runs no
/// minimum-sell check.
pub struct BasicStrategy;

/// The signal the fixed-window strategy owes.
pub open spec fn spec_basic_signal(
    cfg: Config,
    ticks: Seq<Ticker>,
    bid: i64,
    ask: i64,
    crypto_balance: i64,
) -> Result<TradeSignal, AppError> {
    let ma_diag = SignalDiagnostics {
        spread_threshold: None,
        spread_ratio: None,
        ma_short: Some(cfg.ma_short),
        ma_long: Some(cfg.ma_long),
        ma_win_rate: None,
        reason: None,
    };
    let short_avg = spec_moving_average(ticks, cfg.ma_short as int);
    let long_avg = spec_moving_average(ticks, cfg.ma_long as int);
    if short_avg is None || long_avg is None {
        Ok(TradeSignal::InsufficientData {
            diag: SignalDiagnostics { reason: Some(Reason::InsufficientHistory), ..ma_diag },
        })
    } else {
        spec_spread_and_cross(
            cfg, ticks, bid, ask, crypto_balance, short_avg->0, long_avg->0, ma_diag, false,
        )
    }
}

impl Strategy for BasicStrategy {
    open spec fn spec_signal(
        &self,
        cfg: Config,
        rows: Seq<OptimizedMa>,
        pair: Seq<char>,
        ticks: Seq<Ticker>,
        bid: i64,
        ask: i64,
        crypto_balance: i64,
    ) -> Result<TradeSignal, AppError> {
        spec_basic_signal(cfg, ticks, bid, ask, crypto_balance)
    }

    fn determine_trade_signal(
        &self,
        cfg: &Config,
        rows: &Vec<OptimizedMa>,
        pair: &String,
        ticks: &Vec<Ticker>,
        bid: i64,
        ask: i64,
        crypto_balance: i64,
    ) -> (r: Result<TradeSignal, AppError>) {
        let ma_diag = SignalDiagnostics {
            spread_threshold: None,
            spread_ratio: None,
            ma_short: Some(cfg.ma_short),
            ma_long: Some(cfg.ma_long),
            ma_win_rate: None,
            reason: None,
        };
        let short_avg = moving_average(ticks, window_size(cfg.ma_short));
        let long_avg = moving_average(ticks, window_size(cfg.ma_long));
        match (short_avg, long_avg) {
            (Some(sa), Some(la)) => spread_and_cross(
                cfg, ticks, bid, ask, crypto_balance, sa, la, ma_diag, false,
            ),
            _ => Ok(TradeSignal::InsufficientData {
                diag: SignalDiagnostics { reason: Some(Reason::InsufficientHistory), ..ma_diag },
            }),
        }
    }
}

} // verus!
