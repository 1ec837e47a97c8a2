//! Trade signals.
//!
//! A strategy classifies each currency's market state into one
//! [`TradeSignal`], carrying diagnostic context for the order ledger. A
//! buy's amount is a placeholder zero until the capital allocator resolves
//! it against pooled fiat; a sell's amount is final at signal time.

use vstd::prelude::*;
use crate::order::{NewOrder, OrderType};

verus! {

/// Why a strategy held back or could not decide.
#[derive(Clone, Copy, Debug, PartialEq, Eq, Structural)]
pub enum Reason {
    /// No eligible backtested window pair is stored for the pair.
    NoOptimizerData,
    /// The best stored pair's win rate is below the configured minimum.
    LowWinRate,
    /// The live spread exceeds the acceptable threshold.
    SpreadUnfavorable,
    /// The sized sell would be below the minimum tradable quantity.
    BelowMinimumSellSize,
    /// The short and long averages are exactly equal.
    EqualAverages,
    /// A needed moving average was unavailable.
    InsufficientHistory,
}

impl Reason {
    /// A short description for operator-facing logs.
    pub fn message(&self) -> (m: &'static str)
        ensures
            m@.len() > 0,
    {
        proof {
            reveal_strlit("no backtested window pair qualifies");
            reveal_strlit("win rate of the best window pair is below the configured minimum");
            reveal_strlit("spread is above the acceptable threshold");
            reveal_strlit("sell amount is below the minimum tradable quantity");
            reveal_strlit("short and long averages are equal");
            reveal_strlit("not enough stored history for the windows");
        }
        match self {
            Reason::NoOptimizerData => "no backtested window pair qualifies",
            Reason::LowWinRate => "win rate of the best window pair is below the configured minimum",
            Reason::SpreadUnfavorable => "spread is above the acceptable threshold",
            Reason::BelowMinimumSellSize => "sell amount is below the minimum tradable quantity",
            Reason::EqualAverages => "short and long averages are equal",
            Reason::InsufficientHistory => "not enough stored history for the windows",
        }
    }
}

/// Diagnostic context shared by every signal variant; each field is filled
/// as far as the decision got.
#[derive(Clone, Copy, Debug, PartialEq, Eq)]
pub struct SignalDiagnostics {
    /// Spread threshold the decision compared against, scaled percent.
    pub spread_threshold: Option<i64>,
    /// Live spread at decision time, scaled percent.
    pub spread_ratio: Option<i64>,
    /// Short window used.
    pub ma_short: Option<i32>,
    /// Long window used.
    pub ma_long: Option<i32>,
    /// Win rate of the selected window pair, scaled percent.
    pub ma_win_rate: Option<i64>,
    /// Why the strategy held back, where it did.
    pub reason: Option<Reason>,
}

impl SignalDiagnostics {
    /// Diagnostics with nothing filled in yet.
    pub fn empty() -> (r: SignalDiagnostics)
        ensures
            r == (SignalDiagnostics {
                spread_threshold: None::<i64>,
                spread_ratio: None::<i64>,
                ma_short: None::<i32>,
                ma_long: None::<i32>,
                ma_win_rate: None::<i64>,
                reason: None::<Reason>,
            }),
    {
        SignalDiagnostics {
            spread_threshold: None,
            spread_ratio: None,
            ma_short: None,
            ma_long: None,
            ma_win_rate: None,
            reason: None,
        }
    }
}

/// One classified market state for one currency.
#[derive(Clone, Copy, Debug, PartialEq, Eq)]
pub enum TradeSignal {
    /// Golden cross: buy, amount resolved later by the allocator.
    MarketBuy {
        /// Fiat to spend; a placeholder zero until allocation.
        amount: i64,
        /// Diagnostic context.
        diag: SignalDiagnostics,
    },
    /// Dead cross: sell the sized crypto amount.
    MarketSell {
        /// Crypto amount to sell, final at signal time.
        amount: i64,
        /// Diagnostic context.
        diag: SignalDiagnostics,
    },
    /// A decisive condition says to stay out.
    Hold {
        /// Diagnostic context.
        diag: SignalDiagnostics,
    },
    /// A needed average was unavailable.
    InsufficientData {
        /// Diagnostic context.
        diag: SignalDiagnostics,
    },
}

impl TradeSignal {
    /// The diagnostics the signal carries.
    pub open spec fn diag(self) -> SignalDiagnostics {
        match self {
            TradeSignal::MarketBuy { diag, .. } => diag,
            TradeSignal::MarketSell { diag, .. } => diag,
            TradeSignal::Hold { diag } => diag,
            TradeSignal::InsufficientData { diag } => diag,
        }
    }

    /// The record `apply_to` turns a draft into: order kind and amounts
    /// resolved from the signal, diagnostics copied, all else kept.
    pub open spec fn spec_apply(self, o: NewOrder) -> NewOrder {
        NewOrder {
            order_type: match self {
                TradeSignal::MarketBuy { .. } => OrderType::MarketBuy,
                TradeSignal::MarketSell { .. } => OrderType::MarketSell,
                TradeSignal::Hold { .. } => OrderType::Hold,
                TradeSignal::InsufficientData { .. } => OrderType::InsufficientData,
            },
            crypto_amount: match self {
                TradeSignal::MarketSell { amount, .. } => amount,
                _ => 0,
            },
            jpy_amount: match self {
                TradeSignal::MarketBuy { amount, .. } => amount,
                _ => 0,
            },
            spread_threshold: self.diag().spread_threshold,
            spread_ratio: self.diag().spread_ratio,
            ma_short: self.diag().ma_short,
            ma_long: self.diag().ma_long,
            ma_win_rate: self.diag().ma_win_rate,
            reason: self.diag().reason,
            ..o
        }
    }

    /// Flattens the signal into a draft order record.
    pub fn apply_to(&self, new_order: &mut NewOrder)
        ensures
            *final(new_order) == self.spec_apply(*old(new_order)),
    {
        let diag = match self {
            TradeSignal::MarketBuy { diag, .. } => *diag,
            TradeSignal::MarketSell { diag, .. } => *diag,
            TradeSignal::Hold { diag } => *diag,
            TradeSignal::InsufficientData { diag } => *diag,
        };
        new_order.order_type = match self {
            TradeSignal::MarketBuy { .. } => OrderType::MarketBuy,
            TradeSignal::MarketSell { .. } => OrderType::MarketSell,
            TradeSignal::Hold { .. } => OrderType::Hold,
            TradeSignal::InsufficientData { .. } => OrderType::InsufficientData,
        };
        new_order.crypto_amount = match self {
            TradeSignal::MarketSell { amount, .. } => *amount,
            _ => 0,
        };
        new_order.jpy_amount = match self {
            TradeSignal::MarketBuy { amount, .. } => *amount,
            _ => 0,
        };
        new_order.spread_threshold = diag.spread_threshold;
        new_order.spread_ratio = diag.spread_ratio;
        new_order.ma_short = diag.ma_short;
        new_order.ma_long = diag.ma_long;
        new_order.ma_win_rate = diag.ma_win_rate;
        new_order.reason = diag.reason;
    }
}

} // verus!
