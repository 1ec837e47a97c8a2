//! Per-currency order records.
//!
//! One [`NewOrder`] is built per currency per run, whatever the decision
//! was: hold and insufficient-data rows are recorded too, for audit. The
//! surrounding process appends the finished record to the order ledger;
//! records are never mutated after that.

use vstd::prelude::*;
use crate::signal::Reason;

verus! {

/// The resolved kind of a per-currency order record.
#[derive(Clone, Copy, Debug, PartialEq, Eq, Structural)]
pub enum OrderType {
    /// Buy at market against pooled fiat.
    MarketBuy,
    /// Sell a sized crypto amount at market.
    MarketSell,
    /// No order: a decisive hold condition.
    Hold,
    /// No order: a needed average was unavailable.
    InsufficientData,
}

impl OrderType {
    /// The ledger's name for the order kind.
    pub fn as_str(&self) -> (r: &'static str)
        ensures
            self is MarketBuy ==> r@ == "market_buy"@,
            self is MarketSell ==> r@ == "market_sell"@,
            self is Hold ==> r@ == "hold"@,
            self is InsufficientData ==> r@ == "insufficient_data"@,
    {
        match self {
            OrderType::MarketBuy => "market_buy",
            OrderType::MarketSell => "market_sell",
            OrderType::Hold => "hold",
            OrderType::InsufficientData => "insufficient_data",
        }
    }
}

/// One order record in the making: the per-currency outcome of a run,
/// written to the ledger once the orchestrator is done with it. Amounts,
/// rates and spreads are scaled; the success timestamp is Unix seconds,
/// set only on a confirmed submission.
#[derive(Clone, Debug, PartialEq, Eq)]
pub struct NewOrder {
    /// Legacy rate column, kept at zero by this engine.
    pub rate: Option<i64>,
    /// Currency the record is about.
    pub pair: String,
    /// Resolved order kind.
    pub order_type: OrderType,
    /// Crypto amount sold, zero for other kinds.
    pub crypto_amount: i64,
    /// Fiat amount spent, zero for other kinds.
    pub jpy_amount: i64,
    /// Buy rate snapshot captured after a successful submission.
    pub buy_rate: Option<i64>,
    /// Sell rate snapshot captured after a successful submission.
    pub sell_rate: Option<i64>,
    /// Spread at decision or post-execution time, scaled percent.
    pub spread_ratio: Option<i64>,
    /// Spread threshold the decision compared against, scaled percent.
    pub spread_threshold: Option<i64>,
    /// Short window used, where one was selected.
    pub ma_short: Option<i32>,
    /// Long window used, where one was selected.
    pub ma_long: Option<i32>,
    /// Win rate of the selected pair, scaled percent.
    pub ma_win_rate: Option<i64>,
    /// Why the engine decided as it did.
    pub reason: Option<Reason>,
    /// The exchange's response text, attached after submission.
    pub api_message: Option<String>,
    /// When the exchange confirmed the order, Unix seconds.
    pub api_call_success_at: Option<i64>,
}

impl NewOrder {
    /// A fresh draft record for `pair`: a hold with zero amounts and zeroed
    /// rate snapshots, awaiting a signal.
    pub fn new(pair: String) -> (r: NewOrder)
        ensures
            r == (NewOrder {
                rate: Some(0i64),
                pair: pair,
                order_type: OrderType::Hold,
                crypto_amount: 0i64,
                jpy_amount: 0i64,
                buy_rate: Some(0i64),
                sell_rate: Some(0i64),
                spread_ratio: Some(0i64),
                spread_threshold: Some(0i64),
                ma_short: None::<i32>,
                ma_long: None::<i32>,
                ma_win_rate: None::<i64>,
                reason: None::<Reason>,
                api_message: None::<String>,
                api_call_success_at: None::<i64>,
            }),
    {
        NewOrder {
            rate: Some(0),
            pair,
            order_type: OrderType::Hold,
            crypto_amount: 0,
            jpy_amount: 0,
            buy_rate: Some(0),
            sell_rate: Some(0),
            spread_ratio: Some(0),
            spread_threshold: Some(0),
            ma_short: None,
            ma_long: None,
            ma_win_rate: None,
            reason: None,
            api_message: None,
            api_call_success_at: None,
        }
    }
}

} // verus!
