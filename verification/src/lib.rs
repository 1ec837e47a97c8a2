//! Strategy and order-allocation engine for a periodic spot-trading bot.
//!
//! The crate turns raw price history, backtested moving-average windows and
//! account balances into sized, ordered trade instructions, and carries those
//! instructions through submission bookkeeping with partial-failure isolation.
//! All quantities (prices, balances, ratios, percentages) are fixed-point
//! scaled integers (see [`fixed`]); the surrounding process performs the
//! exchange, storage and notification I/O and hands plain values in and out.

pub mod allocator;
pub mod balance;
pub mod config;
pub mod error;
pub mod fixed;
pub mod fixed_window;
pub mod history;
pub mod optimizer;
pub mod order;
pub mod orchestrator;
pub mod rate;
pub mod report;
pub mod signal;
pub mod spread;
pub mod stats;
pub mod strategy;
pub mod transaction;
pub mod ticker;
