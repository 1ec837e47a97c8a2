//! The transaction ledger.
//!
//! Rows of the ledger of executed trades, as read back from storage. The
//! lifetime invested total is the sum of the fiat prices of its buy rows.

use vstd::prelude::*;
use crate::error::AppError;
use crate::fixed::fits_i64;

verus! {

/// Which way a ledgered trade went.
#[derive(Clone, Copy, Debug, PartialEq, Eq, Structural)]
pub enum TradeSide {
    /// Fiat was spent for crypto.
    Buy,
    /// Crypto was sold for fiat.
    Sell,
}

/// One row of the transaction ledger. Amounts, rates, prices and fees are
/// scaled; the timestamp is Unix seconds.
#[derive(Clone, Debug, PartialEq, Eq)]
pub struct Transaction {
    /// The order the trade settled.
    pub order_id: i32,
    /// When the trade settled, Unix seconds.
    pub created_at: i64,
    /// Execution rate.
    pub rate: i64,
    /// Crypto amount traded.
    pub amount: i64,
    /// Which way the trade went.
    pub order_type: TradeSide,
    /// Trading pair.
    pub pair: String,
    /// Fiat price of the trade.
    pub price: i64,
    /// Currency the fee was charged in.
    pub fee_currency: String,
    /// Fee charged.
    pub fee: i64,
}

/// Sum of the prices of the buy rows.
pub open spec fn spec_invested_sum(ts: Seq<Transaction>) -> int
    decreases ts.len(),
{
    if ts.len() == 0 {
        0
    } else {
        spec_invested_sum(ts.drop_last()) + if ts.last().order_type is Buy {
            ts.last().price as int
        } else {
            0
        }
    }
}

/// The lifetime invested total: the exact sum of the buy rows' prices, or
/// `Err` where it leaves the scaled range.
pub fn total_invested(transactions: &Vec<Transaction>) -> (r: Result<i64, AppError>)
    ensures
        fits_i64(spec_invested_sum(transactions@))
            ==> r == Ok::<i64, AppError>(spec_invested_sum(transactions@) as i64),
        !fits_i64(spec_invested_sum(transactions@)) ==> r == Err::<i64, AppError>(AppError::Overflow),
{
    let mut acc: i128 = 0;
    let mut i: usize = 0;
    proof {
        assert(transactions@.take(0) =~= Seq::<Transaction>::empty());
    }
    while i < transactions.len()
        invariant
            0 <= i <= transactions@.len(),
            acc == spec_invested_sum(transactions@.take(i as int)),
            -(i as int * 0x8000000000000000int) <= acc <= i as int * 0x7fffffffffffffffint,
        decreases transactions.len() - i,
    {
        proof {
            assert(transactions@.take(i + 1).drop_last() =~= transactions@.take(i as int));
            assert(transactions@.take(i + 1).last() == transactions@[i as int]);
        }
        match transactions[i].order_type {
            TradeSide::Buy => {
                acc = acc + transactions[i].price as i128;
            },
            TradeSide::Sell => {},
        }
        i = i + 1;
    }
    proof {
        assert(transactions@.take(transactions@.len() as int) =~= transactions@);
    }
    if acc >= i64::MIN as i128 && acc <= i64::MAX as i128 {
        Ok(acc as i64)
    } else {
        Err(AppError::Overflow)
    }
}

} // verus!
