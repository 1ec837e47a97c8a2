//! Summary reporting.
//!
//! Values the held currencies at their sell rates, adds the fiat balance,
//! and sets the result against the lifetime invested total. One summary
//! owns one record per held currency plus one for fiat; it is built only
//! for runs in which at least one order succeeded.

use vstd::prelude::*;
use crate::error::AppError;
use crate::fixed::{fits_i64, mul_scaled, tdiv, SCALE};

verus! {

/// One held currency with the sell rate it is valued at. Amount and rate
/// are scaled.
#[derive(Clone, Debug, PartialEq, Eq)]
pub struct Holding {
    /// The held currency.
    pub currency: String,
    /// Amount held, scaled.
    pub amount: i64,
    /// Sell rate the valuation uses, scaled.
    pub sell_rate: i64,
}

/// One valuation line of a summary.
#[derive(Clone, Debug, PartialEq, Eq)]
pub struct NewSummaryRecord {
    /// The summary the line belongs to, once persisted.
    pub summary_id: Option<i32>,
    /// Currency valued, or the fiat currency itself.
    pub currency: String,
    /// Amount held, scaled.
    pub amount: i64,
    /// Rate used, scaled; zero for the fiat line.
    pub rate: i64,
    /// Value in fiat, scaled.
    pub jpy_value: i64,
}

/// The aggregate valuation snapshot of a run.
#[derive(Clone, Copy, Debug, PartialEq, Eq, Structural)]
pub struct NewSummary {
    /// Lifetime buy cost from the transaction ledger, scaled.
    pub total_invested: i64,
    /// Current holdings valued at sell rates plus fiat, scaled.
    pub total_jpy_value: i64,
    /// Profit or loss: total value minus invested, scaled.
    pub pl: i64,
}

/// A summary with its per-currency records.
#[derive(Clone, Debug, PartialEq, Eq)]
pub struct Report {
    /// The aggregate snapshot.
    pub summary: NewSummary,
    /// One line per held currency, plus the fiat line last.
    pub summary_records: Vec<NewSummaryRecord>,
}

/// The fiat value of one holding: amount times sell rate, truncated at
/// the scale.
pub open spec fn spec_holding_value(h: Holding) -> int {
    tdiv(h.amount * h.sell_rate, SCALE as int)
}

/// The fiat values of the holdings, walked front to back: the first
/// holding whose exact value leaves the scaled range decides the error.
pub open spec fn spec_holding_values(hs: Seq<Holding>) -> Result<Seq<i64>, AppError>
    decreases hs.len(),
{
    if hs.len() == 0 {
        Ok(Seq::empty())
    } else {
        match spec_holding_values(hs.drop_last()) {
            Ok(vs) => {
                if fits_i64(spec_holding_value(hs.last())) {
                    Ok(vs.push(spec_holding_value(hs.last()) as i64))
                } else {
                    Err(AppError::Overflow)
                }
            },
            Err(e) => Err(e),
        }
    }
}

/// Sum of a value list.
pub open spec fn spec_values_sum(vs: Seq<i64>) -> int
    decreases vs.len(),
{
    if vs.len() == 0 {
        0
    } else {
        spec_values_sum(vs.drop_last()) + vs.last()
    }
}

/// Whether building a report can succeed, and with which error it fails:
/// a holding out of range first, then the total, then the profit or loss.
pub open spec fn spec_report_status(hs: Seq<Holding>, jpy_balance: i64, total_invested: i64) -> Result<(), AppError> {
    match spec_holding_values(hs) {
        Err(e) => Err(e),
        Ok(vs) => {
            if !fits_i64(jpy_balance + spec_values_sum(vs)) {
                Err(AppError::Overflow)
            } else if !fits_i64(jpy_balance + spec_values_sum(vs) - total_invested) {
                Err(AppError::Overflow)
            } else {
                Ok(())
            }
        },
    }
}

/// If every holding before `i` has a value in range and holding `i` does
/// not, the whole list yields the overflow error.
proof fn lemma_values_first_error(hs: Seq<Holding>, i: int)
    requires
        0 <= i < hs.len(),
        spec_holding_values(hs.take(i)) is Ok,
        !fits_i64(spec_holding_value(hs[i])),
    ensures
        spec_holding_values(hs) == Err::<Seq<i64>, AppError>(AppError::Overflow),
    decreases hs.len(),
{
    if i == hs.len() - 1 {
        assert(hs.drop_last() =~= hs.take(i));
    } else {
        assert(hs.drop_last().take(i) =~= hs.take(i));
        lemma_values_first_error(hs.drop_last(), i);
    }
}

/// Builds the run's summary report from the held currencies (each with a
/// fresh sell rate), the fiat balance, and the ledger's lifetime invested
/// total. The records hold one line per holding, in order, and a fiat
/// line last; the totals are exact.
pub fn make_report(holdings: &Vec<Holding>, jpy_balance: i64, total_invested: i64) -> (r: Result<Report, AppError>)
    ensures
        (r matches Ok(rep) ==> {
            &&& spec_report_status(holdings@, jpy_balance, total_invested) is Ok
            &&& spec_holding_values(holdings@) matches Ok(vs)
            &&& rep.summary_records@.len() == holdings@.len() + 1
            &&& forall|i: int| 0 <= i < holdings@.len()
                ==> rep.summary_records@[i] == (NewSummaryRecord {
                    summary_id: None::<i32>,
                    currency: holdings@[i].currency,
                    amount: holdings@[i].amount,
                    rate: holdings@[i].sell_rate,
                    jpy_value: spec_holding_value(#[trigger] holdings@[i]) as i64,
                })
            &&& rep.summary_records@.last().summary_id is None
            &&& rep.summary_records@.last().currency@ == "jpy"@
            &&& rep.summary_records@.last().amount == jpy_balance
            &&& rep.summary_records@.last().rate == 0
            &&& rep.summary_records@.last().jpy_value == jpy_balance
            &&& rep.summary.total_invested == total_invested
            &&& rep.summary.total_jpy_value ==
                jpy_balance + spec_values_sum(spec_holding_values(holdings@)->Ok_0)
            &&& rep.summary.pl == rep.summary.total_jpy_value - total_invested
        }),
        (r matches Err(e) ==> spec_report_status(holdings@, jpy_balance, total_invested)
            == Err::<(), AppError>(e)),
{
    let mut records: Vec<NewSummaryRecord> = Vec::new();
    let mut acc: i128 = 0;
    let mut i: usize = 0;
    let ghost hs = holdings@;
    proof {
        assert(hs.take(0) =~= Seq::<Holding>::empty());
    }
    while i < holdings.len()
        invariant
            0 <= i <= hs.len(),
            hs == holdings@,
            records@.len() == i,
            spec_holding_values(hs.take(i as int)) is Ok,
            acc == spec_values_sum(spec_holding_values(hs.take(i as int))->Ok_0),
            -(i as int * 0x8000000000000000int) <= acc <= i as int * 0x7fffffffffffffffint,
            forall|k: int| 0 <= k < i ==> records@[k] == (NewSummaryRecord {
                summary_id: None::<i32>,
                currency: hs[k].currency,
                amount: hs[k].amount,
                rate: hs[k].sell_rate,
                jpy_value: spec_holding_value(#[trigger] hs[k]) as i64,
            }),
        decreases holdings.len() - i,
    {
        proof {
            assert(hs.take(i + 1).drop_last() =~= hs.take(i as int));
            assert(hs.take(i + 1).last() == hs[i as int]);
        }
        let h = &holdings[i];
        let value: i64 = match mul_scaled(h.amount, h.sell_rate) {
            Some(v) => v,
            None => {
                proof {
                    lemma_values_first_error(hs, i as int);
                }
                return Err(AppError::Overflow);
            },
        };
        records.push(NewSummaryRecord {
            summary_id: None,
            currency: h.currency.clone(),
            amount: h.amount,
            rate: h.sell_rate,
            jpy_value: value,
        });
        acc = acc + value as i128;
        proof {
            let vs1 = spec_holding_values(hs.take(i + 1))->Ok_0;
            assert(vs1.drop_last() =~= spec_holding_values(hs.take(i as int))->Ok_0);
        }
        i = i + 1;
    }
    proof {
        assert(hs.take(hs.len() as int) =~= hs);
    }
    let total: i128 = jpy_balance as i128 + acc;
    if !(total >= i64::MIN as i128 && total <= i64::MAX as i128) {
        return Err(AppError::Overflow);
    }
    let pl: i128 = total - total_invested as i128;
    if !(pl >= i64::MIN as i128 && pl <= i64::MAX as i128) {
        return Err(AppError::Overflow);
    }
    records.push(NewSummaryRecord {
        summary_id: None,
        currency: jpy_name(),
        amount: jpy_balance,
        rate: 0,
        jpy_value: jpy_balance,
    });
    Ok(Report {
        summary: NewSummary {
            total_invested,
            total_jpy_value: total as i64,
            pl: pl as i64,
        },
        summary_records: records,
    })
}

/// The ledger's name for the fiat currency.
fn jpy_name() -> (r: String)
    ensures
        r@ == "jpy"@,
{
    "jpy".to_owned()
}

} // verus!
