//! Order execution orchestrator.
//!
//! Walks the allocator's sells-first order list one record at a time. The
//! surrounding process performs each submission and hands the outcome
//! back; the orchestrator decides what to do, builds the record to
//! persist, and counts confirmed orders. A summary is owed at the end
//! exactly when at least one order succeeded.

use vstd::prelude::*;
use crate::order::{NewOrder, OrderType};
use crate::rate::Rate;

verus! {

/// What the orchestrator asks the surrounding process to do next.
#[derive(Clone, Copy, Debug, PartialEq, Eq)]
pub enum Step {
    /// Every order is processed.
    Done,
    /// The current order is diagnostic-only: persist it without any
    /// exchange call.
    Record,
    /// Submit the current order to the exchange.
    Submit {
        /// Whether the submission buys or sells.
        side: OrderType,
        /// The resolved amount: fiat for a buy, crypto for a sell.
        amount: i64,
    },
}

/// Number of confirmed submissions in a processed-order log. Each entry is
/// `None` for a record persisted without an exchange call, else the
/// submission's success flag.
pub open spec fn count_successes(log: Seq<Option<bool>>) -> int
    decreases log.len(),
{
    if log.len() == 0 {
        0
    } else {
        count_successes(log.drop_last()) + if log.last() == Some(true) { 1int } else { 0int }
    }
}

/// The success count never exceeds the log length, and it is positive
/// exactly when some entry is a confirmed submission.
pub proof fn lemma_count_successes(log: Seq<Option<bool>>)
    ensures
        0 <= count_successes(log) <= log.len(),
        count_successes(log) > 0 <==> exists|i: int| 0 <= i < log.len() && log[i] == Some(true),
    decreases log.len(),
{
    if log.len() > 0 {
        lemma_count_successes(log.drop_last());
        if log.last() == Some(true) {
            assert(log[log.len() - 1] == Some(true));
        } else if count_successes(log.drop_last()) > 0 {
            let i = choose|i: int| 0 <= i < log.len() - 1 && log.drop_last()[i] == Some(true);
            assert(log[i] == Some(true));
        } else if exists|i: int| 0 <= i < log.len() && log[i] == Some(true) {
            let i = choose|i: int| 0 <= i < log.len() && log[i] == Some(true);
            assert(log.drop_last()[i] == Some(true));
        }
    }
}

/// The record persisted after a submission: the exchange's response text
/// is always attached; on a confirmed submission the success timestamp
/// and a fresh rate snapshot are attached too.
pub open spec fn spec_submitted_record(
    o: NewOrder,
    success: bool,
    message: String,
    success_at: Option<i64>,
    rate: Option<Rate>,
) -> NewOrder {
    if success {
        NewOrder {
            api_message: Some(message),
            api_call_success_at: success_at,
            buy_rate: Some(rate->0.buy_rate),
            sell_rate: Some(rate->0.sell_rate),
            spread_ratio: Some(rate->0.spread_ratio),
            ..o
        }
    } else {
        NewOrder { api_message: Some(message), ..o }
    }
}

/// The run state of the order execution orchestrator.
pub struct Orchestrator {
    /// The sized orders of the run, sells first, in submission order.
    pub orders: Vec<NewOrder>,
    /// How many orders are processed so far.
    pub idx: usize,
    /// How many submissions the exchange confirmed.
    pub success_count: usize,
    /// What happened to each processed order: `None` for a diagnostic
    /// record, else the submission's success flag.
    pub log: Ghost<Seq<Option<bool>>>,
}

impl Orchestrator {
    /// The orchestrator's bookkeeping invariant.
    pub open spec fn wf(self) -> bool {
        &&& self.idx <= self.orders@.len()
        &&& self.log@.len() == self.idx
        &&& self.success_count == count_successes(self.log@)
    }

    /// Starts a run over the allocator's sized, sells-first order list.
    pub fn new(orders: Vec<NewOrder>) -> (r: Orchestrator)
        ensures
            r.wf(),
            r.orders@ == orders@,
            r.idx == 0,
            r.success_count == 0,
            r.log@ == Seq::<Option<bool>>::empty(),
    {
        Orchestrator { orders, idx: 0, success_count: 0, log: Ghost(Seq::empty()) }
    }

    /// The order being processed.
    pub fn current(&self) -> (r: &NewOrder)
        requires
            self.idx < self.orders@.len(),
        ensures
            *r == self.orders@[self.idx as int],
    {
        &self.orders[self.idx]
    }

    /// What to do next: nothing once every order is processed, persist
    /// without an exchange call for a hold or insufficient-data record,
    /// else submit with the resolved amount of the order's side.
    pub fn next_step(&self) -> (r: Step)
        ensures
            self.idx >= self.orders@.len() ==> r == Step::Done,
            self.idx < self.orders@.len() ==> {
                let o = self.orders@[self.idx as int];
                match o.order_type {
                    OrderType::MarketBuy => r == (Step::Submit { side: OrderType::MarketBuy, amount: o.jpy_amount }),
                    OrderType::MarketSell => r == (Step::Submit { side: OrderType::MarketSell, amount: o.crypto_amount }),
                    OrderType::Hold => r == Step::Record,
                    OrderType::InsufficientData => r == Step::Record,
                }
            },
    {
        if self.idx >= self.orders.len() {
            return Step::Done;
        }
        match self.orders[self.idx].order_type {
            OrderType::MarketBuy => Step::Submit {
                side: OrderType::MarketBuy,
                amount: self.orders[self.idx].jpy_amount,
            },
            OrderType::MarketSell => Step::Submit {
                side: OrderType::MarketSell,
                amount: self.orders[self.idx].crypto_amount,
            },
            OrderType::Hold => Step::Record,
            OrderType::InsufficientData => Step::Record,
        }
    }

    /// Finishes a diagnostic-only order: no exchange call was made; the
    /// record to persist is the order exactly as the allocator left it.
    pub fn record_no_call(&mut self) -> (rec: NewOrder)
        requires
            old(self).wf(),
            old(self).idx < old(self).orders@.len(),
            (old(self).orders@[old(self).idx as int].order_type is Hold
                || old(self).orders@[old(self).idx as int].order_type is InsufficientData),
        ensures
            final(self).wf(),
            rec == old(self).orders@[old(self).idx as int],
            final(self).orders@ == old(self).orders@,
            final(self).idx == old(self).idx + 1,
            final(self).success_count == old(self).success_count,
            final(self).log@ == old(self).log@.push(None::<bool>),
    {
        proof {
            vstd::std_specs::vec::axiom_spec_len(&self.orders);
            assert(self.log@.push(None::<bool>).drop_last() =~= self.log@);
        }
        let rec = clone_order(&self.orders[self.idx]);
        self.idx = self.idx + 1;
        proof {
            self.log@ = self.log@.push(None);
        }
        rec
    }

    /// Finishes a submitted order: attaches the exchange's response text,
    /// and on a confirmed submission the success timestamp and the fresh
    /// rate snapshot; counts the success. The returned record is what the
    /// run persists for this order.
    pub fn record_submitted(
        &mut self,
        success: bool,
        message: String,
        success_at: Option<i64>,
        rate: Option<Rate>,
    ) -> (rec: NewOrder)
        requires
            old(self).wf(),
            old(self).idx < old(self).orders@.len(),
            (old(self).orders@[old(self).idx as int].order_type is MarketBuy
                || old(self).orders@[old(self).idx as int].order_type is MarketSell),
            success ==> success_at is Some && rate is Some,
            !success ==> success_at is None,
        ensures
            final(self).wf(),
            rec == spec_submitted_record(
                old(self).orders@[old(self).idx as int], success, message, success_at, rate,
            ),
            final(self).orders@ == old(self).orders@,
            final(self).idx == old(self).idx + 1,
            final(self).success_count == old(self).success_count + (if success { 1int } else { 0int }),
            final(self).log@ == old(self).log@.push(Some(success)),
    {
        proof {
            vstd::std_specs::vec::axiom_spec_len(&self.orders);
            assert(self.log@.push(Some(success)).drop_last() =~= self.log@);
            lemma_count_successes(self.log@);
        }
        let mut rec = clone_order(&self.orders[self.idx]);
        rec.api_message = Some(message);
        if success {
            rec.api_call_success_at = success_at;
            match rate {
                Some(r) => {
                    rec.buy_rate = Some(r.buy_rate);
                    rec.sell_rate = Some(r.sell_rate);
                    rec.spread_ratio = Some(r.spread_ratio);
                },
                None => {
                    proof {
                        assert(false);
                    }
                },
            }
            self.success_count = self.success_count + 1;
        }
        self.idx = self.idx + 1;
        proof {
            self.log@ = self.log@.push(Some(success));
        }
        rec
    }

    /// Whether every order of the run is processed.
    pub fn finished(&self) -> (r: bool)
        ensures
            r == (self.idx == self.orders@.len()),
    {
        self.idx == self.orders.len()
    }

    /// Whether the run owes a summary report: it does exactly when at
    /// least one submission was confirmed.
    pub fn should_summarize(&self) -> (r: bool)
        ensures
            r == (self.success_count > 0),
    {
        self.success_count > 0
    }

    /// The summary trigger law: once every order is processed, a summary
    /// is owed if and only if some processed order was a confirmed
    /// submission; with no confirmed order, none is owed.
    pub proof fn lemma_summary_trigger(self)
        requires
            self.wf(),
        ensures
            self.success_count > 0 <==> exists|i: int|
                0 <= i < self.log@.len() && self.log@[i] == Some(true),
    {
        lemma_count_successes(self.log@);
    }
}

/// A field-for-field copy of an order record.
pub fn clone_order(o: &NewOrder) -> (r: NewOrder)
    ensures
        r == *o,
{
    NewOrder {
        rate: o.rate,
        pair: o.pair.clone(),
        order_type: o.order_type,
        crypto_amount: o.crypto_amount,
        jpy_amount: o.jpy_amount,
        buy_rate: o.buy_rate,
        sell_rate: o.sell_rate,
        spread_ratio: o.spread_ratio,
        spread_threshold: o.spread_threshold,
        ma_short: o.ma_short,
        ma_long: o.ma_long,
        ma_win_rate: o.ma_win_rate,
        reason: o.reason,
        api_message: clone_opt_string(&o.api_message),
        api_call_success_at: o.api_call_success_at,
    }
}

/// A copy of an optional string.
fn clone_opt_string(s: &Option<String>) -> (r: Option<String>)
    ensures
        r == *s,
{
    match s {
        Some(v) => Some(v.clone()),
        None => None,
    }
}

} // verus!
