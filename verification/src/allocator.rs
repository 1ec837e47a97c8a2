//! Capital allocator.
//!
//! Turns the per-currency signals of a run into sized orders: a tiered
//! curve picks what fraction of the fiat balance to deploy, every buy
//! receives the same share of it, and the order list is re-sequenced so
//! all sells precede everything else, stably.

use vstd::prelude::*;
use vstd::multiset::Multiset;
use vstd::seq_lib::lemma_multiset_commutative;
use crate::config::Config;
use crate::error::AppError;
use crate::fixed::{fits_i64, lemma_tdiv_abs, mul_scaled, tdiv, tdiv_i128, SCALE};
use crate::order::{NewOrder, OrderType};

verus! {

/// Whether a record is a sell order.
pub open spec fn is_sell(o: NewOrder) -> bool {
    o.order_type is MarketSell
}

/// Whether a record is a buy order.
pub open spec fn is_buy(o: NewOrder) -> bool {
    o.order_type is MarketBuy
}

/// Number of buy orders in a record list.
pub open spec fn spec_buy_count(s: Seq<NewOrder>) -> int
    decreases s.len(),
{
    if s.len() == 0 {
        0
    } else {
        spec_buy_count(s.drop_last()) + if is_buy(s.last()) { 1int } else { 0int }
    }
}

/// The buy count never exceeds the list length.
pub proof fn lemma_buy_count_bounds(s: Seq<NewOrder>)
    ensures
        0 <= spec_buy_count(s) <= s.len(),
    decreases s.len(),
{
    if s.len() > 0 {
        lemma_buy_count_bounds(s.drop_last());
    }
}

/// A buy receives the pooled per-currency fiat amount; everything else is
/// already sized.
pub open spec fn spec_size_order(o: NewOrder, per: i64) -> NewOrder {
    if is_buy(o) {
        NewOrder { jpy_amount: per, ..o }
    } else {
        o
    }
}

/// Every buy in the list sized with `per`.
pub open spec fn spec_sized(s: Seq<NewOrder>, per: i64) -> Seq<NewOrder> {
    s.map_values(|o: NewOrder| spec_size_order(o, per))
}

/// The sell orders of the list, in their original order.
pub open spec fn sells_of(s: Seq<NewOrder>) -> Seq<NewOrder>
    decreases s.len(),
{
    if s.len() == 0 {
        s
    } else if is_sell(s.last()) {
        sells_of(s.drop_last()).push(s.last())
    } else {
        sells_of(s.drop_last())
    }
}

/// The non-sell orders of the list, in their original order.
pub open spec fn others_of(s: Seq<NewOrder>) -> Seq<NewOrder>
    decreases s.len(),
{
    if s.len() == 0 {
        s
    } else if !is_sell(s.last()) {
        others_of(s.drop_last()).push(s.last())
    } else {
        others_of(s.drop_last())
    }
}

/// The list re-sequenced for submission: all sells first, then the rest,
/// each side keeping its original order.
pub open spec fn spec_sequenced(s: Seq<NewOrder>) -> Seq<NewOrder> {
    sells_of(s) + others_of(s)
}

/// Everything `sells_of` keeps is a sell; everything `others_of` keeps is
/// not.
pub proof fn lemma_partition_sound(s: Seq<NewOrder>)
    ensures
        forall|i: int| 0 <= i < sells_of(s).len() ==> is_sell(#[trigger] sells_of(s)[i]),
        forall|i: int| 0 <= i < others_of(s).len() ==> !is_sell(#[trigger] others_of(s)[i]),
    decreases s.len(),
{
    if s.len() > 0 {
        lemma_partition_sound(s.drop_last());
        assert forall|i: int| 0 <= i < sells_of(s).len() implies is_sell(#[trigger] sells_of(s)[i]) by {
            if is_sell(s.last()) {
                if i < sells_of(s).len() - 1 {
                    assert(sells_of(s)[i] == sells_of(s.drop_last())[i]);
                }
            } else {
                assert(sells_of(s)[i] == sells_of(s.drop_last())[i]);
            }
        }
        assert forall|i: int| 0 <= i < others_of(s).len() implies !is_sell(#[trigger] others_of(s)[i]) by {
            if !is_sell(s.last()) {
                if i < others_of(s).len() - 1 {
                    assert(others_of(s)[i] == others_of(s.drop_last())[i]);
                }
            } else {
                assert(others_of(s)[i] == others_of(s.drop_last())[i]);
            }
        }
    }
}

/// Re-sequencing loses nothing and adds nothing: the sells-first list
/// holds exactly the records of the input.
pub proof fn lemma_sequenced_multiset(s: Seq<NewOrder>)
    ensures
        spec_sequenced(s).to_multiset() =~= s.to_multiset(),
    decreases s.len(),
{
    broadcast use vstd::seq_lib::group_to_multiset_ensures;

    lemma_multiset_commutative(sells_of(s), others_of(s));
    if s.len() == 0 {
        assert(spec_sequenced(s) =~= s);
    } else {
        lemma_sequenced_multiset(s.drop_last());
        lemma_multiset_commutative(sells_of(s.drop_last()), others_of(s.drop_last()));
        assert(s =~= s.drop_last().push(s.last()));
    }
}

/// In the re-sequenced list no sell stands after a non-sell: every sell
/// precedes every buy. This is the submission order the orchestrator
/// walks.
pub proof fn lemma_sells_precede(s: Seq<NewOrder>, i: int, j: int)
    requires
        0 <= i < j < spec_sequenced(s).len(),
        !is_sell(spec_sequenced(s)[i]),
    ensures
        !is_sell(spec_sequenced(s)[j]),
{
    lemma_partition_sound(s);
}

/// The deployment ratio the tiered curve selects for a fiat balance: the
/// ratio of the first breakpoint the balance is strictly below, or the
/// default above every breakpoint.
pub open spec fn spec_buy_ratio(cfg: Config, jpy_balance: i64) -> i64 {
    if jpy_balance < cfg.buy_threshold_1 {
        cfg.buy_ratio_1
    } else if jpy_balance < cfg.buy_threshold_2 {
        cfg.buy_ratio_2
    } else if jpy_balance < cfg.buy_threshold_3 {
        cfg.buy_ratio_3
    } else {
        cfg.buy_ratio_default
    }
}

/// The fiat each buy receives: the balance times the tier ratio, split
/// evenly over the buys; `Err` where the deployable amount leaves the
/// scaled range.
pub open spec fn spec_per_currency_fiat(cfg: Config, jpy_balance: i64, buy_count: int) -> Result<i64, AppError>
    recommends buy_count > 0,
{
    let deployable = tdiv(jpy_balance * spec_buy_ratio(cfg, jpy_balance), SCALE as int);
    if !fits_i64(deployable) {
        Err(AppError::Overflow)
    } else {
        Ok(tdiv(deployable, buy_count) as i64)
    }
}

/// Computes the per-currency fiat for `buy_count` simultaneous buys.
pub fn get_buy_ratio(cfg: &Config, jpy_balance: i64, buy_count: usize) -> (r: Result<i64, AppError>)
    requires
        buy_count > 0,
    ensures
        r == spec_per_currency_fiat(*cfg, jpy_balance, buy_count as int),
{
    let ratio: i64 = if jpy_balance < cfg.buy_threshold_1 {
        cfg.buy_ratio_1
    } else if jpy_balance < cfg.buy_threshold_2 {
        cfg.buy_ratio_2
    } else if jpy_balance < cfg.buy_threshold_3 {
        cfg.buy_ratio_3
    } else {
        cfg.buy_ratio_default
    };
    match mul_scaled(jpy_balance, ratio) {
        None => Err(AppError::Overflow),
        Some(deployable) => {
            proof {
                lemma_tdiv_abs(deployable as int, buy_count as int);
            }
            Ok(tdiv_i128(deployable as i128, buy_count as i128) as i64)
        },
    }
}

/// What the allocator owes: with no buys, the input merely re-sequenced;
/// else every buy sized with the per-currency fiat, then re-sequenced;
/// `Err` exactly where the deployable fiat leaves the scaled range.
pub open spec fn spec_allocate(cfg: Config, orders: Seq<NewOrder>, jpy_balance: i64) -> Result<Seq<NewOrder>, AppError> {
    if spec_buy_count(orders) == 0 {
        Ok(spec_sequenced(orders))
    } else {
        match spec_per_currency_fiat(cfg, jpy_balance, spec_buy_count(orders)) {
            Ok(per) => Ok(spec_sequenced(spec_sized(orders, per))),
            Err(e) => Err(e),
        }
    }
}

/// Sizes the run's orders against the fiat balance and sequences them for
/// submission, sells first.
pub fn allocate(orders: Vec<NewOrder>, jpy_balance: i64, cfg: &Config) -> (r: Result<Vec<NewOrder>, AppError>)
    ensures
        (r matches Ok(v) ==> spec_allocate(*cfg, orders@, jpy_balance) == Ok::<Seq<NewOrder>, AppError>(v@)),
        (r matches Err(e) ==> spec_allocate(*cfg, orders@, jpy_balance) == Err::<Seq<NewOrder>, AppError>(e)),
{
    let ghost orig = orders@;
    let mut orders = orders;
    let mut nbuys: usize = 0;
    let mut i: usize = 0;
    proof {
        assert(orig.take(0) =~= Seq::<NewOrder>::empty());
    }
    while i < orders.len()
        invariant
            orders@ == orig,
            0 <= i <= orig.len(),
            nbuys == spec_buy_count(orig.take(i as int)),
            nbuys <= i,
        decreases orders.len() - i,
    {
        proof {
            assert(orig.take(i + 1).drop_last() =~= orig.take(i as int));
            assert(orig.take(i + 1).last() == orig[i as int]);
            lemma_buy_count_bounds(orig.take(i as int));
        }
        match orders[i].order_type {
            OrderType::MarketBuy => {
                nbuys = nbuys + 1;
            },
            _ => {},
        }
        i = i + 1;
    }
    proof {
        assert(orig.take(orig.len() as int) =~= orig);
    }
    if nbuys > 0 {
        let per: i64 = match get_buy_ratio(cfg, jpy_balance, nbuys) {
            Ok(p) => p,
            Err(e) => {
                return Err(e);
            },
        };
        let mut k: usize = 0;
        while k < orders.len()
            invariant
                orders@.len() == orig.len(),
                0 <= k <= orig.len(),
                forall|m: int| 0 <= m < k ==> orders@[m] == spec_size_order(#[trigger] orig[m], per),
                forall|m: int| k <= m < orig.len() ==> orders@[m] == #[trigger] orig[m],
            decreases orders.len() - k,
        {
            match orders[k].order_type {
                OrderType::MarketBuy => {
                    orders[k].jpy_amount = per;
                },
                _ => {},
            }
            k = k + 1;
        }
        proof {
            assert(orders@ =~= spec_sized(orig, per));
        }
    }
    let ghost sized = orders@;
    let mut sells: Vec<NewOrder> = Vec::new();
    let mut others: Vec<NewOrder> = Vec::new();
    let ghost mut done: int = 0;
    proof {
        assert(sized.take(0) =~= Seq::<NewOrder>::empty());
    }
    while orders.len() > 0
        invariant
            0 <= done <= sized.len(),
            orders@ == sized.skip(done),
            sells@ == sells_of(sized.take(done)),
            others@ == others_of(sized.take(done)),
        decreases orders.len(),
    {
        proof {
            assert(sized.take(done + 1).drop_last() =~= sized.take(done));
            assert(sized.take(done + 1).last() == sized[done]);
            assert(sized.skip(done)[0] == sized[done]);
            assert(sized.skip(done).remove(0) =~= sized.skip(done + 1));
        }
        let o = orders.remove(0);
        match o.order_type {
            OrderType::MarketSell => sells.push(o),
            _ => others.push(o),
        }
        proof {
            done = done + 1;
        }
    }
    proof {
        assert(sized.take(sized.len() as int) =~= sized);
        assert(sized.skip(done) =~= Seq::<NewOrder>::empty());
    }
    let mut others = others;
    sells.append(&mut others);
    Ok(sells)
}

} // verus!

