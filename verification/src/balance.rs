//! Account balances.
//!
//! The exchange's balance listing, parsed into plain entries by the
//! surrounding process. The engine picks out of it the owned currencies,
//! the managed ones, and the tradable ones, and looks single balances up.

use vstd::prelude::*;

verus! {

/// One currency's available balance, scaled.
#[derive(Clone, Debug, PartialEq, Eq)]
pub struct Balance {
    /// The currency.
    pub currency: String,
    /// Available amount, scaled.
    pub amount: i64,
}

/// Whether `needle` occurs contiguously in `hay`.
pub open spec fn contains_seq(hay: Seq<char>, needle: Seq<char>) -> bool {
    exists|i: int| 0 <= i && i + needle.len() <= hay.len()
        && #[trigger] hay.subrange(i, i + needle.len()) == needle
}

/// Whether two string slices hold the same characters.
pub fn str_eq(a: &str, b: &str) -> (r: bool)
    ensures
        r == (a@ == b@),
{
    let al: usize = a.unicode_len();
    let bl: usize = b.unicode_len();
    if al != bl {
        return false;
    }
    let mut i: usize = 0;
    while i < al
        invariant
            0 <= i <= al,
            al == a@.len(),
            al == b@.len(),
            forall|m: int| 0 <= m < i ==> a@[m] == b@[m],
        decreases al - i,
    {
        if a.get_char(i) != b.get_char(i) {
            return false;
        }
        i = i + 1;
    }
    proof {
        assert(a@ =~= b@);
    }
    true
}

/// Whether `needle` occurs contiguously in `hay`.
pub fn contains_substr(hay: &str, needle: &str) -> (r: bool)
    ensures
        r == contains_seq(hay@, needle@),
{
    let hl: usize = hay.unicode_len();
    let nl: usize = needle.unicode_len();
    if nl > hl {
        return false;
    }
    if nl == 0 {
        proof {
            assert(hay@.subrange(0int, 0int + needle@.len() as int) =~= needle@);
        }
        return true;
    }
    let mut i: usize = 0;
    while i <= hl - nl
        invariant
            0 <= i <= hl - nl + 1,
            0 < nl <= hl,
            hl == hay@.len(),
            nl == needle@.len(),
            forall|j: int| 0 <= j < i ==> #[trigger] hay@.subrange(j, j + needle@.len()) != needle@,
        decreases hl - nl + 1 - i,
    {
        let mut k: usize = 0;
        let mut matched: bool = true;
        while k < nl
            invariant_except_break
                matched,
            invariant
                0 <= k <= nl,
                nl <= hl,
                i + nl <= hl,
                hl == hay@.len(),
                nl == needle@.len(),
                matched ==> forall|m: int| 0 <= m < k ==> hay@[i + m] == needle@[m],
                !matched ==> hay@.subrange(i as int, i + needle@.len()) != needle@,
            ensures
                matched ==> forall|m: int| 0 <= m < nl ==> hay@[i + m] == needle@[m],
                !matched ==> hay@.subrange(i as int, i + needle@.len()) != needle@,
            decreases nl - k,
        {
            if hay.get_char(i + k) != needle.get_char(k) {
                proof {
                    assert(hay@.subrange(i as int, i + needle@.len())[k as int] == hay@[i + k]);
                }
                matched = false;
                break;
            }
            k = k + 1;
        }
        if matched {
            proof {
                assert(hay@.subrange(i as int, i + needle@.len()) =~= needle@);
            }
            return true;
        }
        i = i + 1;
    }
    proof {
        assert forall|j: int| !(0 <= j && j + needle@.len() <= hay@.len()
            && #[trigger] hay@.subrange(j, j + needle@.len()) == needle@) by {
            if 0 <= j && j + needle@.len() <= hay@.len() {
                assert(j < i);
            }
        }
    }
    false
}

/// The currencies with a non-zero balance.
pub open spec fn spec_my_currencies(bs: Seq<Balance>) -> Seq<String>
    decreases bs.len(),
{
    if bs.len() == 0 {
        Seq::empty()
    } else if bs.last().amount != 0 {
        spec_my_currencies(bs.drop_last()).push(bs.last().currency)
    } else {
        spec_my_currencies(bs.drop_last())
    }
}

/// The currencies with a non-zero balance outside the reserved-purchase
/// wallets.
pub open spec fn spec_my_managed_currencies(bs: Seq<Balance>) -> Seq<String>
    decreases bs.len(),
{
    if bs.len() == 0 {
        Seq::empty()
    } else if bs.last().amount != 0 && !contains_seq(bs.last().currency@, "tumitate"@) {
        spec_my_managed_currencies(bs.drop_last()).push(bs.last().currency)
    } else {
        spec_my_managed_currencies(bs.drop_last())
    }
}

/// The tradable crypto currencies: a non-zero balance, neither a
/// reserved-purchase wallet nor the fiat currency.
pub open spec fn spec_my_trading_currencies(bs: Seq<Balance>) -> Seq<String>
    decreases bs.len(),
{
    if bs.len() == 0 {
        Seq::empty()
    } else if bs.last().amount != 0 && !contains_seq(bs.last().currency@, "tsumitate"@)
        && !contains_seq(bs.last().currency@, "jpy"@) {
        spec_my_trading_currencies(bs.drop_last()).push(bs.last().currency)
    } else {
        spec_my_trading_currencies(bs.drop_last())
    }
}

/// The currencies with a non-zero balance, in listing order.
pub fn my_currencies(balances: &Vec<Balance>) -> (r: Vec<String>)
    ensures
        r@ == spec_my_currencies(balances@),
{
    let mut out: Vec<String> = Vec::new();
    let mut i: usize = 0;
    proof {
        assert(balances@.take(0) =~= Seq::<Balance>::empty());
    }
    while i < balances.len()
        invariant
            0 <= i <= balances@.len(),
            out@ == spec_my_currencies(balances@.take(i as int)),
        decreases balances.len() - i,
    {
        proof {
            assert(balances@.take(i + 1).drop_last() =~= balances@.take(i as int));
            assert(balances@.take(i + 1).last() == balances@[i as int]);
        }
        if balances[i].amount != 0 {
            out.push(balances[i].currency.clone());
        }
        i = i + 1;
    }
    proof {
        assert(balances@.take(balances@.len() as int) =~= balances@);
    }
    out
}

/// The managed currencies: a non-zero balance outside the
/// reserved-purchase wallets, in listing order.
pub fn my_managed_currencies(balances: &Vec<Balance>) -> (r: Vec<String>)
    ensures
        r@ == spec_my_managed_currencies(balances@),
{
    let mut out: Vec<String> = Vec::new();
    let mut i: usize = 0;
    proof {
        assert(balances@.take(0) =~= Seq::<Balance>::empty());
    }
    while i < balances.len()
        invariant
            0 <= i <= balances@.len(),
            out@ == spec_my_managed_currencies(balances@.take(i as int)),
        decreases balances.len() - i,
    {
        proof {
            assert(balances@.take(i + 1).drop_last() =~= balances@.take(i as int));
            assert(balances@.take(i + 1).last() == balances@[i as int]);
        }
        if balances[i].amount != 0 && !contains_substr(balances[i].currency.as_str(), "tumitate") {
            out.push(balances[i].currency.clone());
        }
        i = i + 1;
    }
    proof {
        assert(balances@.take(balances@.len() as int) =~= balances@);
    }
    out
}

/// The tradable crypto currencies, in listing order.
pub fn my_trading_currencies(balances: &Vec<Balance>) -> (r: Vec<String>)
    ensures
        r@ == spec_my_trading_currencies(balances@),
{
    let mut out: Vec<String> = Vec::new();
    let mut i: usize = 0;
    proof {
        assert(balances@.take(0) =~= Seq::<Balance>::empty());
    }
    while i < balances.len()
        invariant
            0 <= i <= balances@.len(),
            out@ == spec_my_trading_currencies(balances@.take(i as int)),
        decreases balances.len() - i,
    {
        proof {
            assert(balances@.take(i + 1).drop_last() =~= balances@.take(i as int));
            assert(balances@.take(i + 1).last() == balances@[i as int]);
        }
        if balances[i].amount != 0
            && !contains_substr(balances[i].currency.as_str(), "tsumitate")
            && !contains_substr(balances[i].currency.as_str(), "jpy") {
            out.push(balances[i].currency.clone());
        }
        i = i + 1;
    }
    proof {
        assert(balances@.take(balances@.len() as int) =~= balances@);
    }
    out
}

/// The balance of `name` from position `i` on: the first matching entry's
/// amount, or zero where none is listed.
pub open spec fn spec_balance_from(bs: Seq<Balance>, name: Seq<char>, i: int) -> i64
    decreases bs.len() - i,
{
    if i < 0 || i >= bs.len() {
        0
    } else if bs[i].currency@ == name {
        bs[i].amount
    } else {
        spec_balance_from(bs, name, i + 1)
    }
}

/// The first listed balance of the currency named `name`, or zero where
/// none is listed.
pub fn get_crypto_balance(balances: &Vec<Balance>, name: &str) -> (r: i64)
    ensures
        r == spec_balance_from(balances@, name@, 0),
{
    let mut i: usize = 0;
    while i < balances.len()
        invariant
            0 <= i <= balances@.len(),
            spec_balance_from(balances@, name@, 0) == spec_balance_from(balances@, name@, i as int),
        decreases balances.len() - i,
    {
        if str_eq(balances[i].currency.as_str(), name) {
            return balances[i].amount;
        }
        i = i + 1;
    }
    0
}

/// The fiat balance: the first listed balance of the fiat currency, or
/// zero where none is listed.
pub fn get_jpy_balance(balances: &Vec<Balance>) -> (r: i64)
    ensures
        r == spec_balance_from(balances@, "jpy"@, 0),
{
    get_crypto_balance(balances, "jpy")
}

} // verus!
