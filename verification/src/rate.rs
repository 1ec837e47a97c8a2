//! Exchange rate quotations.
//!
//! The exchange answers rate queries with a decimal literal in a string;
//! [`FetchRate::to_amount`] parses it into a scaled amount exactly. A
//! [`Rate`] couples the buy and sell quotations of a currency with their
//! relative spread.

use vstd::prelude::*;
use crate::error::AppError;
use crate::fixed::{fits_i64, SCALE};
use crate::spread::{relative_spread, spec_spread_checked};

verus! {

/// Whether `c` is a decimal digit.
pub open spec fn is_digit(c: char) -> bool {
    '0' <= c && c <= '9'
}

/// The numeric value of a digit.
pub open spec fn digit_val(c: char) -> int
    recommends is_digit(c),
{
    c as u32 - '0' as u32
}

/// Whether every character of `s` is a digit.
pub open spec fn all_digits(s: Seq<char>) -> bool {
    forall|i: int| 0 <= i < s.len() ==> is_digit(#[trigger] s[i])
}

/// Ten to the `e`-th power.
pub open spec fn pow10(e: int) -> int
    decreases e,
{
    if e <= 0 {
        1
    } else {
        10 * pow10(e - 1)
    }
}

/// The small powers of ten, spelled out.
pub proof fn lemma_pow10_small()
    ensures
        pow10(0) == 1,
        pow10(1) == 10,
        pow10(2) == 100,
        pow10(3) == 1000,
        pow10(4) == 10000,
        pow10(5) == 100000,
        pow10(6) == 1000000,
{
    reveal_with_fuel(pow10, 8);
}

/// Powers of ten grow with the exponent.
pub proof fn lemma_pow10_mono(a: int, b: int)
    requires
        a <= b,
    ensures
        pow10(a) <= pow10(b),
    decreases (if b > 0 { b } else { 0 }),
{
    if b > 0 && a < b {
        lemma_pow10_mono(a, b - 1);
        lemma_pow10_pos(b - 1);
    }
}

/// The value of a digit string read in base ten.
pub open spec fn digits_value(s: Seq<char>) -> int
    decreases s.len(),
{
    if s.len() == 0 {
        0
    } else {
        digits_value(s.drop_last()) * 10 + digit_val(s.last())
    }
}

/// A digit string's value is non-negative and below ten to its length.
pub proof fn lemma_digits_value_bounds(s: Seq<char>)
    requires
        all_digits(s),
    ensures
        0 <= digits_value(s) < pow10(s.len() as int),
    decreases s.len(),
{
    if s.len() > 0 {
        assert(all_digits(s.drop_last()));
        assert(is_digit(s[s.len() - 1]));
        lemma_digits_value_bounds(s.drop_last());
    }
}

/// Reading more digits never shrinks the value.
pub proof fn lemma_digits_value_prefix(s: Seq<char>, i: int)
    requires
        all_digits(s),
        0 <= i <= s.len(),
    ensures
        digits_value(s.take(i)) <= digits_value(s),
    decreases s.len(),
{
    if i < s.len() {
        assert(all_digits(s.drop_last()));
        assert(s.drop_last().take(i) =~= s.take(i));
        lemma_digits_value_prefix(s.drop_last(), i);
        assert(is_digit(s[s.len() - 1]));
        lemma_digits_value_bounds(s.drop_last());
    } else {
        assert(s.take(i) =~= s);
    }
}

/// The first position of a dot at or after `i`, if any.
pub open spec fn first_dot_from(s: Seq<char>, i: int) -> Option<int>
    decreases s.len() - i,
{
    if i < 0 || i >= s.len() {
        None
    } else if s[i] == '.' {
        Some(i)
    } else {
        first_dot_from(s, i + 1)
    }
}

/// Whether `s` is a plain decimal literal: digits, at most one dot, and at
/// least one digit on each side of it.
pub open spec fn spec_valid_decimal(s: Seq<char>) -> bool {
    match first_dot_from(s, 0) {
        None => s.len() > 0 && all_digits(s),
        Some(d) => {
            &&& 0 < d < s.len() - 1
            &&& all_digits(s.take(d))
            &&& all_digits(s.skip(d + 1))
        },
    }
}

/// The scaled value of the fractional digit string: its first six digits,
/// padded with zeroes to six places.
pub open spec fn spec_frac_scaled(frac: Seq<char>) -> int {
    if frac.len() >= 6 {
        digits_value(frac.take(6))
    } else {
        digits_value(frac) * pow10(6 - frac.len())
    }
}

/// The exact scaled value of a valid decimal literal, the fraction
/// truncated at the sixth place.
pub open spec fn spec_decimal_value(s: Seq<char>) -> int
    recommends spec_valid_decimal(s),
{
    match first_dot_from(s, 0) {
        None => digits_value(s) * SCALE as int,
        Some(d) => digits_value(s.take(d)) * SCALE as int + spec_frac_scaled(s.skip(d + 1)),
    }
}

/// What parsing a rate string yields: the exact scaled value of a valid
/// decimal literal, `InvalidData` for any other shape, `Overflow` where
/// the value leaves the scaled range.
pub open spec fn spec_parse_scaled(s: Seq<char>) -> Result<i64, AppError> {
    if !spec_valid_decimal(s) {
        Err(AppError::InvalidData)
    } else if !fits_i64(spec_decimal_value(s)) {
        Err(AppError::Overflow)
    } else {
        Ok(spec_decimal_value(s) as i64)
    }
}

/// A raw rate quotation as the exchange sends it.
#[derive(Clone, Debug, PartialEq, Eq)]
pub struct FetchRate {
    /// The quoted rate, a decimal literal.
    pub rate: String,
}

/// The bookkeeping the parsing loops carry: how the integer and fraction
/// slices relate to the literal and where its dot sits.
spec fn layout(s: Seq<char>, n: int, int_len: int, frac_start: int, int_part: Seq<char>, frac_part: Seq<char>) -> bool {
    &&& (match first_dot_from(s, 0) {
        None => int_len == n && frac_start == n && n > 0,
        Some(d) => int_len == d && frac_start == d + 1 && 0 < d && d + 1 < n,
    })
    &&& n == s.len()
    &&& int_len <= n
    &&& frac_start <= n
    &&& int_part == s.take(int_len)
    &&& frac_part == s.skip(frac_start)
}

/// Scanning past a non-dot character does not change the first dot.
proof fn lemma_first_dot_step(s: Seq<char>, i: int)
    requires
        0 <= i < s.len(),
        s[i] != '.',
    ensures
        first_dot_from(s, i) == first_dot_from(s, i + 1),
{
}

/// The value of the digits seen so far, extended by one digit.
proof fn lemma_digits_value_step(s: Seq<char>, i: int)
    requires
        0 <= i < s.len(),
    ensures
        digits_value(s.take(i + 1)) == digits_value(s.take(i)) * 10 + digit_val(s[i]),
{
    assert(s.take(i + 1).drop_last() =~= s.take(i));
    assert(s.take(i + 1).last() == s[i]);
}

impl FetchRate {
    /// The quotation as an exact scaled amount.
    pub fn to_amount(&self) -> (r: Result<i64, AppError>)
        ensures
            r == spec_parse_scaled(self.rate@),
    {
        let s = self.rate.as_str();
        parse_scaled(s)
    }
}

/// Parses a decimal literal into an exact scaled amount.
pub fn parse_scaled(s: &str) -> (r: Result<i64, AppError>)
    ensures
        r == spec_parse_scaled(s@),
{
    let n: usize = s.unicode_len();
    // locate the first dot
    let mut i: usize = 0;
    let mut dot: Option<usize> = None;
    while i < n
        invariant_except_break
            dot is None,
            first_dot_from(s@, 0) == first_dot_from(s@, i as int),
        invariant
            0 <= i <= n,
            n == s@.len(),
        ensures
            0 <= i <= n,
            n == s@.len(),
            (dot matches Some(d) ==> first_dot_from(s@, 0) == Some(d as int) && d < n),
            (dot is None ==> i == n && first_dot_from(s@, 0) is None),
        decreases n - i,
    {
        let c = s.get_char(i);
        if c == '.' {
            dot = Some(i);
            break;
        }
        proof {
            lemma_first_dot_step(s@, i as int);
        }
        i = i + 1;
    }
    // validate the shape
    let (int_len, frac_start): (usize, usize) = match dot {
        None => {
            if n == 0 {
                return Err(AppError::InvalidData);
            }
            (n, n)
        },
        Some(d) => {
            if d == 0 || d + 1 >= n {
                return Err(AppError::InvalidData);
            }
            (d, d + 1)
        },
    };
    let ghost int_part = s@.take(int_len as int);
    let ghost frac_part = s@.skip(frac_start as int);
    proof {
        assert(layout(s@, n as int, int_len as int, frac_start as int, int_part, frac_part));
    }
    let mut k: usize = 0;
    while k < int_len
        invariant
            0 <= k <= int_len <= n,
            layout(s@, n as int, int_len as int, frac_start as int, int_part, frac_part),
            forall|m: int| 0 <= m < k ==> is_digit(#[trigger] int_part[m]),
        decreases int_len - k,
    {
        let c = s.get_char(k);
        if !(c >= '0' && c <= '9') {
            proof {
                assert(0 <= k < int_part.len() && !is_digit(int_part[k as int]));
                assert(!all_digits(int_part));
                assert(s@.take(n as int) =~= s@);
            }
            return Err(AppError::InvalidData);
        }
        k = k + 1;
    }
    let mut k2: usize = frac_start;
    while k2 < n
        invariant
            frac_start <= k2 <= n,
            layout(s@, n as int, int_len as int, frac_start as int, int_part, frac_part),
            all_digits(int_part),
            forall|m: int| 0 <= m < k2 - frac_start ==> is_digit(#[trigger] frac_part[m]),
        decreases n - k2,
    {
        let c = s.get_char(k2);
        if !(c >= '0' && c <= '9') {
            proof {
                assert(frac_part[k2 - frac_start] == s@[k2 as int]);
                assert(!all_digits(frac_part));
            }
            return Err(AppError::InvalidData);
        }
        k2 = k2 + 1;
    }
    proof {
        assert(all_digits(int_part));
        assert(all_digits(frac_part));
        assert(s@.take(n as int) =~= s@);
        assert(spec_valid_decimal(s@));
    }
    // integer part
    let mut acc: u128 = 0;
    let mut p: usize = 0;
    proof {
        assert(int_part.take(0) =~= Seq::<char>::empty());
    }
    while p < int_len
        invariant
            0 <= p <= int_len <= n,
            layout(s@, n as int, int_len as int, frac_start as int, int_part, frac_part),
            spec_valid_decimal(s@),
            all_digits(int_part),
            acc == digits_value(int_part.take(p as int)),
        decreases int_len - p,
    {
        proof {
            assert(int_part[p as int] == s@[p as int]);
            lemma_digits_value_step(int_part, p as int);
        }
        let c = s.get_char(p);
        let d: u128 = (c as u32 - '0' as u32) as u128;
        let stepped: Option<u128> = match acc.checked_mul(10) {
            Some(t) => t.checked_add(d),
            None => None,
        };
        match stepped {
            Some(t) => {
                acc = t;
            },
            None => {
                proof {
                    lemma_overflow_implies_large(s@, int_len as int, frac_start as int, p as int);
                }
                return Err(AppError::Overflow);
            },
        }
        p = p + 1;
    }
    proof {
        assert(int_part.take(int_len as int) =~= int_part);
    }
    // fractional part, first six digits padded to six places
    let frac_len: usize = n - frac_start;
    let used: usize = if frac_len >= 6 {
        6
    } else {
        frac_len
    };
    let mut facc: u128 = 0;
    let mut q: usize = 0;
    proof {
        assert(frac_part.take(0) =~= Seq::<char>::empty());
    }
    while q < used
        invariant
            0 <= q <= used <= 6,
            used <= frac_len,
            frac_len == n - frac_start,
            frac_start <= n,
            layout(s@, n as int, int_len as int, frac_start as int, int_part, frac_part),
            all_digits(frac_part),
            facc == digits_value(frac_part.take(q as int)),
            facc < 1000000,
        decreases used - q,
    {
        proof {
            assert(frac_part[q as int] == s@[frac_start + q as int]);
            lemma_digits_value_step(frac_part, q as int);
            assert(all_digits(frac_part.take(q as int)));
            lemma_digits_value_bounds(frac_part.take(q as int));
            lemma_pow10_small();
            lemma_pow10_mono(q as int, 5);
        }
        let c = s.get_char(frac_start + q);
        let d: u128 = (c as u32 - '0' as u32) as u128;
        facc = facc * 10 + d;
        q = q + 1;
    }
    proof {
        if frac_len < 6 {
            assert(frac_part.take(used as int) =~= frac_part);
            lemma_digits_value_bounds(frac_part);
            lemma_frac_pad_bound(frac_part);
            lemma_pow10_pos(6 - frac_len as int);
        }
    }
    let frac_scaled: u128 = if frac_len >= 6 {
        facc
    } else {
        let pw: u128 = pow10_u128(6 - frac_len);
        proof {
            let v = facc as int;
            let pi = pw as int;
            assert(v * pi < 1000000 && v * pi >= 0) by (nonlinear_arith)
                requires
                    v == digits_value(frac_part),
                    pi == pow10(6 - frac_part.len()),
                    frac_part.len() < 6,
                    digits_value(frac_part) * pow10(6 - frac_part.len()) < 1000000,
                    v >= 0,
                    pi >= 1,
            ;
        }
        facc * pw
    };
    proof {
        if frac_len >= 6 {
            assert(frac_part.take(used as int) == frac_part.take(6));
            lemma_digits_value_bounds(frac_part.take(6));
            lemma_pow10_small();
        } else {
            assert(frac_part.take(used as int) =~= frac_part);
        }
        assert(frac_scaled == spec_frac_scaled(frac_part));
        assert(frac_scaled < 1000000);
    }
    // combine
    let total: u128 = match acc.checked_mul(SCALE as u128) {
        Some(t) => match t.checked_add(frac_scaled) {
            Some(t2) => t2,
            None => {
                proof {
                    lemma_digits_value_bounds(int_part);
                }
                return Err(AppError::Overflow);
            },
        },
        None => {
            proof {
                lemma_digits_value_bounds(int_part);
            }
            return Err(AppError::Overflow);
        },
    };
    if total > i64::MAX as u128 {
        Err(AppError::Overflow)
    } else {
        Ok(total as i64)
    }
}

/// Ten to the `e`-th power, for small `e`.
fn pow10_u128(e: usize) -> (r: u128)
    requires
        e <= 6,
    ensures
        r == pow10(e as int),
{
    proof {
        lemma_pow10_small();
    }
    match e {
        0 => 1,
        1 => 10,
        2 => 100,
        3 => 1000,
        4 => 10000,
        5 => 100000,
        _ => 1000000,
    }
}

/// A short fraction padded to six places stays below one whole unit.
proof fn lemma_frac_pad_bound(frac: Seq<char>)
    requires
        all_digits(frac),
        frac.len() < 6,
    ensures
        digits_value(frac) * pow10(6 - frac.len()) < 1000000,
{
    lemma_digits_value_bounds(frac);
    let l = frac.len() as int;
    let v = digits_value(frac);
    let p = pow10(6 - l);
    lemma_pow10_pos(6 - l);
    assert(pow10(l) * pow10(6 - l) == 1000000) by {
        lemma_pow10_add(l, 6 - l);
        lemma_pow10_small();
    }
    assert(v * p <= (pow10(l) - 1) * p) by (nonlinear_arith)
        requires
            v <= pow10(l) - 1,
            p >= 1,
    ;
    assert((pow10(l) - 1) * p == pow10(l) * p - p) by (nonlinear_arith);
}

/// Powers of ten multiply by adding exponents.
proof fn lemma_pow10_add(a: int, b: int)
    requires
        a >= 0,
        b >= 0,
    ensures
        pow10(a) * pow10(b) == pow10(a + b),
    decreases a,
{
    if a == 0 {
    } else {
        lemma_pow10_add(a - 1, b);
        assert((10 * pow10(a - 1)) * pow10(b) == 10 * (pow10(a - 1) * pow10(b))) by (nonlinear_arith);
    }
}

/// Ten to any non-negative power is positive.
proof fn lemma_pow10_pos(e: int)
    ensures
        pow10(e) >= 1,
    decreases (if e > 0 { e } else { 0 }),
{
    if e > 0 {
        lemma_pow10_pos(e - 1);
    }
}

/// If the integer digits up to `p` already exceed the accumulator range,
/// the whole literal's value exceeds the scaled range.
proof fn lemma_overflow_implies_large(s: Seq<char>, int_len: int, frac_start: int, p: int)
    requires
        spec_valid_decimal(s),
        first_dot_from(s, 0) is None ==> int_len == s.len() && frac_start == s.len(),
        first_dot_from(s, 0) matches Some(d) ==> int_len == d && frac_start == d + 1,
        0 <= p < int_len,
        digits_value(s.take(int_len).take(p)) * 10 + digit_val(s.take(int_len)[p]) > u128::MAX as int,
    ensures
        !fits_i64(spec_decimal_value(s)),
{
    let int_part = s.take(int_len);
    assert(all_digits(int_part));
    lemma_digits_value_step(int_part, p);
    lemma_digits_value_prefix(int_part, p + 1);
    assert(digits_value(int_part) > u128::MAX as int);
    assert(digits_value(int_part) * SCALE as int >= digits_value(int_part)) by (nonlinear_arith)
        requires
            digits_value(int_part) > 0,
    ;
    match first_dot_from(s, 0) {
        None => {
            assert(s.take(int_len) =~= s);
        },
        Some(d) => {
            assert(all_digits(s.skip(d + 1)));
            if s.skip(d + 1).len() >= 6 {
                lemma_digits_value_bounds(s.skip(d + 1).take(6));
            } else {
                lemma_digits_value_bounds(s.skip(d + 1));
                lemma_pow10_pos(6 - s.skip(d + 1).len());
                assert(digits_value(s.skip(d + 1)) * pow10(6 - s.skip(d + 1).len()) >= 0)
                    by (nonlinear_arith)
                    requires
                        digits_value(s.skip(d + 1)) >= 0,
                        pow10(6 - s.skip(d + 1).len()) >= 1,
                ;
            }
        },
    }
}

/// A currency's buy and sell quotations with their relative spread, as a
/// scaled percentage of the sell rate.
#[derive(Clone, Debug, PartialEq, Eq)]
pub struct Rate {
    /// Currency the quotations are for.
    pub currency: String,
    /// Rate a buy executes at.
    pub buy_rate: i64,
    /// Rate a sell executes at.
    pub sell_rate: i64,
    /// Relative spread of the two, scaled percent of the sell rate.
    pub spread_ratio: i64,
}

impl Rate {
    /// Couples two quotations with their relative spread.
    pub fn new(currency: String, buy_rate: i64, sell_rate: i64) -> (r: Result<Rate, AppError>)
        ensures
            (r matches Ok(rate) ==> {
                &&& spec_spread_checked(sell_rate as int, buy_rate as int) == Ok::<i64, AppError>(rate.spread_ratio)
                &&& rate.currency == currency
                &&& rate.buy_rate == buy_rate
                &&& rate.sell_rate == sell_rate
            }),
            (r matches Err(e) ==> spec_spread_checked(sell_rate as int, buy_rate as int) == Err::<i64, AppError>(e)),
    {
        match relative_spread(sell_rate, buy_rate) {
            Ok(spread_ratio) => Ok(Rate { currency, buy_rate, sell_rate, spread_ratio }),
            Err(e) => Err(e),
        }
    }
}

} // verus!
