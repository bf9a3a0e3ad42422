//! Signal parser: free trade-signal text to a structured [`TradeSignal`].
//!
//! Four grammars are tried in order, first match wins:
//! 1. option with explicit quantity: `ACTION QTY SYMBOL STRIKE[C|P] MM/DD @ PRICE`
//! 2. option without quantity (quantity defaults to 1)
//! 3. stock with explicit quantity: `ACTION QTY SYMBOL @ PRICE`
//! 4. stock without quantity (quantity defaults to 1)
//!
//! `ACTION` is `BTO` or `STC`, case-insensitive. `SYMBOL` is one to six
//! letters, kept verbatim. `PRICE` is `m`/`M` for a market order or a
//! decimal number (at most four fractional digits) for a limit order. At
//! least one space is required immediately before `@`; spaces after `@`
//! are optional. The expiry is captured as literal `MM/DD` text,
//! unvalidated against the calendar.

use vstd::prelude::*;

use crate::text::{
    is_alpha, is_digit, is_ws, digit_val, scan_digits, scan_letters, scan_ws, spec_is_digit,
    spec_digit_val, spec_to_upper, spec_trim, string_of_range, to_upper, trim_chars, chars_of,
};
use crate::types::{
    Action, OptionSignal, OptionSignalV, OrderType, StockSignal, StockSignalV, TradeSignal,
    TradeSignalV,
};

verus! {

/// Value of the digit run `s[i..j)` read as a decimal number.
pub open spec fn spec_digits_val(s: Seq<char>, i: int, j: int) -> int
    decreases j - i when i <= j
{
    if i >= j {
        0
    } else {
        spec_digits_val(s, i, j - 1) * 10 + spec_digit_val(s[j - 1])
    }
}

/// Ten to the `k`-th power.
pub open spec fn pow10(k: int) -> int
    decreases k when k >= 0
{
    if k <= 0 {
        1
    } else {
        10 * pow10(k - 1)
    }
}

/// Value of the fractional digit run `s[i..j)` in ten-thousandths, e.g.
/// `5` alone means `5000` units.
pub open spec fn spec_frac_units(s: Seq<char>, i: int, j: int) -> int {
    spec_digits_val(s, i, j) * pow10(4 - (j - i))
}

pub proof fn lemma_digits_val_nonneg(s: Seq<char>, i: int, j: int)
    requires
        0 <= i <= j <= s.len(),
        forall|k: int| i <= k < j ==> spec_is_digit(s[k]),
    ensures
        spec_digits_val(s, i, j) >= 0,
    decreases j - i,
{
    if i < j {
        lemma_digits_val_nonneg(s, i, j - 1);
    }
}

pub proof fn lemma_digits_val_mono(s: Seq<char>, i: int, j1: int, j2: int)
    requires
        0 <= i <= j1 <= j2 <= s.len(),
        forall|k: int| i <= k < j2 ==> spec_is_digit(s[k]),
    ensures
        spec_digits_val(s, i, j1) <= spec_digits_val(s, i, j2),
    decreases j2 - j1,
{
    if j1 < j2 {
        lemma_digits_val_mono(s, i, j1, j2 - 1);
        lemma_digits_val_nonneg(s, i, j2 - 1);
    }
}

/// The action token: three leading characters reading `BTO` or `STC` in
/// any case, with the next position.
pub open spec fn tk_action(t: Seq<char>) -> Option<(Action, int)> {
    if t.len() >= 3 {
        let a0 = spec_to_upper(t[0]);
        let a1 = spec_to_upper(t[1]);
        let a2 = spec_to_upper(t[2]);
        if a0 == 'B' && a1 == 'T' && a2 == 'O' {
            Some((Action::BTO, 3))
        } else if a0 == 'S' && a1 == 'T' && a2 == 'C' {
            Some((Action::STC, 3))
        } else {
            None
        }
    } else {
        None
    }
}

/// At least one whitespace character starting at `i`; yields the first
/// position after the run.
pub open spec fn tk_ws1(t: Seq<char>, i: int) -> Option<int> {
    let j = scan_ws(t, i);
    if j > i {
        Some(j)
    } else {
        None
    }
}

/// A quantity: a digit run whose value fits a `u32`.
pub open spec fn tk_qty(t: Seq<char>, i: int) -> Option<(u32, int)> {
    let j = scan_digits(t, i);
    if j == i {
        None
    } else {
        let v = spec_digits_val(t, i, j);
        if v <= u32::MAX {
            Some((v as u32, j))
        } else {
            None
        }
    }
}

/// A symbol: one to six letters; yields the end of the run.
pub open spec fn tk_symbol(t: Seq<char>, i: int) -> Option<int> {
    let j = scan_letters(t, i);
    if i < j && j <= i + 6 {
        Some(j)
    } else {
        None
    }
}

/// A strike: digits with an optional dot-and-digits fraction of at most
/// four digits, in ten-thousandth units.
pub open spec fn tk_strike(t: Seq<char>, i: int) -> Option<(u64, int)> {
    let j1 = scan_digits(t, i);
    if j1 == i {
        None
    } else if j1 < t.len() && t[j1] == '.' && scan_digits(t, j1 + 1) > j1 + 1 {
        let j2 = scan_digits(t, j1 + 1);
        if j2 - (j1 + 1) <= 4 {
            let units = spec_digits_val(t, i, j1) * 10_000 + spec_frac_units(t, j1 + 1, j2);
            if units <= u64::MAX {
                Some((units as u64, j2))
            } else {
                None
            }
        } else {
            None
        }
    } else {
        let units = spec_digits_val(t, i, j1) * 10_000;
        if units <= u64::MAX {
            Some((units as u64, j1))
        } else {
            None
        }
    }
}

/// The call/put letter after optional whitespace, uppercased.
pub open spec fn tk_cp(t: Seq<char>, i: int) -> Option<(char, int)> {
    let j = scan_ws(t, i);
    if j < t.len() && (t[j] == 'C' || t[j] == 'c') {
        Some(('C', j + 1))
    } else if j < t.len() && (t[j] == 'P' || t[j] == 'p') {
        Some(('P', j + 1))
    } else {
        None
    }
}

/// An `MM/DD` expiry: two digits, a slash, two digits; yields the end.
pub open spec fn tk_expiry(t: Seq<char>, i: int) -> Option<int> {
    if i + 5 <= t.len() && spec_is_digit(t[i]) && spec_is_digit(t[i + 1]) && t[i + 2] == '/'
        && spec_is_digit(t[i + 3]) && spec_is_digit(t[i + 4]) {
        Some(i + 5)
    } else {
        None
    }
}

/// A price token running to the end of the text: the single letter `m`
/// or `M` for a market order, else a decimal number (optional single
/// dot, at least one digit, at most four fractional digits) for a limit
/// order, in ten-thousandth units.
pub open spec fn tk_price_token(t: Seq<char>, k: int) -> Option<(OrderType, Option<u64>)> {
    if k >= t.len() {
        None
    } else if k + 1 == t.len() && (t[k] == 'm' || t[k] == 'M') {
        Some((OrderType::Market, None::<u64>))
    } else {
        match tk_price_value(t, k) {
            Some(u) => Some((OrderType::Limit, Some(u))),
            None => None,
        }
    }
}

/// The decimal price value spanning `k` to the end of the text, in
/// ten-thousandth units, when that span is a well-formed number.
pub open spec fn tk_price_value(t: Seq<char>, k: int) -> Option<u64> {
    let j1 = scan_digits(t, k);
    if j1 == t.len() {
        if j1 > k {
            let units = spec_digits_val(t, k, j1) * 10_000;
            if units <= u64::MAX {
                Some(units as u64)
            } else {
                None
            }
        } else {
            None
        }
    } else if t[j1] == '.' {
        let j2 = scan_digits(t, j1 + 1);
        if j2 == t.len() {
            if j1 == k && j2 == j1 + 1 {
                None
            } else if j2 - (j1 + 1) <= 4 {
                let units = spec_digits_val(t, k, j1) * 10_000 + spec_frac_units(t, j1 + 1, j2);
                if units <= u64::MAX {
                    Some(units as u64)
                } else {
                    None
                }
            } else {
                None
            }
        } else {
            None
        }
    } else {
        None
    }
}

/// The `@` separator preceded by at least one space and followed by an
/// optionally space-separated price token running to the end.
pub open spec fn tk_price_tail(t: Seq<char>, i: int) -> Option<(OrderType, Option<u64>)> {
    let j = scan_ws(t, i);
    if j == i {
        None
    } else if j < t.len() && t[j] == '@' {
        tk_price_token(t, scan_ws(t, j + 1))
    } else {
        None
    }
}

/// Grammar 1: option with explicit quantity.
pub open spec fn spec_parse_opt_qty(t: Seq<char>) -> Option<TradeSignalV> {
    match tk_action(t) {
        None => None,
        Some((act, i1)) => match tk_ws1(t, i1) {
            None => None,
            Some(i2) => match tk_qty(t, i2) {
                None => None,
                Some((qty, i3)) => match tk_ws1(t, i3) {
                    None => None,
                    Some(i4) => match tk_symbol(t, i4) {
                        None => None,
                        Some(i5) => match tk_ws1(t, i5) {
                            None => None,
                            Some(i6) => match tk_strike(t, i6) {
                                None => None,
                                Some((strike, i7)) => match tk_cp(t, i7) {
                                    None => None,
                                    Some((cp, i8)) => match tk_ws1(t, i8) {
                                        None => None,
                                        Some(i9) => match tk_expiry(t, i9) {
                                            None => None,
                                            Some(i10) => match tk_price_tail(t, i10) {
                                                None => None,
                                                Some((ot, lp)) => Some(TradeSignalV::Option(
                                                    OptionSignalV {
                                                        action: act,
                                                        symbol: t.subrange(i4, i5),
                                                        strike: strike,
                                                        call_put: cp,
                                                        expiry_mmdd: t.subrange(i9, i10),
                                                        quantity: qty,
                                                        order_type: ot,
                                                        limit_price: lp,
                                                    },
                                                )),
                                            },
                                        },
                                    },
                                },
                            },
                        },
                    },
                },
            },
        },
    }
}

/// Grammar 2: option without quantity; quantity defaults to 1.
pub open spec fn spec_parse_opt_noqty(t: Seq<char>) -> Option<TradeSignalV> {
    match tk_action(t) {
        None => None,
        Some((act, i1)) => match tk_ws1(t, i1) {
            None => None,
            Some(i2) => match tk_symbol(t, i2) {
                None => None,
                Some(i3) => match tk_ws1(t, i3) {
                    None => None,
                    Some(i4) => match tk_strike(t, i4) {
                        None => None,
                        Some((strike, i5)) => match tk_cp(t, i5) {
                            None => None,
                            Some((cp, i6)) => match tk_ws1(t, i6) {
                                None => None,
                                Some(i7) => match tk_expiry(t, i7) {
                                    None => None,
                                    Some(i8) => match tk_price_tail(t, i8) {
                                        None => None,
                                        Some((ot, lp)) => Some(TradeSignalV::Option(
                                            OptionSignalV {
                                                action: act,
                                                symbol: t.subrange(i2, i3),
                                                strike: strike,
                                                call_put: cp,
                                                expiry_mmdd: t.subrange(i7, i8),
                                                quantity: 1,
                                                order_type: ot,
                                                limit_price: lp,
                                            },
                                        )),
                                    },
                                },
                            },
                        },
                    },
                },
            },
        },
    }
}

/// Grammar 3: stock with explicit quantity.
pub open spec fn spec_parse_stk_qty(t: Seq<char>) -> Option<TradeSignalV> {
    match tk_action(t) {
        None => None,
        Some((act, i1)) => match tk_ws1(t, i1) {
            None => None,
            Some(i2) => match tk_qty(t, i2) {
                None => None,
                Some((qty, i3)) => match tk_ws1(t, i3) {
                    None => None,
                    Some(i4) => match tk_symbol(t, i4) {
                        None => None,
                        Some(i5) => match tk_price_tail(t, i5) {
                            None => None,
                            Some((ot, lp)) => Some(TradeSignalV::Stock(StockSignalV {
                                action: act,
                                symbol: t.subrange(i4, i5),
                                quantity: qty,
                                order_type: ot,
                                limit_price: lp,
                            })),
                        },
                    },
                },
            },
        },
    }
}

/// Grammar 4: stock without quantity; quantity defaults to 1.
pub open spec fn spec_parse_stk_noqty(t: Seq<char>) -> Option<TradeSignalV> {
    match tk_action(t) {
        None => None,
        Some((act, i1)) => match tk_ws1(t, i1) {
            None => None,
            Some(i2) => match tk_symbol(t, i2) {
                None => None,
                Some(i3) => match tk_price_tail(t, i3) {
                    None => None,
                    Some((ot, lp)) => Some(TradeSignalV::Stock(StockSignalV {
                        action: act,
                        symbol: t.subrange(i2, i3),
                        quantity: 1,
                        order_type: ot,
                        limit_price: lp,
                    })),
                },
            },
        },
    }
}

/// What `parse_signal` returns: the input is trimmed and the four
/// grammars are tried in order.
pub open spec fn spec_parse_signal(s: Seq<char>) -> Option<TradeSignalV> {
    let t = spec_trim(s);
    match spec_parse_opt_qty(t) {
        Some(v) => Some(v),
        None => match spec_parse_opt_noqty(t) {
            Some(v) => Some(v),
            None => match spec_parse_stk_qty(t) {
                Some(v) => Some(v),
                None => match spec_parse_stk_noqty(t) {
                    Some(v) => Some(v),
                    None => None,
                },
            },
        },
    }
}

pub proof fn lemma_pow10_pos(k: int)
    requires
        k >= 0,
    ensures
        pow10(k) >= 1,
    decreases k,
{
    if k > 0 {
        lemma_pow10_pos(k - 1);
    }
}

/// Scan whitespace from `i`; the first position at or after `i` that is
/// not whitespace.
fn skip_ws(t: &Vec<char>, i: usize) -> (j: usize)
    requires
        i as int <= t@.len(),
    ensures
        j == scan_ws(t@, i as int),
        i <= j && j as int <= t@.len(),
{
    let mut k: usize = i;
    while k < t.len() && is_ws(t[k])
        invariant
            i <= k && k as int <= t@.len(),
            scan_ws(t@, i as int) == scan_ws(t@, k as int),
        decreases t@.len() - k,
    {
        k = k + 1;
    }
    k
}

/// Scan digits from `i`; the first position at or after `i` that is not
/// a digit.
fn skip_digits(t: &Vec<char>, i: usize) -> (j: usize)
    requires
        i as int <= t@.len(),
    ensures
        j == scan_digits(t@, i as int),
        i <= j && j as int <= t@.len(),
        forall|k: int| i <= k < j ==> spec_is_digit(t@[k]),
{
    let mut k: usize = i;
    while k < t.len() && is_digit(t[k])
        invariant
            i <= k && k as int <= t@.len(),
            scan_digits(t@, i as int) == scan_digits(t@, k as int),
            forall|m: int| i <= m < k ==> spec_is_digit(t@[m]),
        decreases t@.len() - k,
    {
        k = k + 1;
    }
    k
}

/// Scan letters from `i`; the first position at or after `i` that is
/// not a letter.
fn skip_letters(t: &Vec<char>, i: usize) -> (j: usize)
    requires
        i as int <= t@.len(),
    ensures
        j == scan_letters(t@, i as int),
        i <= j && j as int <= t@.len(),
{
    let mut k: usize = i;
    while k < t.len() && is_alpha(t[k])
        invariant
            i <= k && k as int <= t@.len(),
            scan_letters(t@, i as int) == scan_letters(t@, k as int),
        decreases t@.len() - k,
    {
        k = k + 1;
    }
    k
}

/// Decimal value of the digit run `t[i..j)`, unless it exceeds `max`.
fn digits_value(t: &Vec<char>, i: usize, j: usize, max: u64) -> (r: Option<u64>)
    requires
        i <= j && j as int <= t@.len(),
        forall|k: int| i <= k < j ==> spec_is_digit(t@[k]),
        max >= 9,
    ensures
        (match r {
            Some(v) => v == spec_digits_val(t@, i as int, j as int) && v <= max,
            None => spec_digits_val(t@, i as int, j as int) > max,
        }),
{
    let mut acc: u64 = 0;
    let mut k: usize = i;
    while k < j
        invariant
            i <= k <= j && j as int <= t@.len(),
            forall|m: int| i <= m < j ==> spec_is_digit(t@[m]),
            max >= 9,
            acc == spec_digits_val(t@, i as int, k as int),
            acc <= max,
        decreases j - k,
    {
        let d = digit_val(t[k]) as u64;
        proof {
            vstd::arithmetic::div_mod::lemma_fundamental_div_mod((max - d) as int, 10);
            assert(spec_digits_val(t@, i as int, k + 1)
                == spec_digits_val(t@, i as int, k as int) * 10 + spec_digit_val(t@[k as int]));
        }
        if acc > (max - d) / 10 {
            proof {
                lemma_digits_val_mono(t@, i as int, k + 1, j as int);
            }
            return None;
        }
        acc = acc * 10 + d;
        k = k + 1;
    }
    Some(acc)
}

/// Value of the fractional run `t[i..j)` in ten-thousandth units.
fn frac_value(t: &Vec<char>, i: usize, j: usize) -> (v: u64)
    requires
        i <= j && j as int <= t@.len(),
        j - i <= 4,
        forall|k: int| i <= k < j ==> spec_is_digit(t@[k]),
    ensures
        v == spec_frac_units(t@, i as int, j as int),
        v <= 99_990_000,
{
    proof {
        reveal_with_fuel(spec_digits_val, 5);
        reveal_with_fuel(pow10, 5);
    }
    let ghost s = t@;
    let ghost ii = i as int;
    let len = j - i;
    if len == 0 {
        assert(spec_frac_units(s, ii, ii) == 0);
        0
    } else if len == 1 {
        assert(spec_frac_units(s, ii, ii + 1) == spec_digit_val(s[ii]) * 1000);
        digit_val(t[i]) as u64 * 1000
    } else if len == 2 {
        proof {
            reveal_with_fuel(spec_digits_val, 5);
            reveal_with_fuel(pow10, 5);
            let d0 = spec_digit_val(s[ii]);
            let d1 = spec_digit_val(s[ii + 1]);
            assert(spec_digits_val(s, ii, ii + 2) == d0 * 10 + d1);
            assert(pow10(2) == 100);
            assert((d0 * 10 + d1) * 100 == d0 * 1000 + d1 * 100) by (nonlinear_arith);
            assert(spec_frac_units(s, ii, ii + 2) == d0 * 1000 + d1 * 100);
        }
        digit_val(t[i]) as u64 * 1000 + digit_val(t[i + 1]) as u64 * 100
    } else if len == 3 {
        proof {
            reveal_with_fuel(spec_digits_val, 5);
            reveal_with_fuel(pow10, 5);
            let d0 = spec_digit_val(s[ii]);
            let d1 = spec_digit_val(s[ii + 1]);
            let d2 = spec_digit_val(s[ii + 2]);
            assert(spec_digits_val(s, ii, ii + 3) == (d0 * 10 + d1) * 10 + d2);
            assert(pow10(1) == 10);
            assert(((d0 * 10 + d1) * 10 + d2) * 10 == d0 * 1000 + d1 * 100 + d2 * 10)
                by (nonlinear_arith);
            assert(spec_frac_units(s, ii, ii + 3) == d0 * 1000 + d1 * 100 + d2 * 10);
        }
        digit_val(t[i]) as u64 * 1000 + digit_val(t[i + 1]) as u64 * 100
            + digit_val(t[i + 2]) as u64 * 10
    } else {
        proof {
            reveal_with_fuel(spec_digits_val, 5);
            reveal_with_fuel(pow10, 5);
            let d0 = spec_digit_val(s[ii]);
            let d1 = spec_digit_val(s[ii + 1]);
            let d2 = spec_digit_val(s[ii + 2]);
            let d3 = spec_digit_val(s[ii + 3]);
            assert(spec_digits_val(s, ii, ii + 4) == ((d0 * 10 + d1) * 10 + d2) * 10 + d3);
            assert(pow10(0) == 1);
            assert((((d0 * 10 + d1) * 10 + d2) * 10 + d3) * 1
                == d0 * 1000 + d1 * 100 + d2 * 10 + d3) by (nonlinear_arith);
            assert(spec_frac_units(s, ii, ii + 4) == d0 * 1000 + d1 * 100 + d2 * 10 + d3);
        }
        digit_val(t[i]) as u64 * 1000 + digit_val(t[i + 1]) as u64 * 100
            + digit_val(t[i + 2]) as u64 * 10 + digit_val(t[i + 3]) as u64
    }
}

/// Combine integer and fractional parts into ten-thousandth units,
/// unless the result exceeds `u64::MAX`. The integer part is handed in
/// as the result of [`digits_value`] with `u64::MAX` as the bound.
fn combine_units(iv: Option<u64>, fv: u64, Ghost(iv_spec): Ghost<int>) -> (r: Option<u64>)
    requires
        (match iv {
            Some(x) => x == iv_spec,
            None => iv_spec > u64::MAX,
        }),
        iv_spec >= 0,
        fv <= 99_990_000,
    ensures
        (match r {
            Some(u) => u == iv_spec * 10_000 + fv && iv_spec * 10_000 + fv <= u64::MAX,
            None => iv_spec * 10_000 + fv > u64::MAX,
        }),
{
    match iv {
        None => None,
        Some(x) => {
            match x.checked_mul(10_000) {
                None => None,
                Some(y) => {
                    match y.checked_add(fv) {
                        None => None,
                        Some(u) => Some(u),
                    }
                },
            }
        },
    }
}

/// The action token.
fn ex_action(t: &Vec<char>) -> (r: Option<(Action, usize)>)
    ensures
        (match tk_action(t@) {
            Some(p) => r matches Some(q) && q.0 == p.0 && q.1 == p.1,
            None => r is None,
        }),
{
    if t.len() >= 3 {
        let a0 = to_upper(t[0]);
        let a1 = to_upper(t[1]);
        let a2 = to_upper(t[2]);
        if a0 == 'B' && a1 == 'T' && a2 == 'O' {
            Some((Action::BTO, 3))
        } else if a0 == 'S' && a1 == 'T' && a2 == 'C' {
            Some((Action::STC, 3))
        } else {
            None
        }
    } else {
        None
    }
}

/// At least one whitespace character at `i`.
fn ex_ws1(t: &Vec<char>, i: usize) -> (r: Option<usize>)
    requires
        i as int <= t@.len(),
    ensures
        (match tk_ws1(t@, i as int) {
            Some(p) => r matches Some(j) && j == p && i <= j && j as int <= t@.len(),
            None => r is None,
        }),
{
    let j = skip_ws(t, i);
    if j > i {
        Some(j)
    } else {
        None
    }
}

/// A quantity token.
fn ex_qty(t: &Vec<char>, i: usize) -> (r: Option<(u32, usize)>)
    requires
        i as int <= t@.len(),
    ensures
        (match tk_qty(t@, i as int) {
            Some(p) => r matches Some(q) && q.0 == p.0 && q.1 == p.1 && i <= q.1
                && q.1 as int <= t@.len(),
            None => r is None,
        }),
{
    let j = skip_digits(t, i);
    if j == i {
        return None;
    }
    match digits_value(t, i, j, 0xFFFF_FFFF) {
        Some(v) => Some((v as u32, j)),
        None => None,
    }
}

/// A symbol token: the end of a run of one to six letters.
fn ex_symbol(t: &Vec<char>, i: usize) -> (r: Option<usize>)
    requires
        i as int <= t@.len(),
    ensures
        (match tk_symbol(t@, i as int) {
            Some(p) => r matches Some(j) && j == p && i < j && j as int <= t@.len(),
            None => r is None,
        }),
{
    let j = skip_letters(t, i);
    if i < j && j - i <= 6 {
        Some(j)
    } else {
        None
    }
}

/// A strike token.
fn ex_strike(t: &Vec<char>, i: usize) -> (r: Option<(u64, usize)>)
    requires
        i as int <= t@.len(),
    ensures
        (match tk_strike(t@, i as int) {
            Some(p) => r matches Some(q) && q.0 == p.0 && q.1 == p.1 && i <= q.1
                && q.1 as int <= t@.len(),
            None => r is None,
        }),
{
    let j1 = skip_digits(t, i);
    if j1 == i {
        return None;
    }
    proof {
        lemma_digits_val_nonneg(t@, i as int, j1 as int);
    }
    if j1 < t.len() && t[j1] == '.' {
        let j2 = skip_digits(t, j1 + 1);
        if j2 > j1 + 1 {
            if j2 - (j1 + 1) <= 4 {
                let iv = digits_value(t, i, j1, u64::MAX);
                let fv = frac_value(t, j1 + 1, j2);
                proof {
                    lemma_digits_val_nonneg(t@, j1 + 1, j2 as int);
                    lemma_pow10_pos(4 - (j2 - (j1 + 1)));
                }
                return (match combine_units(iv, fv, Ghost(spec_digits_val(t@, i as int, j1 as int))) {
                    Some(u) => Some((u, j2)),
                    None => None,
                });
            } else {
                return None;
            }
        }
        // no digits after the dot: the strike ends before it
    }
    let iv = digits_value(t, i, j1, u64::MAX);
    match combine_units(iv, 0, Ghost(spec_digits_val(t@, i as int, j1 as int))) {
        Some(u) => Some((u, j1)),
        None => None,
    }
}

/// The call/put token.
fn ex_cp(t: &Vec<char>, i: usize) -> (r: Option<(char, usize)>)
    requires
        i as int <= t@.len(),
    ensures
        (match tk_cp(t@, i as int) {
            Some(p) => r matches Some(q) && q.0 == p.0 && q.1 == p.1 && i < q.1
                && q.1 as int <= t@.len(),
            None => r is None,
        }),
{
    let j = skip_ws(t, i);
    if j < t.len() && (t[j] == 'C' || t[j] == 'c') {
        Some(('C', j + 1))
    } else if j < t.len() && (t[j] == 'P' || t[j] == 'p') {
        Some(('P', j + 1))
    } else {
        None
    }
}

/// The expiry token.
fn ex_expiry(t: &Vec<char>, i: usize) -> (r: Option<usize>)
    requires
        i as int <= t@.len(),
    ensures
        (match tk_expiry(t@, i as int) {
            Some(p) => r matches Some(j) && j == p && i < j && j as int <= t@.len(),
            None => r is None,
        }),
{
    if t.len() >= 5 && i <= t.len() - 5 && is_digit(t[i]) && is_digit(t[i + 1])
        && t[i + 2] == '/' && is_digit(t[i + 3]) && is_digit(t[i + 4]) {
        Some(i + 5)
    } else {
        None
    }
}

/// The decimal price value spanning `k` to the end of the text.
fn ex_price_value(t: &Vec<char>, k: usize) -> (r: Option<u64>)
    requires
        k as int <= t@.len(),
    ensures
        (match tk_price_value(t@, k as int) {
            Some(p) => r == Some(p),
            None => r is None,
        }),
{
    let j1 = skip_digits(t, k);
    proof {
        lemma_digits_val_nonneg(t@, k as int, j1 as int);
    }
    if j1 == t.len() {
        if j1 > k {
            let iv = digits_value(t, k, j1, u64::MAX);
            combine_units(iv, 0, Ghost(spec_digits_val(t@, k as int, j1 as int)))
        } else {
            None
        }
    } else if t[j1] == '.' {
        let j2 = skip_digits(t, j1 + 1);
        if j2 == t.len() {
            if j1 == k && j2 == j1 + 1 {
                None
            } else if j2 - (j1 + 1) <= 4 {
                let iv = digits_value(t, k, j1, u64::MAX);
                let fv = frac_value(t, j1 + 1, j2);
                proof {
                    lemma_digits_val_nonneg(t@, j1 + 1, j2 as int);
                    lemma_pow10_pos(4 - (j2 - (j1 + 1)));
                }
                combine_units(iv, fv, Ghost(spec_digits_val(t@, k as int, j1 as int)))
            } else {
                None
            }
        } else {
            None
        }
    } else {
        None
    }
}

/// The price token running to the end of the text.
fn ex_price_token(t: &Vec<char>, k: usize) -> (r: Option<(OrderType, Option<u64>)>)
    requires
        k as int <= t@.len(),
    ensures
        (match tk_price_token(t@, k as int) {
            Some(p) => r == Some(p),
            None => r is None,
        }),
{
    if k >= t.len() {
        None
    } else if k + 1 == t.len() && (t[k] == 'm' || t[k] == 'M') {
        Some((OrderType::Market, None))
    } else {
        match ex_price_value(t, k) {
            Some(u) => Some((OrderType::Limit, Some(u))),
            None => None,
        }
    }
}

/// The `@`-and-price tail.
fn ex_price_tail(t: &Vec<char>, i: usize) -> (r: Option<(OrderType, Option<u64>)>)
    requires
        i as int <= t@.len(),
    ensures
        (match tk_price_tail(t@, i as int) {
            Some(p) => r == Some(p),
            None => r is None,
        }),
{
    let j = skip_ws(t, i);
    if j == i {
        None
    } else if j < t.len() && t[j] == '@' {
        let k = skip_ws(t, j + 1);
        ex_price_token(t, k)
    } else {
        None
    }
}

/// Grammar 1: option with explicit quantity.
fn ex_opt_qty(t: &Vec<char>) -> (r: Option<TradeSignal>)
    ensures
        (match spec_parse_opt_qty(t@) {
            Some(v) => r matches Some(sig) && sig@ == v,
            None => r is None,
        }),
{
    let (act, i1) = match ex_action(t) { Some(p) => p, None => { return None; } };
    let i2 = match ex_ws1(t, i1) { Some(j) => j, None => { return None; } };
    let (qty, i3) = match ex_qty(t, i2) { Some(p) => p, None => { return None; } };
    let i4 = match ex_ws1(t, i3) { Some(j) => j, None => { return None; } };
    let i5 = match ex_symbol(t, i4) { Some(j) => j, None => { return None; } };
    let i6 = match ex_ws1(t, i5) { Some(j) => j, None => { return None; } };
    let (strike, i7) = match ex_strike(t, i6) { Some(p) => p, None => { return None; } };
    let (cp, i8) = match ex_cp(t, i7) { Some(p) => p, None => { return None; } };
    let i9 = match ex_ws1(t, i8) { Some(j) => j, None => { return None; } };
    let i10 = match ex_expiry(t, i9) { Some(j) => j, None => { return None; } };
    let (ot, lp) = match ex_price_tail(t, i10) { Some(p) => p, None => { return None; } };
    let symbol = string_of_range(t, i4, i5);
    let expiry = string_of_range(t, i9, i10);
    Some(TradeSignal::Option(OptionSignal {
        action: act,
        symbol: symbol,
        strike: strike,
        call_put: cp,
        expiry_mmdd: expiry,
        quantity: qty,
        order_type: ot,
        limit_price: lp,
    }))
}

/// Grammar 2: option without quantity.
fn ex_opt_noqty(t: &Vec<char>) -> (r: Option<TradeSignal>)
    ensures
        (match spec_parse_opt_noqty(t@) {
            Some(v) => r matches Some(sig) && sig@ == v,
            None => r is None,
        }),
{
    let (act, i1) = match ex_action(t) { Some(p) => p, None => { return None; } };
    let i2 = match ex_ws1(t, i1) { Some(j) => j, None => { return None; } };
    let i3 = match ex_symbol(t, i2) { Some(j) => j, None => { return None; } };
    let i4 = match ex_ws1(t, i3) { Some(j) => j, None => { return None; } };
    let (strike, i5) = match ex_strike(t, i4) { Some(p) => p, None => { return None; } };
    let (cp, i6) = match ex_cp(t, i5) { Some(p) => p, None => { return None; } };
    let i7 = match ex_ws1(t, i6) { Some(j) => j, None => { return None; } };
    let i8 = match ex_expiry(t, i7) { Some(j) => j, None => { return None; } };
    let (ot, lp) = match ex_price_tail(t, i8) { Some(p) => p, None => { return None; } };
    let symbol = string_of_range(t, i2, i3);
    let expiry = string_of_range(t, i7, i8);
    Some(TradeSignal::Option(OptionSignal {
        action: act,
        symbol: symbol,
        strike: strike,
        call_put: cp,
        expiry_mmdd: expiry,
        quantity: 1,
        order_type: ot,
        limit_price: lp,
    }))
}

/// Grammar 3: stock with explicit quantity.
fn ex_stk_qty(t: &Vec<char>) -> (r: Option<TradeSignal>)
    ensures
        (match spec_parse_stk_qty(t@) {
            Some(v) => r matches Some(sig) && sig@ == v,
            None => r is None,
        }),
{
    let (act, i1) = match ex_action(t) { Some(p) => p, None => { return None; } };
    let i2 = match ex_ws1(t, i1) { Some(j) => j, None => { return None; } };
    let (qty, i3) = match ex_qty(t, i2) { Some(p) => p, None => { return None; } };
    let i4 = match ex_ws1(t, i3) { Some(j) => j, None => { return None; } };
    let i5 = match ex_symbol(t, i4) { Some(j) => j, None => { return None; } };
    let (ot, lp) = match ex_price_tail(t, i5) { Some(p) => p, None => { return None; } };
    let symbol = string_of_range(t, i4, i5);
    Some(TradeSignal::Stock(StockSignal {
        action: act,
        symbol: symbol,
        quantity: qty,
        order_type: ot,
        limit_price: lp,
    }))
}

/// Grammar 4: stock without quantity.
fn ex_stk_noqty(t: &Vec<char>) -> (r: Option<TradeSignal>)
    ensures
        (match spec_parse_stk_noqty(t@) {
            Some(v) => r matches Some(sig) && sig@ == v,
            None => r is None,
        }),
{
    let (act, i1) = match ex_action(t) { Some(p) => p, None => { return None; } };
    let i2 = match ex_ws1(t, i1) { Some(j) => j, None => { return None; } };
    let i3 = match ex_symbol(t, i2) { Some(j) => j, None => { return None; } };
    let (ot, lp) = match ex_price_tail(t, i3) { Some(p) => p, None => { return None; } };
    let symbol = string_of_range(t, i2, i3);
    Some(TradeSignal::Stock(StockSignal {
        action: act,
        symbol: symbol,
        quantity: 1,
        order_type: ot,
        limit_price: lp,
    }))
}

/// Parse one message into a trade signal, if it matches any of the four
/// grammars; unparsable text yields `None`, never an error.
pub fn parse_signal(text: &str) -> (r: Option<TradeSignal>)
    ensures
        (match spec_parse_signal(text@) {
            Some(v) => r matches Some(sig) && sig@ == v,
            None => r is None,
        }),
{
    let v = chars_of(text);
    let t = trim_chars(&v);
    match ex_opt_qty(&t) {
        Some(sig) => { return Some(sig); },
        None => {},
    }
    match ex_opt_noqty(&t) {
        Some(sig) => { return Some(sig); },
        None => {},
    }
    match ex_stk_qty(&t) {
        Some(sig) => { return Some(sig); },
        None => {},
    }
    match ex_stk_noqty(&t) {
        Some(sig) => { return Some(sig); },
        None => {},
    }
    None
}

} // verus!

