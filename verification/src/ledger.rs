//! Position ledger: holdings with weighted-average cost, plus the
//! append-only realized-P/L record.
//!
//! Instrument keys are matched case-insensitively on the symbol; option
//! keys also compare the strike exactly (fixed-point units), the
//! call/put letter case-insensitively and the expiry text exactly. At
//! most the first matching holding is touched by any mutation, and a
//! holding whose quantity reaches zero is removed.

use vstd::prelude::*;

use crate::text::{
    eq_ignore_case, option_label, spec_eq_ignore_case, spec_option_label, spec_to_upper,
    spec_upper_seq, str_eq, to_upper, upper_string,
};
use crate::types::{
    Date, Holding, HoldingV, PlEntry, PlEntryV, MAX_PRICE_UNITS, MAX_QTY_UNITS, QTY_SCALE,
};

verus! {

/// Whether a holding is the stock position for `sym`.
pub open spec fn stock_matches(h: HoldingV, sym: Seq<char>) -> bool {
    h matches HoldingV::Stock { symbol, .. } && spec_eq_ignore_case(symbol, sym)
}

/// Whether a holding is the option position for the given key.
pub open spec fn option_matches(
    h: HoldingV,
    sym: Seq<char>,
    strike: u64,
    cp: char,
    expiry: Seq<char>,
) -> bool {
    h matches HoldingV::Option { symbol, strike: s, call_put, expiry_mmdd, .. }
        && spec_eq_ignore_case(symbol, sym) && s == strike
        && spec_to_upper(call_put) == spec_to_upper(cp) && expiry_mmdd == expiry
}

/// The predicate a stock holding for `sym` satisfies.
pub open spec fn stock_pred(sym: Seq<char>) -> spec_fn(HoldingV) -> bool {
    |h: HoldingV| stock_matches(h, sym)
}

/// The predicate an option holding for the given key satisfies.
pub open spec fn option_pred(
    sym: Seq<char>,
    strike: u64,
    cp: char,
    expiry: Seq<char>,
) -> spec_fn(HoldingV) -> bool {
    |h: HoldingV| option_matches(h, sym, strike, cp, expiry)
}

/// Index of the first holding satisfying `p`, or `-1`.
pub open spec fn first_idx_where(hs: Seq<HoldingV>, p: spec_fn(HoldingV) -> bool) -> int
    decreases hs.len(),
{
    if hs.len() == 0 {
        -1
    } else if p(hs[0]) {
        0
    } else {
        let r = first_idx_where(hs.drop_first(), p);
        if r == -1 {
            -1
        } else {
            r + 1
        }
    }
}

pub proof fn lemma_first_idx_where(hs: Seq<HoldingV>, p: spec_fn(HoldingV) -> bool)
    ensures
        first_idx_where(hs, p) == -1 ==> forall|i: int| 0 <= i < hs.len() ==> !p(hs[i]),
        first_idx_where(hs, p) != -1 ==> {
            let r = first_idx_where(hs, p);
            &&& 0 <= r < hs.len()
            &&& p(hs[r])
            &&& forall|i: int| 0 <= i < r ==> !p(hs[i])
        },
    decreases hs.len(),
{
    if hs.len() > 0 && !p(hs[0]) {
        let rest = hs.drop_first();
        lemma_first_idx_where(rest, p);
        assert(forall|i: int| 1 <= i < hs.len() ==> hs[i] == #[trigger] rest[i - 1]);
        let r0 = first_idx_where(rest, p);
        if r0 == -1 {
            assert forall|i: int| 0 <= i < hs.len() implies !p(hs[i]) by {
                if i >= 1 {
                    assert(!p(rest[i - 1]));
                }
            }
        } else {
            assert(p(rest[r0]));
            assert(hs[r0 + 1] == rest[r0]);
            assert forall|i: int| 0 <= i < r0 + 1 implies !p(hs[i]) by {
                if i >= 1 {
                    assert(!p(rest[i - 1]));
                }
            }
        }
    }
}

/// Stock quantity `h` contributes to the position for `sym`.
pub open spec fn stock_contrib(h: HoldingV, sym: Seq<char>) -> int {
    match h {
        HoldingV::Stock { symbol, quantity, .. } => if spec_eq_ignore_case(symbol, sym) {
            quantity as int
        } else {
            0
        },
        _ => 0,
    }
}

/// Contracts `h` contributes to the option position for the given key.
pub open spec fn option_contrib(
    h: HoldingV,
    sym: Seq<char>,
    strike: u64,
    cp: char,
    expiry: Seq<char>,
) -> int {
    if option_matches(h, sym, strike, cp, expiry) {
        match h {
            HoldingV::Option { quantity, .. } => quantity as int,
            _ => 0,
        }
    } else {
        0
    }
}

/// Total stock quantity (all symbols) held, in quantity units.
pub open spec fn total_stock_units(hs: Seq<HoldingV>) -> int
    decreases hs.len(),
{
    if hs.len() == 0 {
        0
    } else {
        total_stock_units(hs.drop_last()) + (match hs.last() {
            HoldingV::Stock { quantity, .. } => quantity as int,
            _ => 0,
        })
    }
}

/// Total option contracts (all keys) held.
pub open spec fn total_option_contracts(hs: Seq<HoldingV>) -> int
    decreases hs.len(),
{
    if hs.len() == 0 {
        0
    } else {
        total_option_contracts(hs.drop_last()) + (match hs.last() {
            HoldingV::Option { quantity, .. } => quantity as int,
            _ => 0,
        })
    }
}

/// Sum of stock quantity over all holdings matching `sym`.
pub open spec fn stock_qty_sum(hs: Seq<HoldingV>, sym: Seq<char>) -> int
    decreases hs.len(),
{
    if hs.len() == 0 {
        0
    } else {
        stock_qty_sum(hs.drop_last(), sym) + stock_contrib(hs.last(), sym)
    }
}

/// Sum of contracts over all holdings matching the option key.
pub open spec fn option_qty_sum(
    hs: Seq<HoldingV>,
    sym: Seq<char>,
    strike: u64,
    cp: char,
    expiry: Seq<char>,
) -> int
    decreases hs.len(),
{
    if hs.len() == 0 {
        0
    } else {
        option_qty_sum(hs.drop_last(), sym, strike, cp, expiry)
            + option_contrib(hs.last(), sym, strike, cp, expiry)
    }
}

/// The average cost of every holding is within the ledger's price bound.
pub open spec fn costs_ok(hs: Seq<HoldingV>) -> bool {
    forall|i: int| 0 <= i < hs.len() ==> (match #[trigger] hs[i] {
        HoldingV::Stock { avg_cost, .. } => avg_cost <= MAX_PRICE_UNITS,
        HoldingV::Option { avg_cost, .. } => avg_cost <= MAX_PRICE_UNITS,
    })
}

/// Well-formedness of a holdings collection: bounded totals and costs,
/// so that every position sum and cost update stays inside machine
/// integer ranges.
pub open spec fn holdings_wf(hs: Seq<HoldingV>) -> bool {
    &&& total_stock_units(hs) <= MAX_QTY_UNITS
    &&& total_option_contracts(hs) <= u32::MAX
    &&& costs_ok(hs)
}

pub proof fn lemma_stock_sum_le_total(hs: Seq<HoldingV>, sym: Seq<char>)
    ensures
        0 <= stock_qty_sum(hs, sym) <= total_stock_units(hs),
    decreases hs.len(),
{
    if hs.len() > 0 {
        lemma_stock_sum_le_total(hs.drop_last(), sym);
    }
}

pub proof fn lemma_option_sum_le_total(
    hs: Seq<HoldingV>,
    sym: Seq<char>,
    strike: u64,
    cp: char,
    expiry: Seq<char>,
)
    ensures
        0 <= option_qty_sum(hs, sym, strike, cp, expiry) <= total_option_contracts(hs),
    decreases hs.len(),
{
    if hs.len() > 0 {
        lemma_option_sum_le_total(hs.drop_last(), sym, strike, cp, expiry);
    }
}

pub proof fn lemma_total_stock_nonneg(hs: Seq<HoldingV>)
    ensures
        total_stock_units(hs) >= 0,
        total_option_contracts(hs) >= 0,
    decreases hs.len(),
{
    if hs.len() > 0 {
        lemma_total_stock_nonneg(hs.drop_last());
    }
}

/// A prefix contributes no more than the whole.
pub proof fn lemma_totals_prefix(hs: Seq<HoldingV>, i: int)
    requires
        0 <= i <= hs.len(),
    ensures
        total_stock_units(hs.subrange(0, i)) <= total_stock_units(hs),
        total_option_contracts(hs.subrange(0, i)) <= total_option_contracts(hs),
    decreases hs.len() - i,
{
    if i < hs.len() {
        lemma_totals_prefix(hs, i + 1);
        assert(hs.subrange(0, i + 1).drop_last() =~= hs.subrange(0, i));
        assert(hs.subrange(0, i + 1).last() == hs[i]);
        lemma_total_stock_nonneg(hs.subrange(0, i));
    } else {
        assert(hs.subrange(0, i) =~= hs);
    }
}

/// Replacing the element at `i` shifts each total by the difference of
/// the element contributions.
pub proof fn lemma_totals_update(hs: Seq<HoldingV>, i: int, h: HoldingV)
    requires
        0 <= i < hs.len(),
    ensures
        total_stock_units(hs.update(i, h)) == total_stock_units(hs) - (match hs[i] {
            HoldingV::Stock { quantity, .. } => quantity as int,
            _ => 0,
        }) + (match h {
            HoldingV::Stock { quantity, .. } => quantity as int,
            _ => 0,
        }),
        total_option_contracts(hs.update(i, h)) == total_option_contracts(hs) - (match hs[i] {
            HoldingV::Option { quantity, .. } => quantity as int,
            _ => 0,
        }) + (match h {
            HoldingV::Option { quantity, .. } => quantity as int,
            _ => 0,
        }),
    decreases hs.len(),
{
    let upd = hs.update(i, h);
    if i == hs.len() - 1 {
        assert(upd.drop_last() =~= hs.drop_last());
        assert(upd.last() == h);
    } else {
        assert(upd.drop_last() =~= hs.drop_last().update(i, h));
        assert(upd.last() == hs.last());
        lemma_totals_update(hs.drop_last(), i, h);
    }
}

/// Appending adds exactly the new element's contributions.
pub proof fn lemma_totals_push(hs: Seq<HoldingV>, h: HoldingV)
    ensures
        total_stock_units(hs.push(h)) == total_stock_units(hs) + (match h {
            HoldingV::Stock { quantity, .. } => quantity as int,
            _ => 0,
        }),
        total_option_contracts(hs.push(h)) == total_option_contracts(hs) + (match h {
            HoldingV::Option { quantity, .. } => quantity as int,
            _ => 0,
        }),
{
    assert(hs.push(h).drop_last() =~= hs);
    assert(hs.push(h).last() == h);
}

/// Removing the element at `i` subtracts exactly its contributions.
pub proof fn lemma_totals_remove(hs: Seq<HoldingV>, i: int)
    requires
        0 <= i < hs.len(),
    ensures
        total_stock_units(hs.remove(i)) == total_stock_units(hs) - (match hs[i] {
            HoldingV::Stock { quantity, .. } => quantity as int,
            _ => 0,
        }),
        total_option_contracts(hs.remove(i)) == total_option_contracts(hs) - (match hs[i] {
            HoldingV::Option { quantity, .. } => quantity as int,
            _ => 0,
        }),
    decreases hs.len(),
{
    let rem = hs.remove(i);
    if i == hs.len() - 1 {
        assert(rem =~= hs.drop_last());
    } else {
        assert(rem.drop_last() =~= hs.drop_last().remove(i));
        assert(rem.last() == hs.last());
        lemma_totals_remove(hs.drop_last(), i);
    }
}

/// Weighted-average cost after adding `q2` at price `p2` to a position
/// of `q1` at average `c1`.
pub open spec fn spec_wavg(q1: int, c1: int, q2: int, p2: int) -> int {
    (c1 * q1 + p2 * q2) / (q1 + q2)
}

/// The weighted average of two nonnegative prices lies between zero and
/// their maximum.
pub proof fn lemma_wavg_bounds(q1: int, c1: int, q2: int, p2: int, m: int)
    requires
        q1 >= 0,
        q2 >= 0,
        q1 + q2 > 0,
        0 <= c1 <= m,
        0 <= p2 <= m,
    ensures
        0 <= spec_wavg(q1, c1, q2, p2) <= m,
{
    assert(0 <= c1 * q1 + p2 * q2 <= m * (q1 + q2)) by (nonlinear_arith)
        requires
            q1 >= 0,
            q2 >= 0,
            0 <= c1 <= m,
            0 <= p2 <= m,
    ;
    vstd::arithmetic::div_mod::lemma_div_pos_is_pos(c1 * q1 + p2 * q2, q1 + q2);
    vstd::arithmetic::div_mod::lemma_div_is_ordered(c1 * q1 + p2 * q2, m * (q1 + q2), q1 + q2);
    vstd::arithmetic::div_mod::lemma_div_multiples_vanish(m, q1 + q2);
}

/// Holdings after a stock buy-fill: the first matching holding gets the
/// weighted-average cost and the added quantity; with no match a new
/// holding is appended under the uppercased symbol.
pub open spec fn spec_upsert_stock(
    hs: Seq<HoldingV>,
    sym: Seq<char>,
    fill_qty: u64,
    fill_price: u64,
) -> Seq<HoldingV> {
    let i = first_idx_where(hs, stock_pred(sym));
    if i == -1 {
        hs.push(HoldingV::Stock {
            symbol: spec_upper_seq(sym),
            quantity: fill_qty,
            avg_cost: fill_price,
        })
    } else {
        match hs[i] {
            HoldingV::Stock { symbol, quantity, avg_cost } => {
                let new_qty = quantity + fill_qty;
                let new_cost = if new_qty > 0 {
                    spec_wavg(quantity as int, avg_cost as int, fill_qty as int, fill_price as int)
                } else {
                    0
                };
                hs.update(i, HoldingV::Stock {
                    symbol: symbol,
                    quantity: new_qty as u64,
                    avg_cost: new_cost as u64,
                })
            },
            _ => hs,
        }
    }
}

/// Holdings after an option buy-fill; same weighted-average rule keyed
/// on the full option key, in whole contracts.
pub open spec fn spec_upsert_option(
    hs: Seq<HoldingV>,
    sym: Seq<char>,
    strike: u64,
    cp: char,
    expiry: Seq<char>,
    fill_qty: u32,
    fill_price: u64,
) -> Seq<HoldingV> {
    let i = first_idx_where(hs, option_pred(sym, strike, cp, expiry));
    if i == -1 {
        hs.push(HoldingV::Option {
            symbol: spec_upper_seq(sym),
            strike: strike,
            call_put: spec_to_upper(cp),
            expiry_mmdd: expiry,
            quantity: fill_qty,
            avg_cost: fill_price,
        })
    } else {
        match hs[i] {
            HoldingV::Option { symbol, strike: s, call_put, expiry_mmdd, quantity, avg_cost } => {
                let new_qty = quantity + fill_qty;
                let new_cost = if new_qty > 0 {
                    spec_wavg(quantity as int, avg_cost as int, fill_qty as int, fill_price as int)
                } else {
                    0
                };
                hs.update(i, HoldingV::Option {
                    symbol: symbol,
                    strike: s,
                    call_put: call_put,
                    expiry_mmdd: expiry_mmdd,
                    quantity: new_qty as u32,
                    avg_cost: new_cost as u64,
                })
            },
            _ => hs,
        }
    }
}

/// Outcome of a realize operation: the new holdings, the appended
/// entries and the realized amount.
pub struct RealizeOutcome {
    pub holdings: Seq<HoldingV>,
    pub daily_pl: Seq<PlEntryV>,
    pub realized: int,
}

/// Effect of a stock sell-fill: the first matching holding is reduced
/// by the sold quantity (capped at the held quantity), removed when
/// empty, and one P/L entry is appended; with no matching holding
/// nothing changes and nothing is realized. The realized amount is
/// `(sell_price - avg_cost) * sold` in price units times quantity
/// units.
pub open spec fn spec_realize_stock(
    hs: Seq<HoldingV>,
    pls: Seq<PlEntryV>,
    sym: Seq<char>,
    sell_qty: u64,
    sell_price: u64,
    date: Date,
) -> RealizeOutcome {
    let i = first_idx_where(hs, stock_pred(sym));
    if i == -1 {
        RealizeOutcome { holdings: hs, daily_pl: pls, realized: 0 }
    } else {
        match hs[i] {
            HoldingV::Stock { symbol, quantity, avg_cost } => {
                let q = if sell_qty <= quantity {
                    sell_qty as int
                } else {
                    quantity as int
                };
                let realized = (sell_price - avg_cost) * q;
                let remaining = quantity - q;
                let entry = PlEntryV {
                    date: date,
                    asset: spec_upper_seq(sym),
                    qty: q as u64,
                    realized_pl: realized as i128,
                };
                let new_hs = if remaining == 0 {
                    hs.remove(i)
                } else {
                    hs.update(i, HoldingV::Stock {
                        symbol: symbol,
                        quantity: remaining as u64,
                        avg_cost: avg_cost,
                    })
                };
                RealizeOutcome { holdings: new_hs, daily_pl: pls.push(entry), realized: realized }
            },
            _ => RealizeOutcome { holdings: hs, daily_pl: pls, realized: 0 },
        }
    }
}

/// Effect of an option sell-fill: as for stock, but the realized
/// amount carries the 100-share contract multiplier and the P/L entry
/// quantity is recorded in quantity units.
pub open spec fn spec_realize_option(
    hs: Seq<HoldingV>,
    pls: Seq<PlEntryV>,
    sym: Seq<char>,
    strike: u64,
    cp: char,
    expiry: Seq<char>,
    sell_qty: u32,
    sell_price: u64,
    date: Date,
) -> RealizeOutcome {
    let i = first_idx_where(hs, option_pred(sym, strike, cp, expiry));
    if i == -1 {
        RealizeOutcome { holdings: hs, daily_pl: pls, realized: 0 }
    } else {
        match hs[i] {
            HoldingV::Option { symbol, strike: s, call_put, expiry_mmdd, quantity, avg_cost } => {
                let q = if sell_qty <= quantity {
                    sell_qty as int
                } else {
                    quantity as int
                };
                let realized = (sell_price - avg_cost) * q * 100 * (QTY_SCALE as int);
                let remaining = quantity - q;
                let entry = PlEntryV {
                    date: date,
                    asset: spec_option_label(sym, strike, cp, expiry),
                    qty: (q * (QTY_SCALE as int)) as u64,
                    realized_pl: realized as i128,
                };
                let new_hs = if remaining == 0 {
                    hs.remove(i)
                } else {
                    hs.update(i, HoldingV::Option {
                        symbol: symbol,
                        strike: s,
                        call_put: call_put,
                        expiry_mmdd: expiry_mmdd,
                        quantity: remaining as u32,
                        avg_cost: avg_cost,
                    })
                };
                RealizeOutcome { holdings: new_hs, daily_pl: pls.push(entry), realized: realized }
            },
            _ => RealizeOutcome { holdings: hs, daily_pl: pls, realized: 0 },
        }
    }
}

} // verus!

verus! {

/// A holding's own quantity never exceeds the collection totals.
pub proof fn lemma_elem_le_totals(hs: Seq<HoldingV>, i: int)
    requires
        0 <= i < hs.len(),
    ensures
        (hs[i] matches HoldingV::Stock { quantity, .. } ==> quantity
            <= total_stock_units(hs)),
        (hs[i] matches HoldingV::Option { quantity, .. } ==> quantity
            <= total_option_contracts(hs)),
    decreases hs.len(),
{
    if i == hs.len() - 1 {
        lemma_total_stock_nonneg(hs.drop_last());
    } else {
        lemma_elem_le_totals(hs.drop_last(), i);
    }
}

/// Mathematical value of a holdings vector.
pub open spec fn holdings_view(hs: Seq<Holding>) -> Seq<HoldingV> {
    hs.map_values(|h: Holding| h@)
}

/// Mathematical value of a P/L record vector.
pub open spec fn pl_view(es: Seq<PlEntry>) -> Seq<PlEntryV> {
    es.map_values(|e: PlEntry| e@)
}

/// The persisted bot state: current holdings and realized daily P/L.
#[derive(Debug)]
pub struct BotState {
    /// Full current holdings snapshot (stocks and options).
    pub holdings: Vec<Holding>,
    /// Realized P/L entries, append-only.
    pub daily_pl: Vec<PlEntry>,
}

/// Mathematical value of a [`BotState`].
pub struct BotStateV {
    pub holdings: Seq<HoldingV>,
    pub daily_pl: Seq<PlEntryV>,
}

impl View for BotState {
    type V = BotStateV;

    open spec fn view(&self) -> BotStateV {
        BotStateV {
            holdings: holdings_view(self.holdings@),
            daily_pl: pl_view(self.daily_pl@),
        }
    }
}

impl Default for BotState {
    /// The empty ledger: no holdings, no realized P/L.
    fn default() -> (r: BotState)
        ensures
            r@.holdings.len() == 0,
            r@.daily_pl.len() == 0,
    {
        BotState { holdings: Vec::new(), daily_pl: Vec::new() }
    }
}

impl BotState {
    /// Replace the entire holdings collection with a freshly fetched
    /// authoritative snapshot; realized P/L is untouched.
    pub fn set_holdings(&mut self, new_holdings: Vec<Holding>)
        ensures
            final(self)@.holdings == holdings_view(new_holdings@),
            final(self)@.daily_pl == old(self)@.daily_pl,
    {
        self.holdings = new_holdings;
    }

    /// Index of the first stock holding matching `symbol`.
    fn find_stock_idx(&self, symbol: &str) -> (r: Option<usize>)
        ensures
            (match r {
                Some(i) => i < self@.holdings.len() && first_idx_where(
                    self@.holdings,
                    stock_pred(symbol@),
                ) == i,
                None => first_idx_where(self@.holdings, stock_pred(symbol@)) == -1,
            }),
    {
        let ghost hs = self@.holdings;
        let ghost p = stock_pred(symbol@);
        let n = self.holdings.len();
        let mut i: usize = 0;
        while i < n
            invariant
                i <= n,
                n == self.holdings@.len(),
                hs == self@.holdings,
                p == stock_pred(symbol@),
                forall|k: int| 0 <= k < i ==> !#[trigger] p(hs[k]),
            decreases n - i,
        {
            let is_match = match &self.holdings[i] {
                Holding::Stock { symbol: hsym, .. } => eq_ignore_case(hsym.as_str(), symbol),
                _ => false,
            };
            proof {
                assert(hs[i as int] == self.holdings@[i as int]@);
                assert(p(hs[i as int]) == stock_matches(hs[i as int], symbol@));
            }
            if is_match {
                proof {
                    lemma_first_idx_where(hs, p);
                }
                return Some(i);
            }
            i = i + 1;
        }
        proof {
            lemma_first_idx_where(hs, p);
        }
        None
    }

    /// Index of the first option holding matching the full key.
    fn find_option_idx(&self, symbol: &str, strike: u64, cp: char, expiry: &str) -> (r: Option<
        usize,
    >)
        ensures
            (match r {
                Some(i) => i < self@.holdings.len() && first_idx_where(
                    self@.holdings,
                    option_pred(symbol@, strike, cp, expiry@),
                ) == i,
                None => first_idx_where(
                    self@.holdings,
                    option_pred(symbol@, strike, cp, expiry@),
                ) == -1,
            }),
    {
        let ghost hs = self@.holdings;
        let ghost p = option_pred(symbol@, strike, cp, expiry@);
        let n = self.holdings.len();
        let mut i: usize = 0;
        while i < n
            invariant
                i <= n,
                n == self.holdings@.len(),
                hs == self@.holdings,
                p == option_pred(symbol@, strike, cp, expiry@),
                forall|k: int| 0 <= k < i ==> !#[trigger] p(hs[k]),
            decreases n - i,
        {
            let is_match = match &self.holdings[i] {
                Holding::Option { symbol: hsym, strike: hstrike, call_put, expiry_mmdd, .. } => {
                    eq_ignore_case(hsym.as_str(), symbol) && *hstrike == strike && to_upper(
                        *call_put,
                    ) == to_upper(cp) && str_eq(expiry_mmdd.as_str(), expiry)
                },
                _ => false,
            };
            proof {
                assert(hs[i as int] == self.holdings@[i as int]@);
                assert(p(hs[i as int]) == option_matches(hs[i as int], symbol@, strike, cp,
                    expiry@));
            }
            if is_match {
                proof {
                    lemma_first_idx_where(hs, p);
                }
                return Some(i);
            }
            i = i + 1;
        }
        proof {
            lemma_first_idx_where(hs, p);
        }
        None
    }

    /// Sum of quantity units across all stock holdings matching
    /// `symbol` case-insensitively (defensive against duplicates).
    pub fn position_qty_stock(&self, symbol: &str) -> (q: u64)
        requires
            holdings_wf(self@.holdings),
        ensures
            q == stock_qty_sum(self@.holdings, symbol@),
    {
        let ghost hs = self@.holdings;
        let n = self.holdings.len();
        let mut acc: u64 = 0;
        let mut i: usize = 0;
        while i < n
            invariant
                i <= n,
                n == self.holdings@.len(),
                hs == self@.holdings,
                holdings_wf(hs),
                acc == stock_qty_sum(hs.subrange(0, i as int), symbol@),
            decreases n - i,
        {
            proof {
                assert(hs[i as int] == self.holdings@[i as int]@);
                lemma_stock_sum_le_total(hs.subrange(0, i + 1), symbol@);
                lemma_totals_prefix(hs, i + 1);
                assert(hs.subrange(0, i + 1).drop_last() =~= hs.subrange(0, i as int));
                assert(hs.subrange(0, i + 1).last() == hs[i as int]);
            }
            let add_qty = match &self.holdings[i] {
                Holding::Stock { symbol: hsym, quantity, .. } => {
                    if eq_ignore_case(hsym.as_str(), symbol) {
                        *quantity
                    } else {
                        0
                    }
                },
                _ => 0,
            };
            acc = acc + add_qty;
            i = i + 1;
        }
        proof {
            assert(hs.subrange(0, n as int) =~= hs);
        }
        acc
    }

    /// Sum of contracts across all option holdings matching the key.
    pub fn position_qty_option(&self, symbol: &str, strike: u64, cp: char, expiry: &str) -> (q:
        u32)
        requires
            holdings_wf(self@.holdings),
        ensures
            q == option_qty_sum(self@.holdings, symbol@, strike, cp, expiry@),
    {
        let ghost hs = self@.holdings;
        let n = self.holdings.len();
        let mut acc: u32 = 0;
        let mut i: usize = 0;
        while i < n
            invariant
                i <= n,
                n == self.holdings@.len(),
                hs == self@.holdings,
                holdings_wf(hs),
                acc == option_qty_sum(hs.subrange(0, i as int), symbol@, strike, cp, expiry@),
            decreases n - i,
        {
            proof {
                assert(hs[i as int] == self.holdings@[i as int]@);
                lemma_option_sum_le_total(hs.subrange(0, i + 1), symbol@, strike, cp, expiry@);
                lemma_totals_prefix(hs, i + 1);
                assert(hs.subrange(0, i + 1).drop_last() =~= hs.subrange(0, i as int));
                assert(hs.subrange(0, i + 1).last() == hs[i as int]);
            }
            let add_qty = match &self.holdings[i] {
                Holding::Option { symbol: hsym, strike: hstrike, call_put, expiry_mmdd, quantity,
                    .. } => {
                    if eq_ignore_case(hsym.as_str(), symbol) && *hstrike == strike && to_upper(
                        *call_put,
                    ) == to_upper(cp) && str_eq(expiry_mmdd.as_str(), expiry) {
                        *quantity
                    } else {
                        0
                    }
                },
                _ => 0,
            };
            acc = acc + add_qty;
            i = i + 1;
        }
        proof {
            assert(hs.subrange(0, n as int) =~= hs);
        }
        acc
    }
}

} // verus!

verus! {

impl BotState {
    /// Weighted-average add for stock buy-fills: the first matching
    /// holding (case-insensitive symbol) absorbs the fill; a new
    /// holding is created when none matches.
    pub fn upsert_stock_buy_with_cost(&mut self, symbol: &str, fill_qty: u64, fill_price: u64)
        requires
            holdings_wf(old(self)@.holdings),
            fill_price <= MAX_PRICE_UNITS,
            total_stock_units(old(self)@.holdings) + fill_qty <= MAX_QTY_UNITS,
        ensures
            final(self)@.holdings == spec_upsert_stock(
                old(self)@.holdings,
                symbol@,
                fill_qty,
                fill_price,
            ),
            final(self)@.daily_pl == old(self)@.daily_pl,
            holdings_wf(final(self)@.holdings),
            total_stock_units(final(self)@.holdings) == total_stock_units(old(self)@.holdings)
                + fill_qty,
            total_option_contracts(final(self)@.holdings) == total_option_contracts(
                old(self)@.holdings,
            ),
    {
        let ghost hs0 = self@.holdings;
        let ghost p = stock_pred(symbol@);
        match self.find_stock_idx(symbol) {
            Some(i) => {
                proof {
                    lemma_first_idx_where(hs0, p);
                    lemma_elem_le_totals(hs0, i as int);
                    lemma_total_stock_nonneg(hs0);
                }
                let (new_sym, q0, c0) = match &self.holdings[i] {
                    Holding::Stock { symbol: hsym, quantity, avg_cost } => (
                        hsym.clone(),
                        *quantity,
                        *avg_cost,
                    ),
                    _ => (String::new(), 0u64, 0u64),
                };
                proof {
                    assert(hs0[i as int] == self.holdings@[i as int]@);
                }
                let new_q = q0 + fill_qty;
                let new_c: u64;
                if new_q > 0 {
                    proof {
                        assert(c0 <= MAX_PRICE_UNITS);
                        assert(c0 as int * q0 as int <= MAX_PRICE_UNITS as int
                            * MAX_QTY_UNITS as int) by (nonlinear_arith)
                            requires
                                0 <= c0 <= MAX_PRICE_UNITS,
                                0 <= q0 <= MAX_QTY_UNITS,
                        ;
                        assert(fill_price as int * fill_qty as int <= MAX_PRICE_UNITS as int
                            * MAX_QTY_UNITS as int) by (nonlinear_arith)
                            requires
                                0 <= fill_price <= MAX_PRICE_UNITS,
                                0 <= fill_qty <= MAX_QTY_UNITS,
                        ;
                        lemma_wavg_bounds(
                            q0 as int,
                            c0 as int,
                            fill_qty as int,
                            fill_price as int,
                            MAX_PRICE_UNITS as int,
                        );
                    }
                    let total_cost: u128 = c0 as u128 * q0 as u128 + fill_price as u128
                        * fill_qty as u128;
                    new_c = (total_cost / (new_q as u128)) as u64;
                } else {
                    new_c = 0;
                }
                self.holdings.set(i, Holding::Stock {
                    symbol: new_sym,
                    quantity: new_q,
                    avg_cost: new_c,
                });
                proof {
                    lemma_totals_update(hs0, i as int, self@.holdings[i as int]);
                    assert(self@.holdings =~= spec_upsert_stock(hs0, symbol@, fill_qty,
                        fill_price));
                    assert(costs_ok(self@.holdings)) by {
                        assert(forall|k: int|
                            0 <= k < self@.holdings.len() && k != i ==> self@.holdings[k]
                                == hs0[k]);
                    }
                }
            },
            None => {
                proof {
                    lemma_first_idx_where(hs0, p);
                    lemma_total_stock_nonneg(hs0);
                }
                let s = upper_string(symbol);
                self.holdings.push(Holding::Stock {
                    symbol: s,
                    quantity: fill_qty,
                    avg_cost: fill_price,
                });
                proof {
                    lemma_totals_push(hs0, self@.holdings[hs0.len() as int]);
                    assert(self@.holdings =~= spec_upsert_stock(hs0, symbol@, fill_qty,
                        fill_price));
                    assert(costs_ok(self@.holdings)) by {
                        assert(forall|k: int|
                            0 <= k < hs0.len() ==> self@.holdings[k] == hs0[k]);
                    }
                }
            },
        }
    }

    /// Weighted-average add for option buy-fills, keyed on the full
    /// option key, in whole contracts.
    pub fn upsert_option_buy_with_cost(
        &mut self,
        symbol: &str,
        strike: u64,
        cp: char,
        expiry_mmdd: &str,
        fill_qty: u32,
        fill_price: u64,
    )
        requires
            holdings_wf(old(self)@.holdings),
            fill_price <= MAX_PRICE_UNITS,
            total_option_contracts(old(self)@.holdings) + fill_qty <= u32::MAX,
        ensures
            final(self)@.holdings == spec_upsert_option(
                old(self)@.holdings,
                symbol@,
                strike,
                cp,
                expiry_mmdd@,
                fill_qty,
                fill_price,
            ),
            final(self)@.daily_pl == old(self)@.daily_pl,
            holdings_wf(final(self)@.holdings),
            total_option_contracts(final(self)@.holdings) == total_option_contracts(
                old(self)@.holdings,
            ) + fill_qty,
            total_stock_units(final(self)@.holdings) == total_stock_units(old(self)@.holdings),
    {
        let ghost hs0 = self@.holdings;
        let ghost p = option_pred(symbol@, strike, cp, expiry_mmdd@);
        match self.find_option_idx(symbol, strike, cp, expiry_mmdd) {
            Some(i) => {
                proof {
                    lemma_first_idx_where(hs0, p);
                    lemma_elem_le_totals(hs0, i as int);
                    lemma_total_stock_nonneg(hs0);
                }
                let (new_sym, new_strike, new_cp, new_exp, q0, c0) = match &self.holdings[i] {
                    Holding::Option { symbol: hsym, strike: hstrike, call_put, expiry_mmdd: hexp,
                        quantity, avg_cost } => (
                        hsym.clone(),
                        *hstrike,
                        *call_put,
                        hexp.clone(),
                        *quantity,
                        *avg_cost,
                    ),
                    _ => (String::new(), 0u64, 'C', String::new(), 0u32, 0u64),
                };
                proof {
                    assert(hs0[i as int] == self.holdings@[i as int]@);
                }
                let new_q = q0 + fill_qty;
                let new_c: u64;
                if new_q > 0 {
                    proof {
                        assert(c0 <= MAX_PRICE_UNITS);
                        assert(c0 as int * q0 as int <= MAX_PRICE_UNITS as int
                            * 0xFFFF_FFFFint) by (nonlinear_arith)
                            requires
                                0 <= c0 <= MAX_PRICE_UNITS,
                                0 <= q0 <= 0xFFFF_FFFFu32,
                        ;
                        assert(fill_price as int * fill_qty as int <= MAX_PRICE_UNITS as int
                            * 0xFFFF_FFFFint) by (nonlinear_arith)
                            requires
                                0 <= fill_price <= MAX_PRICE_UNITS,
                                0 <= fill_qty <= 0xFFFF_FFFFu32,
                        ;
                        lemma_wavg_bounds(
                            q0 as int,
                            c0 as int,
                            fill_qty as int,
                            fill_price as int,
                            MAX_PRICE_UNITS as int,
                        );
                    }
                    let total_cost: u128 = c0 as u128 * q0 as u128 + fill_price as u128
                        * fill_qty as u128;
                    new_c = (total_cost / (new_q as u128)) as u64;
                } else {
                    new_c = 0;
                }
                self.holdings.set(i, Holding::Option {
                    symbol: new_sym,
                    strike: new_strike,
                    call_put: new_cp,
                    expiry_mmdd: new_exp,
                    quantity: new_q,
                    avg_cost: new_c,
                });
                proof {
                    lemma_totals_update(hs0, i as int, self@.holdings[i as int]);
                    assert(self@.holdings =~= spec_upsert_option(hs0, symbol@, strike, cp,
                        expiry_mmdd@, fill_qty, fill_price));
                    assert(costs_ok(self@.holdings)) by {
                        assert(forall|k: int|
                            0 <= k < self@.holdings.len() && k != i ==> self@.holdings[k]
                                == hs0[k]);
                    }
                }
            },
            None => {
                proof {
                    lemma_first_idx_where(hs0, p);
                    lemma_total_stock_nonneg(hs0);
                }
                let s = upper_string(symbol);
                let e = expiry_mmdd.to_owned();
                self.holdings.push(Holding::Option {
                    symbol: s,
                    strike: strike,
                    call_put: to_upper(cp),
                    expiry_mmdd: e,
                    quantity: fill_qty,
                    avg_cost: fill_price,
                });
                proof {
                    lemma_totals_push(hs0, self@.holdings[hs0.len() as int]);
                    assert(self@.holdings =~= spec_upsert_option(hs0, symbol@, strike, cp,
                        expiry_mmdd@, fill_qty, fill_price));
                    assert(costs_ok(self@.holdings)) by {
                        assert(forall|k: int|
                            0 <= k < hs0.len() ==> self@.holdings[k] == hs0[k]);
                    }
                }
            },
        }
    }
}

} // verus!

verus! {

impl BotState {
    /// Realize P/L for a stock sell: decrease the first matching
    /// holding by the sold quantity (capped at what is held), remove
    /// it when empty, append one P/L entry, and return the realized
    /// amount in price units times quantity units.
    pub fn realize_stock_sell(
        &mut self,
        symbol: &str,
        sell_qty: u64,
        sell_price: u64,
        date: Date,
    ) -> (realized: i128)
        requires
            holdings_wf(old(self)@.holdings),
            sell_price <= MAX_PRICE_UNITS,
        ensures
            ({
                let o = spec_realize_stock(
                    old(self)@.holdings,
                    old(self)@.daily_pl,
                    symbol@,
                    sell_qty,
                    sell_price,
                    date,
                );
                &&& final(self)@.holdings == o.holdings
                &&& final(self)@.daily_pl == o.daily_pl
                &&& realized == o.realized
            }),
            holdings_wf(final(self)@.holdings),
    {
        let ghost hs0 = self@.holdings;
        let ghost pls0 = self@.daily_pl;
        let ghost p = stock_pred(symbol@);
        match self.find_stock_idx(symbol) {
            Some(i) => {
                proof {
                    lemma_first_idx_where(hs0, p);
                    lemma_elem_le_totals(hs0, i as int);
                    lemma_total_stock_nonneg(hs0);
                }
                let (hsym, q0, c0) = match &self.holdings[i] {
                    Holding::Stock { symbol: hsym, quantity, avg_cost } => (
                        hsym.clone(),
                        *quantity,
                        *avg_cost,
                    ),
                    _ => (String::new(), 0u64, 0u64),
                };
                proof {
                    assert(hs0[i as int] == self.holdings@[i as int]@);
                }
                let q = if sell_qty <= q0 {
                    sell_qty
                } else {
                    q0
                };
                proof {
                    assert(c0 <= MAX_PRICE_UNITS);
                    assert((sell_price as int - c0 as int) * q as int
                        <= MAX_PRICE_UNITS as int * MAX_QTY_UNITS as int
                        && (sell_price as int - c0 as int) * q as int
                        >= -(MAX_PRICE_UNITS as int * MAX_QTY_UNITS as int))
                        by (nonlinear_arith)
                        requires
                            0 <= q <= MAX_QTY_UNITS,
                            0 <= c0 <= MAX_PRICE_UNITS,
                            0 <= sell_price <= MAX_PRICE_UNITS,
                    ;
                }
                let realized: i128 = (sell_price as i128 - c0 as i128) * q as i128;
                let rem = q0 - q;
                let asset = upper_string(symbol);
                self.daily_pl.push(PlEntry {
                    date: date,
                    asset: asset,
                    qty: q,
                    realized_pl: realized,
                });
                if rem == 0 {
                    self.holdings.remove(i);
                    proof {
                        lemma_totals_remove(hs0, i as int);
                    }
                } else {
                    self.holdings.set(i, Holding::Stock {
                        symbol: hsym,
                        quantity: rem,
                        avg_cost: c0,
                    });
                    proof {
                        lemma_totals_update(hs0, i as int, self@.holdings[i as int]);
                    }
                }
                proof {
                    let o = spec_realize_stock(hs0, pls0, symbol@, sell_qty, sell_price, date);
                    assert(self@.holdings =~= o.holdings);
                    assert(self@.daily_pl =~= o.daily_pl);
                    assert(costs_ok(self@.holdings)) by {
                        assert(forall|k: int|
                            0 <= k < self@.holdings.len() ==> self@.holdings[k] == hs0[k]
                                || self@.holdings[k] == hs0[k + 1] || k == i);
                    }
                }
                realized
            },
            None => {
                proof {
                    lemma_first_idx_where(hs0, p);
                }
                0
            },
        }
    }

    /// Realize P/L for an option sell: as for stock, with the
    /// 100-share contract multiplier folded into the realized amount,
    /// which is returned in price units times quantity units.
    pub fn realize_option_sell(
        &mut self,
        symbol: &str,
        strike: u64,
        cp: char,
        expiry_mmdd: &str,
        sell_qty: u32,
        sell_price: u64,
        date: Date,
    ) -> (realized: i128)
        requires
            holdings_wf(old(self)@.holdings),
            sell_price <= MAX_PRICE_UNITS,
        ensures
            ({
                let o = spec_realize_option(
                    old(self)@.holdings,
                    old(self)@.daily_pl,
                    symbol@,
                    strike,
                    cp,
                    expiry_mmdd@,
                    sell_qty,
                    sell_price,
                    date,
                );
                &&& final(self)@.holdings == o.holdings
                &&& final(self)@.daily_pl == o.daily_pl
                &&& realized == o.realized
            }),
            holdings_wf(final(self)@.holdings),
    {
        let ghost hs0 = self@.holdings;
        let ghost pls0 = self@.daily_pl;
        let ghost p = option_pred(symbol@, strike, cp, expiry_mmdd@);
        match self.find_option_idx(symbol, strike, cp, expiry_mmdd) {
            Some(i) => {
                proof {
                    lemma_first_idx_where(hs0, p);
                    lemma_elem_le_totals(hs0, i as int);
                    lemma_total_stock_nonneg(hs0);
                }
                let (hsym, hstrike, hcp, hexp, q0, c0) = match &self.holdings[i] {
                    Holding::Option { symbol: hsym, strike: hstrike, call_put, expiry_mmdd: hexp,
                        quantity, avg_cost } => (
                        hsym.clone(),
                        *hstrike,
                        *call_put,
                        hexp.clone(),
                        *quantity,
                        *avg_cost,
                    ),
                    _ => (String::new(), 0u64, 'C', String::new(), 0u32, 0u64),
                };
                proof {
                    assert(hs0[i as int] == self.holdings@[i as int]@);
                }
                let q = if sell_qty <= q0 {
                    sell_qty
                } else {
                    q0
                };
                proof {
                    assert(c0 <= MAX_PRICE_UNITS);
                    assert((sell_price as int - c0 as int) * q as int
                        <= MAX_PRICE_UNITS as int * 0xFFFF_FFFFint
                        && (sell_price as int - c0 as int) * q as int
                        >= -(MAX_PRICE_UNITS as int * 0xFFFF_FFFFint))
                        by (nonlinear_arith)
                        requires
                            0 <= q <= 0xFFFF_FFFFu32,
                            0 <= c0 <= MAX_PRICE_UNITS,
                            0 <= sell_price <= MAX_PRICE_UNITS,
                    ;
                }
                let diff_times_q: i128 = (sell_price as i128 - c0 as i128) * q as i128;
                let with_mult: i128 = diff_times_q * 100;
                let realized: i128 = with_mult * (QTY_SCALE as i128);
                let rem = q0 - q;
                let asset = option_label(symbol, strike, cp, expiry_mmdd);
                self.daily_pl.push(PlEntry {
                    date: date,
                    asset: asset,
                    qty: q as u64 * QTY_SCALE,
                    realized_pl: realized,
                });
                if rem == 0 {
                    self.holdings.remove(i);
                    proof {
                        lemma_totals_remove(hs0, i as int);
                    }
                } else {
                    self.holdings.set(i, Holding::Option {
                        symbol: hsym,
                        strike: hstrike,
                        call_put: hcp,
                        expiry_mmdd: hexp,
                        quantity: rem,
                        avg_cost: c0,
                    });
                    proof {
                        lemma_totals_update(hs0, i as int, self@.holdings[i as int]);
                    }
                }
                proof {
                    let o = spec_realize_option(hs0, pls0, symbol@, strike, cp, expiry_mmdd@,
                        sell_qty, sell_price, date);
                    assert(self@.holdings =~= o.holdings);
                    assert(self@.daily_pl =~= o.daily_pl);
                    assert(costs_ok(self@.holdings)) by {
                        assert(forall|k: int|
                            0 <= k < self@.holdings.len() ==> self@.holdings[k] == hs0[k]
                                || self@.holdings[k] == hs0[k + 1] || k == i);
                    }
                }
                realized
            },
            None => {
                proof {
                    lemma_first_idx_where(hs0, p);
                }
                0
            },
        }
    }
}

/// Whether a holdings vector satisfies the ledger's well-formedness
/// bounds; lets a caller validate an external snapshot before it
/// becomes the ledger's collection.
pub fn check_holdings_wf(hs: &Vec<Holding>) -> (r: bool)
    ensures
        r == holdings_wf(holdings_view(hs@)),
{
    let ghost vw = holdings_view(hs@);
    let n = hs.len();
    let mut stock_total: u128 = 0;
    let mut opt_total: u128 = 0;
    let mut costs = true;
    let mut i: usize = 0;
    while i < n
        invariant
            i <= n,
            n == hs@.len(),
            vw == holdings_view(hs@),
            stock_total == total_stock_units(vw.subrange(0, i as int)),
            opt_total == total_option_contracts(vw.subrange(0, i as int)),
            stock_total <= i as int * 0xFFFF_FFFF_FFFF_FFFFu64,
            opt_total <= i as int * 0xFFFF_FFFF_FFFF_FFFFu64,
            costs == costs_ok(vw.subrange(0, i as int)),
        decreases n - i,
    {
        proof {
            assert(vw[i as int] == hs@[i as int]@);
            assert(vw.subrange(0, i + 1).drop_last() =~= vw.subrange(0, i as int));
            assert(vw.subrange(0, i + 1).last() == vw[i as int]);
            assert((i + 1) as int * 0xFFFF_FFFF_FFFF_FFFFu64 <= u128::MAX) by (nonlinear_arith)
                requires
                    0 <= i + 1 <= 0x1_0000_0000_0000_0000u128,
            ;
        }
        match &hs[i] {
            Holding::Stock { quantity, avg_cost, .. } => {
                stock_total = stock_total + *quantity as u128;
                if *avg_cost > MAX_PRICE_UNITS {
                    costs = false;
                }
            },
            Holding::Option { quantity, avg_cost, .. } => {
                opt_total = opt_total + *quantity as u128;
                if *avg_cost > MAX_PRICE_UNITS {
                    costs = false;
                }
            },
        }
        i = i + 1;
        proof {
            if !costs_ok(vw.subrange(0, i - 1)) {
                assert(!costs_ok(vw.subrange(0, i as int))) by {
                    let sub = vw.subrange(0, i - 1);
                    let k = choose|k: int|
                        0 <= k < sub.len() && !(match #[trigger] sub[k] {
                            HoldingV::Stock { avg_cost, .. } => avg_cost <= MAX_PRICE_UNITS,
                            HoldingV::Option { avg_cost, .. } => avg_cost <= MAX_PRICE_UNITS,
                        });
                    assert(vw.subrange(0, i as int)[k] == sub[k]);
                }
            }
        }
    }
    proof {
        assert(vw.subrange(0, n as int) =~= vw);
    }
    costs && stock_total <= MAX_QTY_UNITS as u128 && opt_total <= u32::MAX as u128
}

} // verus!
