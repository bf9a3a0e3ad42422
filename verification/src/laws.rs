//! Laws the ledger obeys, stated and proved over the same spec
//! functions the executable operations are verified against.

use vstd::prelude::*;

use crate::ledger::{
    first_idx_where, spec_realize_stock, spec_upsert_stock, stock_pred,
};
use crate::text::{spec_eq_ignore_case, spec_to_lower, spec_to_upper, spec_upper_seq};
use crate::types::{Date, HoldingV, PlEntryV, MAX_PRICE_UNITS, MAX_QTY_UNITS};

verus! {

/// Lowering an uppercased character gives the same result as lowering
/// the character itself.
pub proof fn lemma_lower_of_upper(c: char)
    ensures
        spec_to_lower(spec_to_upper(c)) == spec_to_lower(c),
{
}

/// A symbol matches its own uppercased form, case-insensitively.
pub proof fn lemma_upper_matches(s: Seq<char>)
    ensures
        spec_eq_ignore_case(spec_upper_seq(s), s),
{
    assert forall|i: int| 0 <= i < s.len() implies spec_to_lower(spec_upper_seq(s)[i])
        == spec_to_lower(s[i]) by {
        lemma_lower_of_upper(s[i]);
    }
}

/// Buy-upsert law: two buy-fills of `q1` at `p1` then `q2` at `p2`
/// applied to an empty ledger yield a single holding of quantity
/// `q1 + q2` whose average cost is the exact weighted average
/// `(q1*p1 + q2*p2) / (q1 + q2)`, and the outcome does not depend on
/// the order of the two fills.
pub proof fn law_buy_upsert_weighted_average(sym: Seq<char>, q1: u64, p1: u64, q2: u64, p2: u64)
    requires
        q1 > 0,
        q2 > 0,
        q1 + q2 <= MAX_QTY_UNITS,
        p1 <= MAX_PRICE_UNITS,
        p2 <= MAX_PRICE_UNITS,
    ensures
        ({
            let twice = spec_upsert_stock(spec_upsert_stock(Seq::empty(), sym, q1, p1), sym, q2,
                p2);
            &&& twice.len() == 1
            &&& twice[0] matches HoldingV::Stock { symbol, quantity, avg_cost }
                && symbol == spec_upper_seq(sym) && quantity == q1 + q2 && avg_cost == (p1 * q1
                + p2 * q2) / (q1 + q2)
            &&& twice == spec_upsert_stock(spec_upsert_stock(Seq::empty(), sym, q2, p2), sym, q1,
                p1)
        }),
{
    lemma_upper_matches(sym);
    let empty = Seq::<HoldingV>::empty();
    let p = stock_pred(sym);
    assert(first_idx_where(empty, p) == -1);
    let once = spec_upsert_stock(empty, sym, q1, p1);
    let h0 = HoldingV::Stock { symbol: spec_upper_seq(sym), quantity: q1, avg_cost: p1 };
    assert(once =~= seq![h0]);
    assert(p(once[0]));
    assert(first_idx_where(once, p) == 0);
    crate::ledger::lemma_wavg_bounds(q1 as int, p1 as int, q2 as int, p2 as int,
        MAX_PRICE_UNITS as int);
    let twice = spec_upsert_stock(once, sym, q2, p2);
    let havg = HoldingV::Stock {
        symbol: spec_upper_seq(sym),
        quantity: (q1 + q2) as u64,
        avg_cost: ((p1 * q1 + p2 * q2) / (q1 + q2)) as u64,
    };
    assert(twice =~= seq![havg]);
    let once_r = spec_upsert_stock(empty, sym, q2, p2);
    let h0_r = HoldingV::Stock { symbol: spec_upper_seq(sym), quantity: q2, avg_cost: p2 };
    assert(once_r =~= seq![h0_r]);
    assert(p(once_r[0]));
    assert(first_idx_where(once_r, p) == 0);
    crate::ledger::lemma_wavg_bounds(q2 as int, p2 as int, q1 as int, p1 as int,
        MAX_PRICE_UNITS as int);
    let twice_r = spec_upsert_stock(once_r, sym, q1, p1);
    assert(twice_r =~= seq![havg]);
}

/// Sell-realize law: selling against the first matching stock holding
/// realizes `(sell_price - avg_cost)` per unit on the sold quantity
/// (the requested quantity capped at what is held), appends exactly
/// that one entry, removes the holding entirely when the full held
/// quantity is sold, and otherwise leaves the remaining quantity at an
/// unchanged average cost.
pub proof fn law_stock_sell_realize(
    hs: Seq<HoldingV>,
    pls: Seq<PlEntryV>,
    sym: Seq<char>,
    sell_qty: u64,
    sell_price: u64,
    date: Date,
)
    requires
        first_idx_where(hs, stock_pred(sym)) != -1,
    ensures
        ({
            let i = first_idx_where(hs, stock_pred(sym));
            let o = spec_realize_stock(hs, pls, sym, sell_qty, sell_price, date);
            hs[i] matches HoldingV::Stock { symbol, quantity, avg_cost } ==> {
                let sold = if sell_qty <= quantity {
                    sell_qty as int
                } else {
                    quantity as int
                };
                &&& o.realized == (sell_price - avg_cost) * sold
                &&& o.daily_pl == pls.push(PlEntryV {
                    date: date,
                    asset: spec_upper_seq(sym),
                    qty: sold as u64,
                    realized_pl: ((sell_price - avg_cost) * sold) as i128,
                })
                &&& sell_qty >= quantity ==> o.holdings == hs.remove(i)
                &&& sell_qty < quantity ==> o.holdings == hs.update(i, HoldingV::Stock {
                    symbol: symbol,
                    quantity: (quantity - sell_qty) as u64,
                    avg_cost: avg_cost,
                })
            }
        }),
{
    lemma_first_idx_where_pub(hs, stock_pred(sym));
}

/// Re-export of the first-match characterization used by the laws.
proof fn lemma_first_idx_where_pub(hs: Seq<HoldingV>, p: spec_fn(HoldingV) -> bool)
    ensures
        first_idx_where(hs, p) != -1 ==> 0 <= first_idx_where(hs, p) < hs.len(),
{
    crate::ledger::lemma_first_idx_where(hs, p);
}

/// Monitor law, sell path: a sell that is only partially filled at its
/// deadline books exactly one realized entry for the partial fill, and
/// when a matching holding remains, a fill of the one-shot market
/// re-submission books exactly one more; no further entries arise from
/// the two settlements.
pub proof fn law_sell_partial_then_followup_entries(
    hs: Seq<HoldingV>,
    pls: Seq<PlEntryV>,
    sym: Seq<char>,
    filled1: u64,
    px1: u64,
    filled2: u64,
    px2: u64,
    date: Date,
)
    requires
        first_idx_where(hs, stock_pred(sym)) != -1,
        filled1 > 0,
        filled2 > 0,
    ensures
        ({
            let o1 = spec_realize_stock(hs, pls, sym, filled1, px1, date);
            &&& o1.daily_pl.len() == pls.len() + 1
            &&& (first_idx_where(o1.holdings, stock_pred(sym)) != -1 ==> spec_realize_stock(
                o1.holdings,
                o1.daily_pl,
                sym,
                filled2,
                px2,
                date,
            ).daily_pl.len() == pls.len() + 2)
        }),
{
    crate::ledger::lemma_first_idx_where(hs, stock_pred(sym));
    let o1 = spec_realize_stock(hs, pls, sym, filled1, px1, date);
    if first_idx_where(o1.holdings, stock_pred(sym)) != -1 {
        crate::ledger::lemma_first_idx_where(o1.holdings, stock_pred(sym));
    }
}

} // verus!

verus! {

/// Sell-realize law for options: as for stock, with the realized
/// amount carrying the 100-share contract multiplier (stated here in
/// the ledger's price-times-quantity units), full sales removing the
/// holding and partial sales leaving the average cost unchanged.
pub proof fn law_option_sell_realize(
    hs: Seq<HoldingV>,
    pls: Seq<PlEntryV>,
    sym: Seq<char>,
    strike: u64,
    cp: char,
    expiry: Seq<char>,
    sell_qty: u32,
    sell_price: u64,
    date: Date,
)
    requires
        first_idx_where(hs, crate::ledger::option_pred(sym, strike, cp, expiry)) != -1,
    ensures
        ({
            let i = first_idx_where(hs, crate::ledger::option_pred(sym, strike, cp, expiry));
            let o = crate::ledger::spec_realize_option(hs, pls, sym, strike, cp, expiry, sell_qty,
                sell_price, date);
            hs[i] matches HoldingV::Option { symbol, strike: s, call_put, expiry_mmdd, quantity,
                avg_cost } ==> {
                let sold = if sell_qty <= quantity {
                    sell_qty as int
                } else {
                    quantity as int
                };
                &&& o.realized == (sell_price - avg_cost) * sold * 100 * (
                crate::types::QTY_SCALE as int)
                &&& o.daily_pl.len() == pls.len() + 1
                &&& sell_qty >= quantity ==> o.holdings == hs.remove(i)
                &&& sell_qty < quantity ==> o.holdings == hs.update(i, HoldingV::Option {
                    symbol: symbol,
                    strike: s,
                    call_put: call_put,
                    expiry_mmdd: expiry_mmdd,
                    quantity: (quantity - sell_qty) as u32,
                    avg_cost: avg_cost,
                })
            }
        }),
{
    crate::ledger::lemma_first_idx_where(hs, crate::ledger::option_pred(sym, strike, cp, expiry));
}

} // verus!
