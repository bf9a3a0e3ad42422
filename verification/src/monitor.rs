//! Order lifecycle decisions: status normalization, the polling stop
//! rule, and the ledger settlement applied when a monitored order's
//! final poll comes back.
//!
//! The blocking poll loop itself, the broker calls and the persistence
//! writes live outside the library; each settlement function here takes
//! the observed order information and performs exactly the ledger
//! mutation the lifecycle rules call for, returning what the caller
//! must still do (cancel, or cancel and re-submit the remainder as a
//! market order).

use vstd::prelude::*;

use crate::ledger::{
    holdings_wf, spec_realize_option, spec_realize_stock, spec_upsert_option, spec_upsert_stock,
    total_option_contracts, total_stock_units, BotState,
};
use crate::text::{spec_upper_seq, str_eq, upper_string};
use crate::types::{Date, MAX_PRICE_UNITS, MAX_QTY_UNITS, QTY_SCALE};

verus! {

/// Normalized order status taxonomy.
#[derive(Debug, Clone)]
pub enum OrderStatus {
    Working,
    PartiallyFilled,
    Filled,
    Canceled,
    Rejected,
    /// An unrecognized raw broker code, kept verbatim (uppercased);
    /// treated as `Working` for decision purposes.
    Unknown(String),
}

/// Mathematical value of an [`OrderStatus`].
pub enum OrderStatusV {
    Working,
    PartiallyFilled,
    Filled,
    Canceled,
    Rejected,
    Unknown(Seq<char>),
}

impl View for OrderStatus {
    type V = OrderStatusV;

    open spec fn view(&self) -> OrderStatusV {
        match self {
            OrderStatus::Working => OrderStatusV::Working,
            OrderStatus::PartiallyFilled => OrderStatusV::PartiallyFilled,
            OrderStatus::Filled => OrderStatusV::Filled,
            OrderStatus::Canceled => OrderStatusV::Canceled,
            OrderStatus::Rejected => OrderStatusV::Rejected,
            OrderStatus::Unknown(s) => OrderStatusV::Unknown(s@),
        }
    }
}

/// What the broker reported for an order: normalized status, filled
/// quantity in quantity units, and the average fill price in price
/// units.
#[derive(Debug, Clone)]
pub struct OrderInfo {
    pub status: OrderStatus,
    pub filled_qty: u64,
    pub avg_fill_price: u64,
}

/// How a raw broker status code normalizes into the taxonomy; codes
/// are uppercased first and unrecognized ones are kept under
/// `Unknown`.
pub open spec fn spec_status_from_code(code: Seq<char>) -> OrderStatusV {
    let up = spec_upper_seq(code);
    if up == "WORKING"@ || up == "OPEN"@ || up == "PENDING"@ {
        OrderStatusV::Working
    } else if up == "PARTIALLY_FILLED"@ || up == "PARTIAL"@ {
        OrderStatusV::PartiallyFilled
    } else if up == "FILLED"@ {
        OrderStatusV::Filled
    } else if up == "CANCELED"@ || up == "CANCELLED"@ {
        OrderStatusV::Canceled
    } else if up == "REJECTED"@ {
        OrderStatusV::Rejected
    } else {
        OrderStatusV::Unknown(up)
    }
}

/// Normalize a raw broker status code.
pub fn status_from_code(code: &str) -> (r: OrderStatus)
    ensures
        r@ == spec_status_from_code(code@),
{
    let up = upper_string(code);
    if str_eq(up.as_str(), "WORKING") || str_eq(up.as_str(), "OPEN") || str_eq(
        up.as_str(),
        "PENDING",
    ) {
        OrderStatus::Working
    } else if str_eq(up.as_str(), "PARTIALLY_FILLED") || str_eq(up.as_str(), "PARTIAL") {
        OrderStatus::PartiallyFilled
    } else if str_eq(up.as_str(), "FILLED") {
        OrderStatus::Filled
    } else if str_eq(up.as_str(), "CANCELED") || str_eq(up.as_str(), "CANCELLED") {
        OrderStatus::Canceled
    } else if str_eq(up.as_str(), "REJECTED") {
        OrderStatus::Rejected
    } else {
        OrderStatus::Unknown(up)
    }
}

/// A status on which polling ends regardless of the deadline.
pub open spec fn spec_is_terminal(s: OrderStatusV) -> bool {
    s is Filled || s is Canceled || s is Rejected
}

/// The poll loop's stop rule: stop on a terminal status or once the
/// deadline has elapsed; a timeout is a normal exit, not an error.
pub fn poll_should_stop(status: &OrderStatus, elapsed_ms: u64, timeout_ms: u64) -> (stop: bool)
    ensures
        stop == (spec_is_terminal(status@) || elapsed_ms >= timeout_ms),
{
    let terminal = match status {
        OrderStatus::Filled => true,
        OrderStatus::Canceled => true,
        OrderStatus::Rejected => true,
        _ => false,
    };
    terminal || elapsed_ms >= timeout_ms
}

/// What remains for the caller to do after a settlement.
#[derive(Debug, Clone, Copy, PartialEq, Eq, Structural)]
pub enum SellFollowUp {
    /// Nothing further.
    Done,
    /// Cancel the original order; nothing is left to re-submit.
    Cancel,
    /// Cancel the original order and submit a market order for the
    /// remaining quantity (stock quantity units, or whole contracts
    /// for options).
    CancelAndResubmit { remaining: u64 },
}

/// Settle a monitored stock buy order from its final poll: a full fill
/// commits the whole ordered quantity at the reported average price; a
/// partial fill commits only the filled quantity and asks for a
/// cancel; a still-working or unknown order is canceled with no ledger
/// change; a canceled or rejected order changes nothing.
pub fn settle_buy_stock(
    st: &mut BotState,
    symbol: &str,
    qty_units: u64,
    info: &OrderInfo,
) -> (cancel: bool)
    requires
        holdings_wf(old(st)@.holdings),
        info.avg_fill_price <= MAX_PRICE_UNITS,
        info.filled_qty <= qty_units,
        total_stock_units(old(st)@.holdings) + qty_units <= MAX_QTY_UNITS,
    ensures
        info.status@ is Filled ==> final(st)@.holdings == spec_upsert_stock(
            old(st)@.holdings,
            symbol@,
            qty_units,
            info.avg_fill_price,
        ) && !cancel,
        info.status@ is PartiallyFilled ==> cancel && (if info.filled_qty > 0 {
            final(st)@.holdings == spec_upsert_stock(
                old(st)@.holdings,
                symbol@,
                info.filled_qty,
                info.avg_fill_price,
            )
        } else {
            final(st)@.holdings == old(st)@.holdings
        }),
        (info.status@ is Working || info.status@ is Unknown) ==> final(st)@.holdings == old(
            st,
        )@.holdings && cancel,
        (info.status@ is Canceled || info.status@ is Rejected) ==> final(st)@.holdings == old(
            st,
        )@.holdings && !cancel,
        final(st)@.daily_pl == old(st)@.daily_pl,
        holdings_wf(final(st)@.holdings),
{
    match &info.status {
        OrderStatus::Filled => {
            st.upsert_stock_buy_with_cost(symbol, qty_units, info.avg_fill_price);
            false
        },
        OrderStatus::PartiallyFilled => {
            if info.filled_qty > 0 {
                st.upsert_stock_buy_with_cost(symbol, info.filled_qty, info.avg_fill_price);
            }
            true
        },
        OrderStatus::Working => true,
        OrderStatus::Unknown(_) => true,
        OrderStatus::Canceled => false,
        OrderStatus::Rejected => false,
    }
}

/// Settle a monitored option buy order from its final poll; quantities
/// are whole contracts, and a reported partial fill is committed for
/// the filled contracts only.
pub fn settle_buy_option(
    st: &mut BotState,
    symbol: &str,
    strike: u64,
    cp: char,
    expiry_mmdd: &str,
    qty: u32,
    info: &OrderInfo,
) -> (cancel: bool)
    requires
        holdings_wf(old(st)@.holdings),
        info.avg_fill_price <= MAX_PRICE_UNITS,
        info.filled_qty <= qty as int * QTY_SCALE as int,
        total_option_contracts(old(st)@.holdings) + qty <= u32::MAX,
    ensures
        info.status@ is Filled ==> final(st)@.holdings == spec_upsert_option(
            old(st)@.holdings,
            symbol@,
            strike,
            cp,
            expiry_mmdd@,
            qty,
            info.avg_fill_price,
        ) && !cancel,
        info.status@ is PartiallyFilled ==> cancel && (if info.filled_qty / QTY_SCALE > 0 {
            final(st)@.holdings == spec_upsert_option(
                old(st)@.holdings,
                symbol@,
                strike,
                cp,
                expiry_mmdd@,
                (info.filled_qty / QTY_SCALE) as u32,
                info.avg_fill_price,
            )
        } else {
            final(st)@.holdings == old(st)@.holdings
        }),
        (info.status@ is Working || info.status@ is Unknown) ==> final(st)@.holdings == old(
            st,
        )@.holdings && cancel,
        (info.status@ is Canceled || info.status@ is Rejected) ==> final(st)@.holdings == old(
            st,
        )@.holdings && !cancel,
        final(st)@.daily_pl == old(st)@.daily_pl,
        holdings_wf(final(st)@.holdings),
{
    match &info.status {
        OrderStatus::Filled => {
            st.upsert_option_buy_with_cost(symbol, strike, cp, expiry_mmdd, qty,
                info.avg_fill_price);
            false
        },
        OrderStatus::PartiallyFilled => {
            let filled_contracts = (info.filled_qty / QTY_SCALE) as u32;
            if filled_contracts > 0 {
                st.upsert_option_buy_with_cost(symbol, strike, cp, expiry_mmdd, filled_contracts,
                    info.avg_fill_price);
            }
            true
        },
        OrderStatus::Working => true,
        OrderStatus::Unknown(_) => true,
        OrderStatus::Canceled => false,
        OrderStatus::Rejected => false,
    }
}

/// Settle a monitored stock sell order from its final poll: a full
/// fill realizes the original requested quantity at the reported
/// average price; anything short of a full fill realizes whatever
/// filled and, for a limit order only, directs a cancel and a market
/// re-submission of the remainder; a canceled or rejected order
/// changes nothing.
pub fn settle_sell_stock(
    st: &mut BotState,
    symbol: &str,
    orig_qty_units: u64,
    was_market: bool,
    date: Date,
    info: &OrderInfo,
) -> (act: SellFollowUp)
    requires
        holdings_wf(old(st)@.holdings),
        info.avg_fill_price <= MAX_PRICE_UNITS,
    ensures
        info.status@ is Filled ==> ({
            let o = spec_realize_stock(
                old(st)@.holdings,
                old(st)@.daily_pl,
                symbol@,
                orig_qty_units,
                info.avg_fill_price,
                date,
            );
            final(st)@.holdings == o.holdings && final(st)@.daily_pl == o.daily_pl && act
                == SellFollowUp::Done
        }),
        (info.status@ is PartiallyFilled || info.status@ is Working || info.status@ is Unknown)
            ==> ({
            let o = spec_realize_stock(
                old(st)@.holdings,
                old(st)@.daily_pl,
                symbol@,
                info.filled_qty,
                info.avg_fill_price,
                date,
            );
            &&& (if info.filled_qty > 0 {
                final(st)@.holdings == o.holdings && final(st)@.daily_pl == o.daily_pl
            } else {
                final(st)@ == old(st)@
            })
            &&& act == (if was_market {
                SellFollowUp::Done
            } else if orig_qty_units > info.filled_qty {
                SellFollowUp::CancelAndResubmit {
                    remaining: (orig_qty_units - info.filled_qty) as u64,
                }
            } else {
                SellFollowUp::Cancel
            })
        }),
        (info.status@ is Canceled || info.status@ is Rejected) ==> final(st)@ == old(st)@ && act
            == SellFollowUp::Done,
        holdings_wf(final(st)@.holdings),
{
    match &info.status {
        OrderStatus::Filled => {
            let _ = st.realize_stock_sell(symbol, orig_qty_units, info.avg_fill_price, date);
            SellFollowUp::Done
        },
        OrderStatus::PartiallyFilled | OrderStatus::Working | OrderStatus::Unknown(_) => {
            if info.filled_qty > 0 {
                let _ = st.realize_stock_sell(symbol, info.filled_qty, info.avg_fill_price, date);
            }
            if was_market {
                SellFollowUp::Done
            } else if orig_qty_units > info.filled_qty {
                SellFollowUp::CancelAndResubmit { remaining: orig_qty_units - info.filled_qty }
            } else {
                SellFollowUp::Cancel
            }
        },
        OrderStatus::Canceled | OrderStatus::Rejected => SellFollowUp::Done,
    }
}

/// Settle the one-shot market re-submission of a stock sell: any
/// filled quantity is realized; nothing else is attempted.
pub fn settle_sell_stock_followup(st: &mut BotState, symbol: &str, date: Date, info: &OrderInfo)
    requires
        holdings_wf(old(st)@.holdings),
        info.avg_fill_price <= MAX_PRICE_UNITS,
    ensures
        info.filled_qty > 0 ==> ({
            let o = spec_realize_stock(
                old(st)@.holdings,
                old(st)@.daily_pl,
                symbol@,
                info.filled_qty,
                info.avg_fill_price,
                date,
            );
            final(st)@.holdings == o.holdings && final(st)@.daily_pl == o.daily_pl
        }),
        info.filled_qty == 0 ==> final(st)@ == old(st)@,
        holdings_wf(final(st)@.holdings),
{
    if info.filled_qty > 0 {
        let _ = st.realize_stock_sell(symbol, info.filled_qty, info.avg_fill_price, date);
    }
}

/// Settle a monitored option sell order from its final poll; the
/// filled quantity is read in whole contracts and the remainder to
/// re-submit is returned in whole contracts.
pub fn settle_sell_option(
    st: &mut BotState,
    symbol: &str,
    strike: u64,
    cp: char,
    expiry_mmdd: &str,
    orig_qty: u32,
    was_market: bool,
    date: Date,
    info: &OrderInfo,
) -> (act: SellFollowUp)
    requires
        holdings_wf(old(st)@.holdings),
        info.avg_fill_price <= MAX_PRICE_UNITS,
        info.filled_qty <= 0xFFFF_FFFFu32 as int * QTY_SCALE as int,
    ensures
        info.status@ is Filled ==> ({
            let o = spec_realize_option(
                old(st)@.holdings,
                old(st)@.daily_pl,
                symbol@,
                strike,
                cp,
                expiry_mmdd@,
                orig_qty,
                info.avg_fill_price,
                date,
            );
            final(st)@.holdings == o.holdings && final(st)@.daily_pl == o.daily_pl && act
                == SellFollowUp::Done
        }),
        (info.status@ is PartiallyFilled || info.status@ is Working || info.status@ is Unknown)
            ==> ({
            let filled = (info.filled_qty / QTY_SCALE) as u32;
            let o = spec_realize_option(
                old(st)@.holdings,
                old(st)@.daily_pl,
                symbol@,
                strike,
                cp,
                expiry_mmdd@,
                filled,
                info.avg_fill_price,
                date,
            );
            &&& (if filled > 0 {
                final(st)@.holdings == o.holdings && final(st)@.daily_pl == o.daily_pl
            } else {
                final(st)@ == old(st)@
            })
            &&& act == (if was_market {
                SellFollowUp::Done
            } else if orig_qty > filled {
                SellFollowUp::CancelAndResubmit { remaining: (orig_qty - filled) as u64 }
            } else {
                SellFollowUp::Cancel
            })
        }),
        (info.status@ is Canceled || info.status@ is Rejected) ==> final(st)@ == old(st)@ && act
            == SellFollowUp::Done,
        holdings_wf(final(st)@.holdings),
{
    match &info.status {
        OrderStatus::Filled => {
            let _ = st.realize_option_sell(symbol, strike, cp, expiry_mmdd, orig_qty,
                info.avg_fill_price, date);
            SellFollowUp::Done
        },
        OrderStatus::PartiallyFilled | OrderStatus::Working | OrderStatus::Unknown(_) => {
            let filled = (info.filled_qty / QTY_SCALE) as u32;
            if filled > 0 {
                let _ = st.realize_option_sell(symbol, strike, cp, expiry_mmdd, filled,
                    info.avg_fill_price, date);
            }
            if was_market {
                SellFollowUp::Done
            } else if orig_qty > filled {
                SellFollowUp::CancelAndResubmit { remaining: (orig_qty - filled) as u64 }
            } else {
                SellFollowUp::Cancel
            }
        },
        OrderStatus::Canceled | OrderStatus::Rejected => SellFollowUp::Done,
    }
}

/// Settle the one-shot market re-submission of an option sell: any
/// filled contracts are realized; nothing else is attempted.
pub fn settle_sell_option_followup(
    st: &mut BotState,
    symbol: &str,
    strike: u64,
    cp: char,
    expiry_mmdd: &str,
    date: Date,
    info: &OrderInfo,
)
    requires
        holdings_wf(old(st)@.holdings),
        info.avg_fill_price <= MAX_PRICE_UNITS,
        info.filled_qty <= 0xFFFF_FFFFu32 as int * QTY_SCALE as int,
    ensures
        info.filled_qty / QTY_SCALE > 0 ==> ({
            let o = spec_realize_option(
                old(st)@.holdings,
                old(st)@.daily_pl,
                symbol@,
                strike,
                cp,
                expiry_mmdd@,
                (info.filled_qty / QTY_SCALE) as u32,
                info.avg_fill_price,
                date,
            );
            final(st)@.holdings == o.holdings && final(st)@.daily_pl == o.daily_pl
        }),
        info.filled_qty / QTY_SCALE == 0 ==> final(st)@ == old(st)@,
        holdings_wf(final(st)@.holdings),
{
    let filled = (info.filled_qty / QTY_SCALE) as u32;
    if filled > 0 {
        let _ = st.realize_option_sell(symbol, strike, cp, expiry_mmdd, filled,
            info.avg_fill_price, date);
    }
}

/// Best-effort mid price: the average of bid and ask when both are
/// positive, else the last close.
pub open spec fn spec_mid_of(bid: Option<u64>, ask: Option<u64>, close: u64) -> int {
    if bid matches Some(b) && ask matches Some(a) && b > 0 && a > 0 {
        (bid->0 + ask->0) / 2
    } else {
        close as int
    }
}

/// The estimated price a quote yields: the bid/ask mid when both sides
/// are present and positive, else the last close.
pub fn mid_of(bid: Option<u64>, ask: Option<u64>, close: u64) -> (r: u64)
    ensures
        r == spec_mid_of(bid, ask, close),
{
    match (bid, ask) {
        (Some(b), Some(a)) => {
            if b > 0 && a > 0 {
                ((b as u128 + a as u128) / 2) as u64
            } else {
                close
            }
        },
        _ => close,
    }
}

} // verus!
