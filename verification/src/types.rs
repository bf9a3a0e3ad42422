//! Core domain types for signals, holdings and realized P/L.
//!
//! Prices, strikes and fractional share quantities are fixed-point
//! integers ([`PRICE_SCALE`] and [`QTY_SCALE`] units per whole), so the
//! float tolerances of a decimal representation collapse to exact
//! integer comparisons.

use vstd::prelude::*;

verus! {

/// Units of fixed-point price per currency unit: a price of 2.50 is
/// 25_000 units.
pub const PRICE_SCALE: u64 = 10_000;

/// Units of fixed-point stock quantity per share: 100 shares are
/// 1_000_000 units.
pub const QTY_SCALE: u64 = 10_000;

/// Largest price (in units) the ledger accepts; keeps every cost and
/// P/L computation inside `u128`/`i128` intermediates.
pub const MAX_PRICE_UNITS: u64 = 1_000_000_000_000_000_000;

/// Largest total stock quantity (in units) the ledger holds; same role
/// as [`MAX_PRICE_UNITS`].
pub const MAX_QTY_UNITS: u64 = 1_000_000_000_000_000_000;

/// Trading intent of a signal: open a position or close one.
#[derive(Debug, Clone, Copy, PartialEq, Eq, Structural)]
pub enum Action {
    BTO,
    STC,
}

/// Kind of instrument a signal or holding refers to.
#[derive(Debug, Clone, Copy, PartialEq, Eq, Structural)]
pub enum AssetKind {
    Stock,
    Option,
}

/// Direction of a brokerage order.
#[derive(Debug, Clone, Copy, PartialEq, Eq, Structural)]
pub enum Side {
    Buy,
    Sell,
}

/// Order pricing mode.
#[derive(Debug, Clone, Copy, PartialEq, Eq, Structural)]
pub enum OrderType {
    Market,
    Limit,
}

/// The order side a trading action maps to.
pub open spec fn spec_side_of(a: Action) -> Side {
    match a {
        Action::BTO => Side::Buy,
        Action::STC => Side::Sell,
    }
}

impl From<Action> for Side {
    /// A buy-to-open becomes a buy order; a sell-to-close a sell order.
    fn from(a: Action) -> (s: Side)
        ensures
            s == spec_side_of(a),
    {
        match a {
            Action::BTO => Side::Buy,
            Action::STC => Side::Sell,
        }
    }
}

impl vstd::std_specs::convert::FromSpecImpl<Action> for Side {
    open spec fn obeys_from_spec() -> bool {
        true
    }

    open spec fn from_spec(a: Action) -> Side {
        spec_side_of(a)
    }
}

/// Calendar date of a realized-P/L entry.
#[derive(Debug, Clone, Copy, PartialEq, Eq, Structural)]
pub struct Date {
    pub year: i32,
    pub month: u32,
    pub day: u32,
}

/// A stock trade signal parsed from text.
#[derive(Debug, Clone)]
pub struct StockSignal {
    pub action: Action,
    pub symbol: String,
    pub quantity: u32,
    pub order_type: OrderType,
    /// Limit price in [`PRICE_SCALE`] units; present iff the order type
    /// is `Limit`.
    pub limit_price: Option<u64>,
}

/// An option trade signal parsed from text.
#[derive(Debug, Clone)]
pub struct OptionSignal {
    pub action: Action,
    pub symbol: String,
    /// Strike in [`PRICE_SCALE`] units.
    pub strike: u64,
    /// `'C'` or `'P'`.
    pub call_put: char,
    /// Literal `MM/DD` text as captured, unvalidated.
    pub expiry_mmdd: String,
    pub quantity: u32,
    pub order_type: OrderType,
    /// Premium limit in [`PRICE_SCALE`] units; present iff the order
    /// type is `Limit`.
    pub limit_price: Option<u64>,
}

/// A parsed trade signal.
#[derive(Debug, Clone)]
pub enum TradeSignal {
    Stock(StockSignal),
    Option(OptionSignal),
}

/// Mathematical value of a [`StockSignal`].
pub struct StockSignalV {
    pub action: Action,
    pub symbol: Seq<char>,
    pub quantity: u32,
    pub order_type: OrderType,
    pub limit_price: Option<u64>,
}

/// Mathematical value of an [`OptionSignal`].
pub struct OptionSignalV {
    pub action: Action,
    pub symbol: Seq<char>,
    pub strike: u64,
    pub call_put: char,
    pub expiry_mmdd: Seq<char>,
    pub quantity: u32,
    pub order_type: OrderType,
    pub limit_price: Option<u64>,
}

/// Mathematical value of a [`TradeSignal`].
pub enum TradeSignalV {
    Stock(StockSignalV),
    Option(OptionSignalV),
}

impl View for StockSignal {
    type V = StockSignalV;

    open spec fn view(&self) -> StockSignalV {
        StockSignalV {
            action: self.action,
            symbol: self.symbol@,
            quantity: self.quantity,
            order_type: self.order_type,
            limit_price: self.limit_price,
        }
    }
}

impl View for OptionSignal {
    type V = OptionSignalV;

    open spec fn view(&self) -> OptionSignalV {
        OptionSignalV {
            action: self.action,
            symbol: self.symbol@,
            strike: self.strike,
            call_put: self.call_put,
            expiry_mmdd: self.expiry_mmdd@,
            quantity: self.quantity,
            order_type: self.order_type,
            limit_price: self.limit_price,
        }
    }
}

impl View for TradeSignal {
    type V = TradeSignalV;

    open spec fn view(&self) -> TradeSignalV {
        match self {
            TradeSignal::Stock(s) => TradeSignalV::Stock(s@),
            TradeSignal::Option(o) => TradeSignalV::Option(o@),
        }
    }
}

/// A position the ledger holds.
#[derive(Debug, Clone)]
pub enum Holding {
    /// Stock holding with average cost per share.
    Stock {
        symbol: String,
        /// Quantity in [`QTY_SCALE`] units (fractional shares allowed).
        quantity: u64,
        /// Average cost per share in [`PRICE_SCALE`] units.
        avg_cost: u64,
    },
    /// Option holding with average premium per contract.
    Option {
        symbol: String,
        /// Strike in [`PRICE_SCALE`] units.
        strike: u64,
        /// `'C'` or `'P'`.
        call_put: char,
        /// Four digits `MMDD` (or the literal `MM/DD` captured text).
        expiry_mmdd: String,
        /// Whole contracts.
        quantity: u32,
        /// Average premium per contract in [`PRICE_SCALE`] units (not
        /// multiplied by the contract size).
        avg_cost: u64,
    },
}

/// Mathematical value of a [`Holding`].
pub enum HoldingV {
    Stock { symbol: Seq<char>, quantity: u64, avg_cost: u64 },
    Option {
        symbol: Seq<char>,
        strike: u64,
        call_put: char,
        expiry_mmdd: Seq<char>,
        quantity: u32,
        avg_cost: u64,
    },
}

impl View for Holding {
    type V = HoldingV;

    open spec fn view(&self) -> HoldingV {
        match self {
            Holding::Stock { symbol, quantity, avg_cost } => HoldingV::Stock {
                symbol: symbol@,
                quantity: *quantity,
                avg_cost: *avg_cost,
            },
            Holding::Option { symbol, strike, call_put, expiry_mmdd, quantity, avg_cost } => {
                HoldingV::Option {
                    symbol: symbol@,
                    strike: *strike,
                    call_put: *call_put,
                    expiry_mmdd: expiry_mmdd@,
                    quantity: *quantity,
                    avg_cost: *avg_cost,
                }
            },
        }
    }
}

/// A realized profit/loss record; append-only.
#[derive(Debug, Clone)]
pub struct PlEntry {
    pub date: Date,
    /// Human-readable symbol or option description.
    pub asset: String,
    /// Shares (in [`QTY_SCALE`] units) or contracts (scaled by
    /// [`QTY_SCALE`] as well, so the number reads the same way).
    pub qty: u64,
    /// Realized P/L in currency units scaled by `PRICE_SCALE * QTY_SCALE`
    /// (options already multiplied by 100 per contract).
    pub realized_pl: i128,
}

/// Mathematical value of a [`PlEntry`].
pub struct PlEntryV {
    pub date: Date,
    pub asset: Seq<char>,
    pub qty: u64,
    pub realized_pl: i128,
}

impl View for PlEntry {
    type V = PlEntryV;

    open spec fn view(&self) -> PlEntryV {
        PlEntryV {
            date: self.date,
            asset: self.asset@,
            qty: self.qty,
            realized_pl: self.realized_pl,
        }
    }
}

} // verus!
