//! Order execution and position state engine.
//!
//! The crate parses free-text trade signals, checks them against risk
//! limits and current holdings, tracks an order through its lifecycle
//! (poll, timeout, cancel, fall back to a market order), and maintains a
//! position ledger with weighted-average cost and realized profit/loss.
//!
//! Prices and fractional share quantities are fixed-point integers: a
//! price carries [`types::PRICE_SCALE`] units per currency unit and a
//! stock quantity carries [`types::QTY_SCALE`] units per share, so every
//! ledger computation is exact integer arithmetic.

pub mod clock;
pub mod laws;
pub mod ledger;
pub mod monitor;
pub mod parser;
pub mod risk;
pub mod text;
pub mod types;
