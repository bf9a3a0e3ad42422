//! Pre-trade risk checks: a notional cap and, for closing orders, a
//! holdings-coverage check against the ledger.

use vstd::prelude::*;

use crate::ledger::{holdings_wf, option_qty_sum, stock_qty_sum, BotState};
use crate::types::{Action, HoldingV, TradeSignal, TradeSignalV, QTY_SCALE};

verus! {

/// Why an order was rejected before submission.
#[derive(Debug, Clone, Copy, PartialEq, Eq, Structural)]
pub enum RiskError {
    /// The order notional (price units) exceeds the configured
    /// maximum position value.
    NotionalExceedsMax { notional: u128, max: u64 },
    /// A stock sell-to-close asks for more quantity units than held.
    InsufficientStock { requested_units: u64, held_units: u64 },
    /// An option sell-to-close asks for more contracts than held.
    InsufficientOption { requested: u32, held: u32 },
}

/// Dollar exposure of a signal at the estimated price, in price units:
/// price times quantity, with the 100-share contract multiplier for
/// options.
pub open spec fn spec_notional(sig: TradeSignalV, est_price: u64) -> int {
    match sig {
        TradeSignalV::Stock(s) => est_price * s.quantity,
        TradeSignalV::Option(o) => est_price * o.quantity * 100,
    }
}

/// What the pre-trade check decides: the notional cap is applied
/// first; a close is then rejected when the held quantity does not
/// cover the requested quantity. Nothing else is checked.
pub open spec fn spec_pre_check(
    max: u64,
    sig: TradeSignalV,
    est_price: u64,
    hs: Seq<HoldingV>,
) -> Result<(), RiskError> {
    let notional = spec_notional(sig, est_price);
    if notional > max {
        Err(RiskError::NotionalExceedsMax { notional: notional as u128, max: max })
    } else {
        match sig {
            TradeSignalV::Stock(s) => {
                let held = stock_qty_sum(hs, s.symbol);
                if s.action == Action::STC && held < s.quantity * QTY_SCALE {
                    Err(RiskError::InsufficientStock {
                        requested_units: (s.quantity * QTY_SCALE) as u64,
                        held_units: held as u64,
                    })
                } else {
                    Ok(())
                }
            },
            TradeSignalV::Option(o) => {
                let held = option_qty_sum(hs, o.symbol, o.strike, o.call_put, o.expiry_mmdd);
                if o.action == Action::STC && held < o.quantity {
                    Err(RiskError::InsufficientOption {
                        requested: o.quantity,
                        held: held as u32,
                    })
                } else {
                    Ok(())
                }
            },
        }
    }
}

/// The risk engine: one configured limit, the maximum notional a
/// single order may carry.
pub struct RiskEngine {
    /// Maximum position value in price units.
    pub max_position_value: u64,
}

impl RiskEngine {
    /// An engine with the given notional cap, in price units.
    pub fn new(max_value: u64) -> (r: RiskEngine)
        ensures
            r.max_position_value == max_value,
    {
        RiskEngine { max_position_value: max_value }
    }

    /// Check a signal against the notional cap and, for a close,
    /// against the currently held quantity. Pure: the ledger is only
    /// read.
    pub fn pre_check(&self, signal: &TradeSignal, est_price: u64, state: &BotState) -> (r: Result<
        (),
        RiskError,
    >)
        requires
            holdings_wf(state@.holdings),
        ensures
            r == spec_pre_check(self.max_position_value, signal@, est_price, state@.holdings),
    {
        let notional: u128 = match signal {
            TradeSignal::Stock(s) => {
                proof {
                    assert(est_price as int * s.quantity as int <= 0xFFFF_FFFF_FFFF_FFFFu64 as int
                        * 0xFFFF_FFFFu32 as int) by (nonlinear_arith);
                }
                est_price as u128 * s.quantity as u128
            },
            TradeSignal::Option(o) => {
                proof {
                    assert(est_price as int * o.quantity as int <= 0xFFFF_FFFF_FFFF_FFFFu64 as int
                        * 0xFFFF_FFFFu32 as int) by (nonlinear_arith);
                }
                est_price as u128 * o.quantity as u128 * 100
            },
        };
        if notional > self.max_position_value as u128 {
            return Err(RiskError::NotionalExceedsMax {
                notional: notional,
                max: self.max_position_value,
            });
        }
        match signal {
            TradeSignal::Stock(s) => {
                if matches!(s.action, Action::STC) {
                    let have = state.position_qty_stock(s.symbol.as_str());
                    let requested = s.quantity as u64 * QTY_SCALE;
                    if have < requested {
                        return Err(RiskError::InsufficientStock {
                            requested_units: requested,
                            held_units: have,
                        });
                    }
                }
            },
            TradeSignal::Option(o) => {
                if matches!(o.action, Action::STC) {
                    let have = state.position_qty_option(
                        o.symbol.as_str(),
                        o.strike,
                        o.call_put,
                        o.expiry_mmdd.as_str(),
                    );
                    if have < o.quantity {
                        return Err(RiskError::InsufficientOption {
                            requested: o.quantity,
                            held: have,
                        });
                    }
                }
            },
        }
        Ok(())
    }
}

} // verus!
