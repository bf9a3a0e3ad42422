use trade_engine::clock::today_local;
use trade_engine::ledger::BotState;
use trade_engine::monitor::{
    mid_of, poll_should_stop, settle_buy_stock, settle_sell_stock, settle_sell_stock_followup,
    settle_sell_option, status_from_code, OrderInfo, OrderStatus, SellFollowUp,
};
use trade_engine::risk::{RiskEngine, RiskError};
use trade_engine::types::{
    Action, Date, Holding, OrderType, StockSignal, TradeSignal, PRICE_SCALE, QTY_SCALE,
};

fn d() -> Date {
    Date { year: 2024, month: 9, day: 20 }
}

fn stock_sig(action: Action, sym: &str, qty: u32) -> TradeSignal {
    TradeSignal::Stock(StockSignal {
        action,
        symbol: sym.to_string(),
        quantity: qty,
        order_type: OrderType::Market,
        limit_price: None,
    })
}

fn holding(sym: &str, shares: u64, cost_whole: u64) -> Holding {
    Holding::Stock {
        symbol: sym.to_string(),
        quantity: shares * QTY_SCALE,
        avg_cost: cost_whole * PRICE_SCALE,
    }
}

#[test]
fn risk_rejects_notional_above_cap() {
    let engine = RiskEngine::new(1_000 * PRICE_SCALE);
    let st = BotState::default();
    // 11 shares at 100.00 = 1100.00 > 1000.00
    let r = engine.pre_check(&stock_sig(Action::BTO, "AAPL", 11), 100 * PRICE_SCALE, &st);
    assert!(matches!(r, Err(RiskError::NotionalExceedsMax { .. })));
    // 10 shares at 100.00 = 1000.00, exactly at the cap: accepted
    let r2 = engine.pre_check(&stock_sig(Action::BTO, "AAPL", 10), 100 * PRICE_SCALE, &st);
    assert!(r2.is_ok());
}

#[test]
fn risk_rejects_option_notional_with_multiplier() {
    let engine = RiskEngine::new(1_000 * PRICE_SCALE);
    let st = BotState::default();
    let sig = TradeSignal::Option(trade_engine::types::OptionSignal {
        action: Action::BTO,
        symbol: "AAPL".to_string(),
        strike: 150 * PRICE_SCALE,
        call_put: 'C',
        expiry_mmdd: "08/16".to_string(),
        quantity: 1,
        order_type: OrderType::Limit,
        limit_price: Some(25_000),
    });
    // 1 contract at 25.00 x 100 = 2500.00 > 1000.00
    let r = engine.pre_check(&sig, 25 * PRICE_SCALE, &st);
    assert!(matches!(r, Err(RiskError::NotionalExceedsMax { .. })));
}

#[test]
fn risk_rejects_close_beyond_held_quantity() {
    let engine = RiskEngine::new(u64::MAX);
    let mut st = BotState::default();
    st.set_holdings(vec![holding("AAPL", 5, 10)]);
    let r = engine.pre_check(&stock_sig(Action::STC, "AAPL", 6), PRICE_SCALE, &st);
    assert!(matches!(r, Err(RiskError::InsufficientStock { .. })));
    let r2 = engine.pre_check(&stock_sig(Action::STC, "aapl", 5), PRICE_SCALE, &st);
    assert!(r2.is_ok());
    // buys are not checked against holdings
    let r3 = engine.pre_check(&stock_sig(Action::BTO, "MSFT", 5), PRICE_SCALE, &st);
    assert!(r3.is_ok());
}

#[test]
fn status_codes_normalize() {
    assert!(matches!(status_from_code("working"), OrderStatus::Working));
    assert!(matches!(status_from_code("Open"), OrderStatus::Working));
    assert!(matches!(status_from_code("PENDING"), OrderStatus::Working));
    assert!(matches!(status_from_code("partial"), OrderStatus::PartiallyFilled));
    assert!(matches!(status_from_code("PARTIALLY_FILLED"), OrderStatus::PartiallyFilled));
    assert!(matches!(status_from_code("Filled"), OrderStatus::Filled));
    assert!(matches!(status_from_code("CANCELLED"), OrderStatus::Canceled));
    assert!(matches!(status_from_code("canceled"), OrderStatus::Canceled));
    assert!(matches!(status_from_code("REJECTED"), OrderStatus::Rejected));
    match status_from_code("queued") {
        OrderStatus::Unknown(raw) => assert_eq!(raw, "QUEUED"),
        other => panic!("expected an unknown status, got {:?}", other),
    }
}

#[test]
fn poll_stops_on_terminal_or_timeout() {
    assert!(poll_should_stop(&OrderStatus::Filled, 0, 10_000));
    assert!(poll_should_stop(&OrderStatus::Canceled, 0, 10_000));
    assert!(poll_should_stop(&OrderStatus::Rejected, 0, 10_000));
    assert!(!poll_should_stop(&OrderStatus::Working, 9_999, 10_000));
    assert!(poll_should_stop(&OrderStatus::Working, 10_000, 10_000));
    assert!(!poll_should_stop(&OrderStatus::PartiallyFilled, 0, 10_000));
}

#[test]
fn buy_filled_commits_full_fill_without_cancel() {
    let mut st = BotState::default();
    let info = OrderInfo {
        status: OrderStatus::Filled,
        filled_qty: 10 * QTY_SCALE,
        avg_fill_price: 100 * PRICE_SCALE,
    };
    let cancel = settle_buy_stock(&mut st, "AAPL", 10 * QTY_SCALE, &info);
    assert!(!cancel);
    assert_eq!(st.holdings.len(), 1);
    match &st.holdings[0] {
        Holding::Stock { quantity, avg_cost, .. } => {
            assert_eq!(*quantity, 10 * QTY_SCALE);
            assert_eq!(*avg_cost, 100 * PRICE_SCALE);
        }
        _ => panic!("expected a stock holding"),
    }
}

#[test]
fn buy_working_at_timeout_cancels_without_mutation() {
    let mut st = BotState::default();
    let info = OrderInfo {
        status: OrderStatus::Working,
        filled_qty: 0,
        avg_fill_price: 0,
    };
    let cancel = settle_buy_stock(&mut st, "AAPL", 10 * QTY_SCALE, &info);
    assert!(cancel);
    assert!(st.holdings.is_empty());
    assert!(st.daily_pl.is_empty());
}

#[test]
fn buy_partial_commits_filled_and_cancels() {
    let mut st = BotState::default();
    let info = OrderInfo {
        status: OrderStatus::PartiallyFilled,
        filled_qty: 4 * QTY_SCALE,
        avg_fill_price: 50 * PRICE_SCALE,
    };
    let cancel = settle_buy_stock(&mut st, "AAPL", 10 * QTY_SCALE, &info);
    assert!(cancel);
    match &st.holdings[0] {
        Holding::Stock { quantity, .. } => assert_eq!(*quantity, 4 * QTY_SCALE),
        _ => panic!("expected a stock holding"),
    }
}

#[test]
fn sell_limit_partial_realizes_and_resubmits_remainder() {
    let mut st = BotState::default();
    st.set_holdings(vec![holding("AAPL", 10, 10)]);
    let info = OrderInfo {
        status: OrderStatus::PartiallyFilled,
        filled_qty: 4 * QTY_SCALE,
        avg_fill_price: 12 * PRICE_SCALE,
    };
    let act = settle_sell_stock(&mut st, "AAPL", 10 * QTY_SCALE, false, d(), &info);
    assert_eq!(act, SellFollowUp::CancelAndResubmit { remaining: 6 * QTY_SCALE });
    assert_eq!(st.daily_pl.len(), 1);
    assert_eq!(st.daily_pl[0].qty, 4 * QTY_SCALE);
    // follow-up market order fills: a second realize is booked
    let info2 = OrderInfo {
        status: OrderStatus::Filled,
        filled_qty: 6 * QTY_SCALE,
        avg_fill_price: 11 * PRICE_SCALE,
    };
    settle_sell_stock_followup(&mut st, "AAPL", d(), &info2);
    assert_eq!(st.daily_pl.len(), 2);
    assert!(st.holdings.is_empty());
}

#[test]
fn sell_market_partial_is_left_to_resolve() {
    let mut st = BotState::default();
    st.set_holdings(vec![holding("AAPL", 10, 10)]);
    let info = OrderInfo {
        status: OrderStatus::Working,
        filled_qty: 0,
        avg_fill_price: 0,
    };
    let act = settle_sell_stock(&mut st, "AAPL", 10 * QTY_SCALE, true, d(), &info);
    assert_eq!(act, SellFollowUp::Done);
    assert!(st.daily_pl.is_empty());
}

#[test]
fn sell_filled_realizes_original_quantity() {
    let mut st = BotState::default();
    st.set_holdings(vec![holding("AAPL", 10, 10)]);
    let info = OrderInfo {
        status: OrderStatus::Filled,
        filled_qty: 10 * QTY_SCALE,
        avg_fill_price: 12 * PRICE_SCALE,
    };
    let act = settle_sell_stock(&mut st, "AAPL", 10 * QTY_SCALE, false, d(), &info);
    assert_eq!(act, SellFollowUp::Done);
    assert_eq!(st.daily_pl.len(), 1);
    assert!(st.holdings.is_empty());
}

#[test]
fn sell_canceled_changes_nothing() {
    let mut st = BotState::default();
    st.set_holdings(vec![holding("AAPL", 10, 10)]);
    let info = OrderInfo {
        status: OrderStatus::Canceled,
        filled_qty: 0,
        avg_fill_price: 0,
    };
    let act = settle_sell_stock(&mut st, "AAPL", 10 * QTY_SCALE, false, d(), &info);
    assert_eq!(act, SellFollowUp::Done);
    assert_eq!(st.holdings.len(), 1);
    assert!(st.daily_pl.is_empty());
}

#[test]
fn option_sell_partial_resubmits_remaining_contracts() {
    let mut st = BotState::default();
    st.upsert_option_buy_with_cost("AAPL", 150 * PRICE_SCALE, 'C', "08/16", 5, 25_000);
    let info = OrderInfo {
        status: OrderStatus::PartiallyFilled,
        filled_qty: 2 * QTY_SCALE,
        avg_fill_price: 30_000,
    };
    let act = settle_sell_option(
        &mut st,
        "AAPL",
        150 * PRICE_SCALE,
        'C',
        "08/16",
        5,
        false,
        d(),
        &info,
    );
    assert_eq!(act, SellFollowUp::CancelAndResubmit { remaining: 3 });
    assert_eq!(st.daily_pl.len(), 1);
    match &st.holdings[0] {
        Holding::Option { quantity, .. } => assert_eq!(*quantity, 3),
        _ => panic!("expected an option holding"),
    }
}

#[test]
fn mid_price_prefers_two_sided_quote() {
    assert_eq!(mid_of(Some(10 * PRICE_SCALE), Some(11 * PRICE_SCALE), 7), 105_000);
    assert_eq!(mid_of(Some(0), Some(11 * PRICE_SCALE), 7 * PRICE_SCALE), 7 * PRICE_SCALE);
    assert_eq!(mid_of(None, Some(11 * PRICE_SCALE), 7 * PRICE_SCALE), 7 * PRICE_SCALE);
    assert_eq!(mid_of(None, None, 0), 0);
}

#[test]
fn todays_date_is_in_calendar_range() {
    let today = today_local();
    assert!((1..=12).contains(&today.month));
    assert!((1..=31).contains(&today.day));
}
