use trade_engine::ledger::{check_holdings_wf, BotState};
use trade_engine::types::{Date, Holding, PRICE_SCALE, QTY_SCALE};

fn d() -> Date {
    Date { year: 2024, month: 8, day: 16 }
}

fn stock(sym: &str, shares: u64, cost_whole: u64) -> Holding {
    Holding::Stock {
        symbol: sym.to_string(),
        quantity: shares * QTY_SCALE,
        avg_cost: cost_whole * PRICE_SCALE,
    }
}

#[test]
fn two_buys_give_weighted_average() {
    let mut st = BotState::default();
    st.upsert_stock_buy_with_cost("AAPL", 10 * QTY_SCALE, 10 * PRICE_SCALE);
    st.upsert_stock_buy_with_cost("aapl", 30 * QTY_SCALE, 20 * PRICE_SCALE);
    assert_eq!(st.holdings.len(), 1);
    match &st.holdings[0] {
        Holding::Stock { symbol, quantity, avg_cost } => {
            assert_eq!(symbol, "AAPL");
            assert_eq!(*quantity, 40 * QTY_SCALE);
            // (10*10 + 30*20) / 40 = 17.5
            assert_eq!(*avg_cost, 17 * PRICE_SCALE + PRICE_SCALE / 2);
        }
        _ => panic!("expected a stock holding"),
    }
}

#[test]
fn option_buy_upsert_merges_on_key() {
    let mut st = BotState::default();
    st.upsert_option_buy_with_cost("AAPL", 150 * PRICE_SCALE, 'c', "08/16", 1, 2 * PRICE_SCALE);
    st.upsert_option_buy_with_cost("aapl", 150 * PRICE_SCALE, 'C', "08/16", 3, 4 * PRICE_SCALE);
    assert_eq!(st.holdings.len(), 1);
    match &st.holdings[0] {
        Holding::Option { call_put, quantity, avg_cost, .. } => {
            assert_eq!(*call_put, 'C');
            assert_eq!(*quantity, 4);
            // (1*2 + 3*4) / 4 = 3.5
            assert_eq!(*avg_cost, 3 * PRICE_SCALE + PRICE_SCALE / 2);
        }
        _ => panic!("expected an option holding"),
    }
}

#[test]
fn option_buy_different_strike_makes_new_holding() {
    let mut st = BotState::default();
    st.upsert_option_buy_with_cost("AAPL", 150 * PRICE_SCALE, 'C', "08/16", 1, 2 * PRICE_SCALE);
    st.upsert_option_buy_with_cost("AAPL", 155 * PRICE_SCALE, 'C', "08/16", 1, 2 * PRICE_SCALE);
    assert_eq!(st.holdings.len(), 2);
}

#[test]
fn partial_sell_keeps_avg_cost() {
    // Stock holding qty=100 avgCost=10.0; sell 40 @ 12.0 ->
    // realized=80.0, remaining qty=60 avgCost=10.0.
    let mut st = BotState::default();
    st.set_holdings(vec![stock("AAPL", 100, 10)]);
    let realized = st.realize_stock_sell("AAPL", 40 * QTY_SCALE, 12 * PRICE_SCALE, d());
    // realized is in price units times quantity units: 80.0 dollars.
    assert_eq!(realized, 80 * (PRICE_SCALE as i128) * (QTY_SCALE as i128));
    assert_eq!(st.holdings.len(), 1);
    match &st.holdings[0] {
        Holding::Stock { quantity, avg_cost, .. } => {
            assert_eq!(*quantity, 60 * QTY_SCALE);
            assert_eq!(*avg_cost, 10 * PRICE_SCALE);
        }
        _ => panic!("expected a stock holding"),
    }
    assert_eq!(st.daily_pl.len(), 1);
    assert_eq!(st.daily_pl[0].qty, 40 * QTY_SCALE);
    assert_eq!(st.daily_pl[0].asset, "AAPL");
}

#[test]
fn full_sell_removes_holding() {
    let mut st = BotState::default();
    st.set_holdings(vec![stock("AAPL", 100, 10)]);
    let realized = st.realize_stock_sell("aapl", 100 * QTY_SCALE, 9 * PRICE_SCALE, d());
    assert_eq!(realized, -100 * (PRICE_SCALE as i128) * (QTY_SCALE as i128));
    assert!(st.holdings.is_empty());
    assert_eq!(st.daily_pl.len(), 1);
}

#[test]
fn oversell_caps_at_held_quantity() {
    let mut st = BotState::default();
    st.set_holdings(vec![stock("AAPL", 10, 10)]);
    let realized = st.realize_stock_sell("AAPL", 50 * QTY_SCALE, 11 * PRICE_SCALE, d());
    // only the 10 held shares are realized
    assert_eq!(realized, 10 * (PRICE_SCALE as i128) * (QTY_SCALE as i128));
    assert!(st.holdings.is_empty());
}

#[test]
fn sell_without_holding_is_a_no_op() {
    let mut st = BotState::default();
    let realized = st.realize_stock_sell("AAPL", QTY_SCALE, PRICE_SCALE, d());
    assert_eq!(realized, 0);
    assert!(st.holdings.is_empty());
    assert!(st.daily_pl.is_empty());
}

#[test]
fn option_sell_realizes_hundredfold() {
    // 2 contracts at 2.50; sell 1 @ 3.00 -> 0.50 * 100 = 50 dollars.
    let mut st = BotState::default();
    st.upsert_option_buy_with_cost("AAPL", 150 * PRICE_SCALE, 'C', "08/16", 2, 25_000);
    let realized =
        st.realize_option_sell("AAPL", 150 * PRICE_SCALE, 'c', "08/16", 1, 30_000, d());
    assert_eq!(realized, 50 * (PRICE_SCALE as i128) * (QTY_SCALE as i128));
    assert_eq!(st.holdings.len(), 1);
    match &st.holdings[0] {
        Holding::Option { quantity, avg_cost, .. } => {
            assert_eq!(*quantity, 1);
            assert_eq!(*avg_cost, 25_000);
        }
        _ => panic!("expected an option holding"),
    }
    assert_eq!(st.daily_pl.len(), 1);
    assert_eq!(st.daily_pl[0].asset, "AAPL 150C 08/16");
    assert_eq!(st.daily_pl[0].qty, QTY_SCALE);
}

#[test]
fn option_full_sell_removes_holding() {
    let mut st = BotState::default();
    st.upsert_option_buy_with_cost("TSLA", 200 * PRICE_SCALE, 'P', "09/20", 2, 50_000);
    let _ = st.realize_option_sell("TSLA", 200 * PRICE_SCALE, 'P', "09/20", 2, 50_000, d());
    assert!(st.holdings.is_empty());
}

#[test]
fn set_holdings_replaces_without_merging() {
    let mut st = BotState::default();
    st.upsert_stock_buy_with_cost("AAPL", QTY_SCALE, PRICE_SCALE);
    let _ = st.realize_stock_sell("AAPL", QTY_SCALE / 2, 2 * PRICE_SCALE, d());
    let pl_before = st.daily_pl.len();
    st.set_holdings(vec![stock("MSFT", 5, 300), stock("NVDA", 2, 500)]);
    assert_eq!(st.holdings.len(), 2);
    match &st.holdings[0] {
        Holding::Stock { symbol, .. } => assert_eq!(symbol, "MSFT"),
        _ => panic!("expected a stock holding"),
    }
    // daily P/L untouched by the resync
    assert_eq!(st.daily_pl.len(), pl_before);
}

#[test]
fn position_sums_duplicates_case_insensitively() {
    let mut st = BotState::default();
    st.set_holdings(vec![stock("aapl", 1, 10), stock("AAPL", 2, 10), stock("MSFT", 7, 10)]);
    assert_eq!(st.position_qty_stock("Aapl"), 3 * QTY_SCALE);
    assert_eq!(st.position_qty_stock("msft"), 7 * QTY_SCALE);
    assert_eq!(st.position_qty_stock("GOOG"), 0);
}

#[test]
fn position_qty_option_matches_full_key() {
    let mut st = BotState::default();
    st.upsert_option_buy_with_cost("AAPL", 150 * PRICE_SCALE, 'C', "08/16", 2, 25_000);
    assert_eq!(st.position_qty_option("aapl", 150 * PRICE_SCALE, 'c', "08/16"), 2);
    assert_eq!(st.position_qty_option("AAPL", 155 * PRICE_SCALE, 'C', "08/16"), 0);
    assert_eq!(st.position_qty_option("AAPL", 150 * PRICE_SCALE, 'P', "08/16"), 0);
    assert_eq!(st.position_qty_option("AAPL", 150 * PRICE_SCALE, 'C', "08/17"), 0);
}

#[test]
fn wf_check_accepts_ordinary_snapshots() {
    let hs = vec![stock("AAPL", 100, 10)];
    assert!(check_holdings_wf(&hs));
    let too_dear = vec![Holding::Stock {
        symbol: "X".to_string(),
        quantity: 1,
        avg_cost: u64::MAX,
    }];
    assert!(!check_holdings_wf(&too_dear));
}
