use trade_engine::parser::parse_signal;
use trade_engine::types::{Action, OptionSignal, OrderType, StockSignal, TradeSignal};

fn must_parse(s: &str) -> TradeSignal {
    match parse_signal(s) {
        Some(sig) => sig,
        None => panic!("should parse: {}", s),
    }
}

fn must_parse_stock(s: &str) -> StockSignal {
    match must_parse(s) {
        TradeSignal::Stock(stk) => stk,
        _ => panic!("expected StockSignal"),
    }
}

fn must_parse_option(s: &str) -> OptionSignal {
    match must_parse(s) {
        TradeSignal::Option(opt) => opt,
        _ => panic!("expected OptionSignal"),
    }
}

#[test]
fn opt_limit_c_lower_mixed_case_action() {
    let o = must_parse_option("BTO 10 AAPL 150c 08/16 @ 2.50");
    assert_eq!(o.action, Action::BTO);
    assert_eq!(o.symbol, "AAPL");
    assert_eq!(o.strike, 150 * 10_000);
    assert_eq!(o.call_put, 'C');
    assert_eq!(o.expiry_mmdd, "08/16");
    assert_eq!(o.quantity, 10);
    assert_eq!(o.order_type, OrderType::Limit);
    assert_eq!(o.limit_price, Some(25_000));
}

#[test]
fn opt_limit_p_lowercase_ok() {
    let o = must_parse_option("BTO 10 AAPL 150p 08/16 @ 2.50");
    assert_eq!(o.call_put, 'P');
    assert_eq!(o.limit_price, Some(25_000));
}

#[test]
fn opt_limit_space_after_at_optional() {
    let o = must_parse_option("BTO 10 AAPL 150c 08/16 @2.50");
    assert_eq!(o.limit_price, Some(25_000));
}

#[test]
fn opt_no_space_before_at_should_fail() {
    assert!(parse_signal("BTO 10 AAPL 150c 08/16@2.50").is_none());
}

#[test]
#[allow(non_snake_case)]
fn opt_market_price_m_or_M() {
    let o1 = must_parse_option("STC 2 TSLA 200C 09/20 @ m");
    assert_eq!(o1.order_type, OrderType::Market);
    assert_eq!(o1.limit_price, None);

    let o2 = must_parse_option("stc 2 tsla 200p 09/20 @ M");
    assert_eq!(o2.order_type, OrderType::Market);
    assert_eq!(o2.call_put, 'P');
}

#[test]
fn opt_symbol_lowercase_kept_as_is_currently() {
    let o = must_parse_option("BTO 3 aapl 150c 08/16 @ 2.50");
    assert_eq!(o.symbol, "aapl");
}

#[test]
fn stk_limit_and_market() {
    let s1 = must_parse_stock("BTO 100 AAPL @ 150.25");
    assert_eq!(s1.action, Action::BTO);
    assert_eq!(s1.quantity, 100);
    assert_eq!(s1.order_type, OrderType::Limit);
    assert_eq!(s1.limit_price, Some(1_502_500));

    let s2 = must_parse_stock("stc 50 nvda @ m");
    assert_eq!(s2.action, Action::STC);
    assert_eq!(s2.symbol, "nvda");
    assert_eq!(s2.order_type, OrderType::Market);
    assert_eq!(s2.limit_price, None);
}

#[test]
fn stk_space_before_at_required() {
    assert!(parse_signal("BTO 10 AAPL@m").is_none());
    assert!(parse_signal("BTO 10 AAPL @m").is_some());
    assert!(parse_signal("BTO 10 AAPL @ m").is_some());
}

#[test]
fn random_text_should_fail() {
    assert!(parse_signal("hello world").is_none());
    assert!(parse_signal("buy apple now").is_none());
}

#[test]
fn bad_price_or_format_should_fail() {
    assert!(parse_signal("BTO 10 AAPL @ x").is_none());
    assert!(parse_signal("BTO 10 AAPL 150C 08/16 2.50").is_none());
}

#[test]
fn symbol_length_and_dot_not_supported_now() {
    assert!(parse_signal("BTO 1 ABCDEFG @ m").is_none());
    assert!(parse_signal("BTO 1 BRK.B @ m").is_none());
}

#[test]
fn leading_trailing_spaces_ok() {
    let s = must_parse_stock("   BTO 1 AAPL @ 123.0   ");
    assert_eq!(s.quantity, 1);
    assert_eq!(s.limit_price, Some(1_230_000));
}

#[test]
fn opt_missing_quantity_defaults_to_one() {
    let o = must_parse_option("BTO aapl 150c 08/16 @ 2.50");
    assert_eq!(o.quantity, 1);
    assert_eq!(o.symbol, "aapl");
    assert_eq!(o.limit_price, Some(25_000));
}

#[test]
fn stk_missing_quantity_defaults_to_one() {
    let s = must_parse_stock("STC NVDA @ m");
    assert_eq!(s.quantity, 1);
    assert_eq!(s.order_type, OrderType::Market);
}

#[test]
fn price_with_two_dots_fails() {
    assert!(parse_signal("BTO 10 AAPL @ 1.2.3").is_none());
    assert!(parse_signal("BTO 10 AAPL @ .").is_none());
}

#[test]
fn price_leading_or_trailing_dot_ok() {
    let s1 = must_parse_stock("BTO 10 AAPL @ .5");
    assert_eq!(s1.limit_price, Some(5_000));
    let s2 = must_parse_stock("BTO 10 AAPL @ 150.");
    assert_eq!(s2.limit_price, Some(1_500_000));
}

#[test]
fn fractional_strike_parses() {
    let o = must_parse_option("BTO 1 XYZ 7.5C 01/17 @ 0.35");
    assert_eq!(o.strike, 75_000);
    assert_eq!(o.limit_price, Some(3_500));
}

#[test]
fn huge_quantity_fails() {
    assert!(parse_signal("BTO 99999999999 AAPL @ m").is_none());
}
