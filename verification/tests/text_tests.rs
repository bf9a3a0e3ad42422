use trade_engine::text::{last4_digits, mask_user, mmdd_digits, sanitize_symbol};
use trade_engine::types::{Action, Side};

#[test]
fn sanitize_trims_and_uppercases() {
    assert_eq!(sanitize_symbol("  aapl "), "AAPL");
    assert_eq!(sanitize_symbol("MsFt"), "MSFT");
    assert_eq!(sanitize_symbol(""), "");
}

#[test]
fn mmdd_accepts_exactly_four_digits() {
    assert_eq!(mmdd_digits("08/16"), Some("0816".to_string()));
    assert_eq!(mmdd_digits("08-16"), Some("0816".to_string()));
    assert_eq!(mmdd_digits("8/16"), None);
    assert_eq!(mmdd_digits("2025-08-16"), None);
}

#[test]
fn last4_takes_trailing_digits() {
    assert_eq!(last4_digits("2025-08-16"), Some("0816".to_string()));
    assert_eq!(last4_digits("0816"), Some("0816".to_string()));
    assert_eq!(last4_digits("816"), None);
}

#[test]
fn mask_user_hides_all_but_two() {
    assert_eq!(mask_user("alice"), "al****");
    assert_eq!(mask_user("a"), "a*****");
    assert_eq!(mask_user(""), "******");
}

#[test]
fn action_maps_to_side() {
    assert_eq!(Side::from(Action::BTO), Side::Buy);
    assert_eq!(Side::from(Action::STC), Side::Sell);
}
