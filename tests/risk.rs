use quantos::trading::position_manager::{round_to_lot, PositionManager};
use quantos::units::QTY_SCALE;

#[test]
fn order_size_zero_when_no_risk_per_unit() {
    let pm = PositionManager::new(1000, 10_000);
    assert_eq!(pm.calculate_order_size(100, 100), 0);
}

#[test]
fn order_size_scenario_at_cap() {
    let pm = PositionManager::new(1000, 10_000);
    let q = pm.calculate_order_size(100, 99);
    assert_eq!(q, 10 * QTY_SCALE as u128);
    assert!(q * 100 <= 1000 * QTY_SCALE as u128);
}

#[test]
fn order_size_in_cents() {
    let pm = PositionManager::new(100_000, 10_000);
    assert_eq!(pm.calculate_order_size(10_000, 9_900), 1_000_000_000);
}

#[test]
fn order_size_capped_by_balance() {
    let pm = PositionManager::new(1000, 10_000);
    // the risk-sized quantity is far above what the balance buys outright at 10_000
    let q = pm.calculate_order_size(10_000, 9_999);
    assert_eq!(q, 1000 * QTY_SCALE as u128 / 10_000);
    for (e, s) in [(7u64, 3u64), (13, 12), (100, 150), (3, 1)] {
        let q = pm.calculate_order_size(e, s);
        assert!(q * e as u128 <= 1000 * QTY_SCALE as u128);
    }
}

#[test]
fn order_size_below_cap() {
    let pm = PositionManager::new(1000, 10_000);
    // budget 10 over a risk of 50 per unit: 0.2 units
    assert_eq!(pm.calculate_order_size(100, 50), QTY_SCALE as u128 / 5);
}

#[test]
fn highest_price_only_rises() {
    let mut pm = PositionManager::new(1000, 10_000);
    pm.update_highest_price(105);
    pm.update_highest_price(110);
    pm.update_highest_price(107);
    assert_eq!(pm.highest_price, 110);
    pm.reset_position();
    assert_eq!(pm.highest_price, 0);
}

#[test]
fn trailing_stop_scenario() {
    let mut pm = PositionManager::new(1000, 10_000);
    pm.update_highest_price(11_000);
    assert_eq!(pm.calculate_trailing_stop(5_000), 10_945);
}

#[test]
fn lot_rounding() {
    assert_eq!(round_to_lot(123_456_789), 123_457_000);
    assert_eq!(round_to_lot(123_456_499), 123_456_000);
    assert_eq!(round_to_lot(500), 1_000);
    assert_eq!(round_to_lot(0), 0);
}
