use quantos::data::macro_filter::MacroFilter;
use quantos::engine::{calculate_confidence_score, Engine, ExitReason, Phase, Position};

fn engine() -> Engine {
    Engine::new(3, 100_000, 10_000, MacroFilter::get_market_context())
}

#[test]
fn market_context_defaults() {
    let m = MacroFilter::get_market_context();
    assert!(m.is_bull_market);
    assert!(!m.rsi_oversold);
}

#[test]
fn confidence_tiers() {
    assert_eq!(calculate_confidence_score(50_000, 0, false, false), 55);
    assert_eq!(calculate_confidence_score(200_000, 0, false, false), 45);
    assert_eq!(calculate_confidence_score(300_000, 0, false, false), 30);
    assert_eq!(calculate_confidence_score(500_000, 0, false, false), 0);
    assert_eq!(calculate_confidence_score(100_000, 0, false, false), 45);
    assert_eq!(calculate_confidence_score(50_000, 300_000_000, true, true), 100);
    assert_eq!(calculate_confidence_score(50_000, 150_000_000, false, false), 60);
    assert_eq!(calculate_confidence_score(50_000, 100_000_000, false, false), 55);
}

#[test]
fn confidence_not_increasing_in_noise() {
    for vol in [0u64, 150_000_000, 300_000_000] {
        for (bull, over) in [(false, false), (true, false), (true, true)] {
            let a = calculate_confidence_score(50_000, vol, bull, over);
            let b = calculate_confidence_score(200_000, vol, bull, over);
            let c = calculate_confidence_score(300_000, vol, bull, over);
            let d = calculate_confidence_score(500_000, vol, bull, over);
            assert!(a >= b && b >= c && c >= d);
        }
    }
}

#[test]
fn engine_phases() {
    let mut e = engine();
    assert_eq!(e.phase(), Phase::Warming);
    assert!(e.on_tick(10_000, 1, true).is_none());
    assert!(e.on_tick(10_100, 1, false).is_none());
    assert_eq!(e.buffer.prices.len(), 1);
    assert!(e.on_tick(10_100, 1, true).is_none());
    assert!(e.on_tick(10_000, 1, true).is_some());
    assert_eq!(e.phase(), Phase::Scanning);
    e.confirm_buy(10_000, 5);
    assert_eq!(e.phase(), Phase::Positioned);
    assert_eq!(e.shutdown_quantity(), Some(5));
    e.confirm_sell();
    assert_eq!(e.phase(), Phase::Scanning);
    assert_eq!(e.shutdown_quantity(), None);
}

#[test]
fn entry_sized_with_multiplier() {
    let mut e = engine();
    for p in [10_000u64, 10_100, 10_000] {
        e.on_tick(p, 300_000_000, true);
    }
    // confidence 0.55 + 0.15 + 0.20 = 0.90, multiplier 1.8
    let q = e.on_probability(10_000, 300_000_000, 50_000, 20_000);
    assert_eq!(e.last_confidence, 90);
    assert_eq!(e.last_probability, 50_000);
    assert_eq!(q, Some(1_800_000_000));
}

#[test]
fn no_entry_on_low_confidence() {
    let mut e = engine();
    for p in [10_000u64, 10_100, 10_000] {
        e.on_tick(p, 1, true);
    }
    assert_eq!(e.on_probability(10_000, 1, 500_000, 20_000), None);
    assert_eq!(e.last_confidence, 20);
}

#[test]
fn no_entry_on_wide_spread() {
    let mut e = engine();
    for p in [10_000u64, 10_100, 10_000] {
        e.on_tick(p, 300_000_000, true);
    }
    // volatility is 1 percent: the spread may be at most 0.15 percent
    assert_eq!(e.on_probability(10_000, 300_000_000, 50_000, 150_001), None);
    assert!(e.on_probability(10_000, 300_000_000, 50_000, 150_000).is_some());
}

#[test]
fn no_entry_while_positioned() {
    let mut e = engine();
    for p in [10_000u64, 10_100, 10_000] {
        e.on_tick(p, 300_000_000, true);
    }
    e.confirm_buy(10_000, 7);
    assert_eq!(e.on_probability(10_000, 300_000_000, 50_000, 20_000), None);
}

#[test]
fn trailing_exit_scenario() {
    let mut e = engine();
    e.confirm_buy(10_000, 5);
    assert_eq!(e.exit_signal(11_000), None);
    assert_eq!(e.risk.calculate_trailing_stop(5_000), 10_945);
    assert_eq!(e.exit_signal(10_900), Some(ExitReason::Trail));
    assert_eq!(e.risk.highest_price, 11_000);
}

#[test]
fn stop_loss_takes_precedence() {
    let mut e = engine();
    e.confirm_buy(10_000, 5);
    e.last_probability = 200_000;
    assert_eq!(e.exit_signal(9_900), Some(ExitReason::StopLoss));
    e.last_probability = 800_000;
    assert_eq!(e.exit_signal(9_900), Some(ExitReason::StopLoss));
}

#[test]
fn noise_exit_before_trail() {
    let mut e = engine();
    e.confirm_buy(10_000, 5);
    e.exit_signal(11_000);
    e.last_probability = 800_000;
    assert_eq!(e.exit_signal(10_900), Some(ExitReason::Noise));
    assert_eq!(ExitReason::Noise.label(), "NOISE");
    assert_eq!(ExitReason::StopLoss.label(), "STOP LOSS");
}

#[test]
fn no_exit_when_flat() {
    let mut e = engine();
    e.last_probability = 900_000;
    assert_eq!(e.exit_signal(1), None);
    assert_eq!(e.position, Position::Flat);
}

#[test]
fn probe_only_when_idle_and_positioned() {
    let mut e = engine();
    assert!(!e.should_probe(10_000));
    e.confirm_buy(10_000, 5);
    assert!(!e.should_probe(4_999));
    assert!(e.should_probe(5_000));
}
