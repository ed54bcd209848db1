use quantos::data::data_buffer::{MarketBuffer, DEFAULT_ATRP, FLAT_ATRP};

#[test]
fn window_evicts_oldest_sample() {
    let mut b = MarketBuffer::new(3);
    for p in [10u64, 11, 13] {
        b.add_candle(p, 1);
    }
    b.add_candle(12, 1);
    assert_eq!(b.prices, vec![11, 13, 12]);
    assert_eq!(b.highs, vec![11, 13, 12]);
    assert_eq!(b.lows, vec![11, 13, 12]);
    assert_eq!(b.volumes.len(), 3);
}

#[test]
fn window_keeps_latest_after_many_samples() {
    let mut b = MarketBuffer::new(4);
    for p in 1u64..=10 {
        b.add_candle(p, p * 2);
    }
    assert_eq!(b.prices, vec![7, 8, 9, 10]);
    assert_eq!(b.volumes, vec![14, 16, 18, 20]);
}

#[test]
fn volatility_of_short_window_is_default() {
    let mut b = MarketBuffer::new(14);
    assert_eq!(b.get_atrp(), Some(DEFAULT_ATRP));
    assert_eq!(DEFAULT_ATRP, 15_000);
    b.add_candle(100, 1);
    assert_eq!(b.get_atrp(), Some(15_000));
}

#[test]
fn volatility_of_flat_window() {
    let mut b = MarketBuffer::new(5);
    for _ in 0..4 {
        b.add_candle(6_000_000, 1);
    }
    assert_eq!(b.get_atrp(), Some(FLAT_ATRP));
    assert_eq!(FLAT_ATRP, 5_000);
}

#[test]
fn volatility_averages_moving_steps() {
    let mut b = MarketBuffer::new(5);
    for p in [100u64, 102, 102, 98, 100] {
        b.add_candle(p, 1);
    }
    // steps 2, 0, 4, 2: three moves, total 8; 8 / 3 / 100 * 100 percent
    assert_eq!(b.get_atrp(), Some(8 * 100 * 1_000_000 / (3 * 100)));
}

#[test]
fn volatility_undefined_at_zero_price() {
    let mut b = MarketBuffer::new(3);
    b.add_candle(5, 1);
    b.add_candle(0, 1);
    assert_eq!(b.get_atrp(), None);
}

#[test]
fn features_absent_until_full() {
    let mut b = MarketBuffer::new(3);
    assert!(b.get_features().is_none());
    b.add_candle(100, 10);
    b.add_candle(110, 20);
    assert!(b.get_features().is_none());
    b.add_candle(105, 30);
    assert!(b.get_features().is_some());
}

#[test]
fn features_of_full_window() {
    let mut b = MarketBuffer::new(3);
    b.add_candle(100, 10);
    b.add_candle(110, 20);
    b.add_candle(105, 30);
    let f = b.get_features().unwrap();
    assert_eq!((f.pct_change.num, f.pct_change.den), (-5, 110));
    assert_eq!((f.sma.num, f.sma.den), (315, 3));
    assert_eq!((f.price_dev.num, f.price_dev.den), (0, 315));
    assert_eq!((f.efficiency_ratio.num, f.efficiency_ratio.den), (5, 15));
    assert_eq!((f.volume_momentum.num, f.volume_momentum.den), (90, 60));
    assert_eq!((f.growth.num, f.growth.den), (105, 110));
    assert_eq!((f.range.num, f.range.den), (10, 100));
    assert_eq!((f.dist_high.num, f.dist_high.den), (5, 110));
}

#[test]
fn features_fallbacks_on_flat_window() {
    let mut b = MarketBuffer::new(2);
    b.add_candle(50, 0);
    b.add_candle(50, 0);
    let f = b.get_features().unwrap();
    assert_eq!((f.efficiency_ratio.num, f.efficiency_ratio.den), (0, 1));
    assert_eq!((f.volume_momentum.num, f.volume_momentum.den), (1, 1));
}
