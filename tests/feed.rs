use quantos::data::binance_client::{
    feed_start, feed_step, parse_fixed, parse_trade, BinanceAggTrade, FeedAction, FeedEvent,
    FeedState, PriceMessage,
};

fn trade(p: &str, q: &str) -> BinanceAggTrade {
    BinanceAggTrade { price: p.to_string(), quantity: q.to_string() }
}

#[test]
fn parse_fixed_values() {
    assert_eq!(parse_fixed(b"60000.12000000", 2), Some(6_000_012));
    assert_eq!(parse_fixed(b"0.00123", 8), Some(123_000));
    assert_eq!(parse_fixed(b"42", 2), Some(4_200));
    assert_eq!(parse_fixed(b"1.999", 2), Some(199));
    assert_eq!(parse_fixed(b"7.", 1), Some(70));
}

#[test]
fn parse_fixed_rejects() {
    assert_eq!(parse_fixed(b"", 2), None);
    assert_eq!(parse_fixed(b".5", 2), None);
    assert_eq!(parse_fixed(b"1.2.3", 2), None);
    assert_eq!(parse_fixed(b"abc", 2), None);
    assert_eq!(parse_fixed(b"-1", 2), None);
    assert_eq!(parse_fixed(b"18446744073709551615", 0), Some(u64::MAX));
    assert_eq!(parse_fixed(b"18446744073709551616", 0), None);
    assert_eq!(parse_fixed(b"184467440737095516.16", 2), None);
}

#[test]
fn trade_normalized() {
    assert_eq!(
        parse_trade(&trade("60000.10", "0.5")),
        Some(PriceMessage { price: 6_000_010, volume: 50_000_000 })
    );
    assert_eq!(parse_trade(&trade("x", "0.5")), None);
    assert_eq!(parse_trade(&trade("1", "")), None);
}

#[test]
fn feed_reconnects_after_backoff() {
    let (s, a) = feed_start();
    assert_eq!(s, FeedState::Connecting);
    assert!(matches!(a, FeedAction::Connect));
    let (s, a) = feed_step(s, FeedEvent::ConnectFailed);
    assert_eq!(s, FeedState::Disconnected);
    assert!(matches!(a, FeedAction::WaitSecs(5)));
    let (s, a) = feed_step(s, FeedEvent::BackoffElapsed);
    assert_eq!(s, FeedState::Connecting);
    assert!(matches!(a, FeedAction::Connect));
    let (s, _) = feed_step(s, FeedEvent::ConnectSucceeded);
    assert_eq!(s, FeedState::Connected);
    let (s, a) = feed_step(s, FeedEvent::StreamEnded);
    assert_eq!(s, FeedState::Disconnected);
    assert!(matches!(a, FeedAction::WaitSecs(5)));
}

#[test]
fn feed_connected_frames() {
    let s = FeedState::Connected;
    let (s1, a) = feed_step(s, FeedEvent::Ping(vec![1, 2]));
    assert_eq!(s1, s);
    assert!(matches!(a, FeedAction::Pong(p) if p == vec![1, 2]));
    let (_, a) = feed_step(s, FeedEvent::KeepaliveDue);
    assert!(matches!(a, FeedAction::SendPing));
    let (_, a) = feed_step(s, FeedEvent::Trade(trade("100.5", "2")));
    assert!(matches!(a, FeedAction::Deliver(m) if m == PriceMessage { price: 10_050, volume: 200_000_000 }));
    let (s2, a) = feed_step(s, FeedEvent::Trade(trade("bad", "2")));
    assert_eq!(s2, s);
    assert!(matches!(a, FeedAction::Nothing));
    let (s3, a) = feed_step(s, FeedEvent::Malformed);
    assert_eq!(s3, s);
    assert!(matches!(a, FeedAction::Nothing));
    let (s4, a) = feed_step(s, FeedEvent::SendFailed);
    assert_eq!(s4, FeedState::Disconnected);
    assert!(matches!(a, FeedAction::WaitSecs(5)));
}
