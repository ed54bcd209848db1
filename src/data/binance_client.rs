use vstd::prelude::*;
use vstd::utf8::encode_utf8;

verus! {

/// Decimal places of a price: prices are counted in hundredths.
pub const PRICE_DECIMALS: usize = 2;

/// Decimal places of a quantity (see `QTY_SCALE`).
pub const QTY_DECIMALS: usize = 8;

/// Seconds to wait before connecting again.
pub const RECONNECT_BACKOFF_SECS: u64 = 5;

/// Seconds between keepalive pings on an open connection.
pub const KEEPALIVE_SECS: u64 = 20;

pub open spec fn is_digit(b: u8) -> bool {
    48 <= b <= 57
}

/// Value of a sequence of decimal digits, most significant first.
pub open spec fn digits_value(s: Seq<u8>) -> int
    decreases s.len(),
{
    if s.len() == 0 {
        0
    } else {
        digits_value(s.drop_last()) * 10 + (s.last() - 48)
    }
}

/// Whether `s` is digits, with at least one before `k`, and where `k < s.len()`, a point
/// at `k` followed by digits only.
pub open spec fn is_decimal_at(s: Seq<u8>, k: int) -> bool {
    &&& 1 <= k <= s.len()
    &&& forall|i: int| 0 <= i < k ==> is_digit(s[i])
    &&& k < s.len() ==> s[k] == 46
    &&& forall|i: int| k < i < s.len() ==> is_digit(s[i])
}

/// The first `d` digits after the point at `k`, padded with zeros.
pub open spec fn fraction_digits(s: Seq<u8>, k: int, d: nat) -> Seq<u8> {
    Seq::new(d, |j: int| if k + 1 + j < s.len() { s[k + 1 + j] } else { 48u8 })
}

/// The decimal number `s` with its point at `k`, in units of `10^-d`: digits past the
/// `d`-th after the point are dropped.
pub open spec fn decimal_value_at(s: Seq<u8>, k: int, d: nat) -> int {
    digits_value(s.take(k) + fraction_digits(s, k, d))
}

/// What parsing `s` at `d` decimal places gives: the value where `s` is a decimal number
/// that fits in `u64`, else nothing.
pub open spec fn parsed(s: Seq<u8>, d: nat, r: Option<u64>) -> bool {
    match r {
        Some(v) => exists|k: int| is_decimal_at(s, k) && v as int == decimal_value_at(s, k, d),
        None => forall|k: int| is_decimal_at(s, k) ==> decimal_value_at(s, k, d) > u64::MAX,
    }
}

proof fn lemma_digits_monotone(t: Seq<u8>, i: int)
    requires
        0 <= i <= t.len(),
        forall|j: int| 0 <= j < t.len() ==> is_digit(t[j]),
    ensures
        0 <= digits_value(t.take(i)) <= digits_value(t),
    decreases t.len() - i,
{
    if i < t.len() {
        lemma_digits_monotone(t, i + 1);
        assert(t.take(i + 1).drop_last() =~= t.take(i));
        assert(t.take(i + 1).last() == t[i]);
    } else {
        assert(t.take(i) =~= t);
        lemma_digits_nonneg(t);
    }
}

proof fn lemma_digits_nonneg(t: Seq<u8>)
    requires
        forall|j: int| 0 <= j < t.len() ==> is_digit(t[j]),
    ensures
        digits_value(t) >= 0,
    decreases t.len(),
{
    if t.len() > 0 {
        lemma_digits_nonneg(t.drop_last());
    }
}

proof fn lemma_point_unique(s: Seq<u8>, k: int)
    requires
        0 <= k <= s.len(),
        forall|i: int| 0 <= i < k ==> is_digit(s[i]),
        k < s.len() ==> !is_digit(s[k]),
    ensures
        forall|k2: int| is_decimal_at(s, k2) ==> k2 == k,
{
    assert forall|k2: int| is_decimal_at(s, k2) implies k2 == k by {
        if k2 > k {
            assert(is_digit(s[k]));
        } else if k2 < k {
            assert(is_digit(s[k2]));
        }
    }
}

/// Parses a decimal number such as `60000.12` into a count of `10^-decimals` units.
pub fn parse_fixed(b: &[u8], decimals: usize) -> (r: Option<u64>)
    requires
        decimals <= 18,
    ensures
        parsed(b@, decimals as nat, r),
{
    let ghost s = b@;
    let n = b.len();
    let mut k: usize = 0;
    while k < n && 48 <= b[k] && b[k] <= 57
        invariant
            s == b@,
            n == s.len(),
            0 <= k <= n,
            forall|i: int| 0 <= i < k ==> is_digit(s[i]),
        decreases n - k,
    {
        k = k + 1;
    }
    proof {
        lemma_point_unique(s, k as int);
    }
    if k == 0 || (k < n && b[k] != 46) {
        proof {
            assert(!is_decimal_at(s, k as int));
            assert forall|k2: int| is_decimal_at(s, k2) implies decimal_value_at(
                s,
                k2,
                decimals as nat,
            ) > u64::MAX by {}
        }
        return None;
    }
    if k < n {
        let mut j: usize = k + 1;
        while j < n
            invariant
                s == b@,
                n == s.len(),
                k < n,
                forall|k2: int| is_decimal_at(s, k2) ==> k2 == k,
                k + 1 <= j <= n,
                forall|i: int| k < i < j ==> is_digit(s[i]),
            decreases n - j,
        {
            if b[j] < 48 || b[j] > 57 {
                proof {
                    assert(!is_decimal_at(s, k as int));
                    assert forall|k2: int| is_decimal_at(s, k2) implies decimal_value_at(
                        s,
                        k2,
                        decimals as nat,
                    ) > u64::MAX by {}
                }
                return None;
            }
            j = j + 1;
        }
    }
    proof {
        assert(is_decimal_at(s, k as int));
    }
    let ghost t = s.take(k as int) + fraction_digits(s, k as int, decimals as nat);
    proof {
        assert forall|i: int| 0 <= i < t.len() implies is_digit(t[i]) by {
            if i < k {
                assert(t[i] == s[i]);
            }
        }
    }
    let mut acc: u128 = 0;
    let mut i: usize = 0;
    while i < k
        invariant
            s == b@,
            n == s.len(),
            1 <= k <= n,
            forall|k2: int| is_decimal_at(s, k2) ==> k2 == k,
            t == s.take(k as int) + fraction_digits(s, k as int, decimals as nat),
            t.len() == k + decimals,
            forall|m: int| 0 <= m < t.len() ==> is_digit(t[m]),
            0 <= i <= k,
            acc as int == digits_value(t.take(i as int)),
            acc <= u64::MAX,
        decreases k - i,
    {
        let digit: u8 = b[i];
        proof {
            assert(t[i as int] == digit);
            assert(t.take(i as int + 1).drop_last() =~= t.take(i as int));
        }
        acc = acc * 10 + (digit - 48) as u128;
        if acc > u64::MAX as u128 {
            proof {
                lemma_digits_monotone(t, i as int + 1);
                assert forall|k2: int| is_decimal_at(s, k2) implies decimal_value_at(
                    s,
                    k2,
                    decimals as nat,
                ) > u64::MAX by {
                    assert(k2 == k);
                }
            }
            return None;
        }
        i = i + 1;
    }
    let after: usize = n - k;
    let mut j: usize = 0;
    while j < decimals
        invariant
            s == b@,
            n == s.len(),
            1 <= k <= n,
            forall|k2: int| is_decimal_at(s, k2) ==> k2 == k,
            after == n - k,
            t == s.take(k as int) + fraction_digits(s, k as int, decimals as nat),
            t.len() == k + decimals,
            forall|m: int| 0 <= m < t.len() ==> is_digit(t[m]),
            0 <= j <= decimals,
            acc as int == digits_value(t.take(k + j as int)),
            acc <= u64::MAX,
        decreases decimals - j,
    {
        let digit: u8 = if j + 1 < after {
            b[k + 1 + j]
        } else {
            48
        };
        proof {
            assert(t[k + j as int] == digit);
            assert(t.take(k + j as int + 1).drop_last() =~= t.take(k + j as int));
        }
        acc = acc * 10 + (digit - 48) as u128;
        if acc > u64::MAX as u128 {
            proof {
                lemma_digits_monotone(t, k + j as int + 1);
                assert forall|k2: int| is_decimal_at(s, k2) implies decimal_value_at(
                    s,
                    k2,
                    decimals as nat,
                ) > u64::MAX by {
                    assert(k2 == k);
                }
            }
            return None;
        }
        j = j + 1;
    }
    proof {
        assert(t.take(k + decimals as int) =~= t);
    }
    Some(acc as u64)
}


/// One aggregated trade as the exchange sends it: price and quantity as decimal text.
pub struct BinanceAggTrade {
    pub price: String,
    pub quantity: String,
}

/// One normalized tick: price in hundredths, volume in `QTY_SCALE` units.
#[derive(PartialEq, Eq, Structural, Clone, Copy, Debug)]
pub struct PriceMessage {
    pub price: u64,
    pub volume: u64,
}

/// Normalizes a trade; nothing where either number does not parse.
pub fn parse_trade(t: &BinanceAggTrade) -> (r: Option<PriceMessage>)
    ensures
        r.is_some() ==> parsed(encode_utf8(t.price@), PRICE_DECIMALS as nat, Some(r.unwrap().price))
            && parsed(encode_utf8(t.quantity@), QTY_DECIMALS as nat, Some(r.unwrap().volume)),
        r.is_none() ==> parsed(encode_utf8(t.price@), PRICE_DECIMALS as nat, None) || parsed(
            encode_utf8(t.quantity@),
            QTY_DECIMALS as nat,
            None,
        ),
{
    let price = parse_fixed(t.price.as_str().as_bytes(), PRICE_DECIMALS);
    let volume = parse_fixed(t.quantity.as_str().as_bytes(), QTY_DECIMALS);
    match (price, volume) {
        (Some(price), Some(volume)) => Some(PriceMessage { price, volume }),
        _ => None,
    }
}

/// State of the feed connection.
#[derive(PartialEq, Eq, Structural, Clone, Copy, Debug)]
pub enum FeedState {
    /// Waiting out the backoff before the next attempt.
    Disconnected,
    Connecting,
    Connected,
}

/// What happened on the feed.
pub enum FeedEvent {
    ConnectSucceeded,
    ConnectFailed,
    BackoffElapsed,
    /// A data frame, decoded into its two fields.
    Trade(BinanceAggTrade),
    /// A data frame that is not a trade.
    Malformed,
    /// A protocol ping with its payload.
    Ping(Vec<u8>),
    /// Any other frame.
    Other,
    KeepaliveDue,
    SendFailed,
    /// The stream failed or closed.
    StreamEnded,
}

/// What the connection's owner does next.
pub enum FeedAction {
    Connect,
    WaitSecs(u64),
    Pong(Vec<u8>),
    SendPing,
    Deliver(PriceMessage),
    Nothing,
}

/// The state the feed moves to on an event.
pub open spec fn feed_next(state: FeedState, event: FeedEvent) -> FeedState {
    match (state, event) {
        (FeedState::Connecting, FeedEvent::ConnectSucceeded) => FeedState::Connected,
        (FeedState::Connecting, FeedEvent::ConnectFailed) => FeedState::Disconnected,
        (FeedState::Disconnected, FeedEvent::BackoffElapsed) => FeedState::Connecting,
        (FeedState::Connected, FeedEvent::SendFailed) => FeedState::Disconnected,
        (FeedState::Connected, FeedEvent::StreamEnded) => FeedState::Disconnected,
        _ => state,
    }
}

/// The first state and action of the feed: connect.
pub fn feed_start() -> (r: (FeedState, FeedAction))
    ensures
        r.0 == FeedState::Connecting,
        r.1 is Connect,
{
    (FeedState::Connecting, FeedAction::Connect)
}

/// One step of the feed protocol: reconnect after a fixed backoff, answer pings at once,
/// ping on the keepalive timer, and deliver each trade that parses.
pub fn feed_step(state: FeedState, event: FeedEvent) -> (r: (FeedState, FeedAction))
    ensures
        r.0 == feed_next(state, event),
        match (state, event) {
            (FeedState::Connecting, FeedEvent::ConnectFailed)
            | (FeedState::Connected, FeedEvent::SendFailed)
            | (FeedState::Connected, FeedEvent::StreamEnded) => r.1 == FeedAction::WaitSecs(
                RECONNECT_BACKOFF_SECS,
            ),
            (FeedState::Disconnected, FeedEvent::BackoffElapsed) => r.1 is Connect,
            (FeedState::Connected, FeedEvent::Ping(p)) => r.1 == FeedAction::Pong(p),
            (FeedState::Connected, FeedEvent::KeepaliveDue) => r.1 is SendPing,
            (FeedState::Connected, FeedEvent::Trade(t)) => match r.1 {
                FeedAction::Deliver(m) => parsed(
                    encode_utf8(t.price@),
                    PRICE_DECIMALS as nat,
                    Some(m.price),
                ) && parsed(encode_utf8(t.quantity@), QTY_DECIMALS as nat, Some(m.volume)),
                FeedAction::Nothing => parsed(encode_utf8(t.price@), PRICE_DECIMALS as nat, None)
                    || parsed(encode_utf8(t.quantity@), QTY_DECIMALS as nat, None),
                _ => false,
            },
            _ => r.1 is Nothing,
        },
{
    match (state, event) {
        (FeedState::Connecting, FeedEvent::ConnectSucceeded) => (FeedState::Connected, FeedAction::Nothing),
        (FeedState::Connecting, FeedEvent::ConnectFailed) => (
            FeedState::Disconnected,
            FeedAction::WaitSecs(RECONNECT_BACKOFF_SECS),
        ),
        (FeedState::Disconnected, FeedEvent::BackoffElapsed) => (FeedState::Connecting, FeedAction::Connect),
        (FeedState::Connected, FeedEvent::SendFailed) | (FeedState::Connected, FeedEvent::StreamEnded) => (
            FeedState::Disconnected,
            FeedAction::WaitSecs(RECONNECT_BACKOFF_SECS),
        ),
        (FeedState::Connected, FeedEvent::Ping(p)) => (FeedState::Connected, FeedAction::Pong(p)),
        (FeedState::Connected, FeedEvent::KeepaliveDue) => (FeedState::Connected, FeedAction::SendPing),
        (FeedState::Connected, FeedEvent::Trade(t)) => match parse_trade(&t) {
            Some(m) => (FeedState::Connected, FeedAction::Deliver(m)),
            None => (FeedState::Connected, FeedAction::Nothing),
        },
        (st, _) => (st, FeedAction::Nothing),
    }
}

} // verus!
