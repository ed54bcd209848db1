use vstd::prelude::*;
use crate::data::data_buffer::{FeatureVector, MarketBuffer, MAX_LIMIT, atrp_of, features_of, push_evict};
use crate::data::macro_filter::MacroFilter;
use crate::trading::position_manager::{PositionManager, order_size_of, trailing_stop_of};
use crate::units::{QTY_SCALE, RATIO_SCALE};

verus! {

/// Confidence is counted in hundredths: `SCORE_SCALE` stands for 1.0.
pub const SCORE_SCALE: u64 = 100;

/// Least confidence that allows an entry (0.75).
pub const ENTRY_CONFIDENCE: u64 = 75;

/// Noise probability above which an open position is closed (0.75, in `RATIO_SCALE` units).
pub const NOISE_EXIT: u64 = 750_000;

/// Fraction below the highest price at which the trailing stop lies (0.005).
pub const TRAIL_FRACTION: u64 = 5_000;

/// Noise probability held before the first one arrives (0.5).
pub const INITIAL_PROBABILITY: u64 = 500_000;

/// Idle time, in milliseconds, after which an open position probes the gateway.
pub const PROBE_IDLE_MS: u64 = 5_000;

/// Part of the confidence that comes from the noise probability `p` (`RATIO_SCALE` units).
pub open spec fn probability_bonus(p: u64) -> int {
    if p < 100_000 {
        55
    } else if p < 250_000 {
        45
    } else if p < 350_000 {
        30
    } else {
        0
    }
}

/// Part of the confidence that comes from the tick's volume (`QTY_SCALE` units).
pub open spec fn volume_bonus(volume: u64) -> int {
    if volume > 2 * QTY_SCALE {
        15
    } else if volume > QTY_SCALE {
        5
    } else {
        0
    }
}

/// Confidence, in hundredths, of the given noise probability, volume and context.
pub open spec fn confidence_of(p: u64, volume: u64, is_bull: bool, rsi_oversold: bool) -> int {
    probability_bonus(p) + volume_bonus(volume) + (if is_bull { 20int } else { 0int }) + (
    if rsi_oversold { 10int } else { 0int })
}

/// Combines the noise probability, the volume and the context into a confidence score.
pub fn calculate_confidence_score(prob_ia: u64, volume: u64, is_bull: bool, rsi_oversold: bool) -> (r: u64)
    ensures
        r as int == confidence_of(prob_ia, volume, is_bull, rsi_oversold),
{
    let mut score: u64 = 0;
    if prob_ia < 100_000 {
        score += 55;
    } else if prob_ia < 250_000 {
        score += 45;
    } else if prob_ia < 350_000 {
        score += 30;
    }
    if volume > 2 * QTY_SCALE {
        score += 15;
    } else if volume > QTY_SCALE {
        score += 5;
    }
    if is_bull {
        score += 20;
    }
    if rsi_oversold {
        score += 10;
    }
    score
}

/// A lower noise probability never gives a lower confidence, all else held fixed.
pub proof fn lemma_confidence_monotone(p1: u64, p2: u64, volume: u64, is_bull: bool, rsi_oversold: bool)
    requires
        p1 <= p2,
    ensures
        confidence_of(p1, volume, is_bull, rsi_oversold) >= confidence_of(p2, volume, is_bull, rsi_oversold),
{
}

/// Size multiplier, in tenths, for a confidence in hundredths.
pub open spec fn risk_multiplier_of(confidence: u64) -> int {
    if confidence >= 95 {
        25
    } else if confidence >= 90 {
        18
    } else {
        10
    }
}

/// Whether the spread (in `RATIO_SCALE` units of a percent) is at most 0.15 of the volatility.
pub open spec fn spread_ok(spread: u64, atrp: Option<int>) -> bool {
    match atrp {
        Some(v) => spread * 100 <= v * 15,
        None => true,
    }
}

/// Stop placed one percent below `price`, rounded down.
pub open spec fn entry_stop_of(price: u64) -> u64 {
    ((price * 99) / 100) as u64
}

/// Quantity to buy, in `QTY_SCALE` units: zero unless the confidence and the spread allow
/// an entry.
pub open spec fn entry_size_of(
    balance: u64,
    risk: u64,
    price: u64,
    confidence: u64,
    spread: u64,
    atrp: Option<int>,
) -> int {
    if confidence >= ENTRY_CONFIDENCE && spread_ok(spread, atrp) && price > 0 {
        order_size_of(balance, risk, price, entry_stop_of(price)) * risk_multiplier_of(confidence) / 10
    } else {
        0
    }
}

/// Whether a price loses more than 0.8 percent against the entry price.
pub open spec fn stop_loss_hit(entry: u64, price: u64) -> bool {
    1000 * price < 992 * entry
}

/// Why an open position is closed.
#[derive(PartialEq, Eq, Structural, Clone, Copy, Debug)]
pub enum ExitReason {
    StopLoss,
    Noise,
    Trail,
}

impl ExitReason {
    /// The label written to the trade log.
    pub fn label(&self) -> (r: &'static str)
    {
        match self {
            ExitReason::StopLoss => "STOP LOSS",
            ExitReason::Noise => "NOISE",
            ExitReason::Trail => "TRAIL",
        }
    }
}

/// The reason to close a position, by precedence stop loss, noise, trailing stop.
pub open spec fn exit_reason_of(entry: u64, price: u64, prob: u64, trail_stop: int) -> Option<
    ExitReason,
> {
    if stop_loss_hit(entry, price) {
        Some(ExitReason::StopLoss)
    } else if prob > NOISE_EXIT {
        Some(ExitReason::Noise)
    } else if price < trail_stop {
        Some(ExitReason::Trail)
    } else {
        None
    }
}

/// The one position the engine may hold.
#[derive(PartialEq, Eq, Structural, Clone, Copy, Debug)]
pub enum Position {
    Flat,
    Open { entry_price: u64, quantity: u128 },
}

/// Phase of the engine, derived from the window and the position.
#[derive(PartialEq, Eq, Structural, Clone, Copy, Debug)]
pub enum Phase {
    Warming,
    Scanning,
    Positioned,
}

/// Trading state: the window, the tracker, the position, the last noise probability and
/// confidence, and the market context. One caller feeds it events in order.
pub struct Engine {
    pub buffer: MarketBuffer,
    pub risk: PositionManager,
    pub position: Position,
    pub last_probability: u64,
    pub last_confidence: u64,
    pub context: MacroFilter,
}

impl Engine {
    pub open spec fn wf(&self) -> bool {
        self.buffer.wf() && self.buffer.limit >= 2
    }

    pub open spec fn phase_of(&self) -> Phase {
        match self.position {
            Position::Open { .. } => Phase::Positioned,
            Position::Flat => if self.buffer.prices@.len() < self.buffer.limit {
                Phase::Warming
            } else {
                Phase::Scanning
            },
        }
    }

    /// An engine with an empty window of `limit` samples, flat, with the given balance and
    /// risk fraction.
    pub fn new(limit: usize, balance: u64, risk: u64, context: MacroFilter) -> (r: Self)
        requires
            2 <= limit <= MAX_LIMIT,
        ensures
            r.wf(),
            r.buffer.limit == limit,
            r.buffer.prices@.len() == 0,
            r.risk.balance_usd == balance,
            r.risk.risk_percentage == risk,
            r.position == Position::Flat,
            r.last_probability == INITIAL_PROBABILITY,
            r.last_confidence == 0,
            r.context == context,
            r.phase_of() == Phase::Warming,
    {
        Engine {
            buffer: MarketBuffer::new(limit),
            risk: PositionManager::new(balance, risk),
            position: Position::Flat,
            last_probability: INITIAL_PROBABILITY,
            last_confidence: 0,
            context,
        }
    }

    /// The current phase.
    pub fn phase(&self) -> (r: Phase)
        ensures
            r == self.phase_of(),
    {
        match self.position {
            Position::Open { .. } => Phase::Positioned,
            Position::Flat => if self.buffer.prices.len() < self.buffer.limit {
                Phase::Warming
            } else {
                Phase::Scanning
            },
        }
    }

    /// Handles one tick: on a resample boundary the tick becomes a window sample and the
    /// feature vector of the window, once full, comes back for the oracle.
    pub fn on_tick(&mut self, price: u64, volume: u64, candle_due: bool) -> (r: Option<FeatureVector>)
        requires
            old(self).wf(),
        ensures
            final(self).wf(),
            final(self).buffer.limit == old(self).buffer.limit,
            final(self).risk == old(self).risk,
            final(self).position == old(self).position,
            final(self).last_probability == old(self).last_probability,
            final(self).last_confidence == old(self).last_confidence,
            final(self).context == old(self).context,
            candle_due ==> final(self).buffer.prices@ == push_evict(
                old(self).buffer.prices@,
                price,
                old(self).buffer.limit as nat,
            ),
            candle_due ==> final(self).buffer.volumes@ == push_evict(
                old(self).buffer.volumes@,
                volume,
                old(self).buffer.limit as nat,
            ),
            !candle_due ==> final(self).buffer == old(self).buffer,
            r.is_some() == (candle_due && final(self).buffer.prices@.len() == final(self).buffer.limit),
            r.is_some() ==> features_of(r.unwrap(), final(self).buffer.prices@, final(self).buffer.volumes@),
    {
        if !candle_due {
            return None;
        }
        self.buffer.add_candle(price, volume);
        self.buffer.get_features()
    }

    /// Takes a new noise probability, computed on the window at a tick of `price` and
    /// `volume`, and scores it. Where the engine is flat and the confidence and `spread`
    /// allow, returns the quantity to buy (`QTY_SCALE` units).
    pub fn on_probability(&mut self, price: u64, volume: u64, prob: u64, spread: u64) -> (r: Option<u128>)
        requires
            old(self).wf(),
        ensures
            final(self).wf(),
            final(self).buffer == old(self).buffer,
            final(self).risk == old(self).risk,
            final(self).position == old(self).position,
            final(self).context == old(self).context,
            final(self).last_probability == prob,
            final(self).last_confidence as int == confidence_of(
                prob,
                volume,
                old(self).context.is_bull_market,
                old(self).context.rsi_oversold,
            ),
            ({
                let size = entry_size_of(
                    old(self).risk.balance_usd,
                    old(self).risk.risk_percentage,
                    price,
                    final(self).last_confidence,
                    spread,
                    atrp_of(old(self).buffer.prices@),
                );
                if old(self).position == Position::Flat && size > 0 {
                    r == Some(size as u128)
                } else {
                    r.is_none()
                }
            }),
    {
        self.last_probability = prob;
        let atrp = self.buffer.get_atrp();
        let conf = calculate_confidence_score(
            prob,
            volume,
            self.context.is_bull_market,
            self.context.rsi_oversold,
        );
        self.last_confidence = conf;
        if self.position != Position::Flat || conf < ENTRY_CONFIDENCE || price == 0 {
            return None;
        }
        let spread_allowed = match atrp {
            Some(v) => v > 0x1_0000_0000_0000_0000_0000 || (spread as u128) * 100 <= v * 15,
            None => true,
        };
        if !spread_allowed {
            return None;
        }
        let stop: u64 = ((price as u128) * 99 / 100) as u64;
        let base = self.risk.calculate_order_size(price, stop);
        let multiplier: u128 = if conf >= 95 {
            25
        } else if conf >= 90 {
            18
        } else {
            10
        };
        proof {
            let b = self.risk.balance_usd as int;
            let e = price as int;
            let q = base as int;
            assert(q <= 0xffff_ffff_ffff_ffffint * 100_000_000) by (nonlinear_arith)
                requires
                    q * e <= b * 100_000_000,
                    e >= 1,
                    0 <= b <= 0xffff_ffff_ffff_ffffint,
                    q >= 0,
            ;
        }
        let size = base * multiplier / 10;
        if size > 0 {
            Some(size)
        } else {
            None
        }
    }

    /// Records a filled buy of `quantity` at `price`: the engine is now positioned.
    pub fn confirm_buy(&mut self, price: u64, quantity: u128)
        requires
            old(self).wf(),
        ensures
            final(self).wf(),
            final(self).position == (Position::Open { entry_price: price, quantity }),
            final(self).risk.highest_price == 0,
            final(self).risk.balance_usd == old(self).risk.balance_usd,
            final(self).risk.risk_percentage == old(self).risk.risk_percentage,
            final(self).buffer == old(self).buffer,
            final(self).last_probability == old(self).last_probability,
            final(self).last_confidence == old(self).last_confidence,
            final(self).context == old(self).context,
    {
        self.position = Position::Open { entry_price: price, quantity };
        self.risk.reset_position();
    }

    /// On every tick while positioned: tracks the highest price and says whether, and why,
    /// to close the position.
    pub fn exit_signal(&mut self, price: u64) -> (r: Option<ExitReason>)
        requires
            old(self).wf(),
        ensures
            final(self).wf(),
            final(self).buffer == old(self).buffer,
            final(self).position == old(self).position,
            final(self).last_probability == old(self).last_probability,
            final(self).last_confidence == old(self).last_confidence,
            final(self).context == old(self).context,
            final(self).risk.balance_usd == old(self).risk.balance_usd,
            final(self).risk.risk_percentage == old(self).risk.risk_percentage,
            match old(self).position {
                Position::Flat => r.is_none() && final(self).risk == old(self).risk,
                Position::Open { entry_price, .. } => {
                    &&& final(self).risk.highest_price == if price > old(self).risk.highest_price {
                        price
                    } else {
                        old(self).risk.highest_price
                    }
                    &&& r == exit_reason_of(
                        entry_price,
                        price,
                        old(self).last_probability,
                        trailing_stop_of(final(self).risk.highest_price, TRAIL_FRACTION),
                    )
                },
            },
    {
        match self.position {
            Position::Flat => None,
            Position::Open { entry_price, .. } => {
                self.risk.update_highest_price(price);
                let trail_stop = self.risk.calculate_trailing_stop(TRAIL_FRACTION);
                if 1000 * (price as u128) < 992 * (entry_price as u128) {
                    Some(ExitReason::StopLoss)
                } else if self.last_probability > NOISE_EXIT {
                    Some(ExitReason::Noise)
                } else if price < trail_stop {
                    Some(ExitReason::Trail)
                } else {
                    None
                }
            },
        }
    }

    /// Records a filled sell: the engine is flat again.
    pub fn confirm_sell(&mut self)
        requires
            old(self).wf(),
        ensures
            final(self).wf(),
            final(self).position == Position::Flat,
            final(self).buffer == old(self).buffer,
            final(self).risk == old(self).risk,
            final(self).last_probability == old(self).last_probability,
            final(self).last_confidence == old(self).last_confidence,
            final(self).context == old(self).context,
    {
        self.position = Position::Flat;
    }

    /// Whether to probe the gateway after `idle_ms` milliseconds without a tick.
    pub fn should_probe(&self, idle_ms: u64) -> (r: bool)
        ensures
            r == (idle_ms >= PROBE_IDLE_MS && self.position != Position::Flat),
    {
        idle_ms >= PROBE_IDLE_MS && self.position != Position::Flat
    }

    /// Quantity to sell on shutdown: the open position's, if any.
    pub fn shutdown_quantity(&self) -> (r: Option<u128>)
        ensures
            r == match self.position {
                Position::Flat => None,
                Position::Open { quantity, .. } => Some(quantity),
            },
    {
        match self.position {
            Position::Flat => None,
            Position::Open { quantity, .. } => Some(quantity),
        }
    }
}

} // verus!
