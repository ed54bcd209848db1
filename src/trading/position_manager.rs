use vstd::prelude::*;
use vstd::arithmetic::div_mod::lemma_fundamental_div_mod_converse;
use crate::units::{QTY_SCALE, RATIO_SCALE};

verus! {

/// Quantity risked on `entry` with a stop at `stop`, before the no-leverage cap, in
/// `QTY_SCALE` units: the budget `balance * risk` (in `RATIO_SCALE` units) over the risk
/// per unit; the factor `QTY_SCALE / RATIO_SCALE` is 100.
pub open spec fn risk_sized(balance: u64, risk: u64, entry: u64, stop: u64) -> int {
    let per_unit = if entry >= stop { entry - stop } else { stop - entry };
    if per_unit == 0 {
        0
    } else {
        (balance * risk * (QTY_SCALE / RATIO_SCALE)) / per_unit
    }
}

/// The most that `balance` buys at `entry`, in `QTY_SCALE` units.
pub open spec fn max_affordable(balance: u64, entry: u64) -> int {
    (balance * QTY_SCALE) / (entry as int)
}

/// Order size: the risk-sized quantity, capped at what the balance buys outright.
pub open spec fn order_size_of(balance: u64, risk: u64, entry: u64, stop: u64) -> int {
    let q = risk_sized(balance, risk, entry, stop);
    let cap = max_affordable(balance, entry);
    if q > cap { cap } else { q }
}

/// Highest price lowered by the fraction `trail` (in `RATIO_SCALE` units), rounded down.
pub open spec fn trailing_stop_of(highest: u64, trail: u64) -> int {
    (highest * (RATIO_SCALE - trail)) / (RATIO_SCALE as int)
}


/// Smallest quantity step the exchange takes, in `QTY_SCALE` units (five decimal places).
pub const LOT_STEP: u128 = 1_000;

/// `qty` rounded to the nearest multiple of `LOT_STEP`, halves rounded up.
pub open spec fn lot_rounded(qty: u128) -> int {
    ((qty + LOT_STEP / 2) / (LOT_STEP as int)) * LOT_STEP
}

/// Rounds a quantity to the exchange's lot precision before an order is sent.
pub fn round_to_lot(qty: u128) -> (r: u128)
    requires
        qty <= u128::MAX - LOT_STEP,
    ensures
        r as int == lot_rounded(qty),
{
    (qty + LOT_STEP / 2) / LOT_STEP * LOT_STEP
}

/// Sizing and trailing-stop state for one position. Amounts and prices share one unit;
/// `risk_percentage` is the fraction of the balance risked per trade, in `RATIO_SCALE` units.
pub struct PositionManager {
    pub balance_usd: u64,
    pub risk_percentage: u64,
    pub highest_price: u64,
}

impl PositionManager {
    pub fn new(balance: u64, risk: u64) -> (r: Self)
        ensures
            r.balance_usd == balance,
            r.risk_percentage == risk,
            r.highest_price == 0,
    {
        PositionManager { balance_usd: balance, risk_percentage: risk, highest_price: 0 }
    }

    /// Quantity to buy at `entry_price` with a stop at `stop_loss`, in `QTY_SCALE` units;
    /// zero where the two prices are equal.
    pub fn calculate_order_size(&self, entry_price: u64, stop_loss: u64) -> (r: u128)
        requires
            entry_price > 0,
        ensures
            r as int == order_size_of(self.balance_usd, self.risk_percentage, entry_price, stop_loss),
            entry_price == stop_loss ==> r == 0,
            r * entry_price <= self.balance_usd * QTY_SCALE,
    {
        proof {
            let b = self.balance_usd as int;
            let k = self.risk_percentage as int;
            assert(b * k <= 0xffff_ffff_ffff_ffffint * 0xffff_ffff_ffff_ffffint) by (nonlinear_arith)
                requires
                    0 <= b <= 0xffff_ffff_ffff_ffffint,
                    0 <= k <= 0xffff_ffff_ffff_ffffint,
            ;
        }
        let budget: u128 = self.balance_usd as u128 * self.risk_percentage as u128;
        let risk_per_unit: u64 = if entry_price >= stop_loss {
            entry_price - stop_loss
        } else {
            stop_loss - entry_price
        };
        let cap: u128 = self.balance_usd as u128 * QTY_SCALE as u128 / entry_price as u128;
        proof {
            let b = self.balance_usd as int;
            let e = entry_price as int;
            let c = cap as int;
            assert(c * e <= b * QTY_SCALE) by (nonlinear_arith)
                requires
                    e > 0,
                    c == (b * 100_000_000) / e,
            ;
        }
        if risk_per_unit == 0 {
            return 0;
        }
        let per: u128 = risk_per_unit as u128;
        let q: u128 = budget / per;
        let rem: u128 = budget % per;
        if q > cap {
            proof {
                let x = budget as int;
                let p = per as int;
                assert(x * 100 / p >= q) by (nonlinear_arith)
                    requires
                        p > 0,
                        q == x / p,
                        x >= 0,
                ;
            }
            return cap;
        }
        let d: u128 = rem * 100 / per;
        let size: u128 = q * 100 + d;
        proof {
            let x = budget as int;
            let p = per as int;
            let m = (rem * 100) as int % p;
            assert(x == q * p + rem) by (nonlinear_arith)
                requires
                    p > 0,
                    q == x / p,
                    rem == x % p,
            ;
            assert(x * 100 == (q * 100 + d) * p + m) by (nonlinear_arith)
                requires
                    p > 0,
                    x == q * p + rem,
                    d == (rem * 100) / p,
                    m == (rem * 100) % p,
            ;
            lemma_fundamental_div_mod_converse(x * 100, p, q * 100 + d as int, m);
        }
        if size > cap {
            cap
        } else {
            proof {
                let e = entry_price as int;
                assert(size * e <= cap * e) by (nonlinear_arith)
                    requires
                        size <= cap,
                        e > 0,
                ;
            }
            size
        }
    }

    /// Raises the highest price seen to `current_price` where it is higher.
    pub fn update_highest_price(&mut self, current_price: u64)
        ensures
            final(self).highest_price == if current_price > old(self).highest_price {
                current_price
            } else {
                old(self).highest_price
            },
            final(self).balance_usd == old(self).balance_usd,
            final(self).risk_percentage == old(self).risk_percentage,
    {
        if current_price > self.highest_price {
            self.highest_price = current_price;
        }
    }

    /// The highest price lowered by `trail_percent` (in `RATIO_SCALE` units), rounded down.
    pub fn calculate_trailing_stop(&self, trail_percent: u64) -> (r: u64)
        requires
            trail_percent <= RATIO_SCALE,
        ensures
            r as int == trailing_stop_of(self.highest_price, trail_percent),
            r <= self.highest_price,
    {
        let h = self.highest_price as u128;
        let keep = (RATIO_SCALE - trail_percent) as u128;
        proof {
            assert(h * keep <= h * 1_000_000) by (nonlinear_arith)
                requires
                    keep <= 1_000_000,
            ;
        }
        let r = h * keep / (RATIO_SCALE as u128);
        proof {
            assert(r <= h) by (nonlinear_arith)
                requires
                    r == h * keep / 1_000_000,
                    h * keep <= h * 1_000_000,
            ;
        }
        r as u64
    }

    /// Forgets the highest price, for a flat position.
    pub fn reset_position(&mut self)
        ensures
            final(self).highest_price == 0,
            final(self).balance_usd == old(self).balance_usd,
            final(self).risk_percentage == old(self).risk_percentage,
    {
        self.highest_price = 0;
    }
}

} // verus!
