use vstd::prelude::*;
use crate::units::RATIO_SCALE;

verus! {

/// Largest window capacity: it keeps every sum over the window well inside `u128`.
pub const MAX_LIMIT: usize = 4096;

/// Volatility reported for a window of fewer than two samples (0.015, in `RATIO_SCALE` units).
pub const DEFAULT_ATRP: u128 = 15_000;

/// Volatility reported when no two consecutive samples differ (0.005, in `RATIO_SCALE` units).
pub const FLAT_ATRP: u128 = 5_000;

/// Sum of a sequence of samples.
pub open spec fn sum_of(s: Seq<u64>) -> int
    decreases s.len(),
{
    if s.len() == 0 {
        0
    } else {
        sum_of(s.drop_last()) + s.last()
    }
}

pub open spec fn abs_diff(a: u64, b: u64) -> int {
    if a >= b {
        a - b
    } else {
        b - a
    }
}

/// Sum of the absolute changes between consecutive samples.
pub open spec fn path_length(s: Seq<u64>) -> int
    decreases s.len(),
{
    if s.len() < 2 {
        0
    } else {
        path_length(s.drop_last()) + abs_diff(s[s.len() - 2], s.last())
    }
}

/// Number of consecutive pairs of samples that differ.
pub open spec fn moving_steps(s: Seq<u64>) -> int
    decreases s.len(),
{
    if s.len() < 2 {
        0
    } else {
        moving_steps(s.drop_last()) + if s[s.len() - 2] != s.last() { 1int } else { 0int }
    }
}

/// Largest sample of a non-empty sequence.
pub open spec fn max_of(s: Seq<u64>) -> int
    decreases s.len(),
{
    if s.len() <= 1 {
        if s.len() == 1 { s[0] as int } else { 0 }
    } else {
        let m = max_of(s.drop_last());
        if s.last() > m { s.last() as int } else { m }
    }
}

/// Smallest sample of a non-empty sequence.
pub open spec fn min_of(s: Seq<u64>) -> int
    decreases s.len(),
{
    if s.len() <= 1 {
        if s.len() == 1 { s[0] as int } else { 0 }
    } else {
        let m = min_of(s.drop_last());
        if s.last() < m { s.last() as int } else { m }
    }
}

/// The window after one sample arrives: the oldest sample leaves first when it is full.
pub open spec fn push_evict(s: Seq<u64>, x: u64, limit: nat) -> Seq<u64> {
    if s.len() >= limit {
        s.skip(1).push(x)
    } else {
        s.push(x)
    }
}

/// Average absolute step, as a percentage of the latest price, in `RATIO_SCALE` units;
/// `None` where the latest price is zero and the percentage is unbounded.
pub open spec fn atrp_of(s: Seq<u64>) -> Option<int> {
    if s.len() < 2 {
        Some(DEFAULT_ATRP as int)
    } else if moving_steps(s) == 0 {
        Some(FLAT_ATRP as int)
    } else if s.last() == 0 {
        None
    } else {
        Some((path_length(s) * 100 * RATIO_SCALE) / (moving_steps(s) * s.last()))
    }
}


/// A fraction `num / den`, kept exact; `den` may be zero where the quantity is undefined.
pub struct Ratio {
    pub num: i128,
    pub den: u128,
}

/// The eight features of a full window, each an exact fraction. The log return is the
/// natural logarithm of `growth`, which is left to the caller.
pub struct FeatureVector {
    pub pct_change: Ratio,
    pub sma: Ratio,
    pub price_dev: Ratio,
    pub efficiency_ratio: Ratio,
    pub volume_momentum: Ratio,
    pub growth: Ratio,
    pub range: Ratio,
    pub dist_high: Ratio,
}

pub open spec fn is_ratio(r: Ratio, num: int, den: int) -> bool {
    r.num as int == num && r.den as int == den
}

/// What each feature is, over the prices `p` and volumes `v` of a window of at least two
/// samples.
pub open spec fn features_of(f: FeatureVector, p: Seq<u64>, v: Seq<u64>) -> bool {
    let n = p.len() as int;
    let c = p.last() as int;
    let prev = p[n - 2] as int;
    let sum = sum_of(p);
    let path = path_length(p);
    let vsum = sum_of(v);
    let high = max_of(p);
    let low = min_of(p);
    &&& is_ratio(f.pct_change, c - prev, prev)
    &&& is_ratio(f.sma, sum, n)
    &&& is_ratio(f.price_dev, c * n - sum, sum)
    &&& if path != 0 {
        is_ratio(f.efficiency_ratio, abs_diff(p[0], p.last()), path)
    } else {
        is_ratio(f.efficiency_ratio, 0, 1)
    }
    &&& if vsum != 0 {
        is_ratio(f.volume_momentum, v.last() * n, vsum)
    } else {
        is_ratio(f.volume_momentum, 1, 1)
    }
    &&& is_ratio(f.growth, c, prev)
    &&& is_ratio(f.range, high - low, low)
    &&& is_ratio(f.dist_high, high - c, high)
}

proof fn lemma_bounds(s: Seq<u64>)
    ensures
        0 <= sum_of(s) <= s.len() * 0xffff_ffff_ffff_ffffint,
        0 <= path_length(s) <= s.len() * 0xffff_ffff_ffff_ffffint,
        0 <= moving_steps(s) <= s.len(),
        s.len() >= 1 ==> exists|i: int| 0 <= i < s.len() && s[i] == max_of(s),
        s.len() >= 1 ==> exists|i: int| 0 <= i < s.len() && s[i] == min_of(s),
        s.len() >= 1 ==> min_of(s) <= max_of(s),
        s.len() >= 1 ==> min_of(s) <= s.last() <= max_of(s),
    decreases s.len(),
{
    if s.len() > 0 {
        lemma_bounds(s.drop_last());
        if s.len() >= 2 {
            let t = s.drop_last();
            let m = max_of(t);
            let w = choose|i: int| 0 <= i < t.len() && t[i] == m;
            assert(s[w] == t[w]);
            let k = min_of(t);
            let w2 = choose|i: int| 0 <= i < t.len() && t[i] == k;
            assert(s[w2] == t[w2]);
            assert(s[s.len() - 1] == s.last());
        } else {
            assert(s[0] == s.last());
        }
    }
}

fn sum_samples(v: &Vec<u64>) -> (r: u128)
    requires
        v.len() <= MAX_LIMIT,
    ensures
        r as int == sum_of(v@),
{
    let ghost s = v@;
    let mut total: u128 = 0;
    let mut i: usize = 0;
    while i < v.len()
        invariant
            s == v@,
            v.len() <= MAX_LIMIT,
            0 <= i <= v.len(),
            total as int == sum_of(s.take(i as int)),
        decreases v.len() - i,
    {
        proof {
            let t = s.take(i as int + 1);
            assert(t.drop_last() =~= s.take(i as int));
            lemma_bounds(s.take(i as int));
        }
        total = total + v[i] as u128;
        i = i + 1;
    }
    proof {
        assert(s.take(v.len() as int) =~= s);
    }
    total
}

/// Total absolute change between consecutive samples, and how many of those changes are
/// not zero.
fn step_totals(v: &Vec<u64>) -> (r: (u128, u64))
    requires
        v.len() <= MAX_LIMIT,
    ensures
        r.0 as int == path_length(v@),
        r.1 as int == moving_steps(v@),
        r.1 <= v.len(),
{
    let ghost s = v@;
    let count = v.len();
    if count < 2 {
        return (0, 0);
    }
    let mut total: u128 = 0;
    let mut movements: u64 = 0;
    let mut i: usize = 1;
    while i < count
        invariant
            s == v@,
            count == s.len(),
            count <= MAX_LIMIT,
            1 <= i <= count,
            total as int == path_length(s.take(i as int)),
            movements as int == moving_steps(s.take(i as int)),
            movements <= i,
        decreases count - i,
    {
        let prev_close = v[i - 1];
        let current_close = v[i];
        let tr: u64 = if current_close >= prev_close {
            current_close - prev_close
        } else {
            prev_close - current_close
        };
        proof {
            let t = s.take(i as int + 1);
            assert(t.drop_last() =~= s.take(i as int));
            assert(t[t.len() - 2] == prev_close);
            assert(t.last() == current_close);
            lemma_bounds(s.take(i as int));
        }
        if tr > 0 {
            total = total + tr as u128;
            movements = movements + 1;
        }
        i = i + 1;
    }
    proof {
        assert(s.take(count as int) =~= s);
    }
    (total, movements)
}

fn max_sample(v: &Vec<u64>) -> (r: u64)
    requires
        v.len() >= 1,
    ensures
        r as int == max_of(v@),
{
    let ghost s = v@;
    let mut m: u64 = v[0];
    let mut i: usize = 1;
    proof {
        assert(s.take(1).len() == 1);
    }
    while i < v.len()
        invariant
            s == v@,
            1 <= i <= v.len(),
            m as int == max_of(s.take(i as int)),
        decreases v.len() - i,
    {
        proof {
            assert(s.take(i as int + 1).drop_last() =~= s.take(i as int));
        }
        if v[i] > m {
            m = v[i];
        }
        i = i + 1;
    }
    proof {
        assert(s.take(v.len() as int) =~= s);
    }
    m
}

fn min_sample(v: &Vec<u64>) -> (r: u64)
    requires
        v.len() >= 1,
    ensures
        r as int == min_of(v@),
{
    let ghost s = v@;
    let mut m: u64 = v[0];
    let mut i: usize = 1;
    proof {
        assert(s.take(1).len() == 1);
    }
    while i < v.len()
        invariant
            s == v@,
            1 <= i <= v.len(),
            m as int == min_of(s.take(i as int)),
        decreases v.len() - i,
    {
        proof {
            assert(s.take(i as int + 1).drop_last() =~= s.take(i as int));
        }
        if v[i] < m {
            m = v[i];
        }
        i = i + 1;
    }
    proof {
        assert(s.take(v.len() as int) =~= s);
    }
    m
}


/// The window after the samples `xs` arrive in order.
pub open spec fn push_all(s: Seq<u64>, xs: Seq<u64>, limit: nat) -> Seq<u64>
    decreases xs.len(),
{
    if xs.len() == 0 {
        s
    } else {
        push_evict(push_all(s, xs.drop_last(), limit), xs.last(), limit)
    }
}

/// Whatever arrives, a window keeps exactly the latest `limit` samples, in arrival order:
/// after more than `limit` samples it holds `limit` of them.
pub proof fn lemma_window_keeps_latest(s: Seq<u64>, xs: Seq<u64>, limit: nat)
    requires
        1 <= limit,
        s.len() <= limit,
    ensures
        ({
            let all = s + xs;
            let kept = if all.len() > limit { limit as int } else { all.len() as int };
            push_all(s, xs, limit) == all.subrange(all.len() - kept, all.len() as int)
        }),
        s.len() + xs.len() > limit ==> push_all(s, xs, limit).len() == limit,
    decreases xs.len(),
{
    let all = s + xs;
    if xs.len() == 0 {
        assert(all =~= s);
        assert(all.subrange(0, all.len() as int) =~= s);
    } else {
        let xs0 = xs.drop_last();
        lemma_window_keeps_latest(s, xs0, limit);
        let all0 = s + xs0;
        assert(all0 =~= all.drop_last());
        let r0 = push_all(s, xs0, limit);
        if all0.len() >= limit {
            assert(r0.skip(1).push(xs.last()) =~= all.subrange(all.len() - limit, all.len() as int));
        } else {
            assert(r0.push(xs.last()) =~= all.subrange(0, all.len() as int));
        }
    }
}

/// A window whose prices are all equal reports the flat-market volatility.
pub proof fn lemma_flat_window_volatility(s: Seq<u64>)
    requires
        s.len() >= 2,
        forall|i: int| 0 <= i < s.len() ==> #[trigger] s[i] == s[0],
    ensures
        atrp_of(s) == Some(FLAT_ATRP as int),
{
    lemma_no_moves(s);
}

proof fn lemma_no_moves(s: Seq<u64>)
    requires
        forall|i: int| 0 <= i < s.len() ==> #[trigger] s[i] == s[0],
    ensures
        moving_steps(s) == 0,
    decreases s.len(),
{
    if s.len() >= 2 {
        let t = s.drop_last();
        assert forall|i: int| 0 <= i < t.len() implies #[trigger] t[i] == t[0] by {
            assert(t[i] == s[i]);
        }
        lemma_no_moves(t);
        assert(s[s.len() - 2] == s[0]);
    }
}

/// A window of fewer than two samples reports the default volatility.
pub proof fn lemma_short_window_volatility(s: Seq<u64>)
    requires
        s.len() < 2,
    ensures
        atrp_of(s) == Some(DEFAULT_ATRP as int),
{
}

/// A bounded window of price and volume samples, oldest first.
pub struct MarketBuffer {
    pub prices: Vec<u64>,
    pub highs: Vec<u64>,
    pub lows: Vec<u64>,
    pub volumes: Vec<u64>,
    pub limit: usize,
}

impl MarketBuffer {
    /// The four sequences run in parallel, never hold more than `limit` samples, and a
    /// sample's high and low are its price.
    pub open spec fn wf(&self) -> bool {
        &&& 1 <= self.limit <= MAX_LIMIT
        &&& self.prices.len() <= self.limit
        &&& self.volumes.len() == self.prices.len()
        &&& self.highs@ == self.prices@
        &&& self.lows@ == self.prices@
    }

    pub fn new(limit: usize) -> (r: Self)
        requires
            1 <= limit <= MAX_LIMIT,
        ensures
            r.wf(),
            r.limit == limit,
            r.prices@.len() == 0,
            r.volumes@.len() == 0,
    {
        MarketBuffer {
            prices: Vec::with_capacity(limit),
            highs: Vec::with_capacity(limit),
            lows: Vec::with_capacity(limit),
            volumes: Vec::with_capacity(limit),
            limit,
        }
    }

    /// Appends one sample, evicting the oldest one first when the window is full.
    pub fn add_candle(&mut self, price: u64, volume: u64)
        requires
            old(self).wf(),
        ensures
            final(self).wf(),
            final(self).limit == old(self).limit,
            final(self).prices@ == push_evict(old(self).prices@, price, old(self).limit as nat),
            final(self).volumes@ == push_evict(old(self).volumes@, volume, old(self).limit as nat),
    {
        if self.prices.len() >= self.limit {
            self.prices.remove(0);
            self.highs.remove(0);
            self.lows.remove(0);
            self.volumes.remove(0);
        }
        self.prices.push(price);
        self.highs.push(price);
        self.lows.push(price);
        self.volumes.push(volume);
        proof {
            assert(self.highs@ =~= self.prices@);
            assert(self.lows@ =~= self.prices@);
        }
    }

    /// Average absolute step between consecutive prices, as a percentage of the latest
    /// price, over the steps that moved (see `atrp_of`).
    pub fn get_atrp(&self) -> (r: Option<u128>)
        requires
            self.wf(),
        ensures
            r.is_some() == atrp_of(self.prices@).is_some(),
            r.is_some() ==> r.unwrap() as int == atrp_of(self.prices@).unwrap(),
    {
        let count = self.prices.len();
        if count < 2 {
            return Some(DEFAULT_ATRP);
        }
        let (total, movements) = step_totals(&self.prices);
        proof {
            lemma_bounds(self.prices@);
            let t = total as int;
            let n = self.prices@.len() as int;
            assert(t * 100 * 1_000_000 <= 4096 * 0xffff_ffff_ffff_ffffint * 100_000_000)
                by (nonlinear_arith)
                requires
                    0 <= t <= n * 0xffff_ffff_ffff_ffffint,
                    n <= 4096,
            ;
        }
        if movements == 0 {
            return Some(FLAT_ATRP);
        }
        let current_price = self.prices[count - 1];
        if current_price == 0 {
            return None;
        }
        proof {
            let m = movements as int;
            let c = current_price as int;
            assert(0 < m * c <= 4096 * 0xffff_ffff_ffff_ffffint) by (nonlinear_arith)
                requires
                    0 < m <= 4096,
                    0 < c <= 0xffff_ffff_ffff_ffffint,
            ;
        }
        let den: u128 = movements as u128 * current_price as u128;
        Some(total * 100 * (RATIO_SCALE as u128) / den)
    }

    /// The feature vector of a full window; `None` until the window holds `limit` samples.
    pub fn get_features(&self) -> (r: Option<FeatureVector>)
        requires
            self.wf(),
            self.limit >= 2,
        ensures
            r.is_some() == (self.prices@.len() == self.limit),
            r.is_some() ==> features_of(r.unwrap(), self.prices@, self.volumes@),
    {
        if self.prices.len() < self.limit {
            return None;
        }
        let ghost p = self.prices@;
        let ghost v = self.volumes@;
        let n = self.prices.len();
        let current_price = self.prices[n - 1];
        let prev_price = self.prices[n - 2];
        let sum = sum_samples(&self.prices);
        let (path, _moves) = step_totals(&self.prices);
        let current_vol = self.volumes[n - 1];
        let vsum = sum_samples(&self.volumes);
        let high = max_sample(&self.highs);
        let low = min_sample(&self.lows);
        proof {
            lemma_bounds(p);
            lemma_bounds(v);
            let nn = n as int;
            let c = current_price as int;
            let cv = current_vol as int;
            assert(c * nn <= 4096 * 0xffff_ffff_ffff_ffffint) by (nonlinear_arith)
                requires
                    0 <= c <= 0xffff_ffff_ffff_ffffint,
                    0 <= nn <= 4096,
            ;
            assert(cv * nn <= 4096 * 0xffff_ffff_ffff_ffffint) by (nonlinear_arith)
                requires
                    0 <= cv <= 0xffff_ffff_ffff_ffffint,
                    0 <= nn <= 4096,
            ;
            assert(sum <= 4096 * 0xffff_ffff_ffff_ffffint) by (nonlinear_arith)
                requires
                    sum <= nn * 0xffff_ffff_ffff_ffffint,
                    0 <= nn <= 4096,
            ;
            assert(vsum <= 4096 * 0xffff_ffff_ffff_ffffint) by (nonlinear_arith)
                requires
                    vsum <= nn * 0xffff_ffff_ffff_ffffint,
                    0 <= nn <= 4096,
            ;
            assert(path <= 4096 * 0xffff_ffff_ffff_ffffint) by (nonlinear_arith)
                requires
                    path <= nn * 0xffff_ffff_ffff_ffffint,
                    0 <= nn <= 4096,
            ;
            assert(p[nn - 1] == p.last());
        }
        let first_price = self.prices[0];
        let net: u64 = if current_price >= first_price {
            current_price - first_price
        } else {
            first_price - current_price
        };
        let efficiency_ratio = if path != 0 {
            Ratio { num: net as i128, den: path }
        } else {
            Ratio { num: 0, den: 1 }
        };
        let volume_momentum = if vsum != 0 {
            Ratio { num: current_vol as i128 * n as i128, den: vsum }
        } else {
            Ratio { num: 1, den: 1 }
        };
        Some(FeatureVector {
            pct_change: Ratio {
                num: current_price as i128 - prev_price as i128,
                den: prev_price as u128,
            },
            sma: Ratio { num: sum as i128, den: n as u128 },
            price_dev: Ratio {
                num: current_price as i128 * n as i128 - sum as i128,
                den: sum,
            },
            efficiency_ratio,
            volume_momentum,
            growth: Ratio { num: current_price as i128, den: prev_price as u128 },
            range: Ratio { num: high as i128 - low as i128, den: low as u128 },
            dist_high: Ratio { num: high as i128 - current_price as i128, den: high as u128 },
        })
    }
}

} // verus!
