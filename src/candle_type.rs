//! The candlestick-shape classifier.
use vstd::prelude::*;
use vstd::string::StringExecFns;

verus! {

/// Fixed-point scale of prices and volumes: one unit is a millionth.
pub const PRICE_SCALE: u64 = 1_000_000;

/// Fixed-point scale of dimensionless ratios: one unit is a billionth.
pub const RATIO_SCALE: u64 = 1_000_000_000;

/// Default body/range ratio at or below which a bar is a doji (0.1).
pub const DEFAULT_DOJI_BODY_RATIO: u64 = 100_000_000;

/// Default body/range ratio at or above which a bar has a long body (1.5).
pub const DEFAULT_BODY_WICK_RATIO_LONG: u64 = 1_500_000_000;

/// Default body/range ratio below which hammers and shooting stars are considered (0.5).
pub const DEFAULT_BODY_WICK_RATIO_SHORT: u64 = 500_000_000;

/// Default bound on the ratio of one wick to the other (2.0).
pub const DEFAULT_UPPER_VS_LOWER_RATIO: u64 = 2_000_000_000;

/// Default epsilon (1e-9).
pub const DEFAULT_EPS: u64 = 1;

#[derive(Debug, Clone, Copy, PartialEq, Eq, Structural, Hash)]
pub enum CandlePattern {
    BullishHammer,
    BearishHammer,
    BullishShootingStar,
    BearishShootingStar,
    BullishLongBody,
    BearishLongBody,
    MildBullish,
    MildBearish,
    DojiSpinningTop,
    Unknown,
}

/// Classifier configuration. Every field is a real number written in
/// billionths (`RATIO_SCALE`): `epsilon` bounds the price range below which a
/// bar has no shape, and guards the wick-ratio divisions.
#[derive(Debug, Clone, Copy, PartialEq, Eq, Structural)]
pub struct Thresholds {
    pub doji_body_ratio: u64,
    pub body_wick_ratio_long: u64,
    pub body_wick_ratio_short: u64,
    pub upper_vs_lower_ratio: u64,
    pub epsilon: u64,
}

pub open spec fn default_thresholds_spec() -> Thresholds {
    Thresholds {
        doji_body_ratio: DEFAULT_DOJI_BODY_RATIO,
        body_wick_ratio_long: DEFAULT_BODY_WICK_RATIO_LONG,
        body_wick_ratio_short: DEFAULT_BODY_WICK_RATIO_SHORT,
        upper_vs_lower_ratio: DEFAULT_UPPER_VS_LOWER_RATIO,
        epsilon: DEFAULT_EPS,
    }
}

impl Default for Thresholds {
    fn default() -> (r: Thresholds)
        ensures
            r == default_thresholds_spec(),
    {
        Thresholds {
            doji_body_ratio: DEFAULT_DOJI_BODY_RATIO,
            body_wick_ratio_long: DEFAULT_BODY_WICK_RATIO_LONG,
            body_wick_ratio_short: DEFAULT_BODY_WICK_RATIO_SHORT,
            upper_vs_lower_ratio: DEFAULT_UPPER_VS_LOWER_RATIO,
            epsilon: DEFAULT_EPS,
        }
    }
}

pub open spec fn pattern_name(p: CandlePattern) -> &'static str {
    match p {
        CandlePattern::BullishHammer => "Bullish Hammer",
        CandlePattern::BearishHammer => "Bearish Hammer",
        CandlePattern::BullishShootingStar => "Bullish Shooting Star",
        CandlePattern::BearishShootingStar => "Bearish Shooting Star",
        CandlePattern::BullishLongBody => "Bullish Long Body",
        CandlePattern::BearishLongBody => "Bearish Long Body",
        CandlePattern::MildBullish => "Mild Bullish",
        CandlePattern::MildBearish => "Mild Bearish",
        CandlePattern::DojiSpinningTop => "Doji/SpinningTop",
        CandlePattern::Unknown => "Unknown",
    }
}

impl CandlePattern {
    pub fn as_str(&self) -> (r: &'static str)
        ensures
            r@ == pattern_name(*self)@,
    {
        match self {
            CandlePattern::BullishHammer => "Bullish Hammer",
            CandlePattern::BearishHammer => "Bearish Hammer",
            CandlePattern::BullishShootingStar => "Bullish Shooting Star",
            CandlePattern::BearishShootingStar => "Bearish Shooting Star",
            CandlePattern::BullishLongBody => "Bullish Long Body",
            CandlePattern::BearishLongBody => "Bearish Long Body",
            CandlePattern::MildBullish => "Mild Bullish",
            CandlePattern::MildBearish => "Mild Bearish",
            CandlePattern::DojiSpinningTop => "Doji/SpinningTop",
            CandlePattern::Unknown => "Unknown",
        }
    }

    /// The display text of the label, as an owned string.
    pub fn to_text(&self) -> (r: String)
        ensures
            r@ == pattern_name(*self)@,
    {
        String::from_str(self.as_str())
    }
}

pub open spec fn max_int(a: int, b: int) -> int {
    if a >= b { a } else { b }
}

pub open spec fn min_int(a: int, b: int) -> int {
    if a <= b { a } else { b }
}

pub open spec fn abs_int(a: int) -> int {
    if a >= 0 { a } else { -a }
}

/// `x` clamped below at zero.
pub open spec fn floor0(x: int) -> int {
    if x >= 0 { x } else { 0 }
}

/// The price range `high - low` is below epsilon: prices are in millionths,
/// epsilon in billionths.
pub open spec fn degenerate_range(high: int, low: int, t: Thresholds) -> bool {
    (high - low) * 1000 < t.epsilon
}

pub open spec fn body_of(open: int, close: int) -> int {
    abs_int(close - open)
}

pub open spec fn upper_wick_of(open: int, high: int, close: int) -> int {
    floor0(high - max_int(open, close))
}

pub open spec fn lower_wick_of(open: int, low: int, close: int) -> int {
    floor0(min_int(open, close) - low)
}

/// `body / range <= doji_body_ratio`, without division.
pub open spec fn is_doji(body: int, range: int, t: Thresholds) -> bool {
    body * RATIO_SCALE <= t.doji_body_ratio * range
}

/// `body / range < body_wick_ratio_short`.
pub open spec fn is_short_body(body: int, range: int, t: Thresholds) -> bool {
    body * RATIO_SCALE < t.body_wick_ratio_short * range
}

/// `body / range >= body_wick_ratio_long`.
pub open spec fn is_long_body(body: int, range: int, t: Thresholds) -> bool {
    body * RATIO_SCALE >= t.body_wick_ratio_long * range
}

/// `(a / range) / (b / range + epsilon) < upper_vs_lower_ratio`, multiplied out:
/// `a` is small relative to the guarded `b`.
pub open spec fn wick_dominated(a: int, b: int, range: int, t: Thresholds) -> bool {
    a * RATIO_SCALE * RATIO_SCALE < t.upper_vs_lower_ratio * (b * RATIO_SCALE + t.epsilon * range)
}

/// The label of a bar, given as exact rational comparisons.
pub open spec fn classify_spec(open: int, high: int, low: int, close: int, t: Thresholds) -> CandlePattern {
    let range = high - low;
    let body = body_of(open, close);
    let upper = upper_wick_of(open, high, close);
    let lower = lower_wick_of(open, low, close);
    let bullish = close > open;
    if degenerate_range(high, low, t) {
        CandlePattern::Unknown
    } else if is_doji(body, range, t) {
        CandlePattern::DojiSpinningTop
    } else if is_short_body(body, range, t) && wick_dominated(upper, lower, range, t) {
        if bullish { CandlePattern::BullishHammer } else { CandlePattern::BearishHammer }
    } else if is_short_body(body, range, t) && wick_dominated(lower, upper, range, t) {
        if bullish { CandlePattern::BullishShootingStar } else { CandlePattern::BearishShootingStar }
    } else if is_long_body(body, range, t) {
        if bullish { CandlePattern::BullishLongBody } else { CandlePattern::BearishLongBody }
    } else {
        if bullish { CandlePattern::MildBullish } else { CandlePattern::MildBearish }
    }
}

/// For `t > 0`: `y < t * x` exactly when `y / t < x`.
proof fn lemma_lt_mul_iff_div_lt(y: int, t: int, x: int)
    requires
        t > 0,
        y >= 0,
    ensures
        (y < t * x) == (y / t < x),
{
    let q = y / t;
    let r = y % t;
    vstd::arithmetic::div_mod::lemma_fundamental_div_mod(y, t);
    assert(y == t * q + r);
    assert(0 <= r < t);
    if q < x {
        assert(t * q + t <= t * x) by (nonlinear_arith)
            requires
                q < x,
                t > 0,
        ;
    } else {
        assert(t * q >= t * x) by (nonlinear_arith)
            requires
                q >= x,
                t > 0,
        ;
    }
}

/// Decides `wick_dominated(a, b, range, t)` in 128-bit arithmetic.
fn wick_dominated_exec(a: u128, b: u128, range: u128, t: &Thresholds) -> (r: bool)
    requires
        a < 0x1_0000_0000_0000_0000,
        b < 0x1_0000_0000_0000_0000,
        range < 0x1_0000_0000_0000_0000,
    ensures
        r == wick_dominated(a as int, b as int, range as int, *t),
{
    let s: u128 = RATIO_SCALE as u128;
    let uvl: u128 = t.upper_vs_lower_ratio as u128;
    let eps: u128 = t.epsilon as u128;
    if uvl == 0 {
        assert(uvl * ((b * s) + eps * range) == 0);
        return false;
    }
    assert(a * s * s < 0x1_0000_0000_0000_0000 * 0x4000_0000 * 0x4000_0000) by (nonlinear_arith)
        requires
            a < 0x1_0000_0000_0000_0000,
            s == 1_000_000_000,
    ;
    assert(eps * range <= 0xffff_ffff_ffff_ffff * 0xffff_ffff_ffff_ffff) by (nonlinear_arith)
        requires
            eps <= 0xffff_ffff_ffff_ffff,
            range < 0x1_0000_0000_0000_0000,
    ;
    let y: u128 = a * s * s;
    let q: u128 = y / uvl;
    let bs: u128 = b * s;
    let er: u128 = eps * range;
    proof {
        lemma_lt_mul_iff_div_lt(y as int, uvl as int, (bs + er) as int);
    }
    if q < bs {
        true
    } else {
        q - bs < er
    }
}

/// Classifies one bar. Prices are in millionths; `t` holds ratios in billionths.
pub fn classify(open: i64, high: i64, low: i64, close: i64, t: &Thresholds) -> (r: CandlePattern)
    ensures
        r == classify_spec(open as int, high as int, low as int, close as int, *t),
{
    let range_i: i128 = high as i128 - low as i128;
    if range_i * 1000 < t.epsilon as i128 {
        return CandlePattern::Unknown;
    }
    let range: u128 = range_i as u128;
    let body: u128 = if close >= open {
        (close as i128 - open as i128) as u128
    } else {
        (open as i128 - close as i128) as u128
    };
    let top: i64 = if open >= close { open } else { close };
    let bottom: i64 = if open <= close { open } else { close };
    let upper: u128 = if high >= top { (high as i128 - top as i128) as u128 } else { 0 };
    let lower: u128 = if bottom >= low { (bottom as i128 - low as i128) as u128 } else { 0 };
    let s: u128 = RATIO_SCALE as u128;
    let bullish = close > open;
    assert(body * s < 0x1_0000_0000_0000_0000 * 0x4000_0000) by (nonlinear_arith)
        requires
            body < 0x1_0000_0000_0000_0000,
            s == 1_000_000_000,
    ;
    assert(t.doji_body_ratio * range <= 0xffff_ffff_ffff_ffff * 0xffff_ffff_ffff_ffff) by (nonlinear_arith)
        requires
            t.doji_body_ratio <= 0xffff_ffff_ffff_ffff,
            range < 0x1_0000_0000_0000_0000,
    ;
    assert(t.body_wick_ratio_short * range <= 0xffff_ffff_ffff_ffff * 0xffff_ffff_ffff_ffff) by (nonlinear_arith)
        requires
            t.body_wick_ratio_short <= 0xffff_ffff_ffff_ffff,
            range < 0x1_0000_0000_0000_0000,
    ;
    assert(t.body_wick_ratio_long * range <= 0xffff_ffff_ffff_ffff * 0xffff_ffff_ffff_ffff) by (nonlinear_arith)
        requires
            t.body_wick_ratio_long <= 0xffff_ffff_ffff_ffff,
            range < 0x1_0000_0000_0000_0000,
    ;
    if body * s <= t.doji_body_ratio as u128 * range {
        return CandlePattern::DojiSpinningTop;
    }
    if body * s < t.body_wick_ratio_short as u128 * range {
        if wick_dominated_exec(upper, lower, range, t) {
            return if bullish { CandlePattern::BullishHammer } else { CandlePattern::BearishHammer };
        } else if wick_dominated_exec(lower, upper, range, t) {
            return if bullish {
                CandlePattern::BullishShootingStar
            } else {
                CandlePattern::BearishShootingStar
            };
        }
    }
    if body * s >= t.body_wick_ratio_long as u128 * range {
        if bullish { CandlePattern::BullishLongBody } else { CandlePattern::BearishLongBody }
    } else {
        if bullish { CandlePattern::MildBullish } else { CandlePattern::MildBearish }
    }
}

/// The label of a bar as text, with every threshold given explicitly.
pub fn pattern_from_ohlc(
    open: i64,
    high: i64,
    low: i64,
    close: i64,
    doji_body_ratio: u64,
    body_wick_ratio_long: u64,
    body_wick_ratio_short: u64,
    upper_vs_lower_ratio: u64,
    eps: u64,
) -> (r: String)
    ensures
        r@ == pattern_name(
            classify_spec(
                open as int,
                high as int,
                low as int,
                close as int,
                Thresholds {
                    doji_body_ratio,
                    body_wick_ratio_long,
                    body_wick_ratio_short,
                    upper_vs_lower_ratio,
                    epsilon: eps,
                },
            ),
        )@,
{
    let t = Thresholds {
        doji_body_ratio,
        body_wick_ratio_long,
        body_wick_ratio_short,
        upper_vs_lower_ratio,
        epsilon: eps,
    };
    classify(open, high, low, close, &t).to_text()
}

} // verus!
