use data_engine::candle_type::{
    classify, pattern_from_ohlc, CandlePattern, Thresholds, DEFAULT_BODY_WICK_RATIO_LONG,
    DEFAULT_BODY_WICK_RATIO_SHORT, DEFAULT_DOJI_BODY_RATIO, DEFAULT_EPS, DEFAULT_UPPER_VS_LOWER_RATIO,
};

fn px(units: i64, millionths: i64) -> i64 {
    units * 1_000_000 + millionths
}

#[test]
fn mild_bullish_with_default_thresholds() {
    let t = Thresholds::default();
    let p = classify(px(10, 0), px(12, 0), px(9, 500_000), px(11, 500_000), &t);
    assert_eq!(p, CandlePattern::MildBullish);
    let text = pattern_from_ohlc(
        px(10, 0),
        px(12, 0),
        px(9, 500_000),
        px(11, 500_000),
        DEFAULT_DOJI_BODY_RATIO,
        DEFAULT_BODY_WICK_RATIO_LONG,
        DEFAULT_BODY_WICK_RATIO_SHORT,
        DEFAULT_UPPER_VS_LOWER_RATIO,
        DEFAULT_EPS,
    );
    assert_eq!(text, "Mild Bullish");
}

#[test]
fn default_threshold_values() {
    let t = Thresholds::default();
    assert_eq!(t.doji_body_ratio, 100_000_000);
    assert_eq!(t.body_wick_ratio_long, 1_500_000_000);
    assert_eq!(t.body_wick_ratio_short, 500_000_000);
    assert_eq!(t.upper_vs_lower_ratio, 2_000_000_000);
    assert_eq!(t.epsilon, 1);
}

#[test]
fn zero_range_is_unknown() {
    let t = Thresholds::default();
    assert_eq!(classify(px(5, 0), px(5, 0), px(5, 0), px(5, 0), &t), CandlePattern::Unknown);
    assert_eq!(classify(px(1, 0), px(5, 0), px(5, 0), px(9, 0), &t), CandlePattern::Unknown);
}

#[test]
fn range_below_custom_epsilon_is_unknown() {
    let mut t = Thresholds::default();
    // epsilon 0.5 in billionths; range 0.4
    t.epsilon = 500_000_000;
    assert_eq!(classify(px(10, 0), px(10, 400_000), px(10, 0), px(10, 400_000), &t), CandlePattern::Unknown);
}

#[test]
fn high_below_low_is_unknown() {
    let t = Thresholds::default();
    assert_eq!(classify(px(10, 0), px(9, 0), px(11, 0), px(10, 0), &t), CandlePattern::Unknown);
}

#[test]
fn doji_takes_precedence() {
    let t = Thresholds::default();
    // body 0.1 over range 2: ratio 0.05, with a long lower wick that would be a hammer
    assert_eq!(classify(px(11, 900_000), px(12, 0), px(10, 0), px(12, 0), &t), CandlePattern::DojiSpinningTop);
    // exactly at the doji ratio: body 0.2 over range 2
    assert_eq!(classify(px(11, 0), px(12, 0), px(10, 0), px(11, 200_000), &t), CandlePattern::DojiSpinningTop);
    assert_eq!(classify(px(11, 0), px(12, 0), px(10, 0), px(11, 0), &t), CandlePattern::DojiSpinningTop);
}

#[test]
fn hammer_variants() {
    let t = Thresholds::default();
    // range 10, body 2 (ratio 0.2), upper wick 0, lower wick 8
    assert_eq!(classify(px(18, 0), px(20, 0), px(10, 0), px(20, 0), &t), CandlePattern::BullishHammer);
    assert_eq!(classify(px(20, 0), px(20, 0), px(10, 0), px(18, 0), &t), CandlePattern::BearishHammer);
}

#[test]
fn shooting_star_variants() {
    let t = Thresholds::default();
    // range 10, body 2, lower wick 0, upper wick 8
    assert_eq!(classify(px(10, 0), px(20, 0), px(10, 0), px(12, 0), &t), CandlePattern::BullishShootingStar);
    assert_eq!(classify(px(12, 0), px(20, 0), px(10, 0), px(10, 0), &t), CandlePattern::BearishShootingStar);
}

#[test]
fn balanced_wicks_fall_through_to_mild() {
    // range 10, body 3 (ratio 0.3), wicks 3.5 and 3.5
    let t = Thresholds::default();
    assert_eq!(classify(px(13, 500_000), px(20, 0), px(10, 0), px(16, 500_000), &t), CandlePattern::BullishHammer);
    let mut strict = Thresholds::default();
    strict.upper_vs_lower_ratio = 600_000_000;
    assert_eq!(classify(px(13, 500_000), px(20, 0), px(10, 0), px(16, 500_000), &strict), CandlePattern::MildBullish);
    assert_eq!(classify(px(16, 500_000), px(20, 0), px(10, 0), px(13, 500_000), &strict), CandlePattern::MildBearish);
}

#[test]
fn long_body_with_custom_threshold() {
    let mut t = Thresholds::default();
    t.body_wick_ratio_long = 500_000_000;
    assert_eq!(classify(px(10, 0), px(12, 0), px(9, 500_000), px(11, 500_000), &t), CandlePattern::BullishLongBody);
    assert_eq!(classify(px(11, 500_000), px(12, 0), px(9, 500_000), px(10, 0), &t), CandlePattern::BearishLongBody);
}

#[test]
fn pattern_labels() {
    assert_eq!(CandlePattern::BullishHammer.as_str(), "Bullish Hammer");
    assert_eq!(CandlePattern::BearishHammer.as_str(), "Bearish Hammer");
    assert_eq!(CandlePattern::BullishShootingStar.as_str(), "Bullish Shooting Star");
    assert_eq!(CandlePattern::BearishShootingStar.as_str(), "Bearish Shooting Star");
    assert_eq!(CandlePattern::BullishLongBody.as_str(), "Bullish Long Body");
    assert_eq!(CandlePattern::BearishLongBody.as_str(), "Bearish Long Body");
    assert_eq!(CandlePattern::MildBullish.as_str(), "Mild Bullish");
    assert_eq!(CandlePattern::MildBearish.as_str(), "Mild Bearish");
    assert_eq!(CandlePattern::DojiSpinningTop.as_str(), "Doji/SpinningTop");
    assert_eq!(CandlePattern::Unknown.as_str(), "Unknown");
    assert_eq!(CandlePattern::MildBearish.to_text(), "Mild Bearish");
}

#[test]
fn extreme_prices_do_not_overflow() {
    let t = Thresholds::default();
    let p = classify(0, i64::MAX, i64::MIN, 0, &t);
    assert_eq!(p, CandlePattern::DojiSpinningTop);
    let mut big = Thresholds::default();
    big.upper_vs_lower_ratio = u64::MAX;
    big.epsilon = u64::MAX / 2000;
    big.body_wick_ratio_short = u64::MAX;
    let q = classify(i64::MIN + 1, i64::MAX, i64::MIN, i64::MIN + 3_000_000_000_000_000_000, &big);
    assert_eq!(q, CandlePattern::BullishHammer);
}
