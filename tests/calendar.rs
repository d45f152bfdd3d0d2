use data_engine::calendar::{parse_ts_to_naive, DateTime};
use data_engine::text::{fixed6, fixed6_unsigned, nat_string, parse_millionths};

fn dt(year: i32, month: u32, day: u32, hour: u32, minute: u32, second: u32, nanosecond: u32) -> DateTime {
    DateTime { year, month, day, hour, minute, second, nanosecond }
}

#[test]
fn accepted_timestamp_forms() {
    assert_eq!(parse_ts_to_naive("2023-03-27"), Some(dt(2023, 3, 27, 0, 0, 0, 0)));
    assert_eq!(parse_ts_to_naive("2023.03.27"), Some(dt(2023, 3, 27, 0, 0, 0, 0)));
    assert_eq!(parse_ts_to_naive("2023-03-27T09:30"), Some(dt(2023, 3, 27, 9, 30, 0, 0)));
    assert_eq!(parse_ts_to_naive("2023-03-27 09:30"), Some(dt(2023, 3, 27, 9, 30, 0, 0)));
    assert_eq!(parse_ts_to_naive("2023-03-27T09:30:15"), Some(dt(2023, 3, 27, 9, 30, 15, 0)));
    assert_eq!(parse_ts_to_naive("2023-03-27 09:30:15.250"), Some(dt(2023, 3, 27, 9, 30, 15, 250_000_000)));
    assert_eq!(parse_ts_to_naive("2023.03.27T19:15:00"), Some(dt(2023, 3, 27, 19, 15, 0, 0)));
    assert_eq!(parse_ts_to_naive("  2023-03-27T02:00:00  "), Some(dt(2023, 3, 27, 2, 0, 0, 0)));
}

#[test]
fn rejected_timestamps() {
    assert_eq!(parse_ts_to_naive(""), None);
    assert_eq!(parse_ts_to_naive("yesterday"), None);
    assert_eq!(parse_ts_to_naive("2023-02-30"), None);
    assert_eq!(parse_ts_to_naive("2023-03-27T25:00:00"), None);
}

#[test]
fn fixed_point_text() {
    assert_eq!(fixed6(12_500_000), "12.500000");
    assert_eq!(fixed6(-1), "-0.000001");
    assert_eq!(fixed6(0), "0.000000");
    assert_eq!(fixed6(i64::MIN), "-9223372036854.775808");
    assert_eq!(fixed6_unsigned(u128::MAX), "340282366920938463463374607431768.211455");
    assert_eq!(nat_string(1234), "1234");
}

#[test]
fn decimal_text_in_millionths() {
    assert_eq!(parse_millionths("12.5"), Some(12_500_000));
    assert_eq!(parse_millionths("2043.25"), Some(2_043_250_000));
    assert_eq!(parse_millionths("+3"), Some(3_000_000));
    assert_eq!(parse_millionths("1."), Some(1_000_000));
    assert_eq!(parse_millionths(".5"), Some(500_000));
    assert_eq!(parse_millionths("0.0000005"), Some(1));
    assert_eq!(parse_millionths("-0.0000005"), Some(-1));
    assert_eq!(parse_millionths("0.00000049"), Some(0));
    assert_eq!(parse_millionths("1.2345678"), Some(1_234_568));
    assert_eq!(parse_millionths("9223372036854.775807"), Some(i64::MAX));
    assert_eq!(parse_millionths("-9223372036854.775808"), Some(i64::MIN));
}

#[test]
fn rejected_decimal_text() {
    assert_eq!(parse_millionths(""), None);
    assert_eq!(parse_millionths("."), None);
    assert_eq!(parse_millionths("-"), None);
    assert_eq!(parse_millionths("1e5"), None);
    assert_eq!(parse_millionths("1.2.3"), None);
    assert_eq!(parse_millionths("9223372036854.775808"), None);
    assert_eq!(parse_millionths("99999999999999"), None);
    assert_eq!(parse_millionths("12,5"), None);
}
