use data_engine::daily_session_aggregator::aggregate_daily_session_table;
use data_engine::data_engine::{count_unreadable, CsvRecord, DataEngine, MarketData};
use data_engine::session_data_agg::{aggregate_sessions, find_ny_high_low};
use data_engine::session_type::Session;
use data_engine::week_day_data::{aggregate_periods, PeriodAgg};
use data_engine::weekly_table_aggregator::aggregate_weekly_table;

fn bar(ts: &str, open: f64, high: f64, low: f64, close: f64, volume: f64) -> MarketData {
    let m = |x: f64| (x * 1_000_000.0).round() as i64;
    MarketData {
        timestamp: ts.to_string(),
        open: m(open),
        high: m(high),
        low: m(low),
        close: m(close),
        volume: (volume * 1_000_000.0).round() as u64,
    }
}

fn day_bars() -> Vec<MarketData> {
    vec![
        bar("2023-03-27T02:00:00", 10.0, 12.0, 9.5, 11.5, 100.0),
        bar("2023-03-27T03:00:00", 11.5, 13.0, 11.0, 12.0, 50.0),
        bar("2023-03-27T09:30:00", 12.0, 12.5, 11.8, 12.2, 10.0),
        bar("2023-03-27T19:15:00", 12.2, 12.4, 11.9, 12.3, 5.0),
        bar("2023-03-27T16:00:00", 12.2, 12.6, 12.1, 12.25, 7.0),
        bar("not a time", 1.0, 100.0, 0.5, 2.0, 1.0),
    ]
}

/// Bars of ISO weeks 5 and 6 of 2023, out of order; week 5 starts on a
/// Tuesday in January and goes on into February, with a Saturday bar.
fn week_bars() -> Vec<MarketData> {
    vec![
        bar("2023-02-01T10:00:00", 10.0, 12.1, 9.5, 11.5, 2.0),
        bar("2023-02-06T10:00:00", 10.0, 12.4, 9.5, 11.5, 5.0),
        bar("2023-02-02T10:00:00", 10.0, 12.2, 9.4, 11.5, 3.0),
        bar("2023-01-31T10:00:00", 10.0, 12.0, 9.5, 11.5, 1.0),
        bar("2023-02-03T10:00:00", 10.0, 12.3, 9.5, 11.5, 4.0),
        bar("2023-02-04T10:00:00", 10.0, 12.5, 9.5, 11.5, 6.0),
    ]
}

#[test]
fn empty_input_gives_empty_tables() {
    let data: Vec<MarketData> = Vec::new();
    let (daily, weekly, weekday, monthly) = aggregate_periods(&data);
    assert!(daily.is_empty() && weekly.is_empty() && weekday.is_empty() && monthly.is_empty());
    let sessions = aggregate_sessions(&data);
    assert!(sessions.is_empty());
    assert!(aggregate_daily_session_table(&sessions).is_empty());
    assert!(find_ny_high_low(&sessions).is_empty());
    assert!(aggregate_weekly_table(&daily).is_empty());
}

#[test]
fn daily_bucket_merges_in_time_order() {
    let (daily, _, _, monthly) = aggregate_periods(&day_bars());
    assert_eq!(daily.len(), 1);
    let d = &daily[0];
    assert_eq!(d.date, "2023-03-27");
    assert_eq!(d.open, 10_000_000);
    assert_eq!(d.high, 13_000_000);
    assert_eq!(d.low, 9_500_000);
    assert_eq!(d.close, 12_300_000);
    assert_eq!(d.volume, 172_000_000);
    assert_eq!(d.members, "2023-03-27");
    assert_eq!(d.pattern, "Mild Bullish");
    assert_eq!(monthly.len(), 1);
    assert_eq!(monthly[0].date, "2023-03");
    let rec = d.record();
    assert_eq!(rec[1], "10.000000");
    assert_eq!(rec[5], "172.000000");
    assert_eq!(PeriodAgg::headers()[6], "members");
}

#[test]
fn week_is_attributed_to_month_of_first_bar() {
    let (daily, weekly, weekday, monthly) = aggregate_periods(&week_bars());
    assert_eq!(daily.len(), 6);
    assert_eq!(weekly.len(), 2);
    assert_eq!(weekly[0].date, "2023-01-W1");
    assert_eq!(weekly[0].members, "2023-01-31;2023-02-01;2023-02-02;2023-02-03");
    assert_eq!(weekly[0].high, 12_300_000);
    assert_eq!(weekly[0].low, 9_400_000);
    assert_eq!(weekly[0].volume, 10_000_000);
    assert_eq!(weekly[1].date, "2023-02-W1");
    assert_eq!(weekly[1].members, "2023-02-06");
    let labels: Vec<&str> = weekday.iter().map(|r| r.date.as_str()).collect();
    assert_eq!(labels, vec!["Mon", "Tue", "Wed", "Thu", "Fri"]);
    assert_eq!(weekday[0].members, "2023-02-06");
    assert_eq!(monthly.len(), 2);
    assert_eq!(monthly[0].date, "2023-01");
    assert_eq!(monthly[1].date, "2023-02");
    assert_eq!(monthly[1].members, "2023-02-01;2023-02-02;2023-02-03;2023-02-04;2023-02-06");
    assert_eq!(monthly[1].volume, 20_000_000);
}

#[test]
fn weeks_numbered_within_their_month() {
    let data = vec![
        bar("2023-03-06T10:00:00", 1.0, 2.0, 0.5, 1.5, 1.0),
        bar("2023-03-14T10:00:00", 1.0, 2.0, 0.5, 1.5, 1.0),
        bar("2023-03-01T10:00:00", 1.0, 2.0, 0.5, 1.5, 1.0),
        bar("2023-04-03T10:00:00", 1.0, 2.0, 0.5, 1.5, 1.0),
    ];
    let (_, weekly, _, _) = aggregate_periods(&data);
    let labels: Vec<&str> = weekly.iter().map(|r| r.date.as_str()).collect();
    assert_eq!(labels, vec!["2023-03-W1", "2023-03-W2", "2023-03-W3", "2023-04-W1"]);
}

#[test]
fn shuffled_input_gives_same_buckets() {
    let a = week_bars();
    let mut b = week_bars();
    b.reverse();
    b.swap(0, 3);
    let (da, wa, ka, ma) = aggregate_periods(&a);
    let (db, wb, kb, mb) = aggregate_periods(&b);
    for (x, y) in [(da, db), (wa, wb), (ka, kb), (ma, mb)] {
        assert_eq!(x.len(), y.len());
        for (p, q) in x.iter().zip(y.iter()) {
            assert_eq!(p.date, q.date);
            assert_eq!(p.high, q.high);
            assert_eq!(p.low, q.low);
            assert_eq!(p.volume, q.volume);
            assert_eq!(p.members, q.members);
            assert_eq!(p.open, q.open);
            assert_eq!(p.close, q.close);
        }
    }
}

#[test]
fn envelope_is_exact() {
    let data = week_bars();
    let (_, weekly, _, _) = aggregate_periods(&data);
    let w5: Vec<&MarketData> = data.iter().filter(|b| !b.timestamp.starts_with("2023-02-04") && b.timestamp < "2023-02-04".to_string()).collect();
    assert_eq!(weekly[0].high, w5.iter().map(|b| b.high).max().unwrap());
    assert_eq!(weekly[0].low, w5.iter().map(|b| b.low).min().unwrap());
}

#[test]
fn sessions_group_by_date_and_session() {
    let rows = aggregate_sessions(&day_bars());
    assert_eq!(rows.len(), 4);
    assert_eq!(rows[0].session, Session::AS);
    assert_eq!(rows[0].date, "2023-03-27");
    assert_eq!(rows[0].open, 10_000_000);
    assert_eq!(rows[0].high, 13_000_000);
    assert_eq!(rows[0].low, 9_500_000);
    assert_eq!(rows[0].close, 12_000_000);
    assert_eq!(rows[0].volume, 150_000_000);
    assert_eq!(rows[0].high_ts, "2023-03-27T03:00:00");
    assert_eq!(rows[0].low_ts, "2023-03-27T02:00:00");
    assert_eq!(rows[0].pattern, "Mild Bullish");
    assert_eq!(rows[1].session, Session::LN);
    assert_eq!(rows[2].session, Session::NYAM);
    assert_eq!(rows[3].session, Session::NYL);
    assert_eq!(rows[0].record()[1], "AS");
}

#[test]
fn daily_session_table_row() {
    let sessions = aggregate_sessions(&day_bars());
    let table = aggregate_daily_session_table(&sessions);
    assert_eq!(table.len(), 1);
    let r = &table[0];
    assert_eq!(r.date, "2023-03-27");
    assert_eq!(r.week, "Week 13");
    assert_eq!(r.day, "Mon");
    assert_eq!(r.day_high_session, "AS");
    assert_eq!(r.day_low_session, "AS");
    assert_eq!(r.as_candle_pattern, "Mild Bullish");
    assert_eq!(r.nypm_candle_pattern, "");
    assert_eq!(r.as_low_time, "2");
    assert_eq!(r.as_high_time, "3");
    assert_eq!(r.ln_low_time, "9");
    assert_eq!(r.ln_high_time, "9");
    assert_eq!(r.ny_high_time, "16");
    assert_eq!(r.ny_low_time, "19");
    assert_eq!(r.day_candle_pattern, "Mild Bullish");
    assert_eq!(r.record().len(), 17);
}

#[test]
fn ny_extremes_across_sessions() {
    let sessions = aggregate_sessions(&day_bars());
    let ny = find_ny_high_low(&sessions);
    assert_eq!(ny.len(), 1);
    assert_eq!(ny[0].date, "2023-03-27");
    assert_eq!(ny[0].high, 12_600_000);
    assert_eq!(ny[0].high_session, "NYAM");
    assert_eq!(ny[0].low, 11_900_000);
    assert_eq!(ny[0].low_session, "NYL");
}

#[test]
fn weekly_table_rows() {
    let (daily, _, _, _) = aggregate_periods(&week_bars());
    let table = aggregate_weekly_table(&daily);
    assert_eq!(table.len(), 2);
    let w = &table[0];
    assert_eq!(w.year, "2023");
    assert_eq!(w.month, "01");
    assert_eq!(w.week, "Week 5");
    assert_eq!(w.monday_pattern, "");
    assert_eq!(w.tuesday_pattern, "Mild Bullish");
    assert_eq!(w.friday_pattern, "Mild Bullish");
    assert_eq!(w.high, 12_500_000);
    assert_eq!(w.high_day, "Sat");
    assert_eq!(w.low, 9_400_000);
    assert_eq!(w.low_day, "Thu");
    assert_eq!(w.volume, 16_000_000);
    assert_eq!(w.open, 10_000_000);
    assert_eq!(w.close, 11_500_000);
    assert_eq!(table[1].week, "Week 6");
    assert_eq!(table[1].month, "02");
    assert_eq!(table[1].monday_pattern, "Mild Bullish");
    assert_eq!(w.record()[9], "12.500000");
}

#[test]
fn bar_file_rules() {
    let engine = DataEngine::new();
    assert_eq!(engine.delimiter_for(7), b'\t');
    assert_eq!(engine.delimiter_for(8), b',');
    assert_eq!(engine.delimiter_for(9), b',');
    let b = engine.bar_from_fields("2023.03.27", "02:00:00", 1, 2, 0, 1, 5);
    assert_eq!(b.timestamp, "2023.03.27T02:00:00");
    assert_eq!((b.open, b.high, b.low, b.close, b.volume), (1, 2, 0, 1, 5));
    assert_eq!(MarketData::headers(), vec!["timestamp", "open", "high", "low", "close", "volume"]);
    assert_eq!(b.record(), vec!["2023.03.27T02:00:00", "0.000001", "0.000002", "0.000000", "0.000001", "0.000005"]);
}

#[test]
fn unreadable_bars_are_counted() {
    assert_eq!(count_unreadable(&day_bars()), 1);
    assert_eq!(count_unreadable(&week_bars()), 0);
    assert_eq!(count_unreadable(&Vec::new()), 0);
}
