//! Intraday bar aggregation: candlestick classification, trading sessions,
//! calendar buckets (daily, ISO-week with month attribution, weekday,
//! monthly) and the two summary tables built on top of them.
//!
//! Prices and volumes are fixed-point integers in millionths of a unit;
//! classifier thresholds are dimensionless ratios in billionths.
pub mod candle_type;
pub mod session_type;
pub mod calendar;
pub mod text;
pub mod bucket;
pub mod data_engine;
pub mod week_day_data;
pub mod session_data_agg;
pub mod daily_session_aggregator;
pub mod weekly_table_aggregator;
pub mod laws;
