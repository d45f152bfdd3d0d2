//! Price bars and the row interface shared by every output table.
use vstd::prelude::*;
use vstd::string::StringExecFns;
use crate::calendar::{parse_ts_to_naive, timestamp_value};
use crate::text::{fixed6, fixed6_unsigned, fixed6_text};

verus! {

/// A table row: a fixed list of column names and the text of each column.
pub trait CsvRecord: Sized {
    fn headers() -> &'static [&'static str];

    fn record(&self) -> Vec<String>;
}

/// One price bar. Prices and volume are in millionths of a unit.
#[derive(Debug, Clone, PartialEq, Eq)]
pub struct MarketData {
    pub timestamp: String,
    pub open: i64,
    pub high: i64,
    pub low: i64,
    pub close: i64,
    pub volume: u64,
}

impl CsvRecord for MarketData {
    fn headers() -> (r: &'static [&'static str])
        ensures
            r@.len() == 6,
            r@[0]@ == "timestamp"@,
            r@[1]@ == "open"@,
            r@[2]@ == "high"@,
            r@[3]@ == "low"@,
            r@[4]@ == "close"@,
            r@[5]@ == "volume"@,
    {
        &["timestamp", "open", "high", "low", "close", "volume"]
    }

    fn record(&self) -> (r: Vec<String>)
        ensures
            r@.len() == 6,
            r@[0]@ == self.timestamp@,
            r@[1]@ == fixed6_text(self.open as int),
            r@[2]@ == fixed6_text(self.high as int),
            r@[3]@ == fixed6_text(self.low as int),
            r@[4]@ == fixed6_text(self.close as int),
            r@[5]@ == fixed6_text(self.volume as int),
    {
        let mut r: Vec<String> = Vec::new();
        r.push(self.timestamp.clone());
        r.push(fixed6(self.open));
        r.push(fixed6(self.high));
        r.push(fixed6(self.low));
        r.push(fixed6(self.close));
        r.push(fixed6_unsigned(self.volume as u128));
        r
    }
}

/// The tab character.
pub const TAB: u8 = 9;

/// The comma character.
pub const COMMA: u8 = 44;

/// Source of bars: the rules for reading a delimited file of bars. The
/// reading itself is left to the caller.
pub struct DataEngine;

impl DataEngine {
    pub fn new() -> (r: Self) {
        DataEngine
    }

    /// The field delimiter of a bar file, judged by how many comma-separated
    /// fields its first row has: a tab below eight, else a comma.
    pub fn delimiter_for(&self, comma_fields: usize) -> (r: u8)
        ensures
            r == (if comma_fields < 8 { TAB } else { COMMA }),
    {
        if comma_fields < 8 {
            TAB
        } else {
            COMMA
        }
    }

    /// A bar from the fields of one row: the timestamp joins the date and
    /// time fields with `T`.
    pub fn bar_from_fields(
        &self,
        date: &str,
        time: &str,
        open: i64,
        high: i64,
        low: i64,
        close: i64,
        volume: u64,
    ) -> (r: MarketData)
        ensures
            r.timestamp@ == date@ + seq!['T'] + time@,
            r.open == open,
            r.high == high,
            r.low == low,
            r.close == close,
            r.volume == volume,
    {
        let mut timestamp = String::from_str(date);
        proof {
            reveal_strlit("T");
        }
        timestamp.append("T");
        timestamp.append(time);
        MarketData { timestamp, open, high, low, close, volume }
    }
}

/// How many bars have a timestamp that cannot be read; those bars take part
/// in no date-keyed bucket.
pub open spec fn unreadable_count(data: Seq<MarketData>) -> nat
    decreases data.len(),
{
    if data.len() == 0 {
        0
    } else {
        unreadable_count(data.drop_last()) + if timestamp_value(data.last().timestamp@) is None {
            1nat
        } else {
            0nat
        }
    }
}

/// Counts the bars whose timestamp cannot be read.
pub fn count_unreadable(data: &Vec<MarketData>) -> (r: usize)
    ensures
        r == unreadable_count(data@),
{
    let mut c: usize = 0;
    let mut i: usize = 0;
    while i < data.len()
        invariant
            i <= data@.len(),
            c == unreadable_count(data@.take(i as int)),
            c <= i,
        decreases data@.len() - i,
    {
        proof {
            assert(data@.take(i + 1).drop_last() =~= data@.take(i as int));
            assert(data@.take(i + 1).last() == data@[i as int]);
        }
        if parse_ts_to_naive(data[i].timestamp.as_str()).is_none() {
            c = c + 1;
        }
        i = i + 1;
    }
    assert(data@.take(data@.len() as int) =~= data@);
    c
}

} // verus!
