//! Session buckets: bars grouped by calendar date and trading session.
use vstd::prelude::*;
use crate::bucket::{accumulate, buckets_of, lemma_summary_tags, strictly_sorted, summary_of, volume_total, Sample};
use crate::calendar::{day_number, instant, parse_ts_to_naive, timestamp_value};
use crate::candle_type::{classify, Thresholds};
use crate::data_engine::MarketData;
use crate::session_type::{session_name, session_of_timestamp, session_rank, Session};
use crate::daily_session_aggregator::{row_samples, row_samples_exec, RowKind};
use crate::week_day_data::{bar_sample, day_text, lemma_volume_push, pattern_text_of, push_day};
use crate::text::{fixed6, fixed6_text, fixed6_unsigned};
use vstd::string::StringExecFns;

verus! {

/// One (date, session) bucket. `high_ts` and `low_ts` are the timestamps of
/// the bars that gave the high and the low.
#[derive(Debug, Clone)]
pub struct SessionAgg {
    pub date: String,
    pub session: Session,
    pub open: i64,
    pub high: i64,
    pub low: i64,
    pub close: i64,
    pub volume: u128,
    pub high_ts: String,
    pub low_ts: String,
    pub pattern: String,
}

pub open spec fn session_of_rank(n: int) -> Session {
    if n == 0 {
        Session::AS
    } else if n == 1 {
        Session::LN
    } else if n == 2 {
        Session::NYAM
    } else if n == 3 {
        Session::NYL
    } else if n == 4 {
        Session::NYPM
    } else {
        Session::Unknown
    }
}

/// The sample of bar `idx`: keyed by its day and session, tagged with its
/// index; none where the timestamp cannot be read or the session is unknown.
pub open spec fn session_sample(bar: MarketData, idx: int) -> Option<Sample> {
    let sess = session_of_timestamp(bar.timestamp@);
    match timestamp_value(bar.timestamp@) {
        Some(dt) => if sess == Session::Unknown {
            None
        } else {
            Some(bar_sample(bar, (dt.day_number() * 8 + session_rank(sess)) as int, dt, idx))
        },
        None => None,
    }
}

pub open spec fn session_samples(data: Seq<MarketData>) -> Seq<Sample>
    decreases data.len(),
{
    if data.len() == 0 {
        Seq::empty()
    } else {
        let prev = session_samples(data.drop_last());
        match session_sample(data.last(), data.len() - 1) {
            Some(s) => prev.push(s),
            None => prev,
        }
    }
}

pub open spec fn session_row_matches(data: Seq<MarketData>, ks: Seq<u64>, i: int, r: SessionAgg) -> bool {
    let ss = session_samples(data);
    let a = summary_of(ss, ks[i])->0;
    &&& summary_of(ss, ks[i]) is Some
    &&& r.date@ == day_text(ks[i] / 8)
    &&& r.session == session_of_rank((ks[i] % 8) as int)
    &&& r.open == a.open
    &&& r.high == a.high
    &&& r.low == a.low
    &&& r.close == a.close
    &&& r.volume == a.volume
    &&& a.high_tag < data.len() && r.high_ts == data[a.high_tag as int].timestamp
    &&& a.low_tag < data.len() && r.low_ts == data[a.low_tag as int].timestamp
    &&& r.pattern@ == pattern_text_of(a)
}

pub open spec fn keyed_session_rows(data: Seq<MarketData>, ks: Seq<u64>, rows: Seq<SessionAgg>) -> bool {
    &&& ks.len() == rows.len()
    &&& strictly_sorted(ks)
    &&& forall|i: int| 0 <= i < ks.len() ==> session_row_matches(data, ks, i, #[trigger] rows[i])
    &&& forall|k: u64| #[trigger] summary_of(session_samples(data), k) is Some ==> ks.contains(k)
}

fn session_sample_exec(bar: &MarketData, idx: usize) -> (r: Option<Sample>)
    ensures
        r == session_sample(*bar, idx as int),
{
    let sess = Session::from_timestamp(bar.timestamp.as_str());
    let dt = match parse_ts_to_naive(bar.timestamp.as_str()) {
        Some(dt) => dt,
        None => {
            return None;
        },
    };
    if sess == Session::Unknown {
        return None;
    }
    let tag = idx as u64;
    Some(
        Sample {
            key: day_number(&dt) * 8 + sess.rank(),
            at: instant(&dt),
            open: bar.open,
            high: bar.high,
            low: bar.low,
            close: bar.close,
            volume: bar.volume as u128,
            member: day_number(&dt),
            high_tag: tag,
            low_tag: tag,
            close_tag: tag,
        },
    )
}

fn session_samples_exec(data: &Vec<MarketData>) -> (ss: Vec<Sample>)
    ensures
        ss@ == session_samples(data@),
        volume_total(ss@) <= u128::MAX,
        forall|j: int|
            0 <= j < ss@.len() ==> (#[trigger] ss@[j]).high_tag < data@.len() && ss@[j].low_tag < data@.len()
                && ss@[j].close_tag < data@.len(),
{
    let mut ss: Vec<Sample> = Vec::new();
    let n = data.len();
    let mut i: usize = 0;
    while i < n
        invariant
            n == data@.len(),
            i <= n,
            ss@ == session_samples(data@.take(i as int)),
            ss@.len() <= i,
            0 <= volume_total(ss@) <= ss@.len() * 0xffff_ffff_ffff_ffff,
            forall|j: int|
                0 <= j < ss@.len() ==> (#[trigger] ss@[j]).high_tag < i && ss@[j].low_tag < i
                    && ss@[j].close_tag < i,
        decreases n - i,
    {
        let r = session_sample_exec(&data[i], i);
        proof {
            assert(data@.take(i + 1).drop_last() =~= data@.take(i as int));
            assert(data@.take(i + 1).last() == data@[i as int]);
        }
        match r {
            Some(s) => {
                proof {
                    lemma_volume_push(ss@, s);
                }
                ss.push(s);
            },
            None => {},
        }
        i = i + 1;
    }
    assert(data@.take(n as int) =~= data@);
    assert(ss@.len() * 0xffff_ffff_ffff_ffff <= 0xffff_ffff_ffff_ffff * 0xffff_ffff_ffff_ffff)
        by (nonlinear_arith)
        requires
            ss@.len() <= 0xffff_ffff_ffff_ffff,
    ;
    ss
}

pub(crate) fn session_from_rank(n: u64) -> (r: Session)
    ensures
        r == session_of_rank(n as int),
{
    if n == 0 {
        Session::AS
    } else if n == 1 {
        Session::LN
    } else if n == 2 {
        Session::NYAM
    } else if n == 3 {
        Session::NYL
    } else if n == 4 {
        Session::NYPM
    } else {
        Session::Unknown
    }
}

/// Groups bars by (date, session), leaving out bars whose timestamp cannot be
/// read or whose session is unknown; rows come in (date, session) order.
pub fn aggregate_sessions(data: &Vec<MarketData>) -> (rows: Vec<SessionAgg>)
    ensures
        exists|ks: Seq<u64>| #[trigger] keyed_session_rows(data@, ks, rows@),
{
    let ss = session_samples_exec(data);
    let out = accumulate(&ss);
    let ghost ks = Seq::new(out@.len(), |j: int| out@[j].key);
    let mut rows: Vec<SessionAgg> = Vec::new();
    let t = Thresholds::default();
    let n = data.len();
    let mut i: usize = 0;
    while i < out.len()
        invariant
            n == data@.len(),
            i <= out@.len(),
            ss@ == session_samples(data@),
            forall|j: int|
                0 <= j < ss@.len() ==> (#[trigger] ss@[j]).high_tag < data@.len() && ss@[j].low_tag < data@.len()
                    && ss@[j].close_tag < data@.len(),
            buckets_of(ss@, out@),
            ks == Seq::new(out@.len(), |j: int| out@[j].key),
            rows@.len() == i,
            t == crate::candle_type::default_thresholds_spec(),
            forall|j: int| 0 <= j < i ==> session_row_matches(data@, ks, j, #[trigger] rows@[j]),
        decreases out@.len() - i,
    {
        let b = &out[i];
        proof {
            lemma_summary_tags(ss@, b.key, data@.len() as int);
            assert(summary_of(ss@, b.key) == Some(b@));
            assert(b.high_tag < data@.len() && b.low_tag < data@.len());
        }
        let mut date = String::new();
        push_day(&mut date, b.key / 8);
        let p = classify(b.open, b.high, b.low, b.close, &t);
        let hi: usize = b.high_tag as usize;
        let lo: usize = b.low_tag as usize;
        let high_ts = data[hi].timestamp.clone();
        let low_ts = data[lo].timestamp.clone();
        let r = SessionAgg {
            date,
            session: session_from_rank(b.key % 8),
            open: b.open,
            high: b.high,
            low: b.low,
            close: b.close,
            volume: b.volume,
            high_ts,
            low_ts,
            pattern: p.to_text(),
        };
        rows.push(r);
        proof {
            assert(ks[i as int] == b.key);
            assert(session_row_matches(data@, ks, i as int, rows@[i as int]));
        }
        i = i + 1;
    }
    proof {
        assert(keyed_session_rows(data@, ks, rows@)) by {
            assert forall|k: u64| #[trigger] summary_of(ss@, k) is Some implies ks.contains(k) by {
                let j = choose|j: int| 0 <= j < out@.len() && out@[j].key == k;
                assert(ks[j] == k);
            }
        }
    }
    rows
}

/// The combined New York extremes of one date.
#[derive(Debug, Clone)]
pub struct NyCombinedData {
    pub date: String,
    pub high: i64,
    pub high_session: String,
    pub low: i64,
    pub low_session: String,
}

pub open spec fn ny_row_matches(sessions: Seq<SessionAgg>, k: u64, r: NyCombinedData) -> bool {
    let ss = row_samples(sessions, RowKind::NySession);
    let a = summary_of(ss, k)->0;
    &&& summary_of(ss, k) is Some
    &&& r.date@ == day_text(k)
    &&& r.high == a.high
    &&& r.low == a.low
    &&& r.high_session@ == session_name(session_of_rank(a.high_tag as int))@
    &&& r.low_session@ == session_name(session_of_rank(a.low_tag as int))@
}

pub open spec fn keyed_ny_rows(sessions: Seq<SessionAgg>, ks: Seq<u64>, out: Seq<NyCombinedData>) -> bool {
    &&& ks.len() == out.len()
    &&& strictly_sorted(ks)
    &&& forall|i: int| 0 <= i < ks.len() ==> ny_row_matches(sessions, ks[i], #[trigger] out[i])
    &&& forall|k: u64| #[trigger] summary_of(row_samples(sessions, RowKind::NySession), k) is Some ==> ks.contains(k)
}

/// For each date with a New York session, the highest high and lowest low
/// across NY-AM, NY-Lunch and NY-PM and the session that made each (the
/// earlier session on a tie), in date order.
pub fn find_ny_high_low(sessions: &Vec<SessionAgg>) -> (out: Vec<NyCombinedData>)
    ensures
        exists|ks: Seq<u64>| #[trigger] keyed_ny_rows(sessions@, ks, out@),
{
    let ss = row_samples_exec(sessions, RowKind::NySession);
    let buckets = accumulate(&ss);
    let ghost ks = Seq::new(buckets@.len(), |j: int| buckets@[j].key);
    let mut out: Vec<NyCombinedData> = Vec::new();
    let mut i: usize = 0;
    while i < buckets.len()
        invariant
            i <= buckets@.len(),
            ss@ == row_samples(sessions@, RowKind::NySession),
            buckets_of(ss@, buckets@),
            ks == Seq::new(buckets@.len(), |j: int| buckets@[j].key),
            out@.len() == i,
            forall|j: int| 0 <= j < i ==> ny_row_matches(sessions@, ks[j], #[trigger] out@[j]),
        decreases buckets@.len() - i,
    {
        let b = &buckets[i];
        let mut date = String::new();
        push_day(&mut date, b.key);
        out.push(
            NyCombinedData {
                date,
                high: b.high,
                high_session: String::from_str(session_from_rank(b.high_tag).as_str()),
                low: b.low,
                low_session: String::from_str(session_from_rank(b.low_tag).as_str()),
            },
        );
        proof {
            assert(ks[i as int] == b.key);
            assert(ny_row_matches(sessions@, ks[i as int], out@[i as int]));
        }
        i = i + 1;
    }
    proof {
        assert(keyed_ny_rows(sessions@, ks, out@)) by {
            assert forall|k: u64| #[trigger] summary_of(ss@, k) is Some implies ks.contains(k) by {
                let j = choose|j: int| 0 <= j < buckets@.len() && buckets@[j].key == k;
                assert(ks[j] == k);
            }
        }
    }
    out
}

impl crate::data_engine::CsvRecord for SessionAgg {
    fn headers() -> (r: &'static [&'static str])
        ensures
            r@.len() == 8,
            r@[0]@ == "date"@,
            r@[1]@ == "session"@,
            r@[2]@ == "open"@,
            r@[3]@ == "high"@,
            r@[4]@ == "low"@,
            r@[5]@ == "close"@,
            r@[6]@ == "volume"@,
            r@[7]@ == "pattern"@,
    {
        &["date", "session", "open", "high", "low", "close", "volume", "pattern"]
    }

    fn record(&self) -> (r: Vec<String>)
        ensures
            r@.len() == 8,
            r@[0] == self.date,
            r@[1]@ == session_name(self.session)@,
            r@[2]@ == fixed6_text(self.open as int),
            r@[3]@ == fixed6_text(self.high as int),
            r@[4]@ == fixed6_text(self.low as int),
            r@[5]@ == fixed6_text(self.close as int),
            r@[6]@ == fixed6_text(self.volume as int),
            r@[7] == self.pattern,
    {
        let mut r: Vec<String> = Vec::new();
        r.push(self.date.clone());
        r.push(String::from_str(self.session.as_str()));
        r.push(fixed6(self.open));
        r.push(fixed6(self.high));
        r.push(fixed6(self.low));
        r.push(fixed6(self.close));
        r.push(fixed6_unsigned(self.volume));
        r.push(self.pattern.clone());
        r
    }
}

} // verus!
