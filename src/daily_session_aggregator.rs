//! The daily-session table: one row per date, built from session buckets.
use vstd::prelude::*;
use crate::bucket::{
    accumulate, lemma_summary_has_sample, buckets_of, lemma_summary_close_tag, lookup, strictly_sorted, summary_of, volume_total,
    Bucket, Sample,
};
use crate::calendar::{
    day_day, day_month, day_number, day_year, iso_week, iso_week_of, parse_ts_to_naive, timestamp_value,
    valid_date, weekday, weekday_of, MAX_YEAR, MIN_YEAR, YEAR_OFFSET,
};
use crate::candle_type::{classify, classify_spec, default_thresholds_spec, pattern_name, Thresholds};
use crate::session_data_agg::{session_of_rank, SessionAgg};
use crate::session_type::{session_name, session_rank, Session};
use crate::text::{nat_text, push_nat, push_str};
use crate::week_day_data::{day_text, lemma_volume_push, pattern_text_of, push_day, weekday_name};
use vstd::string::StringExecFns;

verus! {

#[derive(Debug, Clone)]
pub struct DailySessionTableAgg {
    pub date: String,
    pub week: String,
    pub day: String,
    pub day_candle_pattern: String,
    pub as_candle_pattern: String,
    pub ln_candle_pattern: String,
    pub nyam_candle_pattern: String,
    pub nyl_candle_pattern: String,
    pub nypm_candle_pattern: String,
    pub day_high_session: String,
    pub day_low_session: String,
    pub as_low_time: String,
    pub as_high_time: String,
    pub ln_low_time: String,
    pub ln_high_time: String,
    /// Hour of the low across the three New York sessions.
    pub ny_low_time: String,
    /// Hour of the high across the three New York sessions.
    pub ny_high_time: String,
}

/// How a session row becomes a sample.
#[derive(Debug, Clone, Copy, PartialEq, Eq, Structural)]
pub enum RowKind {
    /// Keyed by date; extremes tagged with the session.
    Day,
    /// Keyed by (date, session).
    Slot,
    /// New York rows only, keyed by date; extremes tagged with the session.
    NySession,
    /// New York rows only, keyed by date; extremes tagged with the hour of
    /// the bar that made them, plus one (zero where it cannot be read).
    NyHour,
}

pub open spec fn is_ny(s: Session) -> bool {
    s == Session::NYAM || s == Session::NYL || s == Session::NYPM
}

pub open spec fn hour_tag(ts: Seq<char>) -> int {
    match timestamp_value(ts) {
        Some(dt) => dt.hour + 1,
        None => 0,
    }
}

/// The sample of row `idx`. Sessions order the rows of a day; the close tag
/// is the row's index. Volumes play no part in these tables.
pub open spec fn row_sample(r: SessionAgg, idx: int, kind: RowKind) -> Option<Sample> {
    match timestamp_value(r.date@) {
        None => None,
        Some(dt) => {
            let day = dt.day_number() as int;
            let rank = session_rank(r.session) as int;
            let key = if kind == RowKind::Slot { day * 8 + rank } else { day };
            let high_tag = if kind == RowKind::NyHour { hour_tag(r.high_ts@) } else { rank };
            let low_tag = if kind == RowKind::NyHour { hour_tag(r.low_ts@) } else { rank };
            if (kind == RowKind::NySession || kind == RowKind::NyHour) && !is_ny(r.session) {
                None
            } else {
                Some(
                    Sample {
                        key: key as u64,
                        at: rank as u128,
                        open: r.open,
                        high: r.high,
                        low: r.low,
                        close: r.close,
                        volume: 0,
                        member: day as u64,
                        high_tag: high_tag as u64,
                        low_tag: low_tag as u64,
                        close_tag: idx as u64,
                    },
                )
            }
        },
    }
}

pub open spec fn row_samples(rows: Seq<SessionAgg>, kind: RowKind) -> Seq<Sample>
    decreases rows.len(),
{
    if rows.len() == 0 {
        Seq::empty()
    } else {
        let prev = row_samples(rows.drop_last(), kind);
        match row_sample(rows.last(), rows.len() - 1, kind) {
            Some(s) => prev.push(s),
            None => prev,
        }
    }
}

pub open spec fn hour_text(ts: Seq<char>) -> Seq<char> {
    match timestamp_value(ts) {
        Some(dt) => nat_text(dt.hour as nat),
        None => Seq::empty(),
    }
}

pub open spec fn tag_text(t: u64) -> Seq<char> {
    if t == 0 { Seq::empty() } else { nat_text((t - 1) as nat) }
}

/// The last row (in input order) of a session on a day.
pub open spec fn slot_row(rows: Seq<SessionAgg>, day: u64, rank: int) -> Option<SessionAgg> {
    match summary_of(row_samples(rows, RowKind::Slot), (day * 8 + rank) as u64) {
        Some(b) => Some(rows[b.close_tag as int]),
        None => None,
    }
}

pub open spec fn slot_pattern(rows: Seq<SessionAgg>, day: u64, rank: int) -> Seq<char> {
    match slot_row(rows, day, rank) {
        Some(r) => pattern_name(
            classify_spec(r.open as int, r.high as int, r.low as int, r.close as int, default_thresholds_spec()),
        )@,
        None => Seq::empty(),
    }
}

pub open spec fn slot_hour(rows: Seq<SessionAgg>, day: u64, rank: int, high: bool) -> Seq<char> {
    match slot_row(rows, day, rank) {
        Some(r) => hour_text(if high { r.high_ts@ } else { r.low_ts@ }),
        None => Seq::empty(),
    }
}

pub open spec fn ny_time(rows: Seq<SessionAgg>, day: u64, high: bool) -> Seq<char> {
    match summary_of(row_samples(rows, RowKind::NyHour), day) {
        Some(c) => tag_text(if high { c.high_tag } else { c.low_tag }),
        None => Seq::empty(),
    }
}

pub open spec fn day_is_valid(day: u64) -> bool {
    valid_date(day_year(day), day_month(day) as int, day_day(day) as int)
}

pub open spec fn week_text(day: u64) -> Seq<char> {
    if day_is_valid(day) {
        "Week "@ + nat_text(
            iso_week_of(day_year(day) as i32, day_month(day) as u32, day_day(day) as u32).1 as nat,
        )
    } else {
        Seq::empty()
    }
}

pub open spec fn day_name_text(day: u64) -> Seq<char> {
    if day_is_valid(day) {
        weekday_name(weekday_of(day_year(day) as i32, day_month(day) as u32, day_day(day) as u32) as int)
    } else {
        Seq::empty()
    }
}

pub open spec fn day_row_matches(rows: Seq<SessionAgg>, k: u64, r: DailySessionTableAgg) -> bool {
    let a = summary_of(row_samples(rows, RowKind::Day), k)->0;
    &&& summary_of(row_samples(rows, RowKind::Day), k) is Some
    &&& r.date@ == day_text(k)
    &&& r.week@ == week_text(k)
    &&& r.day@ == day_name_text(k)
    &&& r.day_candle_pattern@ == pattern_text_of(a)
    &&& r.day_high_session@ == session_name(session_of_rank(a.high_tag as int))@
    &&& r.day_low_session@ == session_name(session_of_rank(a.low_tag as int))@
    &&& r.as_candle_pattern@ == slot_pattern(rows, k, 0)
    &&& r.ln_candle_pattern@ == slot_pattern(rows, k, 1)
    &&& r.nyam_candle_pattern@ == slot_pattern(rows, k, 2)
    &&& r.nyl_candle_pattern@ == slot_pattern(rows, k, 3)
    &&& r.nypm_candle_pattern@ == slot_pattern(rows, k, 4)
    &&& r.as_low_time@ == slot_hour(rows, k, 0, false)
    &&& r.as_high_time@ == slot_hour(rows, k, 0, true)
    &&& r.ln_low_time@ == slot_hour(rows, k, 1, false)
    &&& r.ln_high_time@ == slot_hour(rows, k, 1, true)
    &&& r.ny_low_time@ == ny_time(rows, k, false)
    &&& r.ny_high_time@ == ny_time(rows, k, true)
}

pub open spec fn keyed_day_rows(rows: Seq<SessionAgg>, ks: Seq<u64>, out: Seq<DailySessionTableAgg>) -> bool {
    &&& ks.len() == out.len()
    &&& strictly_sorted(ks)
    &&& forall|i: int| 0 <= i < ks.len() ==> day_row_matches(rows, ks[i], #[trigger] out[i])
    &&& forall|k: u64| #[trigger] summary_of(row_samples(rows, RowKind::Day), k) is Some ==> ks.contains(k)
}

fn hour_tag_exec(ts: &String) -> (r: u64)
    ensures
        r == hour_tag(ts@),
{
    match parse_ts_to_naive(ts.as_str()) {
        Some(dt) => dt.hour as u64 + 1,
        None => 0,
    }
}

fn row_sample_exec(r: &SessionAgg, idx: usize, kind: RowKind) -> (s: Option<Sample>)
    ensures
        s == row_sample(*r, idx as int, kind),
        s matches Some(x) ==> x.key < 0x1000_0000_0000_0000,
{
    let dt = match parse_ts_to_naive(r.date.as_str()) {
        Some(dt) => dt,
        None => {
            return None;
        },
    };
    let ny = r.session == Session::NYAM || r.session == Session::NYL || r.session == Session::NYPM;
    if (kind == RowKind::NySession || kind == RowKind::NyHour) && !ny {
        return None;
    }
    let day = day_number(&dt);
    let rank = r.session.rank();
    let key = if kind == RowKind::Slot { day * 8 + rank } else { day };
    let high_tag = if kind == RowKind::NyHour { hour_tag_exec(&r.high_ts) } else { rank };
    let low_tag = if kind == RowKind::NyHour { hour_tag_exec(&r.low_ts) } else { rank };
    Some(
        Sample {
            key,
            at: rank as u128,
            open: r.open,
            high: r.high,
            low: r.low,
            close: r.close,
            volume: 0,
            member: day,
            high_tag,
            low_tag,
            close_tag: idx as u64,
        },
    )
}

pub(crate) fn row_samples_exec(rows: &Vec<SessionAgg>, kind: RowKind) -> (ss: Vec<Sample>)
    ensures
        ss@ == row_samples(rows@, kind),
        volume_total(ss@) == 0,
        forall|j: int| 0 <= j < ss@.len() ==> (#[trigger] ss@[j]).close_tag < rows@.len(),
        forall|j: int| 0 <= j < ss@.len() ==> (#[trigger] ss@[j]).key < 0x1000_0000_0000_0000,
{
    let mut ss: Vec<Sample> = Vec::new();
    let n = rows.len();
    let mut i: usize = 0;
    while i < n
        invariant
            n == rows@.len(),
            i <= n,
            ss@ == row_samples(rows@.take(i as int), kind),
            volume_total(ss@) == 0,
            forall|j: int| 0 <= j < ss@.len() ==> (#[trigger] ss@[j]).close_tag < i,
            forall|j: int| 0 <= j < ss@.len() ==> (#[trigger] ss@[j]).key < 0x1000_0000_0000_0000,
        decreases n - i,
    {
        let r = row_sample_exec(&rows[i], i, kind);
        proof {
            assert(rows@.take(i + 1).drop_last() =~= rows@.take(i as int));
            assert(rows@.take(i + 1).last() == rows@[i as int]);
        }
        match r {
            Some(s) => {
                proof {
                    lemma_volume_push(ss@, s);
                }
                ss.push(s);
            },
            None => {},
        }
        i = i + 1;
    }
    assert(rows@.take(n as int) =~= rows@);
    ss
}

fn hour_string(ts: &String) -> (r: String)
    ensures
        r@ == hour_text(ts@),
{
    let mut out = String::new();
    match parse_ts_to_naive(ts.as_str()) {
        Some(dt) => {
            push_nat(&mut out, dt.hour as u128);
            assert(out@ =~= nat_text(dt.hour as nat));
        },
        None => {},
    }
    out
}

fn tag_string(t: u64) -> (r: String)
    ensures
        r@ == tag_text(t),
{
    let mut out = String::new();
    if t > 0 {
        push_nat(&mut out, (t - 1) as u128);
        assert(out@ =~= nat_text((t - 1) as nat));
    }
    out
}

/// Pattern and hour cells of one session on one day.
fn slot_cells(rows: &Vec<SessionAgg>, slots: &Vec<Bucket>, day: u64, rank: u64, ss: Ghost<Seq<Sample>>) -> (r: (String, String, String))
    requires
        day < 0x1000_0000_0000_0000,
        rank < 8,
        ss@ == row_samples(rows@, RowKind::Slot),
        buckets_of(ss@, slots@),
        forall|j: int| 0 <= j < ss@.len() ==> (#[trigger] ss@[j]).close_tag < rows@.len(),
    ensures
        r.0@ == slot_pattern(rows@, day, rank as int),
        r.1@ == slot_hour(rows@, day, rank as int, false),
        r.2@ == slot_hour(rows@, day, rank as int, true),
{
    let n = rows.len();
    let k = day * 8 + rank;
    match lookup(slots, k) {
        Some(i) => {
            proof {
                lemma_summary_close_tag(ss@, k, rows@.len() as int);
            }
            let row = &rows[slots[i].close_tag as usize];
            let t = Thresholds::default();
            (
                classify(row.open, row.high, row.low, row.close, &t).to_text(),
                hour_string(&row.low_ts),
                hour_string(&row.high_ts),
            )
        },
        None => {
            proof {
                if summary_of(ss@, k) is Some {
                    let j = choose|j: int| 0 <= j < slots@.len() && slots@[j].key == k;
                }
            }
            (String::new(), String::new(), String::new())
        },
    }
}

fn ny_cells(ny: &Vec<Bucket>, day: u64, ss: Ghost<Seq<Sample>>) -> (r: (String, String))
    requires
        buckets_of(ss@, ny@),
    ensures
        r.0@ == (match summary_of(ss@, day) {
            Some(c) => tag_text(c.low_tag),
            None => Seq::empty(),
        }),
        r.1@ == (match summary_of(ss@, day) {
            Some(c) => tag_text(c.high_tag),
            None => Seq::empty(),
        }),
{
    match lookup(ny, day) {
        Some(i) => (tag_string(ny[i].low_tag), tag_string(ny[i].high_tag)),
        None => {
            proof {
                if summary_of(ss@, day) is Some {
                    let j = choose|j: int| 0 <= j < ny@.len() && ny@[j].key == day;
                }
            }
            (String::new(), String::new())
        },
    }
}

fn week_string(day: u64) -> (r: String)
    ensures
        r@ == week_text(day),
{
    let y: i64 = (day / 512) as i64 - YEAR_OFFSET as i64;
    let m: u64 = (day / 32) % 16;
    let d: u64 = day % 32;
    let mut out = String::new();
    if y < MIN_YEAR as i64 || y > MAX_YEAR as i64 {
        return out;
    }
    match iso_week(y as i32, m as u32, d as u32) {
        Some(w) => {
            proof { reveal_strlit("Week "); }
            push_str(&mut out, "Week ");
            push_nat(&mut out, w.1 as u128);
        },
        None => {},
    }
    out
}

fn day_name_string(day: u64) -> (r: String)
    ensures
        r@ == day_name_text(day),
{
    let y: i64 = (day / 512) as i64 - YEAR_OFFSET as i64;
    let m: u64 = (day / 32) % 16;
    let d: u64 = day % 32;
    if y < MIN_YEAR as i64 || y > MAX_YEAR as i64 {
        return String::new();
    }
    match weekday(y as i32, m as u32, d as u32) {
        Some(w) => crate::week_day_data::weekday_label(w as u64),
        None => String::new(),
    }
}

fn session_text(rank: u64) -> (r: String)
    ensures
        r@ == session_name(session_of_rank(rank as int))@,
{
    String::from_str(crate::session_data_agg::session_from_rank(rank).as_str())
}

/// One row per date of the session buckets, in date order; rows whose date
/// cannot be read are left out.
pub fn aggregate_daily_session_table(session_aggs: &Vec<SessionAgg>) -> (out: Vec<DailySessionTableAgg>)
    ensures
        exists|ks: Seq<u64>| #[trigger] keyed_day_rows(session_aggs@, ks, out@),
{
    let day_ss = row_samples_exec(session_aggs, RowKind::Day);
    let slot_ss = row_samples_exec(session_aggs, RowKind::Slot);
    let ny_ss = row_samples_exec(session_aggs, RowKind::NyHour);
    let days = accumulate(&day_ss);
    let slots = accumulate(&slot_ss);
    let ny = accumulate(&ny_ss);
    let ghost ks = Seq::new(days@.len(), |j: int| days@[j].key);
    let t = Thresholds::default();
    let mut out: Vec<DailySessionTableAgg> = Vec::new();
    let mut i: usize = 0;
    while i < days.len()
        invariant
            i <= days@.len(),
            day_ss@ == row_samples(session_aggs@, RowKind::Day),
            slot_ss@ == row_samples(session_aggs@, RowKind::Slot),
            ny_ss@ == row_samples(session_aggs@, RowKind::NyHour),
            forall|j: int| 0 <= j < slot_ss@.len() ==> (#[trigger] slot_ss@[j]).close_tag < session_aggs@.len(),
            forall|j: int| 0 <= j < day_ss@.len() ==> (#[trigger] day_ss@[j]).key < 0x1000_0000_0000_0000,
            buckets_of(day_ss@, days@),
            buckets_of(slot_ss@, slots@),
            buckets_of(ny_ss@, ny@),
            ks == Seq::new(days@.len(), |j: int| days@[j].key),
            out@.len() == i,
            t == default_thresholds_spec(),
            forall|j: int| 0 <= j < i ==> day_row_matches(session_aggs@, ks[j], #[trigger] out@[j]),
        decreases days@.len() - i,
    {
        let b = &days[i];
        proof {
            lemma_summary_has_sample(day_ss@, b.key);
            let j = choose|j: int| 0 <= j < day_ss@.len() && (#[trigger] day_ss@[j]).key == b.key;
        }
        let mut date = String::new();
        push_day(&mut date, b.key);
        let as_cells = slot_cells(session_aggs, &slots, b.key, 0, Ghost(slot_ss@));
        let ln_cells = slot_cells(session_aggs, &slots, b.key, 1, Ghost(slot_ss@));
        let nyam_cells = slot_cells(session_aggs, &slots, b.key, 2, Ghost(slot_ss@));
        let nyl_cells = slot_cells(session_aggs, &slots, b.key, 3, Ghost(slot_ss@));
        let nypm_cells = slot_cells(session_aggs, &slots, b.key, 4, Ghost(slot_ss@));
        let ny_times = ny_cells(&ny, b.key, Ghost(ny_ss@));
        let row = DailySessionTableAgg {
            date,
            week: week_string(b.key),
            day: day_name_string(b.key),
            day_candle_pattern: classify(b.open, b.high, b.low, b.close, &t).to_text(),
            as_candle_pattern: as_cells.0,
            ln_candle_pattern: ln_cells.0,
            nyam_candle_pattern: nyam_cells.0,
            nyl_candle_pattern: nyl_cells.0,
            nypm_candle_pattern: nypm_cells.0,
            day_high_session: session_text(b.high_tag),
            day_low_session: session_text(b.low_tag),
            as_low_time: as_cells.1,
            as_high_time: as_cells.2,
            ln_low_time: ln_cells.1,
            ln_high_time: ln_cells.2,
            ny_low_time: ny_times.0,
            ny_high_time: ny_times.1,
        };
        out.push(row);
        proof {
            assert(ks[i as int] == b.key);
            assert(day_row_matches(session_aggs@, ks[i as int], out@[i as int]));
        }
        i = i + 1;
    }
    proof {
        assert(keyed_day_rows(session_aggs@, ks, out@)) by {
            assert forall|k: u64| #[trigger] summary_of(day_ss@, k) is Some implies ks.contains(k) by {
                let j = choose|j: int| 0 <= j < days@.len() && days@[j].key == k;
                assert(ks[j] == k);
            }
        }
    }
    out
}

impl crate::data_engine::CsvRecord for DailySessionTableAgg {
    fn headers() -> (r: &'static [&'static str])
        ensures
            r@.len() == 17,
            r@[0]@ == "Date"@,
            r@[1]@ == "Week"@,
            r@[2]@ == "Day"@,
            r@[3]@ == "DayCandlePattern"@,
            r@[4]@ == "AS_CandlePattern"@,
            r@[5]@ == "LN_CandlePattern"@,
            r@[6]@ == "NYAM_CandlePattern"@,
            r@[7]@ == "NYL_CandlePattern"@,
            r@[8]@ == "NYPM_CandlePattern"@,
            r@[9]@ == "DayHighSession"@,
            r@[10]@ == "DayLowSession"@,
            r@[11]@ == "AS_LowTime"@,
            r@[12]@ == "AS_HighTime"@,
            r@[13]@ == "LN_LowTime"@,
            r@[14]@ == "LN_HighTime"@,
            r@[15]@ == "NY_LowTime"@,
            r@[16]@ == "NY_HighTime"@,
    {
        &[
            "Date",
            "Week",
            "Day",
            "DayCandlePattern",
            "AS_CandlePattern",
            "LN_CandlePattern",
            "NYAM_CandlePattern",
            "NYL_CandlePattern",
            "NYPM_CandlePattern",
            "DayHighSession",
            "DayLowSession",
            "AS_LowTime",
            "AS_HighTime",
            "LN_LowTime",
            "LN_HighTime",
            "NY_LowTime",
            "NY_HighTime",
        ]
    }

    fn record(&self) -> (r: Vec<String>)
        ensures
            r@ == seq![
                self.date,
                self.week,
                self.day,
                self.day_candle_pattern,
                self.as_candle_pattern,
                self.ln_candle_pattern,
                self.nyam_candle_pattern,
                self.nyl_candle_pattern,
                self.nypm_candle_pattern,
                self.day_high_session,
                self.day_low_session,
                self.as_low_time,
                self.as_high_time,
                self.ln_low_time,
                self.ln_high_time,
                self.ny_low_time,
                self.ny_high_time,
            ],
    {
        let mut r: Vec<String> = Vec::new();
        r.push(self.date.clone());
        r.push(self.week.clone());
        r.push(self.day.clone());
        r.push(self.day_candle_pattern.clone());
        r.push(self.as_candle_pattern.clone());
        r.push(self.ln_candle_pattern.clone());
        r.push(self.nyam_candle_pattern.clone());
        r.push(self.nyl_candle_pattern.clone());
        r.push(self.nypm_candle_pattern.clone());
        r.push(self.day_high_session.clone());
        r.push(self.day_low_session.clone());
        r.push(self.as_low_time.clone());
        r.push(self.as_high_time.clone());
        r.push(self.ln_low_time.clone());
        r.push(self.ln_high_time.clone());
        r.push(self.ny_low_time.clone());
        r.push(self.ny_high_time.clone());
        assert(r@ =~= seq![
            self.date,
            self.week,
            self.day,
            self.day_candle_pattern,
            self.as_candle_pattern,
            self.ln_candle_pattern,
            self.nyam_candle_pattern,
            self.nyl_candle_pattern,
            self.nypm_candle_pattern,
            self.day_high_session,
            self.day_low_session,
            self.as_low_time,
            self.as_high_time,
            self.ln_low_time,
            self.ln_high_time,
            self.ny_low_time,
            self.ny_high_time,
        ]);
        r
    }
}

} // verus!
