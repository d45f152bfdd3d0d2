//! The weekly table: one row per ISO week, built from daily buckets.
use vstd::prelude::*;
use crate::bucket::{
    accumulate, buckets_of, lemma_summary_close_tag, lemma_summary_has_sample, lookup, strictly_sorted,
    summary_of, volume_total, Bucket, Sample,
};
use crate::calendar::{
    day_month, day_number, day_year, instant, iso_week, iso_week_of, parse_ts_to_naive, timestamp_value,
    weekday, weekday_of, YEAR_OFFSET,
};
use crate::candle_type::{classify, Thresholds};
use crate::text::{fixed6, fixed6_text, fixed6_unsigned, int_text, nat_text, push_int, push_nat, push_padded, push_str, zero_pad};
use crate::week_day_data::{iso_key, lemma_volume_push, pattern_text_of, weekday_label, weekday_name, PeriodAgg};
use vstd::string::StringExecFns;

verus! {

#[derive(Debug, Clone)]
pub struct WeeklyTableAgg {
    pub year: String,
    pub month: String,
    pub week: String,
    pub monday_pattern: String,
    pub tuesday_pattern: String,
    pub wednesday_pattern: String,
    pub thursday_pattern: String,
    pub friday_pattern: String,
    pub open: i64,
    pub high: i64,
    pub low: i64,
    pub close: i64,
    pub volume: u128,
    pub high_day: String,
    pub low_day: String,
    pub week_pattern: String,
}

/// The sample of daily row `idx`: keyed by its ISO week (by week and weekday
/// for `slot`), extremes tagged with its weekday, close tag its index.
pub open spec fn day_sample(r: PeriodAgg, idx: int, slot: bool) -> Option<Sample> {
    match timestamp_value(r.date@) {
        None => None,
        Some(dt) => {
            let wd = weekday_of(dt.year, dt.month, dt.day) as int;
            let wk = iso_key(iso_week_of(dt.year, dt.month, dt.day));
            Some(
                Sample {
                    key: (if slot { wk * 8 + wd } else { wk }) as u64,
                    at: dt.instant() as u128,
                    open: r.open,
                    high: r.high,
                    low: r.low,
                    close: r.close,
                    volume: if slot { 0 } else { r.volume },
                    member: dt.day_number() as u64,
                    high_tag: wd as u64,
                    low_tag: wd as u64,
                    close_tag: idx as u64,
                },
            )
        },
    }
}

pub open spec fn day_samples(rows: Seq<PeriodAgg>, slot: bool) -> Seq<Sample>
    decreases rows.len(),
{
    if rows.len() == 0 {
        Seq::empty()
    } else {
        let prev = day_samples(rows.drop_last(), slot);
        match day_sample(rows.last(), rows.len() - 1, slot) {
            Some(s) => prev.push(s),
            None => prev,
        }
    }
}

pub open spec fn rows_volume(rows: Seq<PeriodAgg>) -> int
    decreases rows.len(),
{
    if rows.len() == 0 {
        0
    } else {
        rows_volume(rows.drop_last()) + rows.last().volume
    }
}

/// The pattern of the last daily row (in input order) on weekday `wd` of
/// week `k`; empty where there is none.
pub open spec fn weekday_pattern(rows: Seq<PeriodAgg>, k: u64, wd: int) -> Seq<char> {
    match summary_of(day_samples(rows, true), (k * 8 + wd) as u64) {
        Some(b) => rows[b.close_tag as int].pattern@,
        None => Seq::empty(),
    }
}

pub open spec fn week_row_matches(rows: Seq<PeriodAgg>, k: u64, r: WeeklyTableAgg) -> bool {
    let a = summary_of(day_samples(rows, false), k)->0;
    &&& summary_of(day_samples(rows, false), k) is Some
    &&& r.year@ == int_text(day_year(a.first_member))
    &&& r.month@ == zero_pad(nat_text(day_month(a.first_member)), 2)
    &&& r.week@ == "Week "@ + nat_text((k % 64) as nat)
    &&& r.monday_pattern@ == weekday_pattern(rows, k, 0)
    &&& r.tuesday_pattern@ == weekday_pattern(rows, k, 1)
    &&& r.wednesday_pattern@ == weekday_pattern(rows, k, 2)
    &&& r.thursday_pattern@ == weekday_pattern(rows, k, 3)
    &&& r.friday_pattern@ == weekday_pattern(rows, k, 4)
    &&& r.open == a.open
    &&& r.high == a.high
    &&& r.low == a.low
    &&& r.close == a.close
    &&& r.volume == a.volume
    &&& r.high_day@ == weekday_name(a.high_tag as int)
    &&& r.low_day@ == weekday_name(a.low_tag as int)
    &&& r.week_pattern@ == pattern_text_of(a)
}

pub open spec fn keyed_week_rows(rows: Seq<PeriodAgg>, ks: Seq<u64>, out: Seq<WeeklyTableAgg>) -> bool {
    &&& ks.len() == out.len()
    &&& strictly_sorted(ks)
    &&& forall|i: int| 0 <= i < ks.len() ==> week_row_matches(rows, ks[i], #[trigger] out[i])
    &&& forall|k: u64| #[trigger] summary_of(day_samples(rows, false), k) is Some ==> ks.contains(k)
}

fn day_sample_exec(r: &PeriodAgg, idx: usize, slot: bool) -> (s: Option<Sample>)
    ensures
        s == day_sample(*r, idx as int, slot),
        s matches Some(x) ==> x.key < 0x1000_0000_0000_0000,
{
    let dt = match parse_ts_to_naive(r.date.as_str()) {
        Some(dt) => dt,
        None => {
            return None;
        },
    };
    let wd = match weekday(dt.year, dt.month, dt.day) {
        Some(w) => w as u64,
        None => {
            return None;
        },
    };
    let iw = match iso_week(dt.year, dt.month, dt.day) {
        Some(iw) => iw,
        None => {
            return None;
        },
    };
    let wk: u64 = ((iw.0 as i64 + YEAR_OFFSET as i64) as u64) * 64 + iw.1 as u64;
    Some(
        Sample {
            key: if slot { wk * 8 + wd } else { wk },
            at: instant(&dt),
            open: r.open,
            high: r.high,
            low: r.low,
            close: r.close,
            volume: if slot { 0 } else { r.volume },
            member: day_number(&dt),
            high_tag: wd,
            low_tag: wd,
            close_tag: idx as u64,
        },
    )
}

fn day_samples_exec(rows: &Vec<PeriodAgg>, slot: bool) -> (ss: Vec<Sample>)
    ensures
        ss@ == day_samples(rows@, slot),
        0 <= volume_total(ss@) <= rows_volume(rows@),
        forall|j: int| 0 <= j < ss@.len() ==> (#[trigger] ss@[j]).close_tag < rows@.len(),
        forall|j: int| 0 <= j < ss@.len() ==> (#[trigger] ss@[j]).key < 0x1000_0000_0000_0000,
{
    let mut ss: Vec<Sample> = Vec::new();
    let n = rows.len();
    let mut i: usize = 0;
    while i < n
        invariant
            n == rows@.len(),
            i <= n,
            ss@ == day_samples(rows@.take(i as int), slot),
            0 <= volume_total(ss@) <= rows_volume(rows@.take(i as int)),
            forall|j: int| 0 <= j < ss@.len() ==> (#[trigger] ss@[j]).close_tag < i,
            forall|j: int| 0 <= j < ss@.len() ==> (#[trigger] ss@[j]).key < 0x1000_0000_0000_0000,
        decreases n - i,
    {
        let r = day_sample_exec(&rows[i], i, slot);
        proof {
            assert(rows@.take(i + 1).drop_last() =~= rows@.take(i as int));
            assert(rows@.take(i + 1).last() == rows@[i as int]);
        }
        match r {
            Some(s) => {
                proof {
                    lemma_volume_push(ss@, s);
                }
                ss.push(s);
            },
            None => {},
        }
        i = i + 1;
    }
    assert(rows@.take(n as int) =~= rows@);
    ss
}

fn weekday_cell(rows: &Vec<PeriodAgg>, slots: &Vec<Bucket>, k: u64, wd: u64, ss: Ghost<Seq<Sample>>) -> (r: String)
    requires
        k < 0x1000_0000_0000_0000,
        wd < 8,
        ss@ == day_samples(rows@, true),
        buckets_of(ss@, slots@),
        forall|j: int| 0 <= j < ss@.len() ==> (#[trigger] ss@[j]).close_tag < rows@.len(),
    ensures
        r@ == weekday_pattern(rows@, k, wd as int),
{
    let n = rows.len();
    let key = k * 8 + wd;
    match lookup(slots, key) {
        Some(i) => {
            proof {
                lemma_summary_close_tag(ss@, key, rows@.len() as int);
            }
            rows[slots[i].close_tag as usize].pattern.clone()
        },
        None => {
            proof {
                if summary_of(ss@, key) is Some {
                    let j = choose|j: int| 0 <= j < slots@.len() && slots@[j].key == key;
                }
            }
            String::new()
        },
    }
}

/// One row per ISO week of the daily rows, in week order; rows whose date
/// cannot be read are left out. The total volume must fit in 128 bits.
pub fn aggregate_weekly_table(daily_aggs: &Vec<PeriodAgg>) -> (out: Vec<WeeklyTableAgg>)
    requires
        rows_volume(daily_aggs@) <= u128::MAX,
    ensures
        exists|ks: Seq<u64>| #[trigger] keyed_week_rows(daily_aggs@, ks, out@),
{
    let week_ss = day_samples_exec(daily_aggs, false);
    let slot_ss = day_samples_exec(daily_aggs, true);
    let weeks = accumulate(&week_ss);
    let slots = accumulate(&slot_ss);
    let ghost ks = Seq::new(weeks@.len(), |j: int| weeks@[j].key);
    let t = Thresholds::default();
    let mut out: Vec<WeeklyTableAgg> = Vec::new();
    let mut i: usize = 0;
    while i < weeks.len()
        invariant
            i <= weeks@.len(),
            week_ss@ == day_samples(daily_aggs@, false),
            slot_ss@ == day_samples(daily_aggs@, true),
            forall|j: int| 0 <= j < slot_ss@.len() ==> (#[trigger] slot_ss@[j]).close_tag < daily_aggs@.len(),
            forall|j: int| 0 <= j < week_ss@.len() ==> (#[trigger] week_ss@[j]).key < 0x1000_0000_0000_0000,
            buckets_of(week_ss@, weeks@),
            buckets_of(slot_ss@, slots@),
            ks == Seq::new(weeks@.len(), |j: int| weeks@[j].key),
            out@.len() == i,
            t == crate::candle_type::default_thresholds_spec(),
            forall|j: int| 0 <= j < i ==> week_row_matches(daily_aggs@, ks[j], #[trigger] out@[j]),
        decreases weeks@.len() - i,
    {
        let b = &weeks[i];
        proof {
            lemma_summary_has_sample(week_ss@, b.key);
            let j = choose|j: int| 0 <= j < week_ss@.len() && (#[trigger] week_ss@[j]).key == b.key;
        }
        let mut year = String::new();
        push_int(&mut year, (b.first_member / 512) as i64 - YEAR_OFFSET as i64);
        let mut month = String::new();
        push_padded(&mut month, ((b.first_member / 32) % 16) as u128, 2);
        assert(month@ =~= zero_pad(nat_text(day_month(b.first_member)), 2));
        let mut week = String::new();
        proof { reveal_strlit("Week "); }
        push_str(&mut week, "Week ");
        push_nat(&mut week, (b.key % 64) as u128);
        let row = WeeklyTableAgg {
            year,
            month,
            week,
            monday_pattern: weekday_cell(daily_aggs, &slots, b.key, 0, Ghost(slot_ss@)),
            tuesday_pattern: weekday_cell(daily_aggs, &slots, b.key, 1, Ghost(slot_ss@)),
            wednesday_pattern: weekday_cell(daily_aggs, &slots, b.key, 2, Ghost(slot_ss@)),
            thursday_pattern: weekday_cell(daily_aggs, &slots, b.key, 3, Ghost(slot_ss@)),
            friday_pattern: weekday_cell(daily_aggs, &slots, b.key, 4, Ghost(slot_ss@)),
            open: b.open,
            high: b.high,
            low: b.low,
            close: b.close,
            volume: b.volume,
            high_day: weekday_label(b.high_tag),
            low_day: weekday_label(b.low_tag),
            week_pattern: classify(b.open, b.high, b.low, b.close, &t).to_text(),
        };
        out.push(row);
        proof {
            assert(ks[i as int] == b.key);
            assert(week_row_matches(daily_aggs@, ks[i as int], out@[i as int]));
        }
        i = i + 1;
    }
    proof {
        assert(keyed_week_rows(daily_aggs@, ks, out@)) by {
            assert forall|k: u64| #[trigger] summary_of(week_ss@, k) is Some implies ks.contains(k) by {
                let j = choose|j: int| 0 <= j < weeks@.len() && weeks@[j].key == k;
                assert(ks[j] == k);
            }
        }
    }
    out
}

impl crate::data_engine::CsvRecord for WeeklyTableAgg {
    fn headers() -> (r: &'static [&'static str])
        ensures
            r@.len() == 16,
            r@[0]@ == "Year"@,
            r@[1]@ == "Month"@,
            r@[2]@ == "Week"@,
            r@[3]@ == "Monday"@,
            r@[4]@ == "Tuesday"@,
            r@[5]@ == "Wednesday"@,
            r@[6]@ == "Thursday"@,
            r@[7]@ == "Friday"@,
            r@[8]@ == "Open"@,
            r@[9]@ == "High"@,
            r@[10]@ == "Low"@,
            r@[11]@ == "Close"@,
            r@[12]@ == "Volume"@,
            r@[13]@ == "HighDay"@,
            r@[14]@ == "LowDay"@,
            r@[15]@ == "WeekPattern"@,
    {
        &[
            "Year",
            "Month",
            "Week",
            "Monday",
            "Tuesday",
            "Wednesday",
            "Thursday",
            "Friday",
            "Open",
            "High",
            "Low",
            "Close",
            "Volume",
            "HighDay",
            "LowDay",
            "WeekPattern",
        ]
    }

    fn record(&self) -> (r: Vec<String>)
        ensures
            r@.len() == 16,
            r@[0] == self.year,
            r@[1] == self.month,
            r@[2] == self.week,
            r@[3] == self.monday_pattern,
            r@[4] == self.tuesday_pattern,
            r@[5] == self.wednesday_pattern,
            r@[6] == self.thursday_pattern,
            r@[7] == self.friday_pattern,
            r@[8]@ == fixed6_text(self.open as int),
            r@[9]@ == fixed6_text(self.high as int),
            r@[10]@ == fixed6_text(self.low as int),
            r@[11]@ == fixed6_text(self.close as int),
            r@[12]@ == fixed6_text(self.volume as int),
            r@[13] == self.high_day,
            r@[14] == self.low_day,
            r@[15] == self.week_pattern,
    {
        let mut r: Vec<String> = Vec::new();
        r.push(self.year.clone());
        r.push(self.month.clone());
        r.push(self.week.clone());
        r.push(self.monday_pattern.clone());
        r.push(self.tuesday_pattern.clone());
        r.push(self.wednesday_pattern.clone());
        r.push(self.thursday_pattern.clone());
        r.push(self.friday_pattern.clone());
        r.push(fixed6(self.open));
        r.push(fixed6(self.high));
        r.push(fixed6(self.low));
        r.push(fixed6(self.close));
        r.push(fixed6_unsigned(self.volume));
        r.push(self.high_day.clone());
        r.push(self.low_day.clone());
        r.push(self.week_pattern.clone());
        r
    }
}

} // verus!
