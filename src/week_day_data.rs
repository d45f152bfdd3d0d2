//! Calendar-period buckets: daily, ISO-weekly (attributed to a month),
//! weekday and monthly.
use vstd::prelude::*;
use crate::bucket::{accumulate, buckets_of, strictly_sorted, summary_of, volume_total, Bucket, Sample, Summary};
use crate::calendar::{
    day_day, day_month, day_number, day_year, instant, iso_week, iso_week_of, month_month, month_number,
    month_year, parse_ts_to_naive, timestamp_value, weekday, weekday_of, DateTime, YEAR_OFFSET,
};
use crate::candle_type::{classify, classify_spec, default_thresholds_spec, pattern_name, Thresholds};
use crate::data_engine::MarketData;
use crate::text::{
    fixed6, fixed6_text, fixed6_unsigned, date_text, int_text, month_text, nat_text, push_date, push_int, push_month, push_nat, push_padded,
    push_str, zero_pad,
};
use vstd::string::StringExecFns;

verus! {

/// One row of a period table. `date` names the bucket; `members` lists the
/// contributing dates, sorted and separated by `;`.
#[derive(Debug, Clone)]
pub struct PeriodAgg {
    pub date: String,
    pub open: i64,
    pub high: i64,
    pub low: i64,
    pub close: i64,
    pub volume: u128,
    pub members: String,
    pub pattern: String,
}

#[derive(Debug, Clone, Copy, PartialEq, Eq, Structural)]
pub enum Family {
    Daily,
    Weekly,
    Weekday,
    Monthly,
}

/// Key of an ISO week, in chronological order of weeks.
pub open spec fn iso_key(w: (i32, u32)) -> int {
    (w.0 + YEAR_OFFSET) * 64 + w.1
}

/// The bucket key of a date-time in a family; `None` for Saturdays and
/// Sundays in the weekday and weekly families.
pub open spec fn period_key(dt: DateTime, fam: Family) -> Option<int> {
    let wd = weekday_of(dt.year, dt.month, dt.day);
    match fam {
        Family::Daily => Some(dt.day_number() as int),
        Family::Monthly => Some(dt.month_number() as int),
        Family::Weekday => if wd < 5 { Some(wd as int) } else { None },
        Family::Weekly => if wd < 5 {
            Some(iso_key(iso_week_of(dt.year, dt.month, dt.day)))
        } else {
            None
        },
    }
}

/// A bar as an engine sample under key `key`.
pub open spec fn bar_sample(bar: MarketData, key: int, dt: DateTime, tag: int) -> Sample {
    Sample {
        key: key as u64,
        at: dt.instant() as u128,
        open: bar.open,
        high: bar.high,
        low: bar.low,
        close: bar.close,
        volume: bar.volume as u128,
        member: dt.day_number() as u64,
        high_tag: tag as u64,
        low_tag: tag as u64,
        close_tag: tag as u64,
    }
}

/// The sample of a bar in a family: none where its timestamp cannot be read
/// or the family leaves its day out.
pub open spec fn period_sample(bar: MarketData, fam: Family) -> Option<Sample> {
    match timestamp_value(bar.timestamp@) {
        Some(dt) => match period_key(dt, fam) {
            Some(k) => Some(bar_sample(bar, k, dt, 0)),
            None => None,
        },
        None => None,
    }
}

pub open spec fn period_samples(data: Seq<MarketData>, fam: Family) -> Seq<Sample>
    decreases data.len(),
{
    if data.len() == 0 {
        Seq::empty()
    } else {
        let prev = period_samples(data.drop_last(), fam);
        match period_sample(data.last(), fam) {
            Some(s) => prev.push(s),
            None => prev,
        }
    }
}

pub open spec fn day_text(n: u64) -> Seq<char> {
    date_text(day_year(n), day_month(n), day_day(n))
}

/// Dates of the members, separated by `;`.
pub open spec fn members_text(ms: Seq<u64>) -> Seq<char>
    decreases ms.len(),
{
    if ms.len() == 0 {
        Seq::empty()
    } else if ms.len() == 1 {
        day_text(ms[0])
    } else {
        members_text(ms.drop_last()) + seq![';'] + day_text(ms.last())
    }
}

/// The members of a bucket in increasing order.
pub open spec fn sorted_listing(s: Set<u64>) -> Seq<u64> {
    choose|ms: Seq<u64>| strictly_sorted(ms) && ms.to_set() == s
}

pub open spec fn weekday_name(w: int) -> Seq<char> {
    if w == 0 {
        "Mon"@
    } else if w == 1 {
        "Tue"@
    } else if w == 2 {
        "Wed"@
    } else if w == 3 {
        "Thu"@
    } else if w == 4 {
        "Fri"@
    } else if w == 5 {
        "Sat"@
    } else {
        "Sun"@
    }
}

/// The month-relative group of a weekly bucket: its ISO week-year and the
/// month of its earliest bar.
pub open spec fn week_group(a: Summary) -> (int, nat) {
    ((a.key / 64) as int, day_month(a.first_member))
}

/// How many of the buckets of keys `ks[0..j]` share the group of `ks[i]`.
pub open spec fn count_same_group(ss: Seq<Sample>, ks: Seq<u64>, i: int, j: int) -> nat
    decreases j,
{
    if j <= 0 {
        0
    } else {
        count_same_group(ss, ks, i, j - 1) + if week_group(summary_of(ss, ks[j - 1])->0)
            == week_group(summary_of(ss, ks[i])->0) {
            1nat
        } else {
            0nat
        }
    }
}

/// `{ISO week-year}-{owning month:02}-W{index within the month}`.
pub open spec fn weekly_label(a: Summary, index: nat) -> Seq<char> {
    int_text(a.key / 64 - YEAR_OFFSET) + seq!['-'] + zero_pad(nat_text(day_month(a.first_member)), 2)
        + seq!['-', 'W'] + nat_text(index)
}

pub open spec fn period_label(fam: Family, ss: Seq<Sample>, ks: Seq<u64>, i: int) -> Seq<char> {
    let a = summary_of(ss, ks[i])->0;
    match fam {
        Family::Daily => day_text(ks[i]),
        Family::Monthly => month_text(month_year(ks[i]), month_month(ks[i])),
        Family::Weekday => weekday_name(ks[i] as int),
        Family::Weekly => weekly_label(a, count_same_group(ss, ks, i, i) + 1),
    }
}

pub open spec fn pattern_text_of(a: Summary) -> Seq<char> {
    pattern_name(
        classify_spec(a.open as int, a.high as int, a.low as int, a.close as int, default_thresholds_spec()),
    )@
}

pub open spec fn period_row_matches(fam: Family, ss: Seq<Sample>, ks: Seq<u64>, i: int, r: PeriodAgg) -> bool {
    let a = summary_of(ss, ks[i])->0;
    &&& summary_of(ss, ks[i]) is Some
    &&& r.open == a.open
    &&& r.high == a.high
    &&& r.low == a.low
    &&& r.close == a.close
    &&& r.volume == a.volume
    &&& r.members@ == members_text(sorted_listing(a.members))
    &&& r.pattern@ == pattern_text_of(a)
    &&& r.date@ == period_label(fam, ss, ks, i)
}

/// `rows` is the table of family `fam` over `ss`: one row per bucket key, in
/// increasing key order.
pub open spec fn period_rows(fam: Family, ss: Seq<Sample>, rows: Seq<PeriodAgg>) -> bool {
    exists|ks: Seq<u64>| #[trigger] keyed_rows(fam, ss, ks, rows)
}

pub open spec fn keyed_rows(fam: Family, ss: Seq<Sample>, ks: Seq<u64>, rows: Seq<PeriodAgg>) -> bool {
    &&& ks.len() == rows.len()
    &&& strictly_sorted(ks)
    &&& forall|i: int| 0 <= i < ks.len() ==> period_row_matches(fam, ss, ks, i, #[trigger] rows[i])
    &&& forall|k: u64| #[trigger] summary_of(ss, k) is Some ==> ks.contains(k)
}

/// A strictly increasing listing of a set is unique.
pub proof fn lemma_sorted_listing_unique(a: Seq<u64>, b: Seq<u64>)
    requires
        strictly_sorted(a),
        strictly_sorted(b),
        a.to_set() == b.to_set(),
    ensures
        a == b,
    decreases a.len(),
{
    if a.len() == 0 {
        if b.len() > 0 {
            assert(b.to_set().contains(b[0]));
        }
        assert(a =~= b);
    } else {
        assert(a.to_set().contains(a[0]));
        assert(b.len() > 0);
        assert(b.to_set().contains(b[0]));
        assert(a[0] == b[0]) by {
            let i = choose|i: int| 0 <= i < b.len() && b[i] == a[0];
            let j = choose|j: int| 0 <= j < a.len() && a[j] == b[0];
            if i > 0 {
                assert(b[0] < b[i]);
            }
            if j > 0 {
                assert(a[0] < a[j]);
            }
        }
        let a1 = a.drop_first();
        let b1 = b.drop_first();
        assert(a1.to_set() =~= b1.to_set()) by {
            assert forall|x: u64| a1.to_set().contains(x) <==> b1.to_set().contains(x) by {
                if a1.to_set().contains(x) {
                    let i = choose|i: int| 0 <= i < a1.len() && a1[i] == x;
                    assert(a[i + 1] == x);
                    assert(a.to_set().contains(x));
                    let j = choose|j: int| 0 <= j < b.len() && b[j] == x;
                    assert(x != a[0]);
                    assert(j != 0);
                    assert(b1[j - 1] == x);
                }
                if b1.to_set().contains(x) {
                    let i = choose|i: int| 0 <= i < b1.len() && b1[i] == x;
                    assert(b[i + 1] == x);
                    assert(b.to_set().contains(x));
                    let j = choose|j: int| 0 <= j < a.len() && a[j] == x;
                    assert(x != b[0]);
                    assert(j != 0);
                    assert(a1[j - 1] == x);
                }
            }
        }
        lemma_sorted_listing_unique(a1, b1);
        assert(a =~= b) by {
            assert forall|i: int| 0 <= i < a.len() implies a[i] == b[i] by {
                if i > 0 {
                    assert(a[i] == a1[i - 1]);
                    assert(b[i] == b1[i - 1]);
                }
            }
        }
    }
}

/// The sample of one bar, as `period_sample` gives it.
fn period_sample_exec(bar: &MarketData, fam: Family) -> (r: Option<Sample>)
    ensures
        r == period_sample(*bar, fam),
{
    let dt = match parse_ts_to_naive(bar.timestamp.as_str()) {
        Some(dt) => dt,
        None => {
            return None;
        },
    };
    let key: u64 = match fam {
        Family::Daily => day_number(&dt),
        Family::Monthly => month_number(&dt),
        Family::Weekday => {
            let w = match weekday(dt.year, dt.month, dt.day) {
                Some(w) => w,
                None => {
                    return None;
                },
            };
            if w >= 5 {
                return None;
            }
            w as u64
        },
        Family::Weekly => {
            let w = match weekday(dt.year, dt.month, dt.day) {
                Some(w) => w,
                None => {
                    return None;
                },
            };
            if w >= 5 {
                return None;
            }
            let iw = match iso_week(dt.year, dt.month, dt.day) {
                Some(iw) => iw,
                None => {
                    return None;
                },
            };
            ((iw.0 as i64 + YEAR_OFFSET as i64) as u64) * 64 + iw.1 as u64
        },
    };
    Some(
        Sample {
            key,
            at: instant(&dt),
            open: bar.open,
            high: bar.high,
            low: bar.low,
            close: bar.close,
            volume: bar.volume as u128,
            member: day_number(&dt),
            high_tag: 0,
            low_tag: 0,
            close_tag: 0,
        },
    )
}

pub proof fn lemma_volume_push(ss: Seq<Sample>, s: Sample)
    ensures
        volume_total(ss.push(s)) == volume_total(ss) + s.volume,
{
    assert(ss.push(s).drop_last() =~= ss);
}

/// The samples of a family, with a bound on their total volume.
fn period_samples_exec(data: &Vec<MarketData>, fam: Family) -> (ss: Vec<Sample>)
    ensures
        ss@ == period_samples(data@, fam),
        volume_total(ss@) <= u128::MAX,
{
    let mut ss: Vec<Sample> = Vec::new();
    let n = data.len();
    let mut i: usize = 0;
    while i < n
        invariant
            n == data@.len(),
            i <= n,
            ss@ == period_samples(data@.take(i as int), fam),
            ss@.len() <= i,
            0 <= volume_total(ss@) <= ss@.len() * 0xffff_ffff_ffff_ffff,
        decreases n - i,
    {
        let r = period_sample_exec(&data[i], fam);
        proof {
            assert(data@.take(i + 1).drop_last() =~= data@.take(i as int));
            assert(data@.take(i + 1).last() == data@[i as int]);
        }
        match r {
            Some(s) => {
                proof {
                    lemma_volume_push(ss@, s);
                }
                ss.push(s);
            },
            None => {},
        }
        i = i + 1;
    }
    assert(data@.take(n as int) =~= data@);
    assert(ss@.len() * 0xffff_ffff_ffff_ffff <= 0xffff_ffff_ffff_ffff * 0xffff_ffff_ffff_ffff)
        by (nonlinear_arith)
        requires
            ss@.len() <= 0xffff_ffff_ffff_ffff,
    ;
    ss
}

/// Appends the date of a day number.
pub(crate) fn push_day(out: &mut String, n: u64)
    ensures
        final(out)@ == old(out)@ + day_text(n),
{
    let y: i64 = (n / 512) as i64 - YEAR_OFFSET as i64;
    push_date(out, y, (n / 32) % 16, n % 32);
}

/// The members text of a strictly increasing listing.
fn members_string(ms: &Vec<u64>) -> (r: String)
    ensures
        r@ == members_text(ms@),
{
    let mut out = String::new();
    let mut i: usize = 0;
    while i < ms.len()
        invariant
            i <= ms@.len(),
            out@ == members_text(ms@.take(i as int)),
        decreases ms@.len() - i,
    {
        proof {
            assert(ms@.take(i + 1).drop_last() =~= ms@.take(i as int));
        }
        if i > 0 {
            proof { reveal_strlit(";"); }
            push_str(&mut out, ";");
        } else {
            assert(ms@.take(1)[0] == ms@[0]);
        }
        push_day(&mut out, ms[i]);
        i = i + 1;
    }
    assert(ms@.take(ms@.len() as int) =~= ms@);
    out
}

pub(crate) fn weekday_label(w: u64) -> (r: String)
    ensures
        r@ == weekday_name(w as int),
{
    let s = if w == 0 {
        "Mon"
    } else if w == 1 {
        "Tue"
    } else if w == 2 {
        "Wed"
    } else if w == 3 {
        "Thu"
    } else if w == 4 {
        "Fri"
    } else if w == 5 {
        "Sat"
    } else {
        "Sun"
    };
    String::from_str(s)
}

fn weekly_label_exec(b: &Bucket, index: u64) -> (r: String)
    ensures
        r@ == weekly_label(b@, index as nat),
{
    let mut out = String::new();
    push_int(&mut out, (b.key / 64) as i64 - YEAR_OFFSET as i64);
    proof { reveal_strlit("-"); reveal_strlit("-W"); }
    push_str(&mut out, "-");
    push_padded(&mut out, ((b.first_member / 32) % 16) as u128, 2);
    push_str(&mut out, "-W");
    push_nat(&mut out, index as u128);
    assert(out@ =~= weekly_label(b@, index as nat));
    out
}

/// The row of one bucket.
fn period_row(b: &Bucket, label: String) -> (r: PeriodAgg)
    requires
        b.wf(),
    ensures
        r.date == label,
        r.open == b.open,
        r.high == b.high,
        r.low == b.low,
        r.close == b.close,
        r.volume == b.volume,
        r.members@ == members_text(sorted_listing(b@.members)),
        r.pattern@ == pattern_text_of(b@),
{
    let t = Thresholds::default();
    let p = classify(b.open, b.high, b.low, b.close, &t);
    proof {
        let l = sorted_listing(b@.members);
        assert(strictly_sorted(b.members@) && b.members@.to_set() == b@.members);
        assert(strictly_sorted(l) && l.to_set() == b@.members);
        lemma_sorted_listing_unique(l, b.members@);
    }
    PeriodAgg {
        date: label,
        open: b.open,
        high: b.high,
        low: b.low,
        close: b.close,
        volume: b.volume,
        members: members_string(&b.members),
        pattern: p.to_text(),
    }
}

/// Same-group count for the weekly bucket at `i`.
fn count_group(out: &Vec<Bucket>, i: usize, ghost_ss: Ghost<Seq<Sample>>, ks: Ghost<Seq<u64>>) -> (r: u64)
    requires
        i < out@.len(),
        ks@.len() == out@.len(),
        forall|j: int| 0 <= j < out@.len() ==> ks@[j] == (#[trigger] out@[j]).key && summary_of(ghost_ss@, ks@[j]) == Some(out@[j]@),
    ensures
        r == count_same_group(ghost_ss@, ks@, i as int, i as int),
        r <= i,
{
    let g_year = out[i].key / 64;
    let g_month = (out[i].first_member / 32) % 16;
    let mut c: u64 = 0;
    let mut j: usize = 0;
    while j < i
        invariant
            j <= i < out@.len(),
            ks@.len() == out@.len(),
            forall|j: int| 0 <= j < out@.len() ==> ks@[j] == (#[trigger] out@[j]).key && summary_of(ghost_ss@, ks@[j]) == Some(out@[j]@),
            g_year == out@[i as int].key / 64,
            g_month == (out@[i as int].first_member / 32) % 16,
            c == count_same_group(ghost_ss@, ks@, i as int, j as int),
            c <= j,
        decreases i - j,
    {
        if out[j].key / 64 == g_year && (out[j].first_member / 32) % 16 == g_month {
            c = c + 1;
        }
        j = j + 1;
    }
    c
}

/// The table of one family.
fn period_table(data: &Vec<MarketData>, fam: Family) -> (rows: Vec<PeriodAgg>)
    ensures
        period_rows(fam, period_samples(data@, fam), rows@),
{
    let ss = period_samples_exec(data, fam);
    let out = accumulate(&ss);
    let ghost ks = Seq::new(out@.len(), |j: int| out@[j].key);
    let mut rows: Vec<PeriodAgg> = Vec::new();
    let mut i: usize = 0;
    while i < out.len()
        invariant
            i <= out@.len(),
            buckets_of(ss@, out@),
            ks == Seq::new(out@.len(), |j: int| out@[j].key),
            rows@.len() == i,
            forall|j: int| 0 <= j < i ==> period_row_matches(fam, ss@, ks, j, #[trigger] rows@[j]),
        decreases out@.len() - i,
    {
        let b = &out[i];
        let label = match fam {
            Family::Daily => {
                let mut s = String::new();
                push_day(&mut s, b.key);
                s
            },
            Family::Monthly => {
                let mut s = String::new();
                push_month(&mut s, (b.key / 16) as i64 - YEAR_OFFSET as i64, b.key % 16);
                s
            },
            Family::Weekday => weekday_label(b.key),
            Family::Weekly => {
                let c = count_group(&out, i, Ghost(ss@), Ghost(ks));
                weekly_label_exec(b, c + 1)
            },
        };
        let r = period_row(b, label);
        rows.push(r);
        proof {
            assert(ks[i as int] == b.key);
            assert(period_row_matches(fam, ss@, ks, i as int, rows@[i as int]));
        }
        i = i + 1;
    }
    proof {
        assert(keyed_rows(fam, ss@, ks, rows@)) by {
            assert forall|k: u64| #[trigger] summary_of(ss@, k) is Some implies ks.contains(k) by {
                let j = choose|j: int| 0 <= j < out@.len() && out@[j].key == k;
                assert(ks[j] == k);
            }
        }
    }
    rows
}

/// The daily, weekly, weekday and monthly tables of a bar sequence.
pub fn aggregate_periods(data: &Vec<MarketData>) -> (r: (Vec<PeriodAgg>, Vec<PeriodAgg>, Vec<PeriodAgg>, Vec<PeriodAgg>))
    ensures
        period_rows(Family::Daily, period_samples(data@, Family::Daily), r.0@),
        period_rows(Family::Weekly, period_samples(data@, Family::Weekly), r.1@),
        period_rows(Family::Weekday, period_samples(data@, Family::Weekday), r.2@),
        period_rows(Family::Monthly, period_samples(data@, Family::Monthly), r.3@),
{
    (
        period_table(data, Family::Daily),
        period_table(data, Family::Weekly),
        period_table(data, Family::Weekday),
        period_table(data, Family::Monthly),
    )
}

impl crate::data_engine::CsvRecord for PeriodAgg {
    fn headers() -> (r: &'static [&'static str])
        ensures
            r@.len() == 8,
            r@[0]@ == "date"@,
            r@[1]@ == "open"@,
            r@[2]@ == "high"@,
            r@[3]@ == "low"@,
            r@[4]@ == "close"@,
            r@[5]@ == "volume"@,
            r@[6]@ == "members"@,
            r@[7]@ == "pattern"@,
    {
        &["date", "open", "high", "low", "close", "volume", "members", "pattern"]
    }

    fn record(&self) -> (r: Vec<String>)
        ensures
            r@.len() == 8,
            r@[0] == self.date,
            r@[1]@ == fixed6_text(self.open as int),
            r@[2]@ == fixed6_text(self.high as int),
            r@[3]@ == fixed6_text(self.low as int),
            r@[4]@ == fixed6_text(self.close as int),
            r@[5]@ == fixed6_text(self.volume as int),
            r@[6] == self.members,
            r@[7] == self.pattern,
    {
        let mut r: Vec<String> = Vec::new();
        r.push(self.date.clone());
        r.push(fixed6(self.open));
        r.push(fixed6(self.high));
        r.push(fixed6(self.low));
        r.push(fixed6(self.close));
        r.push(fixed6_unsigned(self.volume));
        r.push(self.members.clone());
        r.push(self.pattern.clone());
        r
    }
}

} // verus!
