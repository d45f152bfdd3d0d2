//! Properties of the library that relate several functions or all inputs.
use vstd::prelude::*;
use crate::bucket::{key_members, key_volume, lemma_summary_characterized, lemma_summary_has_sample, summary_of, Sample};
use crate::calendar::{day_month, lemma_day_number_decodes, timestamp_value};
use crate::candle_type::{
    body_of, classify_spec, degenerate_range, is_doji, CandlePattern, Thresholds,
};
use crate::data_engine::MarketData;
use crate::session_type::{session_of_hour, Session};
use crate::week_day_data::{period_sample, period_samples, Family};

verus! {

/// A bar whose range `high - low` is below epsilon is `Unknown`, whatever
/// its open and close.
pub proof fn lemma_degenerate_range_is_unknown(open: int, high: int, low: int, close: int, t: Thresholds)
    requires
        degenerate_range(high, low, t),
    ensures
        classify_spec(open, high, low, close, t) == CandlePattern::Unknown,
{
}

/// A bar with a proper range whose body ratio is at most the doji ratio is a
/// doji, whatever the other rules would say of it.
pub proof fn lemma_doji_precedence(open: int, high: int, low: int, close: int, t: Thresholds)
    requires
        !degenerate_range(high, low, t),
        is_doji(body_of(open, close), high - low, t),
    ensures
        classify_spec(open, high, low, close, t) == CandlePattern::DojiSpinningTop,
{
}

/// Every hour of the day falls in exactly one session: the five named
/// sessions cover hours 1 to 23 in disjoint ranges, and hour 0 is `Unknown`.
pub proof fn lemma_session_partition(hour: int)
    requires
        0 <= hour <= 23,
    ensures
        (session_of_hour(hour) == Session::AS) <==> (1 <= hour <= 7),
        (session_of_hour(hour) == Session::LN) <==> (8 <= hour <= 14),
        (session_of_hour(hour) == Session::NYAM) <==> (15 <= hour <= 18),
        (session_of_hour(hour) == Session::NYL) <==> (19 <= hour <= 20),
        (session_of_hour(hour) == Session::NYPM) <==> (21 <= hour <= 23),
        (session_of_hour(hour) == Session::Unknown) <==> (hour == 0),
{
}

/// Each sample of a family comes from a bar, and each bar's sample is among
/// the family's samples.
pub proof fn lemma_period_samples_origin(data: Seq<MarketData>, fam: Family)
    ensures
        forall|i: int|
            0 <= i < period_samples(data, fam).len() ==> exists|j: int|
                0 <= j < data.len() && period_sample(#[trigger] data[j], fam) == Some(
                    #[trigger] period_samples(data, fam)[i],
                ),
        forall|j: int|
            0 <= j < data.len() ==> (period_sample(#[trigger] data[j], fam) matches Some(s)
                ==> period_samples(data, fam).contains(s)),
    decreases data.len(),
{
    if data.len() > 0 {
        let p = data.drop_last();
        lemma_period_samples_origin(p, fam);
        let ps = period_samples(p, fam);
        let ss = period_samples(data, fam);
        let n = data.len() - 1;
        assert(data[n] == data.last());
        assert forall|i: int| 0 <= i < ss.len() implies exists|j: int|
            0 <= j < data.len() && period_sample(#[trigger] data[j], fam) == Some(#[trigger] ss[i]) by {
            if i < ps.len() {
                assert(ss[i] == ps[i]);
                let j = choose|j: int| 0 <= j < p.len() && period_sample(#[trigger] p[j], fam) == Some(ps[i]);
                assert(data[j] == p[j]);
            } else {
                assert(period_sample(data[n], fam) == Some(ss[i]));
            }
        }
        assert forall|j: int| 0 <= j < data.len() implies (period_sample(#[trigger] data[j], fam) matches Some(s)
            ==> ss.contains(s)) by {
            if j < n {
                assert(data[j] == p[j]);
                if let Some(s) = period_sample(data[j], fam) {
                    let i = choose|i: int| 0 <= i < ps.len() && ps[i] == s;
                    assert(ss[i] == s);
                }
            } else {
                if let Some(s) = period_sample(data[j], fam) {
                    assert(ss[ss.len() - 1] == s);
                }
            }
        }
    }
}

/// The volume that a bar adds to bucket `k`.
pub open spec fn bar_volume(b: MarketData, fam: Family, k: u64) -> int {
    match period_sample(b, fam) {
        Some(s) => if s.key == k { s.volume as int } else { 0 },
        None => 0,
    }
}

pub open spec fn add_bar_volume(fam: Family, k: u64) -> spec_fn(int, MarketData) -> int {
    |acc: int, b: MarketData| acc + bar_volume(b, fam, k)
}

proof fn lemma_key_volume_is_fold(data: Seq<MarketData>, fam: Family, k: u64)
    ensures
        key_volume(period_samples(data, fam), k) == data.fold_left(0int, add_bar_volume(fam, k)),
    decreases data.len(),
{
    if data.len() > 0 {
        let p = data.drop_last();
        lemma_key_volume_is_fold(p, fam, k);
        let ps = period_samples(p, fam);
        if let Some(s) = period_sample(data.last(), fam) {
            assert(ps.push(s).drop_last() =~= ps);
        }
    }
}

/// Envelope: the high of a bucket is the highest high of the bars in it and
/// its low the lowest low, exactly.
pub proof fn lemma_envelope(data: Seq<MarketData>, fam: Family, k: u64)
    requires
        summary_of(period_samples(data, fam), k) is Some,
    ensures
        ({
            let a = summary_of(period_samples(data, fam), k)->0;
            &&& forall|j: int|
                0 <= j < data.len() && (period_sample(#[trigger] data[j], fam) matches Some(s) && s.key == k)
                    ==> a.low <= data[j].low && data[j].high <= a.high
            &&& exists|j: int|
                0 <= j < data.len() && (period_sample(#[trigger] data[j], fam) matches Some(s) && s.key == k)
                    && data[j].high == a.high
            &&& exists|j: int|
                0 <= j < data.len() && (period_sample(#[trigger] data[j], fam) matches Some(s) && s.key == k)
                    && data[j].low == a.low
        }),
{
    let ss = period_samples(data, fam);
    let a = summary_of(ss, k)->0;
    lemma_summary_characterized(ss, k);
    lemma_period_samples_origin(data, fam);
    assert forall|j: int|
        0 <= j < data.len() && (period_sample(#[trigger] data[j], fam) matches Some(s) && s.key == k) implies a.low
        <= data[j].low && data[j].high <= a.high by {
        let s = period_sample(data[j], fam)->0;
        let i = choose|i: int| 0 <= i < ss.len() && ss[i] == s;
        assert(ss[i].key == k);
    }
    let ih = choose|i: int| 0 <= i < ss.len() && (#[trigger] ss[i]).key == k && ss[i].high == a.high;
    let jh = choose|j: int| 0 <= j < data.len() && period_sample(#[trigger] data[j], fam) == Some(ss[ih]);
    assert(period_sample(data[jh], fam) matches Some(s) && s.key == k);
    let il = choose|i: int| 0 <= i < ss.len() && (#[trigger] ss[i]).key == k && ss[i].low == a.low;
    let jl = choose|j: int| 0 <= j < data.len() && period_sample(#[trigger] data[j], fam) == Some(ss[il]);
    assert(period_sample(data[jl], fam) matches Some(s) && s.key == k);
}

proof fn lemma_same_samples(d1: Seq<MarketData>, d2: Seq<MarketData>, fam: Family)
    requires
        d1.to_multiset() == d2.to_multiset(),
    ensures
        forall|s: Sample| period_samples(d1, fam).contains(s) ==> period_samples(d2, fam).contains(s),
{
    broadcast use vstd::seq_lib::group_to_multiset_ensures;

    let ss1 = period_samples(d1, fam);
    let ss2 = period_samples(d2, fam);
    lemma_period_samples_origin(d1, fam);
    lemma_period_samples_origin(d2, fam);
    assert forall|s: Sample| ss1.contains(s) implies ss2.contains(s) by {
        let i = choose|i: int| 0 <= i < ss1.len() && ss1[i] == s;
        let j = choose|j: int| 0 <= j < d1.len() && period_sample(#[trigger] d1[j], fam) == Some(ss1[i]);
        assert(d1.contains(d1[j]));
        assert(d1.to_multiset().count(d1[j]) > 0);
        assert(d2.contains(d1[j]));
        let j2 = choose|j2: int| 0 <= j2 < d2.len() && d2[j2] == d1[j];
        assert(period_sample(d2[j2], fam) == Some(s));
    }
}

/// Buckets of two sample sequences that hold the same samples agree on
/// existence, high, low and members.
proof fn lemma_same_sample_set_summaries(ss1: Seq<Sample>, ss2: Seq<Sample>, k: u64)
    requires
        forall|s: Sample| ss1.contains(s) ==> ss2.contains(s),
        forall|s: Sample| ss2.contains(s) ==> ss1.contains(s),
    ensures
        (summary_of(ss1, k) is Some) == (summary_of(ss2, k) is Some),
        summary_of(ss1, k) is Some ==> ({
            let a1 = summary_of(ss1, k)->0;
            let a2 = summary_of(ss2, k)->0;
            &&& a1.high == a2.high
            &&& a1.low == a2.low
            &&& a1.members == a2.members
        }),
{
    lemma_summary_has_sample(ss1, k);
    lemma_summary_has_sample(ss2, k);
    if exists|i: int| 0 <= i < ss1.len() && (#[trigger] ss1[i]).key == k {
        let i = choose|i: int| 0 <= i < ss1.len() && (#[trigger] ss1[i]).key == k;
        assert(ss1.contains(ss1[i]));
        let i2 = choose|i2: int| 0 <= i2 < ss2.len() && ss2[i2] == ss1[i];
        assert(ss2[i2].key == k);
    }
    if exists|i: int| 0 <= i < ss2.len() && (#[trigger] ss2[i]).key == k {
        let i = choose|i: int| 0 <= i < ss2.len() && (#[trigger] ss2[i]).key == k;
        assert(ss2.contains(ss2[i]));
        let i1 = choose|i1: int| 0 <= i1 < ss1.len() && ss1[i1] == ss2[i];
        assert(ss1[i1].key == k);
    }
    if summary_of(ss1, k) is Some {
        lemma_summary_characterized(ss1, k);
        lemma_summary_characterized(ss2, k);
        let a1 = summary_of(ss1, k)->0;
        let a2 = summary_of(ss2, k)->0;
        let h1 = choose|i: int| 0 <= i < ss1.len() && (#[trigger] ss1[i]).key == k && ss1[i].high == a1.high;
        assert(ss1.contains(ss1[h1]));
        let h1b = choose|i: int| 0 <= i < ss2.len() && ss2[i] == ss1[h1];
        let h2 = choose|i: int| 0 <= i < ss2.len() && (#[trigger] ss2[i]).key == k && ss2[i].high == a2.high;
        assert(ss2.contains(ss2[h2]));
        let h2b = choose|i: int| 0 <= i < ss1.len() && ss1[i] == ss2[h2];
        let l1 = choose|i: int| 0 <= i < ss1.len() && (#[trigger] ss1[i]).key == k && ss1[i].low == a1.low;
        assert(ss1.contains(ss1[l1]));
        let l1b = choose|i: int| 0 <= i < ss2.len() && ss2[i] == ss1[l1];
        let l2 = choose|i: int| 0 <= i < ss2.len() && (#[trigger] ss2[i]).key == k && ss2[i].low == a2.low;
        assert(ss2.contains(ss2[l2]));
        let l2b = choose|i: int| 0 <= i < ss1.len() && ss1[i] == ss2[l2];
        assert(ss2[h1b].key == k && ss1[h2b].key == k && ss2[l1b].key == k && ss1[l2b].key == k);
        assert(key_members(ss1, k) =~= key_members(ss2, k)) by {
            assert forall|m: u64| key_members(ss1, k).contains(m) implies key_members(ss2, k).contains(m) by {
                let i = choose|i: int| 0 <= i < ss1.len() && (#[trigger] ss1[i]).key == k && ss1[i].member == m;
                assert(ss1.contains(ss1[i]));
                let i2 = choose|i2: int| 0 <= i2 < ss2.len() && ss2[i2] == ss1[i];
                assert(ss2[i2].key == k && ss2[i2].member == m);
            }
            assert forall|m: u64| key_members(ss2, k).contains(m) implies key_members(ss1, k).contains(m) by {
                let i = choose|i: int| 0 <= i < ss2.len() && (#[trigger] ss2[i]).key == k && ss2[i].member == m;
                assert(ss2.contains(ss2[i]));
                let i1 = choose|i1: int| 0 <= i1 < ss1.len() && ss1[i1] == ss2[i];
                assert(ss1[i1].key == k && ss1[i1].member == m);
            }
        }
    }
}

/// Order independence: two orderings of the same bars give every bucket the
/// same high, low, volume and members.
pub proof fn lemma_order_independence(d1: Seq<MarketData>, d2: Seq<MarketData>, fam: Family, k: u64)
    requires
        d1.to_multiset() == d2.to_multiset(),
    ensures
        (summary_of(period_samples(d1, fam), k) is Some) == (summary_of(period_samples(d2, fam), k) is Some),
        summary_of(period_samples(d1, fam), k) is Some ==> ({
            let a1 = summary_of(period_samples(d1, fam), k)->0;
            let a2 = summary_of(period_samples(d2, fam), k)->0;
            &&& a1.high == a2.high
            &&& a1.low == a2.low
            &&& a1.volume == a2.volume
            &&& a1.members == a2.members
        }),
{
    lemma_same_samples(d1, d2, fam);
    lemma_same_samples(d2, d1, fam);
    let ss1 = period_samples(d1, fam);
    let ss2 = period_samples(d2, fam);
    lemma_same_sample_set_summaries(ss1, ss2, k);
    if summary_of(ss1, k) is Some {
        lemma_summary_characterized(ss1, k);
        lemma_summary_characterized(ss2, k);
        lemma_key_volume_is_fold(d1, fam, k);
        lemma_key_volume_is_fold(d2, fam, k);
        let f = add_bar_volume(fam, k);
        assert(vstd::seq_lib::commutative_foldl(f)) by {
            assert forall|x: MarketData, y: MarketData, v: int| #[trigger] f(f(v, x), y) == f(f(v, y), x) by {}
        }
        vstd::seq_lib::lemma_fold_left_permutation(d1, d2, f, 0int);
    }
}

/// The bar falls in the weekly bucket `k`.
pub open spec fn in_week_bucket(b: MarketData, k: u64) -> bool {
    period_sample(b, Family::Weekly) matches Some(s) && s.key == k
}

/// Chronological position of a bar that has a weekly sample.
pub open spec fn week_position(b: MarketData) -> u128 {
    period_sample(b, Family::Weekly)->0.at
}

/// Month attribution of a week: the bucket of an ISO week bears the month of
/// a chronologically first bar of that week, and no bar of the week is
/// earlier, whatever month the other bars fall in.
pub proof fn lemma_week_month_attribution(data: Seq<MarketData>, k: u64)
    requires
        summary_of(period_samples(data, Family::Weekly), k) is Some,
    ensures
        exists|j0: int|
            #![trigger data[j0]]
            0 <= j0 < data.len() && in_week_bucket(data[j0], k) && timestamp_value(data[j0].timestamp@) is Some
                && day_month(summary_of(period_samples(data, Family::Weekly), k)->0.first_member)
                == timestamp_value(data[j0].timestamp@)->0.month && forall|j: int|
                0 <= j < data.len() && in_week_bucket(#[trigger] data[j], k) ==> week_position(data[j0])
                    <= week_position(data[j]),
{
    let ss = period_samples(data, Family::Weekly);
    let a = summary_of(ss, k)->0;
    lemma_summary_characterized(ss, k);
    lemma_period_samples_origin(data, Family::Weekly);
    let io = choose|i: int|
        0 <= i < ss.len() && (#[trigger] ss[i]).key == k && ss[i].at == a.open_at && ss[i].member == a.first_member
            && ss[i].open == a.open;
    let j0 = choose|j: int| 0 <= j < data.len() && period_sample(#[trigger] data[j], Family::Weekly) == Some(ss[io]);
    let dt0 = timestamp_value(data[j0].timestamp@)->0;
    assert(dt0.wf()) by {
        crate::calendar::lemma_timestamp_value_wf(data[j0].timestamp@);
    }
    lemma_day_number_decodes(dt0);
    assert forall|j: int| 0 <= j < data.len() && in_week_bucket(#[trigger] data[j], k) implies week_position(data[j0])
        <= week_position(data[j]) by {
        let s = period_sample(data[j], Family::Weekly)->0;
        let i = choose|i: int| 0 <= i < ss.len() && ss[i] == s;
        assert(ss[i].key == k);
    }
}

} // verus!
