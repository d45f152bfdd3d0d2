//! The aggregation engine: samples are grouped by key and merged into
//! buckets. Every bucket family of the library is an instance of it.
use vstd::prelude::*;

verus! {

/// One input to the engine: a price bar (or an aggregate of bars) with the
/// key of its bucket and its position in time.
#[derive(Debug, Clone, Copy, PartialEq, Eq, Structural)]
pub struct Sample {
    pub key: u64,
    /// Chronological position; smaller is earlier.
    pub at: u128,
    pub open: i64,
    pub high: i64,
    pub low: i64,
    pub close: i64,
    pub volume: u128,
    /// The member (a day number) that the sample contributes.
    pub member: u64,
    /// Reported when the sample holds the bucket's high.
    pub high_tag: u64,
    /// Reported when the sample holds the bucket's low.
    pub low_tag: u64,
    /// Reported when the sample gives the bucket's close.
    pub close_tag: u64,
}

/// A merged bucket.
#[derive(Debug)]
pub struct Bucket {
    pub key: u64,
    pub open: i64,
    pub high: i64,
    pub low: i64,
    pub close: i64,
    pub volume: u128,
    pub open_at: u128,
    pub close_at: u128,
    pub high_at: u128,
    pub low_at: u128,
    /// Member of the sample that gave the open.
    pub first_member: u64,
    pub high_tag: u64,
    pub low_tag: u64,
    pub close_tag: u64,
    /// Contributing members, strictly increasing.
    pub members: Vec<u64>,
}

/// The mathematical content of a bucket.
pub struct Summary {
    pub key: u64,
    pub open: i64,
    pub high: i64,
    pub low: i64,
    pub close: i64,
    pub volume: int,
    pub open_at: u128,
    pub close_at: u128,
    pub high_at: u128,
    pub low_at: u128,
    pub first_member: u64,
    pub high_tag: u64,
    pub low_tag: u64,
    pub close_tag: u64,
    pub members: Set<u64>,
}

pub open spec fn strictly_sorted(s: Seq<u64>) -> bool {
    forall|i: int, j: int| 0 <= i < j < s.len() ==> s[i] < s[j]
}

impl View for Bucket {
    type V = Summary;

    open spec fn view(&self) -> Summary {
        Summary {
            key: self.key,
            open: self.open,
            high: self.high,
            low: self.low,
            close: self.close,
            volume: self.volume as int,
            open_at: self.open_at,
            close_at: self.close_at,
            high_at: self.high_at,
            low_at: self.low_at,
            first_member: self.first_member,
            high_tag: self.high_tag,
            low_tag: self.low_tag,
            close_tag: self.close_tag,
            members: self.members@.to_set(),
        }
    }
}

impl Bucket {
    pub open spec fn wf(&self) -> bool {
        strictly_sorted(self.members@)
    }
}

/// A bucket opened by its first sample.
pub open spec fn start(s: Sample) -> Summary {
    Summary {
        key: s.key,
        open: s.open,
        high: s.high,
        low: s.low,
        close: s.close,
        volume: s.volume as int,
        open_at: s.at,
        close_at: s.at,
        high_at: s.at,
        low_at: s.at,
        first_member: s.member,
        high_tag: s.high_tag,
        low_tag: s.low_tag,
        close_tag: s.close_tag,
        members: set![s.member],
    }
}

/// The merge rule: the earliest sample gives the open and the latest the
/// close (the first seen wins a tie for the open, the last seen for the
/// close); the high and low are running extremes, an equal extreme moving
/// only to an earlier sample; volumes add up; members collect.
pub open spec fn absorb(a: Summary, s: Sample) -> Summary {
    let earlier = s.at < a.open_at;
    let later = s.at >= a.close_at;
    let higher = s.high > a.high || (s.high == a.high && s.at < a.high_at);
    let lower = s.low < a.low || (s.low == a.low && s.at < a.low_at);
    Summary {
        key: a.key,
        open: if earlier { s.open } else { a.open },
        open_at: if earlier { s.at } else { a.open_at },
        first_member: if earlier { s.member } else { a.first_member },
        close: if later { s.close } else { a.close },
        close_at: if later { s.at } else { a.close_at },
        close_tag: if later { s.close_tag } else { a.close_tag },
        high: if higher { s.high } else { a.high },
        high_at: if higher { s.at } else { a.high_at },
        high_tag: if higher { s.high_tag } else { a.high_tag },
        low: if lower { s.low } else { a.low },
        low_at: if lower { s.at } else { a.low_at },
        low_tag: if lower { s.low_tag } else { a.low_tag },
        volume: a.volume + s.volume,
        members: a.members.insert(s.member),
    }
}

/// The bucket of key `k` after merging the samples in order; `None` when no
/// sample has that key.
pub open spec fn summary_of(ss: Seq<Sample>, k: u64) -> Option<Summary>
    decreases ss.len(),
{
    if ss.len() == 0 {
        None
    } else {
        let prev = summary_of(ss.drop_last(), k);
        let s = ss.last();
        if s.key != k {
            prev
        } else {
            match prev {
                None => Some(start(s)),
                Some(a) => Some(absorb(a, s)),
            }
        }
    }
}

pub open spec fn volume_total(ss: Seq<Sample>) -> int
    decreases ss.len(),
{
    if ss.len() == 0 {
        0
    } else {
        volume_total(ss.drop_last()) + ss.last().volume
    }
}

/// What the engine returns for `ss`: buckets in strictly increasing key
/// order, one for each key that some sample has, each the merge of the
/// samples of its key.
pub open spec fn buckets_of(ss: Seq<Sample>, out: Seq<Bucket>) -> bool {
    &&& forall|i: int, j: int| 0 <= i < j < out.len() ==> out[i].key < out[j].key
    &&& forall|i: int| 0 <= i < out.len() ==> (#[trigger] out[i]).wf() && summary_of(ss, out[i].key) == Some(out[i]@)
    &&& forall|k: u64| #[trigger] summary_of(ss, k) is Some ==> exists|i: int| 0 <= i < out.len() && out[i].key == k
}

pub proof fn lemma_summary_volume(ss: Seq<Sample>, k: u64)
    ensures
        summary_of(ss, k) matches Some(a) ==> 0 <= a.volume <= volume_total(ss),
        volume_total(ss) >= 0,
    decreases ss.len(),
{
    if ss.len() > 0 {
        lemma_summary_volume(ss.drop_last(), k);
    }
}

pub proof fn lemma_volume_prefix(ss: Seq<Sample>, i: int)
    requires
        0 <= i <= ss.len(),
    ensures
        volume_total(ss.take(i)) <= volume_total(ss),
    decreases ss.len(),
{
    if i < ss.len() {
        assert(ss.drop_last().take(i) =~= ss.take(i));
        lemma_volume_prefix(ss.drop_last(), i);
        lemma_summary_volume(ss.drop_last(), 0);
    } else {
        assert(ss.take(i) =~= ss);
    }
}

/// Binary search in a strictly increasing vector.
pub fn locate(v: &Vec<u64>, x: u64) -> (r: (bool, usize))
    requires
        strictly_sorted(v@),
    ensures
        r.1 <= v@.len(),
        forall|j: int| 0 <= j < r.1 ==> v@[j] < x,
        forall|j: int| r.1 <= j < v@.len() ==> v@[j] >= x,
        r.0 <==> (r.1 < v@.len() && v@[r.1 as int] == x),
{
    let mut lo: usize = 0;
    let mut hi: usize = v.len();
    while lo < hi
        invariant
            lo <= hi <= v@.len(),
            strictly_sorted(v@),
            forall|j: int| 0 <= j < lo ==> v@[j] < x,
            forall|j: int| hi <= j < v@.len() ==> v@[j] >= x,
        decreases hi - lo,
    {
        let mid = lo + (hi - lo) / 2;
        if v[mid] < x {
            lo = mid + 1;
        } else {
            hi = mid;
        }
    }
    (lo < v.len() && v[lo] == x, lo)
}

/// Inserts `x` into a strictly increasing vector, keeping it so.
pub fn insert_sorted(v: &mut Vec<u64>, x: u64)
    requires
        strictly_sorted(old(v)@),
    ensures
        strictly_sorted(final(v)@),
        final(v)@.to_set() == old(v)@.to_set().insert(x),
{
    let (found, pos) = locate(v, x);
    if !found {
        v.insert(pos, x);
        assert(v@.to_set() =~= old(v)@.to_set().insert(x)) by {
            assert forall|y: u64| v@.contains(y) <==> (old(v)@.contains(y) || y == x) by {
                if v@.contains(y) {
                    let j = choose|j: int| 0 <= j < v@.len() && v@[j] == y;
                    if j < pos {
                        assert(old(v)@[j] == y);
                    } else if j > pos {
                        assert(old(v)@[j - 1] == y);
                    }
                }
                if old(v)@.contains(y) {
                    let j = choose|j: int| 0 <= j < old(v)@.len() && old(v)@[j] == y;
                    if j < pos {
                        assert(v@[j] == y);
                    } else {
                        assert(v@[j + 1] == y);
                    }
                }
                if y == x {
                    assert(v@[pos as int] == x);
                }
            }
        }
    } else {
        assert(v@.to_set() =~= old(v)@.to_set().insert(x)) by {
            assert(v@[pos as int] == x);
        }
    }
}

fn open_bucket(s: &Sample) -> (b: Bucket)
    ensures
        b.wf(),
        b@ == start(*s),
{
    let mut members = Vec::new();
    members.push(s.member);
    let b = Bucket {
        key: s.key,
        open: s.open,
        high: s.high,
        low: s.low,
        close: s.close,
        volume: s.volume,
        open_at: s.at,
        close_at: s.at,
        high_at: s.at,
        low_at: s.at,
        first_member: s.member,
        high_tag: s.high_tag,
        low_tag: s.low_tag,
        close_tag: s.close_tag,
        members,
    };
    assert(b.members@.to_set() =~= set![s.member]) by {
        assert(b.members@[0] == s.member);
    }
    b
}

fn absorb_into(b: &mut Bucket, s: &Sample)
    requires
        old(b).wf(),
        old(b).volume + s.volume <= u128::MAX,
    ensures
        final(b).wf(),
        final(b)@ == absorb(old(b)@, *s),
{
    if s.at < b.open_at {
        b.open = s.open;
        b.open_at = s.at;
        b.first_member = s.member;
    }
    if s.at >= b.close_at {
        b.close = s.close;
        b.close_at = s.at;
        b.close_tag = s.close_tag;
    }
    if s.high > b.high || (s.high == b.high && s.at < b.high_at) {
        b.high = s.high;
        b.high_at = s.at;
        b.high_tag = s.high_tag;
    }
    if s.low < b.low || (s.low == b.low && s.at < b.low_at) {
        b.low = s.low;
        b.low_at = s.at;
        b.low_tag = s.low_tag;
    }
    b.volume = b.volume + s.volume;
    insert_sorted(&mut b.members, s.member);
}

proof fn lemma_summary_step(ss: Seq<Sample>, i: int, k: u64)
    requires
        0 <= i < ss.len(),
    ensures
        summary_of(ss.take(i + 1), k) == (if ss[i].key != k {
            summary_of(ss.take(i), k)
        } else {
            match summary_of(ss.take(i), k) {
                None => Some(start(ss[i])),
                Some(a) => Some(absorb(a, ss[i])),
            }
        }),
{
    assert(ss.take(i + 1).drop_last() =~= ss.take(i));
    assert(ss.take(i + 1).last() == ss[i]);
}

/// Groups the samples by key and merges each group in input order.
pub fn accumulate(samples: &Vec<Sample>) -> (out: Vec<Bucket>)
    requires
        volume_total(samples@) <= u128::MAX,
    ensures
        buckets_of(samples@, out@),
{
    let mut out: Vec<Bucket> = Vec::new();
    let mut keys: Vec<u64> = Vec::new();
    let n = samples.len();
    let mut i: usize = 0;
    while i < n
        invariant
            n == samples@.len(),
            0 <= i <= n,
            volume_total(samples@) <= u128::MAX,
            keys@.len() == out@.len(),
            strictly_sorted(keys@),
            forall|j: int| 0 <= j < out@.len() ==> keys@[j] == (#[trigger] out@[j]).key,
            forall|j: int|
                0 <= j < out@.len() ==> (#[trigger] out@[j]).wf() && summary_of(
                    samples@.take(i as int),
                    out@[j].key,
                ) == Some(out@[j]@),
            forall|k: u64| #[trigger]
                summary_of(samples@.take(i as int), k) is Some ==> keys@.contains(k),
        decreases n - i,
    {
        let s = samples[i];
        let (found, pos) = locate(&keys, s.key);
        let ghost old_keys = keys@;
        let ghost old_out = out@;
        proof {
            lemma_volume_prefix(samples@, i + 1);
            lemma_summary_volume(samples@.take(i as int), s.key);
            assert(samples@.take(i + 1).drop_last() =~= samples@.take(i as int));
            assert(samples@.take(i + 1).last() == s);
        }
        if found {
            proof {
                assert(summary_of(samples@.take(i as int), s.key) == Some(out@[pos as int]@));
            }
            absorb_into(&mut out[pos], &s);
        } else {
            proof {
                if summary_of(samples@.take(i as int), s.key) is Some {
                    assert(keys@.contains(s.key));
                    let j = choose|j: int| 0 <= j < keys@.len() && keys@[j] == s.key;
                }
            }
            let b = open_bucket(&s);
            out.insert(pos, b);
            keys.insert(pos, s.key);
            proof {
                assert forall|a: int, b: int| 0 <= a < b < keys@.len() implies keys@[a] < keys@[b] by {
                    if b < pos {
                        assert(keys@[a] == old_keys[a] && keys@[b] == old_keys[b]);
                    } else if b == pos {
                        assert(keys@[a] == old_keys[a]);
                    } else if a < pos {
                        assert(keys@[a] == old_keys[a] && keys@[b] == old_keys[b - 1]);
                    } else if a == pos {
                        assert(keys@[b] == old_keys[b - 1]);
                        assert(old_keys[b - 1] != s.key);
                    } else {
                        assert(keys@[a] == old_keys[a - 1] && keys@[b] == old_keys[b - 1]);
                    }
                }
            }
        }
        proof {
            assert forall|k: u64| #[trigger]
                summary_of(samples@.take(i + 1), k) is Some implies keys@.contains(k) by {
                lemma_summary_step(samples@, i as int, k);
                if k == s.key {
                    assert(keys@[pos as int] == k);
                } else {
                    assert(old_keys.contains(k));
                    let j = choose|j: int| 0 <= j < old_keys.len() && old_keys[j] == k;
                    if found || j < pos {
                        assert(keys@[j] == k);
                    } else {
                        assert(keys@[j + 1] == k);
                    }
                }
            }
            assert forall|j: int| 0 <= j < out@.len() implies (#[trigger] out@[j]).wf() && summary_of(
                samples@.take(i + 1),
                out@[j].key,
            ) == Some(out@[j]@) by {
                lemma_summary_step(samples@, i as int, out@[j].key);
                if found {
                    if j != pos {
                        assert(out@[j] == old_out[j]);
                    }
                } else if j < pos {
                    assert(out@[j] == old_out[j]);
                } else if j > pos {
                    assert(out@[j] == old_out[j - 1]);
                }
            }
            assert forall|j: int| 0 <= j < out@.len() implies keys@[j] == (#[trigger] out@[j]).key by {
                if found {
                    if j != pos {
                        assert(out@[j] == old_out[j]);
                    }
                } else if j < pos {
                    assert(out@[j] == old_out[j]);
                } else if j > pos {
                    assert(out@[j] == old_out[j - 1]);
                }
            }
        }
        i = i + 1;
    }
    assert(samples@.take(n as int) =~= samples@);
    proof {
        assert forall|k: u64| #[trigger] summary_of(samples@, k) is Some implies exists|j: int|
            0 <= j < out@.len() && out@[j].key == k by {
            assert(keys@.contains(k));
            let j = choose|j: int| 0 <= j < keys@.len() && keys@[j] == k;
            assert(out@[j].key == k);
        }
        assert forall|a: int, b: int| 0 <= a < b < out@.len() implies out@[a].key < out@[b].key by {
            assert(keys@[a] == out@[a].key && keys@[b] == out@[b].key);
        }
    }
    out
}

/// Tags of a bucket are tags of its samples: a bound on all sample tags
/// bounds the bucket's.
pub proof fn lemma_summary_tags(ss: Seq<Sample>, k: u64, n: int)
    requires
        forall|j: int|
            0 <= j < ss.len() ==> (#[trigger] ss[j]).high_tag < n && ss[j].low_tag < n
                && ss[j].close_tag < n,
    ensures
        summary_of(ss, k) matches Some(a) ==> a.high_tag < n && a.low_tag < n && a.close_tag < n,
    decreases ss.len(),
{
    if ss.len() > 0 {
        let p = ss.drop_last();
        assert forall|j: int| 0 <= j < p.len() implies (#[trigger] p[j]).high_tag < n && p[j].low_tag < n
            && p[j].close_tag < n by {
            assert(p[j] == ss[j]);
        }
        lemma_summary_tags(p, k, n);
        assert(ss.last() == ss[ss.len() - 1]);
    }
}

/// Index of the bucket with key `k`, by binary search.
pub fn lookup(out: &Vec<Bucket>, k: u64) -> (r: Option<usize>)
    requires
        forall|i: int, j: int| 0 <= i < j < out@.len() ==> out@[i].key < out@[j].key,
    ensures
        r matches Some(i) ==> i < out@.len() && out@[i as int].key == k,
        r is None ==> forall|i: int| 0 <= i < out@.len() ==> out@[i].key != k,
{
    let mut lo: usize = 0;
    let mut hi: usize = out.len();
    while lo < hi
        invariant
            lo <= hi <= out@.len(),
            forall|i: int, j: int| 0 <= i < j < out@.len() ==> out@[i].key < out@[j].key,
            forall|j: int| 0 <= j < lo ==> out@[j].key < k,
            forall|j: int| hi <= j < out@.len() ==> out@[j].key > k,
        decreases hi - lo,
    {
        let mid = lo + (hi - lo) / 2;
        let mk = out[mid].key;
        if mk == k {
            return Some(mid);
        } else if mk < k {
            lo = mid + 1;
        } else {
            hi = mid;
        }
    }
    None
}

/// The close tag of a bucket is the close tag of one of its samples.
pub proof fn lemma_summary_close_tag(ss: Seq<Sample>, k: u64, n: int)
    requires
        forall|j: int| 0 <= j < ss.len() ==> (#[trigger] ss[j]).close_tag < n,
    ensures
        summary_of(ss, k) matches Some(a) ==> a.close_tag < n,
    decreases ss.len(),
{
    if ss.len() > 0 {
        let p = ss.drop_last();
        assert forall|j: int| 0 <= j < p.len() implies (#[trigger] p[j]).close_tag < n by {
            assert(p[j] == ss[j]);
        }
        lemma_summary_close_tag(p, k, n);
        assert(ss.last() == ss[ss.len() - 1]);
    }
}

/// A key has a bucket exactly where some sample has that key.
pub proof fn lemma_summary_has_sample(ss: Seq<Sample>, k: u64)
    ensures
        summary_of(ss, k) is Some <==> exists|j: int| 0 <= j < ss.len() && (#[trigger] ss[j]).key == k,
    decreases ss.len(),
{
    if ss.len() > 0 {
        let p = ss.drop_last();
        lemma_summary_has_sample(p, k);
        if summary_of(p, k) is Some {
            let j = choose|j: int| 0 <= j < p.len() && (#[trigger] p[j]).key == k;
            assert(ss[j] == p[j]);
        }
        assert(ss.last() == ss[ss.len() - 1]);
        if exists|j: int| 0 <= j < ss.len() && (#[trigger] ss[j]).key == k {
            let j = choose|j: int| 0 <= j < ss.len() && (#[trigger] ss[j]).key == k;
            if j < ss.len() - 1 {
                assert(p[j] == ss[j]);
            }
        }
    }
}

/// Total volume of the samples with key `k`.
pub open spec fn key_volume(ss: Seq<Sample>, k: u64) -> int
    decreases ss.len(),
{
    if ss.len() == 0 {
        0
    } else {
        key_volume(ss.drop_last(), k) + if ss.last().key == k {
            ss.last().volume as int
        } else {
            0
        }
    }
}

/// Members of the samples with key `k`.
pub open spec fn key_members(ss: Seq<Sample>, k: u64) -> Set<u64> {
    Set::new(|m: u64| exists|j: int| 0 <= j < ss.len() && (#[trigger] ss[j]).key == k && ss[j].member == m)
}

/// What a bucket is, said of its samples alone: its high is the highest
/// high and its low the lowest low of the samples of its key; its open comes
/// from an earliest of them; its volume is their total and its members are
/// theirs.
pub proof fn lemma_summary_characterized(ss: Seq<Sample>, k: u64)
    requires
        summary_of(ss, k) is Some,
    ensures
        ({
            let a = summary_of(ss, k)->0;
            &&& forall|j: int|
                0 <= j < ss.len() && (#[trigger] ss[j]).key == k ==> a.low <= ss[j].low && ss[j].high <= a.high
                    && a.open_at <= ss[j].at
            &&& exists|j: int| 0 <= j < ss.len() && (#[trigger] ss[j]).key == k && ss[j].high == a.high
            &&& exists|j: int| 0 <= j < ss.len() && (#[trigger] ss[j]).key == k && ss[j].low == a.low
            &&& exists|j: int|
                0 <= j < ss.len() && (#[trigger] ss[j]).key == k && ss[j].at == a.open_at && ss[j].member
                    == a.first_member && ss[j].open == a.open
            &&& a.volume == key_volume(ss, k)
            &&& a.members == key_members(ss, k)
        }),
    decreases ss.len(),
{
    let p = ss.drop_last();
    let s = ss.last();
    let n = ss.len() - 1;
    assert(ss[n] == s);
    assert forall|j: int| 0 <= j < p.len() implies #[trigger] p[j] == ss[j] by {}
    if s.key != k {
        lemma_summary_characterized(p, k);
        let a = summary_of(ss, k)->0;
        assert(a == summary_of(p, k)->0);
        assert forall|j: int| 0 <= j < ss.len() && (#[trigger] ss[j]).key == k implies a.low <= ss[j].low
            && ss[j].high <= a.high && a.open_at <= ss[j].at by {
            assert(j < n);
            assert(p[j] == ss[j]);
        }
        let jh = choose|j: int| 0 <= j < p.len() && (#[trigger] p[j]).key == k && p[j].high == a.high;
        assert(ss[jh] == p[jh]);
        let jl = choose|j: int| 0 <= j < p.len() && (#[trigger] p[j]).key == k && p[j].low == a.low;
        assert(ss[jl] == p[jl]);
        let jo = choose|j: int|
            0 <= j < p.len() && (#[trigger] p[j]).key == k && p[j].at == a.open_at && p[j].member
                == a.first_member && p[j].open == a.open;
        assert(ss[jo] == p[jo]);
        assert(key_members(ss, k) =~= key_members(p, k)) by {
            assert forall|m: u64| key_members(ss, k).contains(m) implies key_members(p, k).contains(m) by {
                let j = choose|j: int| 0 <= j < ss.len() && (#[trigger] ss[j]).key == k && ss[j].member == m;
                assert(j < n);
                assert(p[j] == ss[j]);
            }
            assert forall|m: u64| key_members(p, k).contains(m) implies key_members(ss, k).contains(m) by {
                let j = choose|j: int| 0 <= j < p.len() && (#[trigger] p[j]).key == k && p[j].member == m;
                assert(ss[j] == p[j]);
            }
        }
    } else {
        if summary_of(p, k) is None {
            lemma_summary_has_sample(p, k);
            assert forall|j: int| 0 <= j < p.len() implies (#[trigger] p[j]).key != k by {}
            let a = summary_of(ss, k)->0;
            assert(a == start(s));
            assert forall|j: int| 0 <= j < ss.len() && (#[trigger] ss[j]).key == k implies a.low <= ss[j].low
                && ss[j].high <= a.high && a.open_at <= ss[j].at by {
                if j < n {
                    assert(p[j] == ss[j]);
                    assert(p[j].key != k);
                }
            }
            assert(key_volume(p, k) == 0) by {
                lemma_key_volume_absent(p, k);
            }
            assert(key_members(ss, k) =~= set![s.member]) by {
                assert forall|m: u64| key_members(ss, k).contains(m) implies m == s.member by {
                    let j = choose|j: int| 0 <= j < ss.len() && (#[trigger] ss[j]).key == k && ss[j].member == m;
                    if j < n {
                        assert(p[j] == ss[j]);
                    }
                }
                assert(key_members(ss, k).contains(s.member)) by {
                    assert(ss[n].key == k && ss[n].member == s.member);
                }
            }
        } else {
            lemma_summary_characterized(p, k);
            let b = summary_of(p, k)->0;
            let a = summary_of(ss, k)->0;
            assert(a == absorb(b, s));
            assert forall|j: int| 0 <= j < ss.len() && (#[trigger] ss[j]).key == k implies a.low <= ss[j].low
                && ss[j].high <= a.high && a.open_at <= ss[j].at by {
                if j < n {
                    assert(p[j] == ss[j]);
                }
            }
            let jh = choose|j: int| 0 <= j < p.len() && (#[trigger] p[j]).key == k && p[j].high == b.high;
            assert(ss[jh] == p[jh]);
            let jl = choose|j: int| 0 <= j < p.len() && (#[trigger] p[j]).key == k && p[j].low == b.low;
            assert(ss[jl] == p[jl]);
            let jo = choose|j: int|
                0 <= j < p.len() && (#[trigger] p[j]).key == k && p[j].at == b.open_at && p[j].member
                    == b.first_member && p[j].open == b.open;
            assert(ss[jo] == p[jo]);
            assert(key_members(ss, k) =~= key_members(p, k).insert(s.member)) by {
                assert forall|m: u64| key_members(ss, k).contains(m) implies key_members(p, k).insert(
                    s.member,
                ).contains(m) by {
                    let j = choose|j: int| 0 <= j < ss.len() && (#[trigger] ss[j]).key == k && ss[j].member == m;
                    if j < n {
                        assert(p[j] == ss[j]);
                    }
                }
                assert forall|m: u64| key_members(p, k).insert(s.member).contains(m) implies key_members(
                    ss,
                    k,
                ).contains(m) by {
                    if m == s.member {
                        assert(ss[n].key == k);
                    } else {
                        let j = choose|j: int| 0 <= j < p.len() && (#[trigger] p[j]).key == k && p[j].member == m;
                        assert(ss[j] == p[j]);
                    }
                }
            }
        }
    }
}

proof fn lemma_key_volume_absent(ss: Seq<Sample>, k: u64)
    requires
        forall|j: int| 0 <= j < ss.len() ==> (#[trigger] ss[j]).key != k,
    ensures
        key_volume(ss, k) == 0,
    decreases ss.len(),
{
    if ss.len() > 0 {
        let p = ss.drop_last();
        assert forall|j: int| 0 <= j < p.len() implies (#[trigger] p[j]).key != k by {
            assert(p[j] == ss[j]);
        }
        lemma_key_volume_absent(p, k);
        assert(ss.last() == ss[ss.len() - 1]);
    }
}

} // verus!
