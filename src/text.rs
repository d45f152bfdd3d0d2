//! Decimal text of integers, fixed-point values and dates.
use vstd::prelude::*;
use vstd::string::{StrSliceExecFns, StringExecFns};
use crate::session_type::{all_digits, digits_value, min_nat};

verus! {

pub open spec fn digit_char(d: nat) -> char {
    if d == 0 {
        '0'
    } else if d == 1 {
        '1'
    } else if d == 2 {
        '2'
    } else if d == 3 {
        '3'
    } else if d == 4 {
        '4'
    } else if d == 5 {
        '5'
    } else if d == 6 {
        '6'
    } else if d == 7 {
        '7'
    } else if d == 8 {
        '8'
    } else {
        '9'
    }
}

/// Decimal digits of `n`, without leading zeros.
pub open spec fn nat_text(n: nat) -> Seq<char>
    decreases n,
{
    if n < 10 {
        seq![digit_char(n)]
    } else {
        nat_text(n / 10).push(digit_char(n % 10))
    }
}

/// `s` preceded by zeros up to width `w`.
pub open spec fn zero_pad(s: Seq<char>, w: nat) -> Seq<char> {
    if s.len() >= w {
        s
    } else {
        Seq::new((w - s.len()) as nat, |_i: int| '0') + s
    }
}

pub open spec fn abs_nat(v: int) -> nat {
    if v >= 0 { v as nat } else { (-v) as nat }
}

pub open spec fn sign_text(v: int) -> Seq<char> {
    if v < 0 { seq!['-'] } else { Seq::empty() }
}

/// A value in millionths, written with six decimals.
pub open spec fn fixed6_text(v: int) -> Seq<char> {
    sign_text(v) + nat_text(abs_nat(v) / 1_000_000) + seq!['.'] + zero_pad(
        nat_text(abs_nat(v) % 1_000_000),
        6,
    )
}

/// A date written `YYYY-MM-DD`.
pub open spec fn date_text(y: int, m: nat, d: nat) -> Seq<char> {
    sign_text(y) + zero_pad(nat_text(abs_nat(y)), 4) + seq!['-'] + zero_pad(nat_text(m), 2) + seq![
        '-',
    ] + zero_pad(nat_text(d), 2)
}

fn digit_str(d: u128) -> (r: &'static str)
    requires
        d < 10,
    ensures
        r@ == seq![digit_char(d as nat)],
{
    if d == 0 {
        proof { reveal_strlit("0"); }
        "0"
    } else if d == 1 {
        proof { reveal_strlit("1"); }
        "1"
    } else if d == 2 {
        proof { reveal_strlit("2"); }
        "2"
    } else if d == 3 {
        proof { reveal_strlit("3"); }
        "3"
    } else if d == 4 {
        proof { reveal_strlit("4"); }
        "4"
    } else if d == 5 {
        proof { reveal_strlit("5"); }
        "5"
    } else if d == 6 {
        proof { reveal_strlit("6"); }
        "6"
    } else if d == 7 {
        proof { reveal_strlit("7"); }
        "7"
    } else if d == 8 {
        proof { reveal_strlit("8"); }
        "8"
    } else {
        proof { reveal_strlit("9"); }
        "9"
    }
}

/// Appends the decimal digits of `n`.
pub fn push_nat(out: &mut String, n: u128)
    ensures
        final(out)@ == old(out)@ + nat_text(n as nat),
    decreases n,
{
    if n >= 10 {
        push_nat(out, n / 10);
        out.append(digit_str(n % 10));
        assert(final(out)@ == old(out)@ + nat_text(n as nat));
    } else {
        out.append(digit_str(n));
    }
}

pub fn digit_count(n: u128) -> (r: usize)
    ensures
        r == nat_text(n as nat).len(),
        r <= 40,
    decreases n,
{
    if n >= 10 {
        let k = digit_count(n / 10);
        proof { lemma_digit_count_bound(n as nat); }
        k + 1
    } else {
        1
    }
}

proof fn lemma_digit_count_bound(n: nat)
    requires
        n < 0x1_0000_0000_0000_0000_0000_0000_0000_0000,
    ensures
        nat_text(n).len() <= 39,
{
    reveal_with_fuel(pow10, 40);
    assert(pow10(39) == 1_000_000_000_000_000_000_000_000_000_000_000_000_000);
    lemma_digit_count_le(n, 39);
}

proof fn lemma_digit_count_le(n: nat, k: nat)
    requires
        k >= 1,
        n < pow10(k),
    ensures
        nat_text(n).len() <= k,
    decreases k,
{
    if n >= 10 {
        assert(n / 10 < pow10((k - 1) as nat)) by {
            assert(k >= 2) by {
                if k == 1 {
                    assert(pow10(1) == 10);
                }
            }
            lemma_pow10_unfold(k);
        }
        lemma_digit_count_le(n / 10, (k - 1) as nat);
    }
}

pub open spec fn pow10(k: nat) -> nat
    decreases k,
{
    if k == 0 { 1 } else { 10 * pow10((k - 1) as nat) }
}

proof fn lemma_pow10_unfold(k: nat)
    requires
        k >= 1,
    ensures
        pow10(k) == 10 * pow10((k - 1) as nat),
{
}

/// Appends `n` zero-padded to width `w`.
pub fn push_padded(out: &mut String, n: u128, w: usize)
    ensures
        final(out)@ == old(out)@ + zero_pad(nat_text(n as nat), w as nat),
{
    let len = digit_count(n);
    let ghost start = out@;
    if len < w {
        let mut k: usize = len;
        while k < w
            invariant
                len <= k <= w,
                out@ == start + Seq::new((k - len) as nat, |_i: int| '0'),
            decreases w - k,
        {
            proof { reveal_strlit("0"); }
            out.append("0");
            k = k + 1;
            assert(out@ =~= start + Seq::new((k - len) as nat, |_i: int| '0'));
        }
    }
    push_nat(out, n);
    assert(out@ =~= start + zero_pad(nat_text(n as nat), w as nat));
}

/// Appends the sign of a negative value.
pub fn push_sign(out: &mut String, negative: bool)
    ensures
        final(out)@ == old(out)@ + (if negative { seq!['-'] } else { Seq::<char>::empty() }),
{
    if negative {
        proof { reveal_strlit("-"); }
        out.append("-");
    } else {
        assert(out@ =~= out@ + Seq::<char>::empty());
    }
}

pub fn push_str(out: &mut String, s: &str)
    ensures
        final(out)@ == old(out)@ + s@,
{
    out.append(s);
}

/// Appends a magnitude in millionths with six decimals.
fn push_fixed6_magnitude(out: &mut String, a: u128)
    ensures
        final(out)@ == old(out)@ + nat_text(a as nat / 1_000_000) + seq!['.'] + zero_pad(
            nat_text(a as nat % 1_000_000),
            6,
        ),
{
    push_nat(out, a / 1_000_000);
    proof { reveal_strlit("."); }
    push_str(out, ".");
    push_padded(out, a % 1_000_000, 6);
}

/// A signed value in millionths, with six decimals.
pub fn fixed6(v: i64) -> (r: String)
    ensures
        r@ == fixed6_text(v as int),
{
    let mut out = String::new();
    push_sign(&mut out, v < 0);
    let a: u128 = if v < 0 { (0i128 - v as i128) as u128 } else { v as u128 };
    push_fixed6_magnitude(&mut out, a);
    assert(out@ =~= fixed6_text(v as int));
    out
}

/// An unsigned value in millionths, with six decimals.
pub fn fixed6_unsigned(v: u128) -> (r: String)
    ensures
        r@ == fixed6_text(v as int),
{
    let mut out = String::new();
    push_fixed6_magnitude(&mut out, v);
    assert(out@ =~= fixed6_text(v as int));
    out
}

/// A year and month written `YYYY-MM`.
pub open spec fn month_text(y: int, m: nat) -> Seq<char> {
    sign_text(y) + zero_pad(nat_text(abs_nat(y)), 4) + seq!['-'] + zero_pad(nat_text(m), 2)
}

/// An integer in plain decimal.
pub open spec fn int_text(v: int) -> Seq<char> {
    sign_text(v) + nat_text(abs_nat(v))
}

/// Appends an integer in plain decimal.
pub fn push_int(out: &mut String, v: i64)
    ensures
        final(out)@ == old(out)@ + int_text(v as int),
{
    let ghost start = out@;
    push_sign(out, v < 0);
    let a: u128 = if v < 0 { (0i128 - v as i128) as u128 } else { v as u128 };
    push_nat(out, a);
    assert(out@ =~= start + int_text(v as int));
}

/// The decimal text of `n`.
pub fn nat_string(n: u128) -> (r: String)
    ensures
        r@ == nat_text(n as nat),
{
    let mut out = String::new();
    push_nat(&mut out, n);
    assert(out@ =~= nat_text(n as nat));
    out
}

/// Appends a year and month as `YYYY-MM`.
pub fn push_month(out: &mut String, y: i64, m: u64)
    ensures
        final(out)@ == old(out)@ + month_text(y as int, m as nat),
{
    let ghost start = out@;
    push_sign(out, y < 0);
    let a: u128 = if y < 0 { (0i128 - y as i128) as u128 } else { y as u128 };
    push_padded(out, a, 4);
    proof { reveal_strlit("-"); }
    push_str(out, "-");
    push_padded(out, m as u128, 2);
    assert(out@ =~= start + month_text(y as int, m as nat));
}

/// Appends a date as `YYYY-MM-DD`.
pub fn push_date(out: &mut String, y: i64, m: u64, d: u64)
    ensures
        final(out)@ == old(out)@ + date_text(y as int, m as nat, d as nat),
{
    let ghost start = out@;
    push_sign(out, y < 0);
    let a: u128 = if y < 0 { (0i128 - y as i128) as u128 } else { y as u128 };
    push_padded(out, a, 4);
    proof { reveal_strlit("-"); }
    push_str(out, "-");
    push_padded(out, m as u128, 2);
    push_str(out, "-");
    push_padded(out, d as u128, 2);
    assert(out@ =~= start + date_text(y as int, m as nat, d as nat));
}

/// Index of the first `.` at or after `from`, or the length.
pub open spec fn dot_index(b: Seq<char>, from: int) -> int
    decreases b.len() - from,
{
    if from >= b.len() {
        b.len() as int
    } else if b[from] == '.' {
        from
    } else {
        dot_index(b, from + 1)
    }
}

pub open spec fn has_sign(s: Seq<char>) -> bool {
    s.len() > 0 && (s[0] == '-' || s[0] == '+')
}

/// The text after an optional sign.
pub open spec fn unsigned_part(s: Seq<char>) -> Seq<char> {
    if has_sign(s) { s.drop_first() } else { s }
}

pub open spec fn int_digits(b: Seq<char>) -> Seq<char> {
    b.subrange(0, dot_index(b, 0))
}

pub open spec fn frac_digits(b: Seq<char>) -> Seq<char> {
    let d = dot_index(b, 0);
    if d < b.len() { b.subrange(d + 1, b.len() as int) } else { Seq::empty() }
}

pub open spec fn min6(n: nat) -> nat {
    if n < 6 { n } else { 6 }
}

/// A fraction's digits in millionths, rounded half away from zero.
pub open spec fn frac_millionths(f: Seq<char>) -> nat {
    digits_value(f.take(min6(f.len()) as int)) * pow10((6 - min6(f.len())) as nat) + if f.len() > 6 && f[6]
        >= '5' {
        1nat
    } else {
        0nat
    }
}

/// The magnitude in millionths of unsigned decimal text: digits, with an
/// optional `.` and fraction digits, at least one digit in all.
pub open spec fn decimal_magnitude(b: Seq<char>) -> Option<nat> {
    let ip = int_digits(b);
    let fp = frac_digits(b);
    if all_digits(ip) && all_digits(fp) && ip.len() + fp.len() > 0 {
        Some(digits_value(ip) * 1_000_000 + frac_millionths(fp))
    } else {
        None
    }
}

/// Decimal text read in millionths; `None` where it is no decimal or the
/// value does not fit.
pub open spec fn millionths_value(s: Seq<char>) -> Option<i64> {
    match decimal_magnitude(unsigned_part(s)) {
        Some(m) => {
            let v: int = if s.len() > 0 && s[0] == '-' { -m } else { m as int };
            if i64::MIN <= v <= i64::MAX { Some(v as i64) } else { None }
        },
        None => None,
    }
}

fn pow10_exec(k: u64) -> (r: u64)
    requires
        k <= 6,
    ensures
        r == pow10(k as nat),
{
    reveal_with_fuel(pow10, 7);
    if k == 0 {
        1
    } else if k == 1 {
        10
    } else if k == 2 {
        100
    } else if k == 3 {
        1000
    } else if k == 4 {
        10_000
    } else if k == 5 {
        100_000
    } else {
        1_000_000
    }
}

proof fn lemma_dot_index_bounds(b: Seq<char>, from: int)
    requires
        0 <= from <= b.len(),
    ensures
        from <= dot_index(b, from) <= b.len(),
        dot_index(b, from) < b.len() ==> b[dot_index(b, from)] == '.',
        forall|k: int| from <= k < dot_index(b, from) ==> b[k] != '.',
    decreases b.len() - from,
{
    if from < b.len() && b[from] != '.' {
        lemma_dot_index_bounds(b, from + 1);
    }
}

proof fn lemma_frac_bound(f: nat, cnt: nat)
    requires
        cnt <= 6,
        f < pow10(cnt),
    ensures
        f * pow10((6 - cnt) as nat) + 1 <= 1_000_000,
{
    reveal_with_fuel(pow10, 7);
    let p = pow10((6 - cnt) as nat);
    assert(pow10(0) == 1 && pow10(1) == 10 && pow10(2) == 100 && pow10(3) == 1000);
    assert(pow10(4) == 10_000 && pow10(5) == 100_000 && pow10(6) == 1_000_000);
    assert(pow10(cnt) * p == 1_000_000) by {
        if cnt == 0 {
            assert(p == pow10(6));
        } else if cnt == 1 {
            assert(p == pow10(5));
        } else if cnt == 2 {
            assert(p == pow10(4));
        } else if cnt == 3 {
            assert(p == pow10(3));
        } else if cnt == 4 {
            assert(p == pow10(2));
        } else if cnt == 5 {
            assert(p == pow10(1));
        } else {
            assert(p == pow10(0));
        }
    }
    assert(f * p + 1 <= pow10(cnt) * p) by (nonlinear_arith)
        requires
            f < pow10(cnt),
            p >= 1,
    ;
}

/// Reads decimal text such as `-12.5` in millionths.
pub fn parse_millionths(s: &str) -> (r: Option<i64>)
    ensures
        r == millionths_value(s@),
{
    let len = s.unicode_len();
    let mut start: usize = 0;
    let mut negative = false;
    if len > 0 {
        let c0 = s.get_char(0);
        if c0 == '-' || c0 == '+' {
            start = 1;
            negative = c0 == '-';
        }
    }
    let ghost b = unsigned_part(s@);
    assert(b == s@.subrange(start as int, len as int));
    // The dot, if any.
    let mut d: usize = start;
    while d < len && s.get_char(d) != '.'
        invariant
            start <= d <= len,
            len == s@.len(),
            b == unsigned_part(s@),
            b == s@.subrange(start as int, len as int),
            dot_index(b, 0) == dot_index(b, d - start),
        decreases len - d,
    {
        d = d + 1;
    }
    proof {
        lemma_dot_index_bounds(b, 0);
    }
    assert(dot_index(b, 0) == d - start);
    let ghost ip = int_digits(b);
    let ghost fp = frac_digits(b);
    // Integer digits, capped where the value is surely out of range.
    let cap: u64 = 10_000_000_000_000;
    let mut v: u64 = 0;
    let mut k: usize = start;
    while k < d
        invariant
            start <= k <= d <= len,
            len == s@.len(),
            b == unsigned_part(s@),
            b == s@.subrange(start as int, len as int),
            ip == int_digits(b),
            ip == b.subrange(0, (d - start) as int),
            all_digits(s@.subrange(start as int, k as int)),
            v as int == min_nat(digits_value(s@.subrange(start as int, k as int)), cap as nat),
            cap == 10_000_000_000_000,
        decreases d - k,
    {
        let c = s.get_char(k);
        if !('0' <= c && c <= '9') {
            assert(ip[(k - start) as int] == c);
            assert(!all_digits(ip));
            return None;
        }
        let ghost pre = s@.subrange(start as int, k as int);
        let ghost next = s@.subrange(start as int, k + 1);
        assert(next.drop_last() == pre);
        let dv: u64 = (c as u32 - '0' as u32) as u64;
        if v >= cap {
            v = cap;
        } else {
            v = v * 10 + dv;
            if v > cap {
                v = cap;
            }
        }
        k = k + 1;
    }
    assert(s@.subrange(start as int, d as int) == ip);
    // Fraction digits: the first six, and the seventh for rounding.
    let mut f: u64 = 0;
    let mut cnt: u64 = 0;
    let mut up: bool = false;
    let fs: usize = if d < len { d + 1 } else { len };
    assert(fp == s@.subrange(fs as int, len as int));
    let mut k: usize = fs;
    while k < len
        invariant
            fs <= k <= len,
            len == s@.len(),
            b == unsigned_part(s@),
            fp == frac_digits(b),
            fp == s@.subrange(fs as int, len as int),
            all_digits(fp.take((k - fs) as int)),
            cnt == min6((k - fs) as nat),
            f == digits_value(fp.take(cnt as int)),
            cnt <= 6,
            f < pow10(cnt as nat),
            up == ((k - fs) > 6 && fp[6] >= '5'),
        decreases len - k,
    {
        let c = s.get_char(k);
        let j: usize = k - fs;
        assert(fp[j as int] == c);
        if !('0' <= c && c <= '9') {
            assert(!all_digits(fp));
            return None;
        }
        assert(fp.take(j + 1).drop_last() == fp.take(j as int));
        if cnt < 6 {
            assert(fp.take((cnt + 1) as int).drop_last() == fp.take(cnt as int));
            proof {
                reveal_with_fuel(pow10, 7);
                assert(pow10(0) == 1 && pow10(1) == 10 && pow10(2) == 100 && pow10(3) == 1000);
                assert(pow10(4) == 10_000 && pow10(5) == 100_000);
                lemma_pow10_unfold((cnt + 1) as nat);
            }
            f = f * 10 + (c as u32 - '0' as u32) as u64;
            cnt = cnt + 1;
        } else if j == 6 {
            up = c >= '5';
        }
        k = k + 1;
    }
    assert(fp.take(fp.len() as int) == fp);
    if d - start == 0 && len - fs == 0 {
        return None;
    }
    proof {
        lemma_frac_bound(f as nat, cnt as nat);
    }
    let frac: u64 = f * pow10_exec(6 - cnt) + if up { 1 } else { 0 };
    assert(frac == frac_millionths(fp));
    if v >= cap {
        return None;
    }
    let m: u64 = v * 1_000_000 + frac;
    if negative {
        if m > 0x8000_0000_0000_0000 {
            return None;
        }
        Some((0i128 - m as i128) as i64)
    } else {
        if m > 0x7fff_ffff_ffff_ffff {
            return None;
        }
        Some(m as i64)
    }
}

} // verus!
