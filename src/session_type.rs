//! Trading sessions, resolved from the hour of a timestamp.
use vstd::prelude::*;
use vstd::string::StrSliceExecFns;
use vstd::string::StringExecFns;

verus! {

#[derive(Debug, Clone, Copy, PartialEq, Eq, Structural, Hash)]
pub enum Session {
    AS,
    LN,
    NYAM,
    NYL,
    NYPM,
    Unknown,
}

pub open spec fn session_name(s: Session) -> &'static str {
    match s {
        Session::AS => "AS",
        Session::LN => "LN",
        Session::NYAM => "NYAM",
        Session::NYL => "NYL",
        Session::NYPM => "NYPM",
        Session::Unknown => "Unknown",
    }
}

/// The fixed partition of the hours of a day.
pub open spec fn session_of_hour(hour: int) -> Session {
    if 1 <= hour <= 7 {
        Session::AS
    } else if 8 <= hour <= 14 {
        Session::LN
    } else if 15 <= hour <= 18 {
        Session::NYAM
    } else if 19 <= hour <= 20 {
        Session::NYL
    } else if 21 <= hour <= 23 {
        Session::NYPM
    } else {
        Session::Unknown
    }
}

/// Position of a session in the day; also its sort order.
pub open spec fn session_rank(s: Session) -> nat {
    match s {
        Session::AS => 0,
        Session::LN => 1,
        Session::NYAM => 2,
        Session::NYL => 3,
        Session::NYPM => 4,
        Session::Unknown => 5,
    }
}

pub open spec fn is_date_time_separator(c: char) -> bool {
    c == 'T' || c == ' '
}

pub open spec fn ends_hour_token(c: char) -> bool {
    c == 'T' || c == ' ' || c == ':'
}

/// Index of the first date/time separator at or after `from`, or the length.
pub open spec fn next_separator(s: Seq<char>, from: int) -> int
    decreases s.len() - from,
{
    if from >= s.len() {
        s.len() as int
    } else if is_date_time_separator(s[from]) {
        from
    } else {
        next_separator(s, from + 1)
    }
}

/// Index of the first character at or after `from` that ends the hour token.
pub open spec fn hour_token_end(s: Seq<char>, from: int) -> int
    decreases s.len() - from,
{
    if from >= s.len() {
        s.len() as int
    } else if ends_hour_token(s[from]) {
        from
    } else {
        hour_token_end(s, from + 1)
    }
}

/// The text of the time part before its first `:`; `None` without a time part.
pub open spec fn hour_token(s: Seq<char>) -> Option<Seq<char>> {
    let i = next_separator(s, 0);
    if i >= s.len() {
        None
    } else {
        Some(s.subrange(i + 1, hour_token_end(s, i + 1)))
    }
}

pub open spec fn is_digit(c: char) -> bool {
    '0' <= c <= '9'
}

pub open spec fn digit_value(c: char) -> nat {
    (c as nat - '0' as nat) as nat
}

/// Value of a string of decimal digits.
pub open spec fn digits_value(s: Seq<char>) -> nat
    decreases s.len(),
{
    if s.len() == 0 {
        0
    } else {
        digits_value(s.drop_last()) * 10 + digit_value(s.last())
    }
}

pub open spec fn all_digits(s: Seq<char>) -> bool {
    forall|i: int| 0 <= i < s.len() ==> is_digit(#[trigger] s[i])
}

/// Decimal text of an unsigned 32-bit integer, as `u32::from_str` reads it:
/// an optional `+`, then one or more digits whose value fits.
pub open spec fn parse_u32_spec(s: Seq<char>) -> Option<u32> {
    let d = if s.len() > 0 && s[0] == '+' { s.drop_first() } else { s };
    if d.len() > 0 && all_digits(d) && digits_value(d) <= u32::MAX {
        Some(digits_value(d) as u32)
    } else {
        None
    }
}

/// The session of a timestamp: its hour token read as an integer, mapped by
/// the hour partition; `Unknown` where there is no readable hour.
pub open spec fn session_of_timestamp(s: Seq<char>) -> Session {
    match hour_token(s) {
        Some(tok) => match parse_u32_spec(tok) {
            Some(h) => session_of_hour(h as int),
            None => Session::Unknown,
        },
        None => Session::Unknown,
    }
}

/// Reads `s[from..to]` as `u32::from_str` does.
fn parse_u32_range(s: &str, from: usize, to: usize) -> (r: Option<u32>)
    requires
        from <= to <= s@.len(),
    ensures
        r == parse_u32_spec(s@.subrange(from as int, to as int)),
{
    let ghost tok = s@.subrange(from as int, to as int);
    let mut start: usize = from;
    if from < to && s.get_char(from) == '+' {
        start = from + 1;
    }
    let ghost d = s@.subrange(start as int, to as int);
    assert(d == (if tok.len() > 0 && tok[0] == '+' { tok.drop_first() } else { tok }));
    if start >= to {
        return None;
    }
    let cap: u64 = 0x1_0000_0000;
    let mut v: u64 = 0;
    let mut k: usize = start;
    while k < to
        invariant
            start <= k <= to <= s@.len(),
            d == s@.subrange(start as int, to as int),
            tok == s@.subrange(from as int, to as int),
            d == (if tok.len() > 0 && tok[0] == '+' { tok.drop_first() } else { tok }),
            all_digits(s@.subrange(start as int, k as int)),
            v as int == min_nat(digits_value(s@.subrange(start as int, k as int)), cap as nat),
            cap == 0x1_0000_0000,
        decreases to - k,
    {
        let c = s.get_char(k);
        if !('0' <= c && c <= '9') {
            assert(d[(k - start) as int] == c);
            assert(!is_digit(d[(k - start) as int]));
            assert(!all_digits(d));
            return None;
        }
        let ghost pre = s@.subrange(start as int, k as int);
        let ghost next = s@.subrange(start as int, k + 1);
        assert(next.drop_last() == pre);
        assert(next.last() == c);
        let dv: u64 = (c as u32 - '0' as u32) as u64;
        if v >= cap {
            v = cap;
        } else {
            v = v * 10 + dv;
            if v > cap {
                v = cap;
            }
        }
        k = k + 1;
    }
    assert(s@.subrange(start as int, k as int) == d);
    if v >= cap {
        None
    } else {
        Some(v as u32)
    }
}

pub open spec fn min_nat(a: nat, b: nat) -> nat {
    if a <= b { a } else { b }
}

/// Index of the first date/time separator at or after `from`, or of the
/// first character that ends the hour token where `stop_at_colon` holds.
fn scan(s: &str, from: usize, len: usize, stop_at_colon: bool) -> (r: usize)
    requires
        len == s@.len(),
        from <= len,
    ensures
        stop_at_colon ==> r == hour_token_end(s@, from as int),
        !stop_at_colon ==> r == next_separator(s@, from as int),
{
    let mut k: usize = from;
    while k < len
        invariant
            from <= k <= len,
            len == s@.len(),
            stop_at_colon ==> hour_token_end(s@, from as int) == hour_token_end(s@, k as int),
            !stop_at_colon ==> next_separator(s@, from as int) == next_separator(s@, k as int),
        decreases len - k,
    {
        let c = s.get_char(k);
        if c == 'T' || c == ' ' || (stop_at_colon && c == ':') {
            return k;
        }
        k = k + 1;
    }
    k
}

impl Session {
    pub fn as_str(&self) -> (r: &'static str)
        ensures
            r@ == session_name(*self)@,
    {
        match self {
            Session::AS => "AS",
            Session::LN => "LN",
            Session::NYAM => "NYAM",
            Session::NYL => "NYL",
            Session::NYPM => "NYPM",
            Session::Unknown => "Unknown",
        }
    }

    /// Sort position of the session within a day.
    pub fn rank(&self) -> (r: u64)
        ensures
            r == session_rank(*self),
    {
        match self {
            Session::AS => 0,
            Session::LN => 1,
            Session::NYAM => 2,
            Session::NYL => 3,
            Session::NYPM => 4,
            Session::Unknown => 5,
        }
    }

    pub fn from_hour(hour: u32) -> (r: Self)
        ensures
            r == session_of_hour(hour as int),
    {
        if 1 <= hour && hour <= 7 {
            Session::AS
        } else if 8 <= hour && hour <= 14 {
            Session::LN
        } else if 15 <= hour && hour <= 18 {
            Session::NYAM
        } else if 19 <= hour && hour <= 20 {
            Session::NYL
        } else if 21 <= hour && hour <= 23 {
            Session::NYPM
        } else {
            Session::Unknown
        }
    }

    pub fn from_timestamp(ts: &str) -> (r: Self)
        ensures
            r == session_of_timestamp(ts@),
    {
        let len = ts.unicode_len();
        let i = scan(ts, 0, len, false);
        if i >= len {
            return Session::Unknown;
        }
        let j = scan(ts, i + 1, len, true);
        proof {
            lemma_hour_token_end_bounds(ts@, i + 1);
        }
        match parse_u32_range(ts, i + 1, j) {
            Some(hour) => Session::from_hour(hour),
            None => Session::Unknown,
        }
    }
}

proof fn lemma_hour_token_end_bounds(s: Seq<char>, from: int)
    requires
        0 <= from <= s.len(),
    ensures
        from <= hour_token_end(s, from) <= s.len(),
    decreases s.len() - from,
{
    if from < s.len() && !ends_hour_token(s[from]) {
        lemma_hour_token_end_bounds(s, from + 1);
    }
}

pub fn session_from_timestamp(ts: &str) -> (r: String)
    ensures
        r@ == session_name(session_of_timestamp(ts@))@,
{
    String::from_str(Session::from_timestamp(ts).as_str())
}

pub fn session_from_timestamp_enum(ts: &str) -> (r: Session)
    ensures
        r == session_of_timestamp(ts@),
{
    Session::from_timestamp(ts)
}

} // verus!
