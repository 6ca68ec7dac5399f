//! The timestamp format of log records:
//! `[year]-[month]-[day]T[hour]:[minute]:[second] [offset_hour sign:mandatory]`,
//! for instance `2024-05-01T12:30:45 +03`.
//!
//! The year is four digits with an optional sign, every other number two
//! digits, and the offset from UTC is given in whole hours with a mandatory
//! sign. Parsing accepts exactly the texts that denote a real date and time of
//! day, and formatting gives the canonical text of a timestamp.

use vstd::prelude::*;
use crate::text::{digit_str, lemma_digit_char, all_digits, digit_char, digit_value, digits_value, is_digit, lemma_digits_value_step};

verus! {

/// The description of the timestamp format, in the format description
/// language of the `time` crate.
pub fn default_time_format() -> (r: &'static str)
    ensures
        r@ == "[year]-[month]-[day]T[hour]:[minute]:[second] [offset_hour sign:mandatory]"@,
{
    "[year]-[month]-[day]T[hour]:[minute]:[second] [offset_hour sign:mandatory]"
}

/// A calendar date and time of day with a UTC offset in whole hours.
#[derive(Clone, Copy, Debug, PartialEq, Eq, Structural)]
pub struct Timestamp {
    pub year: i16,
    pub month: u8,
    pub day: u8,
    pub hour: u8,
    pub minute: u8,
    pub second: u8,
    pub offset_hour: i8,
}

/// Leap years of the proleptic Gregorian calendar.
pub open spec fn is_leap_year(y: int) -> bool {
    (y % 4 == 0 && y % 100 != 0) || y % 400 == 0
}

/// The number of days of month `m` (1 to 12) in year `y`.
pub open spec fn days_in_month(y: int, m: int) -> int {
    if m == 2 {
        if is_leap_year(y) { 29 } else { 28 }
    } else if m == 4 || m == 6 || m == 9 || m == 11 {
        30
    } else {
        31
    }
}

impl Timestamp {
    /// The timestamp denotes a real date and time: a year of at most four
    /// digits, a day that exists in its month, a time of day without leap
    /// seconds and an offset of at most 25 hours.
    pub open spec fn wf(self) -> bool {
        &&& -9999 <= self.year <= 9999
        &&& 1 <= self.month <= 12
        &&& 1 <= self.day <= days_in_month(self.year as int, self.month as int)
        &&& self.hour < 24
        &&& self.minute < 60
        &&& self.second < 60
        &&& -25 <= self.offset_hour <= 25
    }
}

/// The offset of the first digit of the year: 1 when the text starts with a sign.
pub open spec fn year_start(s: Seq<char>) -> int {
    if s.len() > 0 && (s[0] == '+' || s[0] == '-') {
        1
    } else {
        0
    }
}

/// The digits of the field of `len` characters that starts at `b + at`.
pub open spec fn field(s: Seq<char>, b: int, at: int, len: int) -> Seq<char> {
    s.subrange(b + at, b + at + len)
}

/// The text has the layout of a timestamp: digits and separators in place.
pub open spec fn timestamp_shape(s: Seq<char>) -> bool {
    let b = year_start(s);
    &&& s.len() == b + 23
    &&& all_digits(field(s, b, 0, 4))
    &&& s[b + 4] == '-'
    &&& all_digits(field(s, b, 5, 2))
    &&& s[b + 7] == '-'
    &&& all_digits(field(s, b, 8, 2))
    &&& s[b + 10] == 'T'
    &&& all_digits(field(s, b, 11, 2))
    &&& s[b + 13] == ':'
    &&& all_digits(field(s, b, 14, 2))
    &&& s[b + 16] == ':'
    &&& all_digits(field(s, b, 17, 2))
    &&& s[b + 19] == ' '
    &&& (s[b + 20] == '+' || s[b + 20] == '-')
    &&& all_digits(field(s, b, 21, 2))
}

/// The timestamp that a text with the layout of a timestamp denotes.
pub open spec fn timestamp_fields(s: Seq<char>) -> Timestamp {
    let b = year_start(s);
    let y = digits_value(field(s, b, 0, 4)) as int;
    let o = digits_value(field(s, b, 21, 2)) as int;
    Timestamp {
        year: (if b == 1 && s[0] == '-' { -y } else { y }) as i16,
        month: digits_value(field(s, b, 5, 2)) as u8,
        day: digits_value(field(s, b, 8, 2)) as u8,
        hour: digits_value(field(s, b, 11, 2)) as u8,
        minute: digits_value(field(s, b, 14, 2)) as u8,
        second: digits_value(field(s, b, 17, 2)) as u8,
        offset_hour: (if s[b + 20] == '-' { -o } else { o }) as i8,
    }
}

/// What parsing a timestamp text gives.
pub open spec fn spec_parse_timestamp(s: Seq<char>) -> Option<Timestamp> {
    if timestamp_shape(s) && timestamp_fields(s).wf() {
        Some(timestamp_fields(s))
    } else {
        None
    }
}

/// Two decimal digits of `n` (below 100), with a leading zero.
pub open spec fn pad2(n: nat) -> Seq<char> {
    seq![digit_char(n / 10), digit_char(n % 10)]
}

/// Four decimal digits of `n` (below 10000), with leading zeros.
pub open spec fn pad4(n: nat) -> Seq<char> {
    seq![digit_char(n / 1000), digit_char((n / 100) % 10), digit_char((n / 10) % 10), digit_char(n % 10)]
}

pub open spec fn abs(x: int) -> nat {
    if x < 0 { (-x) as nat } else { x as nat }
}

/// The canonical text of a timestamp.
pub open spec fn spec_format_timestamp(t: Timestamp) -> Seq<char> {
    (if t.year < 0 { seq!['-'] } else { Seq::empty() }) + pad4(abs(t.year as int)) + seq!['-']
        + pad2(t.month as nat) + seq!['-'] + pad2(t.day as nat) + seq!['T'] + pad2(t.hour as nat)
        + seq![':'] + pad2(t.minute as nat) + seq![':'] + pad2(t.second as nat) + seq![' ']
        + seq![if t.offset_hour < 0 { '-' } else { '+' }] + pad2(abs(t.offset_hour as int))
}

/// Reads `len` decimal digits of `s` from character `start` on.
fn digits_at(s: &str, start: usize, len: usize) -> (r: Option<u32>)
    requires
        start + len <= s@.len(),
        start + len <= usize::MAX,
        len <= 4,
    ensures
        match r {
            Some(v) => all_digits(s@.subrange(start as int, start + len))
                && v as nat == digits_value(s@.subrange(start as int, start + len)),
            None => !all_digits(s@.subrange(start as int, start + len)),
        },
        r matches Some(v) ==> v < 10000 && (len <= 2 ==> v < 100),
{
    let ghost d = s@.subrange(start as int, start + len);
    let mut i: usize = 0;
    let mut value: u32 = 0;
    while i < len
        invariant
            i <= len <= 4,
            start + len <= s@.len(),
            start + len <= usize::MAX,
            d == s@.subrange(start as int, start + len),
            all_digits(d.take(i as int)),
            value as nat == digits_value(d.take(i as int)),
            value < 10000,
            i == 0 ==> value == 0,
            i == 1 ==> value < 10,
            i == 2 ==> value < 100,
            i == 3 ==> value < 1000,
        decreases len - i,
    {
        let c = s.get_char(start + i);
        proof {
            assert(d[i as int] == c);
        }
        if !('0' <= c && c <= '9') {
            proof {
                assert(!is_digit(d[i as int]));
            }
            return None;
        }
        let dv = (c as u32) - ('0' as u32);
        proof {
            assert(dv as nat == digit_value(c));
            lemma_digits_value_step(d, i as int);
            assert forall|k: int| 0 <= k < i + 1 implies is_digit(#[trigger] d.take(i + 1)[k]) by {
                if k < i {
                    assert(d.take(i + 1)[k] == d.take(i as int)[k]);
                }
            }
        }
        value = value * 10 + dv;
        i = i + 1;
    }
    proof {
        assert(d.take(len as int) =~= d);
    }
    Some(value)
}

/// Whether `y` is a leap year.
pub fn leap_year(y: i16) -> (r: bool)
    ensures
        r == is_leap_year(y as int),
{
    (y % 4 == 0 && y % 100 != 0) || y % 400 == 0
}

/// The number of days of month `m` in year `y`.
pub fn month_days(y: i16, m: u8) -> (r: u8)
    ensures
        r as int == days_in_month(y as int, m as int),
{
    if m == 2 {
        if leap_year(y) { 29 } else { 28 }
    } else if m == 4 || m == 6 || m == 9 || m == 11 {
        30
    } else {
        31
    }
}

impl Timestamp {
    /// Whether the timestamp denotes a real date and time.
    pub fn is_valid(&self) -> (r: bool)
        ensures
            r == self.wf(),
    {
        -9999 <= self.year && self.year <= 9999 && 1 <= self.month && self.month <= 12
            && 1 <= self.day && self.day <= month_days(self.year, self.month) && self.hour < 24
            && self.minute < 60 && self.second < 60 && -25 <= self.offset_hour
            && self.offset_hour <= 25
    }
}


/// Parses a timestamp text; `None` when the text does not have the layout of
/// a timestamp or does not denote a real date and time.
pub fn parse_timestamp(s: &str) -> (r: Option<Timestamp>)
    ensures
        r == spec_parse_timestamp(s@),
        r matches Some(t) ==> t.wf(),
{
    let n = s.unicode_len();
    let mut b: usize = 0;
    if n > 0 {
        let c0 = s.get_char(0);
        if c0 == '+' || c0 == '-' {
            b = 1;
        }
    }
    assert(b == year_start(s@));
    if n != b + 23 {
        return None;
    }
    let y = match digits_at(s, b, 4) {
        Some(v) => v,
        None => return None,
    };
    if s.get_char(b + 4) != '-' {
        return None;
    }
    let mo = match digits_at(s, b + 5, 2) {
        Some(v) => v,
        None => return None,
    };
    if s.get_char(b + 7) != '-' {
        return None;
    }
    let d = match digits_at(s, b + 8, 2) {
        Some(v) => v,
        None => return None,
    };
    if s.get_char(b + 10) != 'T' {
        return None;
    }
    let h = match digits_at(s, b + 11, 2) {
        Some(v) => v,
        None => return None,
    };
    if s.get_char(b + 13) != ':' {
        return None;
    }
    let mi = match digits_at(s, b + 14, 2) {
        Some(v) => v,
        None => return None,
    };
    if s.get_char(b + 16) != ':' {
        return None;
    }
    let se = match digits_at(s, b + 17, 2) {
        Some(v) => v,
        None => return None,
    };
    if s.get_char(b + 19) != ' ' {
        return None;
    }
    let sign = s.get_char(b + 20);
    if sign != '+' && sign != '-' {
        return None;
    }
    let oh = match digits_at(s, b + 21, 2) {
        Some(v) => v,
        None => return None,
    };
    let negative_year = b == 1 && s.get_char(0) == '-';
    let year: i16 = if negative_year { -(y as i16) } else { y as i16 };
    let offset_hour: i8 = if sign == '-' { -(oh as i8) } else { oh as i8 };
    let t = Timestamp {
        year,
        month: mo as u8,
        day: d as u8,
        hour: h as u8,
        minute: mi as u8,
        second: se as u8,
        offset_hour,
    };
    proof {
        assert(timestamp_shape(s@));
        assert(t == timestamp_fields(s@));
    }
    if t.is_valid() {
        Some(t)
    } else {
        None
    }
}

fn push_pad2(out: &mut String, n: u8)
    requires
        n < 100,
    ensures
        final(out)@ == old(out)@ + pad2(n as nat),
{
    out.append(digit_str((n / 10) as u64));
    out.append(digit_str((n % 10) as u64));
    proof {
        assert(final(out)@ =~= old(out)@ + pad2(n as nat));
    }
}

fn push_pad4(out: &mut String, n: u16)
    requires
        n < 10000,
    ensures
        final(out)@ == old(out)@ + pad4(n as nat),
{
    out.append(digit_str((n / 1000) as u64));
    out.append(digit_str(((n / 100) % 10) as u64));
    out.append(digit_str(((n / 10) % 10) as u64));
    out.append(digit_str((n % 10) as u64));
    proof {
        assert(final(out)@ =~= old(out)@ + pad4(n as nat));
    }
}

/// The canonical text of a timestamp that denotes a real date and time.
pub fn format_timestamp(t: &Timestamp) -> (r: String)
    requires
        t.wf(),
    ensures
        r@ == spec_format_timestamp(*t),
{
    proof {
        reveal_strlit("-");
        reveal_strlit("T");
        reveal_strlit(":");
        reveal_strlit(" ");
        reveal_strlit("+");
    }
    let mut r = String::new();
    if t.year < 0 {
        r.append("-");
    }
    let ay: u16 = if t.year < 0 { (-t.year) as u16 } else { t.year as u16 };
    push_pad4(&mut r, ay);
    r.append("-");
    push_pad2(&mut r, t.month);
    r.append("-");
    push_pad2(&mut r, t.day);
    r.append("T");
    push_pad2(&mut r, t.hour);
    r.append(":");
    push_pad2(&mut r, t.minute);
    r.append(":");
    push_pad2(&mut r, t.second);
    r.append(" ");
    if t.offset_hour < 0 {
        r.append("-");
    } else {
        r.append("+");
    }
    let ao: u8 = if t.offset_hour < 0 { (-t.offset_hour) as u8 } else { t.offset_hour as u8 };
    push_pad2(&mut r, ao);
    proof {
        assert(r@ =~= spec_format_timestamp(*t));
    }
    r
}


proof fn lemma_pad2(n: nat)
    requires
        n < 100,
    ensures
        pad2(n).len() == 2,
        all_digits(pad2(n)),
        digits_value(pad2(n)) == n,
{
    lemma_digit_char(n / 10);
    lemma_digit_char(n % 10);
    let p = pad2(n);
    assert(p.drop_last() =~= seq![digit_char(n / 10)]);
    assert(p.drop_last().drop_last() =~= Seq::<char>::empty());
    assert(digits_value(Seq::<char>::empty()) == 0);
    assert(digits_value(p.drop_last()) == n / 10);
    assert(digits_value(p) == (n / 10) * 10 + n % 10);
}

proof fn lemma_pad4(n: nat)
    requires
        n < 10000,
    ensures
        pad4(n).len() == 4,
        all_digits(pad4(n)),
        digits_value(pad4(n)) == n,
        is_digit(pad4(n)[0]),
{
    lemma_digit_char(n / 1000);
    lemma_digit_char((n / 100) % 10);
    lemma_digit_char((n / 10) % 10);
    lemma_digit_char(n % 10);
    let p = pad4(n);
    let p3 = seq![digit_char(n / 1000), digit_char((n / 100) % 10), digit_char((n / 10) % 10)];
    let p2 = seq![digit_char(n / 1000), digit_char((n / 100) % 10)];
    let p1 = seq![digit_char(n / 1000)];
    assert(p.drop_last() =~= p3);
    assert(p3.drop_last() =~= p2);
    assert(p2.drop_last() =~= p1);
    assert(p1.drop_last() =~= Seq::<char>::empty());
    assert(digits_value(Seq::<char>::empty()) == 0);
    assert(digits_value(p1) == n / 1000);
    assert(digits_value(p2) == n / 100);
    assert(digits_value(p3) == n / 10);
}

/// Parsing the canonical text of a timestamp gives the timestamp back.
#[verifier::rlimit(50)]
pub proof fn lemma_parse_format_roundtrip(t: Timestamp)
    requires
        t.wf(),
    ensures
        spec_parse_timestamp(spec_format_timestamp(t)) == Some(t),
{
    let s = spec_format_timestamp(t);
    let b: int = if t.year < 0 { 1 } else { 0 };
    let ay = abs(t.year as int);
    let ao = abs(t.offset_hour as int);
    lemma_pad4(ay);
    lemma_pad2(t.month as nat);
    lemma_pad2(t.day as nat);
    lemma_pad2(t.hour as nat);
    lemma_pad2(t.minute as nat);
    lemma_pad2(t.second as nat);
    lemma_pad2(ao);
    let sg = if t.offset_hour < 0 { '-' } else { '+' };
    let head: Seq<char> = if t.year < 0 { seq!['-'] } else { Seq::empty() };
    let p1 = head + pad4(ay);
    let p2 = p1 + seq!['-'] + pad2(t.month as nat);
    let p3 = p2 + seq!['-'] + pad2(t.day as nat);
    let p4 = p3 + seq!['T'] + pad2(t.hour as nat);
    let p5 = p4 + seq![':'] + pad2(t.minute as nat);
    let p6 = p5 + seq![':'] + pad2(t.second as nat);
    let p7 = p6 + seq![' '] + seq![sg];
    assert(s == p7 + pad2(ao));
    assert(s.len() == b + 23);
    if t.year < 0 {
        assert(s[0] == '-');
    } else {
        assert(s[0] == pad4(ay)[0]);
    }
    assert(year_start(s) == b);
    assert(field(s, b, 0, 4) =~= pad4(ay));
    assert(field(s, b, 5, 2) =~= pad2(t.month as nat));
    assert(field(s, b, 8, 2) =~= pad2(t.day as nat));
    assert(field(s, b, 11, 2) =~= pad2(t.hour as nat));
    assert(field(s, b, 14, 2) =~= pad2(t.minute as nat));
    assert(field(s, b, 17, 2) =~= pad2(t.second as nat));
    assert(field(s, b, 21, 2) =~= pad2(ao));
    assert(s[b + 4] == '-');
    assert(s[b + 7] == '-');
    assert(s[b + 10] == 'T');
    assert(s[b + 13] == ':');
    assert(s[b + 16] == ':');
    assert(s[b + 19] == ' ');
    assert(s[b + 20] == sg);
    assert(timestamp_shape(s));
    assert(timestamp_fields(s) == t);
}


/// The number of leap years among the years 1 to `y` (negative when `y` is
/// below zero); differences of it count the leap years of any range of years.
pub open spec fn leaps_through(y: int) -> int {
    y / 4 - y / 100 + y / 400
}

/// Days from 1970-01-01 to the first of January of year `y`.
pub open spec fn days_before_year(y: int) -> int {
    365 * (y - 1970) + leaps_through(y - 1) - leaps_through(1969)
}

/// Days from the first of January to the first day of month `m` of year `y`.
pub open spec fn days_before_month(y: int, m: int) -> int {
    let common: int = if m <= 1 { 0 }
        else if m == 2 { 31 }
        else if m == 3 { 59 }
        else if m == 4 { 90 }
        else if m == 5 { 120 }
        else if m == 6 { 151 }
        else if m == 7 { 181 }
        else if m == 8 { 212 }
        else if m == 9 { 243 }
        else if m == 10 { 273 }
        else if m == 11 { 304 }
        else { 334 };
    if m > 2 && is_leap_year(y) { common + 1 } else { common }
}

/// Seconds since 1970-01-01T00:00:00 UTC of the moment a timestamp denotes.
pub open spec fn spec_unix_seconds(t: Timestamp) -> int {
    (days_before_year(t.year as int) + days_before_month(t.year as int, t.month as int) + t.day - 1)
        * 86400 + t.hour * 3600 + t.minute * 60 + t.second - t.offset_hour * 3600
}

/// A year adds 366 days when it is a leap year and 365 otherwise.
pub proof fn lemma_days_before_next_year(y: int)
    ensures
        days_before_year(y + 1) - days_before_year(y) == if is_leap_year(y) { 366int } else { 365int },
{
}

/// Each month adds its own number of days.
pub proof fn lemma_days_before_next_month(y: int, m: int)
    requires
        1 <= m < 12,
    ensures
        days_before_month(y, m + 1) - days_before_month(y, m) == days_in_month(y, m),
        days_before_month(y, 12) + days_in_month(y, 12) == days_before_year(y + 1) - days_before_year(y),
{
    lemma_days_before_next_year(y);
}

/// Seconds since 1970-01-01T00:00:00 UTC of the moment a timestamp denotes.
pub fn unix_seconds(t: &Timestamp) -> (r: i64)
    requires
        t.wf(),
    ensures
        r as int == spec_unix_seconds(*t),
{
    let y = t.year as i64;
    let shifted = y - 1 + 10000;
    let leaps_before = (shifted / 4 - 2500) - (shifted / 100 - 100) + (shifted / 400 - 25);
    assert(leaps_before == leaps_through(y - 1)) by {
        assert(shifted / 4 - 2500 == (y - 1) / 4);
        assert(shifted / 100 - 100 == (y - 1) / 100);
        assert(shifted / 400 - 25 == (y - 1) / 400);
    }
    assert(leaps_through(1969) == 477);
    let days_year = 365 * (y - 1970) + leaps_before - 477;
    let m = t.month;
    let common: i64 = if m <= 1 { 0 }
        else if m == 2 { 31 }
        else if m == 3 { 59 }
        else if m == 4 { 90 }
        else if m == 5 { 120 }
        else if m == 6 { 151 }
        else if m == 7 { 181 }
        else if m == 8 { 212 }
        else if m == 9 { 243 }
        else if m == 10 { 273 }
        else if m == 11 { 304 }
        else { 334 };
    let days_month = if m > 2 && leap_year(t.year) { common + 1 } else { common };
    let days = days_year + days_month + t.day as i64 - 1;
    days * 86400 + t.hour as i64 * 3600 + t.minute as i64 * 60 + t.second as i64
        - t.offset_hour as i64 * 3600
}

/// The whole seconds elapsed from the moment `t` to the moment `now_secs`
/// seconds and `now_nanos` nanoseconds after 1970-01-01T00:00:00 UTC,
/// rounded toward zero.
pub open spec fn spec_elapsed_whole_seconds(t: Timestamp, now_secs: int, now_nanos: int) -> int {
    let d = now_secs - spec_unix_seconds(t);
    if d < 0 && now_nanos > 0 { d + 1 } else { d }
}

/// The whole seconds elapsed from `t` until the given moment, rounded toward zero.
pub fn elapsed_whole_seconds(t: &Timestamp, now_secs: i64, now_nanos: u32) -> (r: i128)
    requires
        t.wf(),
        now_nanos < 1_000_000_000,
    ensures
        r as int == spec_elapsed_whole_seconds(*t, now_secs as int, now_nanos as int),
{
    let d = now_secs as i128 - unix_seconds(t) as i128;
    if d < 0 && now_nanos > 0 { d + 1 } else { d }
}


/// Every timestamp denotes a moment within about 12000 years of 1970.
pub proof fn lemma_unix_seconds_range(t: Timestamp)
    requires
        t.wf(),
    ensures
        -400_000_000_000 <= spec_unix_seconds(t) <= 300_000_000_000,
{
    let y = t.year as int;
    assert(-2425 <= leaps_through(y - 1) <= 2424);
    assert(-4371587 <= days_before_year(y) <= 2932532);
    assert(0 <= days_before_month(y, t.month as int) <= 335);
}


/// Elapsed time is measured between moments: two timestamps that name the
/// same moment, one with an offset of `k` hours and one in UTC whose hour is
/// `k` hours earlier on the same day, give the same elapsed seconds for every
/// current time.
pub proof fn lemma_elapsed_same_moment(t: Timestamp, u: Timestamp, now_secs: int, now_nanos: int)
    requires
        t.wf(),
        u.wf(),
        u.year == t.year,
        u.month == t.month,
        u.day == t.day,
        u.minute == t.minute,
        u.second == t.second,
        u.offset_hour == 0,
        u.hour == t.hour - t.offset_hour,
    ensures
        spec_elapsed_whole_seconds(t, now_secs, now_nanos) == spec_elapsed_whole_seconds(u, now_secs, now_nanos),
        spec_unix_seconds(t) == spec_unix_seconds(u),
{
}

/// At the start of 1970 in UTC, and at three in the morning of that day at
/// an offset of three hours (the same moment), the seconds elapsed up to a
/// whole-second moment are that moment's seconds since 1970.
pub proof fn lemma_elapsed_from_epoch(now_secs: int)
    ensures
        spec_elapsed_whole_seconds(
            Timestamp { year: 1970, month: 1, day: 1, hour: 0, minute: 0, second: 0, offset_hour: 0 },
            now_secs,
            0,
        ) == now_secs,
        spec_elapsed_whole_seconds(
            Timestamp { year: 1970, month: 1, day: 1, hour: 3, minute: 0, second: 0, offset_hour: 3 },
            now_secs,
            0,
        ) == now_secs,
{
    assert(leaps_through(1969) == 477);
}

/// One second later, one more second has elapsed; a timestamp one hour later
/// has one hour less elapsed.
pub proof fn lemma_elapsed_steps(t: Timestamp, now_secs: int)
    requires
        t.wf(),
        t.hour < 23,
    ensures
        spec_elapsed_whole_seconds(t, now_secs + 1, 0) == spec_elapsed_whole_seconds(t, now_secs, 0) + 1,
        spec_elapsed_whole_seconds(Timestamp { hour: (t.hour + 1) as u8, ..t }, now_secs, 0)
            == spec_elapsed_whole_seconds(t, now_secs, 0) - 3600,
{
}

} // verus!
