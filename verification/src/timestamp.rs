//! Calendar timestamps as plain values: validity, chronological order,
//! the service's wire format `YYYY-MM-DD HH:MM:SS.ffffff`, and the one
//! step of calendar arithmetic the query defaults need.

use vstd::prelude::*;

use chrono::Datelike;
use chrono::Timelike;

verus! {

/// A point in time, split into calendar components. The store assigns
/// one to every created record; queries compare them chronologically.
#[derive(Clone, Copy, Debug, PartialEq, Eq, Structural)]
pub struct Timestamp {
    pub year: i32,
    pub month: u32,
    pub day: u32,
    pub hour: u32,
    pub minute: u32,
    pub second: u32,
    pub micros: u32,
}

pub open spec fn is_leap_year(y: int) -> bool {
    y % 4 == 0 && (y % 100 != 0 || y % 400 == 0)
}

pub open spec fn days_in_month(y: int, m: int) -> int {
    if m == 2 {
        if is_leap_year(y) {
            29
        } else {
            28
        }
    } else if m == 4 || m == 6 || m == 9 || m == 11 {
        30
    } else {
        31
    }
}

/// A well-formed timestamp: a valid calendar date within the range the
/// four-digit wire format can carry, with in-range time components.
pub open spec fn wf(t: Timestamp) -> bool {
    &&& 0 <= t.year <= 9999
    &&& 1 <= t.month <= 12
    &&& 1 <= t.day <= days_in_month(t.year as int, t.month as int)
    &&& t.hour <= 23
    &&& t.minute <= 59
    &&& t.second <= 59
    &&& t.micros <= 999_999
}

/// Chronological order: lexicographic over the components, largest
/// first. On well-formed timestamps this is exactly time order.
pub open spec fn spec_lt(a: Timestamp, b: Timestamp) -> bool {
    if a.year != b.year {
        a.year < b.year
    } else if a.month != b.month {
        a.month < b.month
    } else if a.day != b.day {
        a.day < b.day
    } else if a.hour != b.hour {
        a.hour < b.hour
    } else if a.minute != b.minute {
        a.minute < b.minute
    } else if a.second != b.second {
        a.second < b.second
    } else {
        a.micros < b.micros
    }
}

pub open spec fn spec_le(a: Timestamp, b: Timestamp) -> bool {
    spec_lt(a, b) || a == b
}

impl Timestamp {
    /// Strictly-before test used by the time-range query.
    pub fn lt(&self, other: &Timestamp) -> (r: bool)
        ensures
            r == spec_lt(*self, *other),
    {
        if self.year != other.year {
            self.year < other.year
        } else if self.month != other.month {
            self.month < other.month
        } else if self.day != other.day {
            self.day < other.day
        } else if self.hour != other.hour {
            self.hour < other.hour
        } else if self.minute != other.minute {
            self.minute < other.minute
        } else if self.second != other.second {
            self.second < other.second
        } else {
            self.micros < other.micros
        }
    }

    /// At-or-before test used by the store-clock monotonicity check.
    pub fn le(&self, other: &Timestamp) -> (r: bool)
        ensures
            r == spec_le(*self, *other),
    {
        if self.lt(other) {
            true
        } else {
            self.year == other.year && self.month == other.month && self.day == other.day
                && self.hour == other.hour && self.minute == other.minute && self.second
                == other.second && self.micros == other.micros
        }
    }
}

/// Leap-year test on a non-negative year.
fn is_leap_year_of(y: i32) -> (r: bool)
    requires
        0 <= y,
    ensures
        r == is_leap_year(y as int),
{
    let u = y as u32;
    u % 4 == 0 && (u % 100 != 0 || u % 400 == 0)
}

/// Length of a month in days.
pub fn days_in_month_of(y: i32, m: u32) -> (r: u32)
    requires
        0 <= y,
        1 <= m <= 12,
    ensures
        r == days_in_month(y as int, m as int),
{
    if m == 2 {
        if is_leap_year_of(y) {
            29
        } else {
            28
        }
    } else if m == 4 || m == 6 || m == 9 || m == 11 {
        30
    } else {
        31
    }
}

/// The calendar day before `t`, at the same time of day: the query
/// default "one day before now".
pub open spec fn spec_minus_one_day(t: Timestamp) -> Timestamp {
    if t.day > 1 {
        Timestamp { day: (t.day - 1) as u32, ..t }
    } else if t.month > 1 {
        Timestamp {
            month: (t.month - 1) as u32,
            day: days_in_month(t.year as int, t.month - 1) as u32,
            ..t
        }
    } else {
        Timestamp { year: (t.year - 1) as i32, month: 12, day: 31, ..t }
    }
}

impl Timestamp {
    pub fn minus_one_day(&self) -> (r: Timestamp)
        requires
            wf(*self),
            1 <= self.year,
        ensures
            r == spec_minus_one_day(*self),
            wf(r),
    {
        if self.day > 1 {
            Timestamp { day: self.day - 1, ..*self }
        } else if self.month > 1 {
            Timestamp {
                month: self.month - 1,
                day: days_in_month_of(self.year, self.month - 1),
                ..*self
            }
        } else {
            Timestamp { year: self.year - 1, month: 12, day: 31, ..*self }
        }
    }
}

/// The ASCII digit for `n`.
pub open spec fn digit(n: int) -> u8 {
    (48 + n) as u8
}

/// The 26-byte wire form of a timestamp: `YYYY-MM-DD HH:MM:SS.ffffff`,
/// every numeric field zero-padded, the fraction in microseconds.
pub open spec fn spec_format(t: Timestamp) -> Seq<u8> {
    let y = t.year as int;
    let mo = t.month as int;
    let d = t.day as int;
    let h = t.hour as int;
    let mi = t.minute as int;
    let s = t.second as int;
    let u = t.micros as int;
    seq![
        digit(y / 1000),
        digit((y / 100) % 10),
        digit((y / 10) % 10),
        digit(y % 10),
        45u8,
        digit(mo / 10),
        digit(mo % 10),
        45u8,
        digit(d / 10),
        digit(d % 10),
        32u8,
        digit(h / 10),
        digit(h % 10),
        58u8,
        digit(mi / 10),
        digit(mi % 10),
        58u8,
        digit(s / 10),
        digit(s % 10),
        46u8,
        digit(u / 100_000),
        digit((u / 10_000) % 10),
        digit((u / 1_000) % 10),
        digit((u / 100) % 10),
        digit((u / 10) % 10),
        digit(u % 10),
    ]
}

impl Timestamp {
    /// Render the wire form as bytes; the caller turns them into the
    /// JSON string.
    #[verifier::rlimit(60)]
    pub fn format(&self) -> (r: Vec<u8>)
        requires
            wf(*self),
        ensures
            r@ == spec_format(*self),
    {
        let y = self.year as u32;
        let out: Vec<u8> = vec![
            (48 + y / 1000) as u8,
            (48 + (y / 100) % 10) as u8,
            (48 + (y / 10) % 10) as u8,
            (48 + y % 10) as u8,
            45,
            (48 + self.month / 10) as u8,
            (48 + self.month % 10) as u8,
            45,
            (48 + self.day / 10) as u8,
            (48 + self.day % 10) as u8,
            32,
            (48 + self.hour / 10) as u8,
            (48 + self.hour % 10) as u8,
            58,
            (48 + self.minute / 10) as u8,
            (48 + self.minute % 10) as u8,
            58,
            (48 + self.second / 10) as u8,
            (48 + self.second % 10) as u8,
            46,
            (48 + self.micros / 100_000) as u8,
            (48 + (self.micros / 10_000) % 10) as u8,
            (48 + (self.micros / 1_000) % 10) as u8,
            (48 + (self.micros / 100) % 10) as u8,
            (48 + (self.micros / 10) % 10) as u8,
            (48 + self.micros % 10) as u8,
        ];
        proof {
            assert(out@ =~= spec_format(*self));
        }
        out
    }
}

/// Relies on chrono's `Utc::now` and its `Datelike`/`Timelike`
/// accessors: the components form a valid calendar date and time within
/// chrono's documented year range; the microsecond count may reach
/// 1_999_999 on a represented leap second.
#[verifier::external_body]
pub fn now_timestamp() -> (t: Timestamp)
    ensures
        -262144 <= t.year <= 262143,
        1 <= t.month <= 12,
        1 <= t.day <= days_in_month(t.year as int, t.month as int),
        t.hour <= 23,
        t.minute <= 59,
        t.second <= 59,
        t.micros <= 1_999_999,
{
    let n = chrono::Utc::now();
    Timestamp {
        year: n.year(),
        month: n.month(),
        day: n.day(),
        hour: n.hour(),
        minute: n.minute(),
        second: n.second(),
        micros: n.timestamp_subsec_micros(),
    }
}

impl Timestamp {
    /// Force a clock reading into the well-formed range: out-of-range
    /// components are clamped, well-formed inputs pass unchanged. Used
    /// on the result of `now_timestamp`, whose year range is wider than
    /// the wire format and which may carry a leap-second fraction.
    pub fn clamped(&self) -> (r: Timestamp)
        requires
            1 <= self.month <= 12,
            1 <= self.day <= days_in_month(self.year as int, self.month as int),
            self.hour <= 23,
            self.minute <= 59,
            self.second <= 59,
        ensures
            wf(r),
            wf(*self) ==> r == *self,
    {
        let year: i32 = if self.year < 0 {
            0
        } else if self.year > 9999 {
            9999
        } else {
            self.year
        };
        let dim = days_in_month_of(year, self.month);
        let day: u32 = if self.day > dim {
            dim
        } else {
            self.day
        };
        let micros: u32 = if self.micros > 999_999 {
            999_999
        } else {
            self.micros
        };
        Timestamp { year, month: self.month, day, hour: self.hour, minute: self.minute, second: self.second, micros }
    }
}

pub open spec fn is_digit(b: u8) -> bool {
    48 <= b <= 57
}

pub open spec fn val(b: u8) -> int {
    b - 48
}

/// Value of the two digits at `i`.
pub open spec fn val2(s: Seq<u8>, i: int) -> int {
    val(s[i]) * 10 + val(s[i + 1])
}

pub open spec fn val4(s: Seq<u8>, i: int) -> int {
    val2(s, i) * 100 + val2(s, i + 2)
}

pub open spec fn val6(s: Seq<u8>, i: int) -> int {
    val4(s, i) * 100 + val2(s, i + 4)
}

/// Whether the fixed separators of the wire form stand at their places
/// and every other position holds a digit.
pub open spec fn format_shape(s: Seq<u8>) -> bool {
    &&& s.len() == 26
    &&& s[4] == 45 && s[7] == 45 && s[10] == 32 && s[13] == 58 && s[16] == 58 && s[19] == 46
    &&& forall|i: int|
        0 <= i < 26 && i != 4 && i != 7 && i != 10 && i != 13 && i != 16 && i != 19
            ==> is_digit(#[trigger] s[i])
}

/// Parse of the wire form: defined exactly on byte strings of the fixed
/// shape whose fields are in calendar range.
pub open spec fn spec_parse(s: Seq<u8>) -> Option<Timestamp> {
    if format_shape(s) {
        let t = Timestamp {
            year: val4(s, 0) as i32,
            month: val2(s, 5) as u32,
            day: val2(s, 8) as u32,
            hour: val2(s, 11) as u32,
            minute: val2(s, 14) as u32,
            second: val2(s, 17) as u32,
            micros: val6(s, 20) as u32,
        };
        if wf(t) {
            Some(t)
        } else {
            None
        }
    } else {
        None
    }
}

/// Read one digit of `s`.
fn digit_at(s: &[u8], i: usize) -> (r: Option<u32>)
    requires
        i < s@.len(),
    ensures
        r == if is_digit(s@[i as int]) {
            Some(val(s@[i as int]) as u32)
        } else {
            None::<u32>
        },
{
    let b = s[i];
    if 48 <= b && b <= 57 {
        Some((b - 48) as u32)
    } else {
        None
    }
}

/// Read the two-digit field at `i`.
fn field2(s: &[u8], i: usize) -> (r: Option<u32>)
    requires
        i + 1 < s@.len(),
        s@.len() <= usize::MAX,
    ensures
        r == if is_digit(s@[i as int]) && is_digit(s@[i as int + 1]) {
            Some(val2(s@, i as int) as u32)
        } else {
            None::<u32>
        },
{
    match (digit_at(s, i), digit_at(s, i + 1)) {
        (Some(a), Some(b)) => Some(a * 10 + b),
        _ => None,
    }
}

/// The digit decomposition of a two-digit field recomposes to its
/// value.
proof fn lemma_two_digits(n: int)
    requires
        0 <= n <= 99,
    ensures
        n == (n / 10) * 10 + n % 10,
{
    vstd::arithmetic::div_mod::lemma_fundamental_div_mod(n, 10);
}

/// The digit decomposition of a four-digit field recomposes to its
/// value.
proof fn lemma_four_digits(n: int)
    requires
        0 <= n <= 9999,
    ensures
        n == ((n / 1000) * 10 + (n / 100) % 10) * 100 + ((n / 10) % 10) * 10 + n % 10,
{
    vstd::arithmetic::div_mod::lemma_fundamental_div_mod(n, 10);
    vstd::arithmetic::div_mod::lemma_fundamental_div_mod(n / 10, 10);
    vstd::arithmetic::div_mod::lemma_div_denominator(n, 10, 10);
    vstd::arithmetic::div_mod::lemma_fundamental_div_mod(n / 100, 10);
    vstd::arithmetic::div_mod::lemma_div_denominator(n, 100, 10);
}

/// The digit decomposition of the six-digit fraction recomposes to its
/// value.
proof fn lemma_six_digits(n: int)
    requires
        0 <= n <= 999_999,
    ensures
        n == (((n / 100_000) * 10 + (n / 10_000) % 10) * 100 + ((n / 1_000) % 10) * 10 + (n / 100)
            % 10) * 100 + ((n / 10) % 10) * 10 + n % 10,
{
    let m = n / 100;
    vstd::arithmetic::div_mod::lemma_div_denominator(n, 100, 1000);
    vstd::arithmetic::div_mod::lemma_div_denominator(n, 100, 100);
    vstd::arithmetic::div_mod::lemma_div_denominator(n, 100, 10);
    lemma_four_digits(m);
    vstd::arithmetic::div_mod::lemma_fundamental_div_mod(n, 10);
    vstd::arithmetic::div_mod::lemma_fundamental_div_mod(n / 10, 10);
    vstd::arithmetic::div_mod::lemma_div_denominator(n, 10, 10);
}

/// Round trip: formatting a well-formed timestamp and parsing the bytes
/// back returns the same timestamp.
#[verifier::rlimit(60)]
pub proof fn lemma_format_parse_round_trip(t: Timestamp)
    requires
        wf(t),
    ensures
        spec_parse(spec_format(t)) == Some(t),
{
    let s = spec_format(t);
    let y = t.year as int;
    let mo = t.month as int;
    let d = t.day as int;
    let h = t.hour as int;
    let mi = t.minute as int;
    let sec = t.second as int;
    let u = t.micros as int;
    vstd::arithmetic::div_mod::lemma_fundamental_div_mod(y, 1000);
    vstd::arithmetic::div_mod::lemma_fundamental_div_mod(u, 100_000);
    assert(format_shape(s));
    lemma_four_digits(y);
    lemma_two_digits(mo);
    lemma_two_digits(d);
    lemma_two_digits(h);
    lemma_two_digits(mi);
    lemma_two_digits(sec);
    lemma_six_digits(u);
    assert(val4(s, 0) == y);
    assert(val2(s, 5) == mo);
    assert(val2(s, 8) == d);
    assert(val2(s, 11) == h);
    assert(val2(s, 14) == mi);
    assert(val2(s, 17) == sec);
    assert(val6(s, 20) == u);
    assert(spec_parse(s)->Some_0 == t);
}

impl Timestamp {
    /// Parse the wire form back into a timestamp.
    pub fn parse(s: &[u8]) -> (r: Option<Timestamp>)
        ensures
            r == spec_parse(s@),
    {
        if s.len() != 26 {
            return None;
        }
        if !(s[4] == 45 && s[7] == 45 && s[10] == 32 && s[13] == 58 && s[16] == 58 && s[19]
            == 46) {
            return None;
        }
        let yh = field2(s, 0);
        let yl = field2(s, 2);
        let mo = field2(s, 5);
        let d = field2(s, 8);
        let h = field2(s, 11);
        let mi = field2(s, 14);
        let sec = field2(s, 17);
        let uh = field2(s, 20);
        let um = field2(s, 22);
        let ul = field2(s, 24);
        match (yh, yl, mo, d, h, mi, sec, uh, um, ul) {
            (
                Some(yh),
                Some(yl),
                Some(mo),
                Some(d),
                Some(h),
                Some(mi),
                Some(sec),
                Some(uh),
                Some(um),
                Some(ul),
            ) => {
                let year = yh * 100 + yl;
                let micros = (uh * 100 + um) * 100 + ul;
                let t = Timestamp {
                    year: year as i32,
                    month: mo,
                    day: d,
                    hour: h,
                    minute: mi,
                    second: sec,
                    micros,
                };
                if 1 <= mo && mo <= 12 && 1 <= d && d <= days_in_month_of(year as i32, mo) && h
                    <= 23 && mi <= 59 && sec <= 59 {
                    assert(wf(t));
                    Some(t)
                } else {
                    assert(!wf(t));
                    None
                }
            },
            _ => {
                assert(!format_shape(s@));
                None
            },
        }
    }
}

} // verus!
