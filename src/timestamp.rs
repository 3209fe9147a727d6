//! Fixed-format UTC timestamps, `YYYY-MM-DDTHH:MM:SS.mmmZ`, parsed into
//! millisecond instants on the proleptic Gregorian calendar.
use vstd::prelude::*;
use vstd::string::StringSliceAdditionalSpecFns;

verus! {

/// Number of bytes in a timestamp `YYYY-MM-DDTHH:MM:SS.mmmZ`.
pub const TIMESTAMP_LEN: usize = 24;

/// A point in time: milliseconds since 1970-01-01T00:00:00.000Z.
#[derive(Clone, Copy, Debug, PartialEq, Eq, Structural)]
pub struct Instant {
    pub millis: i64,
}

/// Why a timestamp was refused.
#[derive(Clone, Copy, Debug, PartialEq, Eq, Structural)]
pub enum TimestampError {
    /// Wrong length, a misplaced separator, or a non-digit in a numeric field.
    InvalidFormat,
    /// All fields are numeric but one is out of range for the calendar.
    InvalidValue,
}

pub open spec fn is_digit(b: u8) -> bool {
    48 <= b <= 57
}

/// The decimal value of the digits `s[lo..hi]`.
pub open spec fn digits_value(s: Seq<u8>, lo: int, hi: int) -> int
    decreases hi - lo,
{
    if hi <= lo {
        0
    } else {
        digits_value(s, lo, hi - 1) * 10 + (s[hi - 1] - 48)
    }
}

pub open spec fn all_digits(s: Seq<u8>, lo: int, hi: int) -> bool {
    forall|i: int| lo <= i < hi ==> is_digit(#[trigger] s[i])
}

/// Length, separators and digit positions are those of `YYYY-MM-DDTHH:MM:SS.mmmZ`.
pub open spec fn has_timestamp_shape(s: Seq<u8>) -> bool {
    &&& s.len() == 24
    &&& s[4] == 45u8 && s[7] == 45u8
    &&& s[10] == 84u8
    &&& s[13] == 58u8 && s[16] == 58u8
    &&& s[19] == 46u8
    &&& s[23] == 90u8
    &&& all_digits(s, 0, 4) && all_digits(s, 5, 7) && all_digits(s, 8, 10)
    &&& all_digits(s, 11, 13) && all_digits(s, 14, 16) && all_digits(s, 17, 19)
    &&& all_digits(s, 20, 23)
}

pub open spec fn is_leap_year(y: int) -> bool {
    y % 4 == 0 && (y % 100 != 0 || y % 400 == 0)
}

pub open spec fn days_in_month(y: int, m: int) -> int {
    if m == 2 {
        if is_leap_year(y) { 29 } else { 28 }
    } else if m == 4 || m == 6 || m == 9 || m == 11 {
        30
    } else {
        31
    }
}

/// The fields name a real calendar date and time of day.
pub open spec fn valid_fields(y: int, mo: int, d: int, h: int, mi: int, s: int, ms: int) -> bool {
    &&& 1 <= mo <= 12
    &&& 1 <= d <= days_in_month(y, mo)
    &&& 0 <= h <= 23
    &&& 0 <= mi <= 59
    &&& 0 <= s <= 59
    &&& 0 <= ms <= 999
}

/// Leap years among the years `0 .. y`, for `y >= 0`.
pub open spec fn leap_years_before(y: int) -> int {
    (y + 3) / 4 - (y + 99) / 100 + (y + 399) / 400
}

/// Days from 1970-01-01 to the first of January of year `y`.
pub open spec fn days_before_year(y: int) -> int {
    365 * y + leap_years_before(y) - 719528
}

/// Days from the first of January to the first day of month `m`.
pub open spec fn days_before_month(y: int, m: int) -> int {
    let base: int = if m == 1 { 0 }
        else if m == 2 { 31 }
        else if m == 3 { 59 }
        else if m == 4 { 90 }
        else if m == 5 { 120 }
        else if m == 6 { 151 }
        else if m == 7 { 181 }
        else if m == 8 { 212 }
        else if m == 9 { 243 }
        else if m == 10 { 273 }
        else if m == 11 { 304 }
        else { 334 };
    if m > 2 && is_leap_year(y) { base + 1 } else { base }
}

/// Days from 1970-01-01 to the date `y-m-d`.
pub open spec fn epoch_day(y: int, m: int, d: int) -> int {
    days_before_year(y) + days_before_month(y, m) + d - 1
}

/// Milliseconds from 1970-01-01T00:00:00.000Z to the given UTC date and time.
pub open spec fn epoch_millis(y: int, mo: int, d: int, h: int, mi: int, s: int, ms: int) -> int {
    (((epoch_day(y, mo, d) * 24 + h) * 60 + mi) * 60 + s) * 1000 + ms
}

/// What the parser yields for the bytes `s`.
pub open spec fn timestamp_spec(s: Seq<u8>) -> Result<Instant, TimestampError> {
    if !has_timestamp_shape(s) {
        Err(TimestampError::InvalidFormat)
    } else {
        let y = digits_value(s, 0, 4);
        let mo = digits_value(s, 5, 7);
        let d = digits_value(s, 8, 10);
        let h = digits_value(s, 11, 13);
        let mi = digits_value(s, 14, 16);
        let sec = digits_value(s, 17, 19);
        let ms = digits_value(s, 20, 23);
        if !valid_fields(y, mo, d, h, mi, sec, ms) {
            Err(TimestampError::InvalidValue)
        } else {
            Ok(Instant { millis: epoch_millis(y, mo, d, h, mi, sec, ms) as i64 })
        }
    }
}

proof fn lemma_digits_bounds(s: Seq<u8>, lo: int, hi: int)
    requires
        0 <= lo <= hi <= s.len(),
        all_digits(s, lo, hi),
    ensures
        0 <= digits_value(s, lo, hi),
        hi - lo <= 4 ==> digits_value(s, lo, hi) < 10000,
        hi - lo <= 3 ==> digits_value(s, lo, hi) < 1000,
        hi - lo <= 2 ==> digits_value(s, lo, hi) < 100,
        hi - lo <= 1 ==> digits_value(s, lo, hi) < 10,
    decreases hi - lo,
{
    if hi > lo {
        lemma_digits_bounds(s, lo, hi - 1);
    }
}

/// Reads the `hi - lo` decimal digits at `s[lo..hi]`, or `None` if one is not a digit.
fn read_digits(s: &[u8], lo: usize, hi: usize) -> (r: Option<u32>)
    requires
        lo <= hi <= s@.len(),
        hi - lo <= 4,
    ensures
        r.is_some() == all_digits(s@, lo as int, hi as int),
        r.is_some() ==> r.unwrap() as int == digits_value(s@, lo as int, hi as int),
{
    let mut v: u32 = 0;
    let mut i: usize = lo;
    while i < hi
        invariant
            lo <= i <= hi <= s@.len(),
            hi - lo <= 4,
            all_digits(s@, lo as int, i as int),
            v as int == digits_value(s@, lo as int, i as int),
        decreases hi - i,
    {
        let b = s[i];
        if b < 48 || b > 57 {
            return None;
        }
        proof {
            lemma_digits_bounds(s@, lo as int, i as int);
        }
        v = v * 10 + (b - 48) as u32;
        i = i + 1;
    }
    Some(v)
}

fn is_leap(y: u32) -> (r: bool)
    ensures
        r == is_leap_year(y as int),
{
    y % 4 == 0 && (y % 100 != 0 || y % 400 == 0)
}

fn month_length(y: u32, m: u32) -> (r: u32)
    ensures
        r as int == days_in_month(y as int, m as int),
{
    if m == 2 {
        if is_leap(y) { 29 } else { 28 }
    } else if m == 4 || m == 6 || m == 9 || m == 11 {
        30
    } else {
        31
    }
}

fn month_offset(y: u32, m: u32) -> (r: u32)
    requires
        1 <= m <= 12,
    ensures
        r as int == days_before_month(y as int, m as int),
        r <= 335,
{
    let base: u32 = if m == 1 { 0 }
        else if m == 2 { 31 }
        else if m == 3 { 59 }
        else if m == 4 { 90 }
        else if m == 5 { 120 }
        else if m == 6 { 151 }
        else if m == 7 { 181 }
        else if m == 8 { 212 }
        else if m == 9 { 243 }
        else if m == 10 { 273 }
        else if m == 11 { 304 }
        else { 334 };
    if m > 2 && is_leap(y) { base + 1 } else { base }
}

/// The date after `y-m-d`.
pub open spec fn next_date(y: int, m: int, d: int) -> (int, int, int) {
    if d < days_in_month(y, m) {
        (y, m, d + 1)
    } else if m < 12 {
        (y, m + 1, 1)
    } else {
        (y + 1, 1, 1)
    }
}

proof fn lemma_leap_step(y: int)
    requires
        y >= 0,
    ensures
        leap_years_before(y + 1) == leap_years_before(y) + if is_leap_year(y) { 1int } else { 0int },
{
    assert((y + 4) / 4 - (y + 3) / 4 == if y % 4 == 0 { 1int } else { 0int });
    assert((y + 100) / 100 - (y + 99) / 100 == if y % 100 == 0 { 1int } else { 0int });
    assert((y + 400) / 400 - (y + 399) / 400 == if y % 400 == 0 { 1int } else { 0int });
    if y % 400 == 0 {
        assert(y % 100 == 0 && y % 4 == 0);
    } else if y % 100 == 0 {
        assert(y % 4 == 0);
    }
}

/// Day numbers start at 1970-01-01, which is day zero.
pub proof fn lemma_epoch_day_origin()
    ensures
        epoch_day(1970, 1, 1) == 0,
        epoch_millis(1970, 1, 1, 0, 0, 0, 0) == 0,
{
}

/// Day numbers count consecutive calendar days: the date after any valid date
/// has the next day number. With the origin above, this fixes the numbering to
/// the proleptic Gregorian day count from 1970-01-01.
pub proof fn lemma_epoch_day_successor(y: int, m: int, d: int)
    requires
        y >= 0,
        1 <= m <= 12,
        1 <= d <= days_in_month(y, m),
    ensures
        epoch_day(next_date(y, m, d).0, next_date(y, m, d).1, next_date(y, m, d).2)
            == epoch_day(y, m, d) + 1,
{
    if d == days_in_month(y, m) && m == 12 {
        lemma_leap_step(y);
    }
}

/// Parses the bytes of a timestamp `YYYY-MM-DDTHH:MM:SS.mmmZ` in UTC.
pub fn parse_timestamp_bytes(s: &[u8]) -> (r: Result<Instant, TimestampError>)
    ensures
        r == timestamp_spec(s@),
{
    if s.len() != TIMESTAMP_LEN || s[4] != 45u8 || s[7] != 45u8 || s[10] != 84u8
        || s[13] != 58u8 || s[16] != 58u8 || s[19] != 46u8 || s[23] != 90u8 {
        return Err(TimestampError::InvalidFormat);
    }
    let y = match read_digits(s, 0, 4) { Some(v) => v, None => { return Err(TimestampError::InvalidFormat); } };
    let mo = match read_digits(s, 5, 7) { Some(v) => v, None => { return Err(TimestampError::InvalidFormat); } };
    let d = match read_digits(s, 8, 10) { Some(v) => v, None => { return Err(TimestampError::InvalidFormat); } };
    let h = match read_digits(s, 11, 13) { Some(v) => v, None => { return Err(TimestampError::InvalidFormat); } };
    let mi = match read_digits(s, 14, 16) { Some(v) => v, None => { return Err(TimestampError::InvalidFormat); } };
    let sec = match read_digits(s, 17, 19) { Some(v) => v, None => { return Err(TimestampError::InvalidFormat); } };
    let ms = match read_digits(s, 20, 23) { Some(v) => v, None => { return Err(TimestampError::InvalidFormat); } };
    proof {
        lemma_digits_bounds(s@, 0, 4);
    }
    if mo < 1 || mo > 12 || d < 1 || d > month_length(y, mo) || h > 23 || mi > 59 || sec > 59
        || ms > 999 {
        return Err(TimestampError::InvalidValue);
    }
    let yi = y as i64;
    let leaps: i64 = (yi + 3) / 4 - (yi + 99) / 100 + (yi + 399) / 400;
    let day: i64 = 365 * yi + leaps - 719528 + month_offset(y, mo) as i64 + d as i64 - 1;
    assert(-719528 <= day <= 2932896);
    let millis: i64 = (((day * 24 + h as i64) * 60 + mi as i64) * 60 + sec as i64) * 1000 + ms as i64;
    Ok(Instant { millis })
}

/// Parses a timestamp `YYYY-MM-DDTHH:MM:SS.mmmZ` in UTC.
pub fn parse_timestamp(s: &str) -> (r: Result<Instant, TimestampError>)
    ensures
        r == timestamp_spec(s.spec_bytes()),
{
    parse_timestamp_bytes(s.as_bytes())
}

impl Instant {
    /// The instant `millis` milliseconds after 1970-01-01T00:00:00.000Z.
    pub fn from_millis(millis: i64) -> (r: Instant)
        ensures
            r.millis == millis,
    {
        Instant { millis }
    }

    /// Milliseconds since 1970-01-01T00:00:00.000Z.
    pub fn millis(&self) -> (r: i64)
        ensures
            r == self.millis,
    {
        self.millis
    }

    /// Whether `self` lies strictly after `other`.
    pub fn is_after(&self, other: &Instant) -> (r: bool)
        ensures
            r == (self.millis > other.millis),
    {
        self.millis > other.millis
    }
}

} // verus!
