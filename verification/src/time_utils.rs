//! Civil-calendar dates and times. The current instant comes from the system
//! clock through two trusted readings; everything computed from a date —
//! formatting, parsing and day differences over the proleptic Gregorian
//! calendar — is verified here.

use vstd::prelude::*;

use vstd::arithmetic::div_mod::lemma_basic_div;
use vstd::arithmetic::div_mod::lemma_div_denominator;
use vstd::arithmetic::div_mod::lemma_fundamental_div_mod;
use vstd::arithmetic::div_mod::lemma_fundamental_div_mod_converse_div;
use vstd::arithmetic::div_mod::lemma_fundamental_div_mod_converse_mod;
use vstd::arithmetic::div_mod::lemma_mod_bound;

use crate::errors::SyncError;
use crate::text::push_char;
use crate::text::str_eq;

verus! {

/// A civil (year, month, day) date.
#[derive(Clone, Copy, PartialEq, Eq, Structural, Debug)]
pub struct Date {
    pub year: i32,
    pub month: u32,
    pub day: u32,
}

/// A civil date with a time of day.
#[derive(Clone, Copy, PartialEq, Eq, Structural, Debug)]
pub struct DateTime {
    pub date: Date,
    pub hour: u32,
    pub minute: u32,
    pub second: u32,
}

pub open spec fn is_leap_year(y: int) -> bool {
    (y % 4 == 0 && y % 100 != 0) || y % 400 == 0
}

pub open spec fn days_in_month(y: int, m: int) -> int {
    if m == 2 {
        if is_leap_year(y) {
            29
        } else {
            28
        }
    } else if m == 4 || m == 6 || m == 9 || m == 11 {
        30
    } else {
        31
    }
}

/// The dates this library works with: years 1 through 9999 of the proleptic
/// Gregorian calendar.
pub open spec fn date_valid(d: Date) -> bool {
    &&& 1 <= d.year <= 9999
    &&& 1 <= d.month <= 12
    &&& 1 <= d.day <= days_in_month(d.year as int, d.month as int)
}

pub open spec fn datetime_valid(t: DateTime) -> bool {
    &&& date_valid(t.date)
    &&& t.hour < 24
    &&& t.minute < 60
    &&& t.second < 60
}

/// The contribution of the (March-shifted) year to `day_number`.
pub open spec fn year_rank(y: int) -> int {
    let era = y / 400;
    let yoe = y - era * 400;
    era * 146097 + yoe * 365 + yoe / 4 - yoe / 100
}

/// Rank of a valid date in the proleptic Gregorian calendar: consecutive
/// dates have consecutive ranks, so differences of ranks are day differences.
pub open spec fn day_number(d: Date) -> int {
    let y: int = if d.month <= 2 {
        d.year - 1
    } else {
        d.year as int
    };
    let mp = (d.month + 9) % 12;
    let doy = (153 * mp + 2) / 5 + d.day - 1;
    year_rank(y) + doy
}

proof fn lemma_year_rank(y: int)
    requires
        y >= 0,
    ensures
        year_rank(y) == 365 * y + y / 4 - y / 100 + y / 400,
{
    let era = y / 400;
    lemma_fundamental_div_mod(y, 400);
    lemma_mod_bound(y, 400);
    let yoe = y % 400;
    assert(y - era * 400 == yoe);
    lemma_fundamental_div_mod(yoe, 4);
    lemma_mod_bound(yoe, 4);
    let q4 = yoe / 4;
    let r4 = yoe % 4;
    assert(y == (100 * era + q4) * 4 + r4) by (nonlinear_arith)
        requires
            y == 400 * era + yoe,
            yoe == 4 * q4 + r4,
    ;
    lemma_fundamental_div_mod_converse_div(y, 4, 100 * era + q4, r4);
    lemma_fundamental_div_mod(yoe, 100);
    lemma_mod_bound(yoe, 100);
    let q100 = yoe / 100;
    let r100 = yoe % 100;
    assert(y == (4 * era + q100) * 100 + r100) by (nonlinear_arith)
        requires
            y == 400 * era + yoe,
            yoe == 100 * q100 + r100,
    ;
    lemma_fundamental_div_mod_converse_div(y, 100, 4 * era + q100, r100);
    assert(365 * y == 365 * (400 * era + yoe)) by (nonlinear_arith)
        requires
            y == 400 * era + yoe,
    ;
    assert(365 * (400 * era + yoe) == 146000 * era + 365 * yoe) by (nonlinear_arith);
}

/// How a division by `d` steps when its argument steps by one.
proof fn lemma_div_step(y: int, d: int)
    requires
        y >= 1,
        d >= 1,
    ensures
        y / d - (y - 1) / d == if y % d == 0 {
            1int
        } else {
            0int
        },
{
    lemma_fundamental_div_mod(y, d);
    lemma_mod_bound(y, d);
    let q = y / d;
    let r = y % d;
    if r == 0 {
        assert(y - 1 == (q - 1) * d + (d - 1)) by (nonlinear_arith)
            requires
                y == d * q,
        ;
        lemma_fundamental_div_mod_converse_div(y - 1, d, q - 1, d - 1);
    } else {
        assert(y - 1 == q * d + (r - 1)) by (nonlinear_arith)
            requires
                y == d * q + r,
        ;
        lemma_fundamental_div_mod_converse_div(y - 1, d, q, r - 1);
    }
}

/// The leap rule is exactly what the year ranks see: the rank difference of
/// consecutive years is 366 for a leap year and 365 otherwise.
proof fn lemma_leap_step(y: int)
    requires
        y >= 1,
    ensures
        year_rank(y) - year_rank(y - 1) == if is_leap_year(y) {
            366int
        } else {
            365int
        },
{
    lemma_year_rank(y);
    lemma_year_rank(y - 1);
    lemma_div_step(y, 4);
    lemma_div_step(y, 100);
    lemma_div_step(y, 400);
    if y % 400 == 0 {
        lemma_fundamental_div_mod(y, 400);
        assert(y == (4 * (y / 400)) * 100 + 0) by (nonlinear_arith)
            requires
                y == 400 * (y / 400),
        ;
        lemma_fundamental_div_mod_converse_mod(y, 100, 4 * (y / 400), 0);
    }
    if y % 100 == 0 {
        lemma_fundamental_div_mod(y, 100);
        assert(y == (25 * (y / 100)) * 4 + 0) by (nonlinear_arith)
            requires
                y == 100 * (y / 100),
        ;
        lemma_fundamental_div_mod_converse_mod(y, 4, 25 * (y / 100), 0);
    }
}

/// The date after a valid date.
pub open spec fn next_date(d: Date) -> Date {
    if d.day < days_in_month(d.year as int, d.month as int) {
        Date { year: d.year, month: d.month, day: (d.day + 1) as u32 }
    } else if d.month < 12 {
        Date { year: d.year, month: (d.month + 1) as u32, day: 1 }
    } else {
        Date { year: (d.year + 1) as i32, month: 1, day: 1 }
    }
}

/// Consecutive civil dates have consecutive ranks, so a difference of
/// `day_number` values is a difference in days; the retention horizon
/// therefore measures real calendar age.
pub proof fn lemma_day_number_succ(d: Date)
    requires
        date_valid(d),
        d.year < 9999 || d.month < 12 || d.day < 31,
    ensures
        date_valid(next_date(d)),
        day_number(next_date(d)) == day_number(d) + 1,
{
    let n = next_date(d);
    let y = d.year as int;
    if d.day < days_in_month(y, d.month as int) {
        assert(day_number(n) == day_number(d) + 1);
    } else if d.month < 12 {
        if d.month == 2 {
            lemma_leap_step(y);
            assert(day_number(d) == year_rank(y - 1) + 336 + d.day);
            assert(day_number(n) == year_rank(y));
            if is_leap_year(y) {
                assert(d.day == 29);
            } else {
                assert(d.day == 28);
            }
        } else if d.month == 1 {
            assert(day_number(n) == day_number(d) + 1);
        } else if d.month == 3 {
            assert(day_number(n) == day_number(d) + 1);
        } else if d.month == 4 {
            assert(day_number(n) == day_number(d) + 1);
        } else if d.month == 5 {
            assert(day_number(n) == day_number(d) + 1);
        } else if d.month == 6 {
            assert(day_number(n) == day_number(d) + 1);
        } else if d.month == 7 {
            assert(day_number(n) == day_number(d) + 1);
        } else if d.month == 8 {
            assert(day_number(n) == day_number(d) + 1);
        } else if d.month == 9 {
            assert(day_number(n) == day_number(d) + 1);
        } else if d.month == 10 {
            assert(day_number(n) == day_number(d) + 1);
        } else {
            assert(d.month == 11);
            assert(day_number(n) == day_number(d) + 1);
        }
    } else {
        assert(d.month == 12 && d.day == 31);
        assert(day_number(n) == day_number(d) + 1);
    }
}

/// Computes the rank of a valid date.
pub fn date_day_number(d: &Date) -> (r: u64)
    requires
        date_valid(*d),
    ensures
        r == day_number(*d),
        r < 3_700_000,
{
    let y: u64 = if d.month <= 2 {
        (d.year - 1) as u64
    } else {
        d.year as u64
    };
    let era: u64 = y / 400;
    let yoe: u64 = y - era * 400;
    let mp: u64 = ((d.month as u64) + 9) % 12;
    let doy: u64 = (153 * mp + 2) / 5 + (d.day as u64) - 1;
    let doe: u64 = yoe * 365 + yoe / 4 - yoe / 100 + doy;
    era * 146097 + doe
}

/// The number of days from `b` to `a` (positive when `a` is later).
pub fn date_difference(a: &Date, b: &Date) -> (r: i64)
    requires
        date_valid(*a),
        date_valid(*b),
    ensures
        r == day_number(*a) - day_number(*b),
{
    let na = date_day_number(a);
    let nb = date_day_number(b);
    (na as i64) - (nb as i64)
}

pub open spec fn digit_char(v: int) -> char {
    if v == 0 {
        '0'
    } else if v == 1 {
        '1'
    } else if v == 2 {
        '2'
    } else if v == 3 {
        '3'
    } else if v == 4 {
        '4'
    } else if v == 5 {
        '5'
    } else if v == 6 {
        '6'
    } else if v == 7 {
        '7'
    } else if v == 8 {
        '8'
    } else {
        '9'
    }
}

pub open spec fn is_digit(c: char) -> bool {
    '0' as u32 <= c as u32 <= '9' as u32
}

pub open spec fn digit_val(c: char) -> int {
    c as u32 - '0' as u32
}

/// Two decimal digits, zero padded.
pub open spec fn spec_2digit(v: int) -> Seq<char> {
    seq![digit_char((v / 10) % 10), digit_char(v % 10)]
}

/// Four decimal digits, zero padded.
pub open spec fn spec_4digit(v: int) -> Seq<char> {
    seq![
        digit_char((v / 1000) % 10),
        digit_char((v / 100) % 10),
        digit_char((v / 10) % 10),
        digit_char(v % 10),
    ]
}

/// The `YYYYMMDD` form of a date, as used for backup bucket names.
pub open spec fn spec_yyyymmdd(d: Date) -> Seq<char> {
    spec_4digit(d.year as int) + spec_2digit(d.month as int) + spec_2digit(d.day as int)
}

/// The `%Y_%m_%d_%H%M%S` form, as used for backup file name suffixes.
pub open spec fn spec_compact_datetime(t: DateTime) -> Seq<char> {
    spec_4digit(t.date.year as int) + seq!['_'] + spec_2digit(t.date.month as int) + seq!['_']
        + spec_2digit(t.date.day as int) + seq!['_'] + spec_2digit(t.hour as int) + spec_2digit(
        t.minute as int,
    ) + spec_2digit(t.second as int)
}

/// The `%Y-%m-%dT%H:%M:%SZ` form, as used for audit record timestamps.
pub open spec fn spec_iso_datetime(t: DateTime) -> Seq<char> {
    spec_4digit(t.date.year as int) + seq!['-'] + spec_2digit(t.date.month as int) + seq!['-']
        + spec_2digit(t.date.day as int) + seq!['T'] + spec_2digit(t.hour as int) + seq![':']
        + spec_2digit(t.minute as int) + seq![':'] + spec_2digit(t.second as int) + seq!['Z']
}

fn digit_to_char(v: u32) -> (r: char)
    requires
        v < 10,
    ensures
        r == digit_char(v as int),
{
    if v == 0 {
        '0'
    } else if v == 1 {
        '1'
    } else if v == 2 {
        '2'
    } else if v == 3 {
        '3'
    } else if v == 4 {
        '4'
    } else if v == 5 {
        '5'
    } else if v == 6 {
        '6'
    } else if v == 7 {
        '7'
    } else if v == 8 {
        '8'
    } else {
        '9'
    }
}

fn push_2digit(s: &mut String, v: u32)
    requires
        v < 100,
    ensures
        final(s)@ == old(s)@ + spec_2digit(v as int),
{
    push_char(s, digit_to_char((v / 10) % 10));
    push_char(s, digit_to_char(v % 10));
    proof {
        assert(final(s)@ =~= old(s)@ + spec_2digit(v as int));
    }
}

fn push_4digit(s: &mut String, v: u32)
    requires
        v < 10000,
    ensures
        final(s)@ == old(s)@ + spec_4digit(v as int),
{
    push_char(s, digit_to_char((v / 1000) % 10));
    push_char(s, digit_to_char((v / 100) % 10));
    push_char(s, digit_to_char((v / 10) % 10));
    push_char(s, digit_to_char(v % 10));
    proof {
        assert(final(s)@ =~= old(s)@ + spec_4digit(v as int));
    }
}

/// Formats a date as `YYYYMMDD`.
pub fn format_yyyymmdd(d: &Date) -> (r: String)
    requires
        date_valid(*d),
    ensures
        r@ == spec_yyyymmdd(*d),
{
    let mut s = String::new();
    push_4digit(&mut s, d.year as u32);
    push_2digit(&mut s, d.month);
    push_2digit(&mut s, d.day);
    proof {
        assert(s@ =~= spec_yyyymmdd(*d));
    }
    s
}

/// Formats a datetime as `%Y_%m_%d_%H%M%S`.
pub fn format_compact_datetime(t: &DateTime) -> (r: String)
    requires
        datetime_valid(*t),
    ensures
        r@ == spec_compact_datetime(*t),
{
    let mut s = String::new();
    push_4digit(&mut s, t.date.year as u32);
    push_char(&mut s, '_');
    push_2digit(&mut s, t.date.month);
    push_char(&mut s, '_');
    push_2digit(&mut s, t.date.day);
    push_char(&mut s, '_');
    push_2digit(&mut s, t.hour);
    push_2digit(&mut s, t.minute);
    push_2digit(&mut s, t.second);
    proof {
        assert(s@ =~= spec_compact_datetime(*t));
    }
    s
}

/// Formats a datetime as `%Y-%m-%dT%H:%M:%SZ`.
pub fn format_iso_datetime(t: &DateTime) -> (r: String)
    requires
        datetime_valid(*t),
    ensures
        r@ == spec_iso_datetime(*t),
{
    let mut s = String::new();
    push_4digit(&mut s, t.date.year as u32);
    push_char(&mut s, '-');
    push_2digit(&mut s, t.date.month);
    push_char(&mut s, '-');
    push_2digit(&mut s, t.date.day);
    push_char(&mut s, 'T');
    push_2digit(&mut s, t.hour);
    push_char(&mut s, ':');
    push_2digit(&mut s, t.minute);
    push_char(&mut s, ':');
    push_2digit(&mut s, t.second);
    push_char(&mut s, 'Z');
    proof {
        assert(s@ =~= spec_iso_datetime(*t));
    }
    s
}

/// What a `YYYYMMDD` text denotes: eight digits forming a valid date.
pub open spec fn spec_parse_yyyymmdd(s: Seq<char>) -> Option<Date> {
    if s.len() == 8 && (forall|i: int| 0 <= i < 8 ==> is_digit(#[trigger] s[i])) {
        let y = digit_val(s[0]) * 1000 + digit_val(s[1]) * 100 + digit_val(s[2]) * 10 + digit_val(
            s[3],
        );
        let m = digit_val(s[4]) * 10 + digit_val(s[5]);
        let d = digit_val(s[6]) * 10 + digit_val(s[7]);
        let date = Date { year: y as i32, month: m as u32, day: d as u32 };
        if date_valid(date) {
            Some(date)
        } else {
            None
        }
    } else {
        None
    }
}

fn char_digit_val(c: char) -> (r: Option<u32>)
    ensures
        r is Some <==> is_digit(c),
        r is Some ==> r.unwrap() == digit_val(c) && r.unwrap() < 10,
{
    let v = c as u32;
    let zero = '0' as u32;
    let nine = '9' as u32;
    if zero <= v && v <= nine {
        Some(v - zero)
    } else {
        None
    }
}

/// Parses a `YYYYMMDD` text into a valid date; any other text is rejected.
pub fn parse_yyyymmdd(s: &str) -> (r: Option<Date>)
    ensures
        r == spec_parse_yyyymmdd(s@),
{
    if s.unicode_len() != 8 {
        return None;
    }
    let mut digits: [u32; 8] = [0; 8];
    let mut i: usize = 0;
    while i < 8
        invariant
            s@.len() == 8,
            0 <= i <= 8,
            forall|j: int| 0 <= j < i ==> is_digit(#[trigger] s@[j]),
            forall|j: int| 0 <= j < i ==> digits@[j] == digit_val(#[trigger] s@[j]),
            forall|j: int| 0 <= j < i ==> digits@[j] < 10,
        decreases 8 - i,
    {
        match char_digit_val(s.get_char(i)) {
            Some(v) => {
                digits[i] = v;
            },
            None => {
                return None;
            },
        }
        i += 1;
    }
    let y: u32 = digits[0] * 1000 + digits[1] * 100 + digits[2] * 10 + digits[3];
    let m: u32 = digits[4] * 10 + digits[5];
    let d: u32 = digits[6] * 10 + digits[7];
    let date = Date { year: y as i32, month: m, day: d };
    if 1 <= date.year && 1 <= m && m <= 12 && 1 <= d && d <= days_in_month_exec(date.year, m) {
        Some(date)
    } else {
        None
    }
}

fn days_in_month_exec(y: i32, m: u32) -> (r: u32)
    requires
        1 <= y,
    ensures
        r == days_in_month(y as int, m as int),
{
    let yy = y as u32;
    if m == 2 {
        if (yy % 4 == 0 && yy % 100 != 0) || yy % 400 == 0 {
            29
        } else {
            28
        }
    } else if m == 4 || m == 6 || m == 9 || m == 11 {
        30
    } else {
        31
    }
}

/// Formatting a valid date as `YYYYMMDD` and parsing the text back yields the
/// same date.
proof fn lemma_digits2(m: int)
    requires
        0 <= m < 100,
    ensures
        0 <= (m / 10) % 10 < 10,
        0 <= m % 10 < 10,
        ((m / 10) % 10) * 10 + m % 10 == m,
{
    lemma_fundamental_div_mod(m, 10);
    lemma_mod_bound(m, 10);
    lemma_mod_bound(m / 10, 10);
    lemma_fundamental_div_mod(m / 10, 10);
    lemma_div_denominator(m, 10, 10);
    lemma_basic_div(m, 100);
}

proof fn lemma_digits4(y: int)
    requires
        0 <= y < 10000,
    ensures
        0 <= (y / 1000) % 10 < 10,
        0 <= (y / 100) % 10 < 10,
        0 <= (y / 10) % 10 < 10,
        0 <= y % 10 < 10,
        ((y / 1000) % 10) * 1000 + ((y / 100) % 10) * 100 + ((y / 10) % 10) * 10 + y % 10 == y,
{
    lemma_fundamental_div_mod(y, 10);
    lemma_mod_bound(y, 10);
    lemma_fundamental_div_mod(y / 10, 10);
    lemma_mod_bound(y / 10, 10);
    lemma_fundamental_div_mod(y / 100, 10);
    lemma_mod_bound(y / 100, 10);
    lemma_fundamental_div_mod(y / 1000, 10);
    lemma_mod_bound(y / 1000, 10);
    lemma_div_denominator(y, 10, 10);
    lemma_div_denominator(y, 100, 10);
    lemma_div_denominator(y, 1000, 10);
    lemma_basic_div(y, 10000);
}

#[verifier::rlimit(50)]
pub proof fn lemma_yyyymmdd_round_trip(d: Date)
    requires
        date_valid(d),
    ensures
        spec_parse_yyyymmdd(spec_yyyymmdd(d)) == Some(d),
{
    let s = spec_yyyymmdd(d);
    assert(s.len() == 8);
    let y = d.year as int;
    let m = d.month as int;
    let dd = d.day as int;
    assert forall|v: int| 0 <= v < 10 implies is_digit(digit_char(v)) && digit_val(digit_char(v))
        == v by {}
    lemma_digits4(y);
    lemma_digits2(m);
    lemma_digits2(dd);
    assert(forall|i: int| 0 <= i < 8 ==> is_digit(#[trigger] s[i]));
    assert(spec_parse_yyyymmdd(s) == Some(d));
}

/// Relies on `chrono::Utc::now` and `NaiveDate`'s field accessors: the
/// current UTC civil date; chrono only represents valid calendar dates, with
/// the month in 1..=12 and the day valid for that month.
#[verifier::external_body]
pub fn get_current_utc_naivedate() -> (r: Date)
    ensures
        1 <= r.month <= 12,
        1 <= r.day <= days_in_month(r.year as int, r.month as int),
{
    let d = chrono::Utc::now().date_naive();
    Date {
        year: chrono::Datelike::year(&d),
        month: chrono::Datelike::month(&d),
        day: chrono::Datelike::day(&d),
    }
}

/// Relies on `chrono::Utc::now` and `NaiveDateTime`'s field accessors: the
/// current UTC civil date and time of day; chrono keeps the month in 1..=12,
/// the day valid for that month, the hour below 24 and minute and second
/// below 60.
#[verifier::external_body]
pub fn get_currnet_utc_naivedatetime() -> (r: DateTime)
    ensures
        1 <= r.date.month <= 12,
        1 <= r.date.day <= days_in_month(r.date.year as int, r.date.month as int),
        r.hour < 24,
        r.minute < 60,
        r.second < 60,
{
    let t = chrono::Utc::now().naive_utc();
    DateTime {
        date: Date {
            year: chrono::Datelike::year(&t),
            month: chrono::Datelike::month(&t),
            day: chrono::Datelike::day(&t),
        },
        hour: chrono::Timelike::hour(&t),
        minute: chrono::Timelike::minute(&t),
        second: chrono::Timelike::second(&t),
    }
}

/// Converts a date to text; only the `%Y%m%d` format is supported.
pub fn get_str_from_naivedate(naive_date: Date, fmt: &str) -> (r: Result<String, SyncError>)
    requires
        date_valid(naive_date),
    ensures
        fmt@ == "%Y%m%d"@ ==> r == Ok::<String, SyncError>(r.unwrap()) && r.unwrap()@
            == spec_yyyymmdd(naive_date),
        fmt@ != "%Y%m%d"@ ==> r == Err::<String, SyncError>(SyncError::FormatError),
{
    if str_eq(fmt, "%Y%m%d") {
        Ok(format_yyyymmdd(&naive_date))
    } else {
        Err(SyncError::FormatError)
    }
}

/// Converts a datetime to text; the supported formats are `%Y_%m_%d_%H%M%S`
/// and `%Y-%m-%dT%H:%M:%SZ`.
pub fn get_str_from_naivedatetime(naive_date: DateTime, fmt: &str) -> (r: Result<
    String,
    SyncError,
>)
    requires
        datetime_valid(naive_date),
    ensures
        fmt@ == "%Y_%m_%d_%H%M%S"@ ==> r == Ok::<String, SyncError>(r.unwrap()) && r.unwrap()@
            == spec_compact_datetime(naive_date),
        fmt@ == "%Y-%m-%dT%H:%M:%SZ"@ ==> r == Ok::<String, SyncError>(r.unwrap()) && r.unwrap()@
            == spec_iso_datetime(naive_date),
        fmt@ != "%Y_%m_%d_%H%M%S"@ && fmt@ != "%Y-%m-%dT%H:%M:%SZ"@ ==> r == Err::<
            String,
            SyncError,
        >(SyncError::FormatError),
{
    proof {
        reveal_strlit("%Y_%m_%d_%H%M%S");
        reveal_strlit("%Y-%m-%dT%H:%M:%SZ");
        assert("%Y_%m_%d_%H%M%S"@.len() == 15);
        assert("%Y-%m-%dT%H:%M:%SZ"@.len() == 18);
    }
    if str_eq(fmt, "%Y_%m_%d_%H%M%S") {
        Ok(format_compact_datetime(&naive_date))
    } else if str_eq(fmt, "%Y-%m-%dT%H:%M:%SZ") {
        Ok(format_iso_datetime(&naive_date))
    } else {
        Err(SyncError::FormatError)
    }
}

/// The current UTC date as text; only the `%Y%m%d` format is supported, and
/// a clock outside years 1..=9999 is rejected.
pub fn get_current_utc_naivedate_str(fmt: &str) -> (r: Result<String, SyncError>)
    ensures
        fmt@ != "%Y%m%d"@ ==> r == Err::<String, SyncError>(SyncError::FormatError) || r == Err::<
            String,
            SyncError,
        >(SyncError::InvalidDate),
        fmt@ == "%Y%m%d"@ ==> r is Ok || r == Err::<String, SyncError>(SyncError::InvalidDate),
        r is Ok ==> fmt@ == "%Y%m%d"@ && exists|d: Date|
            date_valid(d) && r.unwrap()@ == spec_yyyymmdd(d),
{
    let today = get_current_utc_naivedate();
    if today.year < 1 || today.year > 9999 {
        return Err(SyncError::InvalidDate);
    }
    let out = get_str_from_naivedate(today, fmt)?;
    proof {
        if fmt@ == "%Y%m%d"@ {
            assert(date_valid(today) && out@ == spec_yyyymmdd(today));
        } else {
            assert(false);
        }
    }
    Ok(out)
}

/// The current UTC datetime as text; the supported formats are
/// `%Y_%m_%d_%H%M%S` and `%Y-%m-%dT%H:%M:%SZ`, and a clock outside years
/// 1..=9999 is rejected.
pub fn get_current_utc_naivedatetime_str(fmt: &str) -> (r: Result<String, SyncError>)
    ensures
        fmt@ != "%Y_%m_%d_%H%M%S"@ && fmt@ != "%Y-%m-%dT%H:%M:%SZ"@ ==> r == Err::<
            String,
            SyncError,
        >(SyncError::FormatError) || r == Err::<String, SyncError>(SyncError::InvalidDate),
        fmt@ == "%Y_%m_%d_%H%M%S"@ || fmt@ == "%Y-%m-%dT%H:%M:%SZ"@ ==> r is Ok || r == Err::<
            String,
            SyncError,
        >(SyncError::InvalidDate),
        r is Ok ==> exists|t: DateTime|
            datetime_valid(t) && (r.unwrap()@ == spec_compact_datetime(t) || r.unwrap()@
                == spec_iso_datetime(t)),
{
    let now = get_currnet_utc_naivedatetime();
    if now.date.year < 1 || now.date.year > 9999 {
        return Err(SyncError::InvalidDate);
    }
    let out = get_str_from_naivedatetime(now, fmt)?;
    proof {
        if fmt@ == "%Y_%m_%d_%H%M%S"@ {
            assert(datetime_valid(now) && out@ == spec_compact_datetime(now));
        } else if fmt@ == "%Y-%m-%dT%H:%M:%SZ"@ {
            assert(datetime_valid(now) && out@ == spec_iso_datetime(now));
        } else {
            assert(false);
        }
    }
    Ok(out)
}

/// How many days ago (UTC) a `YYYYMMDD` text lies: the difference from that
/// date to the current date, positive when the text names a past date. A
/// text that does not parse is rejected.
pub fn calculate_date_difference_utc(date_str: &str) -> (r: Result<i64, SyncError>)
    ensures
        spec_parse_yyyymmdd(date_str@) is None ==> r == Err::<i64, SyncError>(SyncError::ParseError),
        spec_parse_yyyymmdd(date_str@) is Some ==> r is Ok || r == Err::<i64, SyncError>(
            SyncError::InvalidDate,
        ),
        r is Ok ==> spec_parse_yyyymmdd(date_str@) is Some && exists|today: Date|
            date_valid(today) && r.unwrap() == day_number(today) - day_number(
                spec_parse_yyyymmdd(date_str@).unwrap(),
            ),
{
    let parsed = match parse_yyyymmdd(date_str) {
        Some(p) => p,
        None => {
            return Err(SyncError::ParseError);
        },
    };
    let today = get_current_utc_naivedate();
    if today.year < 1 || today.year > 9999 {
        return Err(SyncError::InvalidDate);
    }
    Ok(date_difference(&today, &parsed))
}

} // verus!
