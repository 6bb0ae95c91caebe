//! Calendar arithmetic on days since 1970-01-01, the reading of the system
//! clock as a UTC date and time, and the quoting rule of the record's text
//! fields.

use std::time::{Duration, SystemTime, SystemTimeError};
use vstd::prelude::*;
use vstd::string::StringExecFns;

verus! {

/// `std::time::SystemTime`, carried through as an opaque value.
#[verifier::external_type_specification]
#[verifier::external_body]
pub struct ExSystemTime(SystemTime);

/// `std::time::SystemTimeError`, carried through as an opaque value.
#[verifier::external_type_specification]
#[verifier::external_body]
pub struct ExSystemTimeError(SystemTimeError);

/// `SystemTime::now` reads the system clock; nothing is claimed of the value.
pub assume_specification[ SystemTime::now ]() -> (now: SystemTime);

/// `SystemTime::duration_since` measures the time elapsed since `earlier`, or
/// fails when `earlier` is the later of the two; nothing is claimed of either
/// outcome.
pub assume_specification[ SystemTime::duration_since ](
    time: &SystemTime,
    earlier: SystemTime,
) -> (elapsed: Result<Duration, SystemTimeError>);

/// `Duration::as_secs` gives the whole seconds of a duration; nothing is
/// claimed of the value.
pub assume_specification[ Duration::as_secs ](duration: &Duration) -> (secs: u64);

/// `Duration::subsec_millis` gives the fractional part of a duration in whole
/// milliseconds, which is documented to be less than one thousand.
pub assume_specification[ Duration::subsec_millis ](duration: &Duration) -> (millis: u32)
    ensures
        millis < 1000,
;

/// `std::time::UNIX_EPOCH`, the anchor 1970-01-01 00:00:00 UTC.
#[verifier::external_body]
fn unix_epoch() -> (epoch: SystemTime) {
    std::time::UNIX_EPOCH
}

/// `std::io::Error::new` with the kind `InvalidData` and `message` as its
/// payload; nothing is claimed of the error.
#[verifier::external_body]
fn invalid_data_error(message: String) -> (error: std::io::Error) {
    std::io::Error::new(std::io::ErrorKind::InvalidData, message)
}

/// The Gregorian leap-year rule.
pub open spec fn leap_year(year: int) -> bool {
    year % 4 == 0 && (year % 100 != 0 || year % 400 == 0)
}

/// Number of days in `year`.
pub open spec fn days_in_year(year: int) -> int {
    if leap_year(year) {
        366
    } else {
        365
    }
}

/// Number of days in month `month` (1 to 12) of `year`.
pub open spec fn days_in_month(year: int, month: int) -> int {
    if month == 2 {
        if leap_year(year) {
            29
        } else {
            28
        }
    } else if month == 4 || month == 6 || month == 9 || month == 11 {
        30
    } else {
        31
    }
}

/// Days from 1970-01-01 up to, not including, the first of January of `year`.
pub open spec fn days_before_year(year: int) -> int
    decreases year,
{
    if year <= 1970 {
        0
    } else {
        days_before_year(year - 1) + days_in_year(year - 1)
    }
}

/// Days from the first of January of `year` up to, not including, the first
/// of month `month`.
pub open spec fn days_before_month(year: int, month: int) -> int
    decreases month,
{
    if month <= 1 {
        0
    } else {
        days_before_month(year, month - 1) + days_in_month(year, month - 1)
    }
}

/// `year`-`month`-`day` is a calendar date, and it lies `days` days after
/// 1970-01-01.
pub open spec fn is_date_of(days: int, year: int, month: int, day: int) -> bool {
    &&& 1970 <= year
    &&& 1 <= month <= 12
    &&& 1 <= day <= days_in_month(year, month)
    &&& days == days_before_year(year) + days_before_month(year, month) + day - 1
}

/// Days from 1970-01-01 to the first day whose year no longer fits in a
/// `u16`: the first of January of the year 65536.
pub const DAYS_LIMIT: u64 = 23_217_004;

/// Leap years before `year`, counted from the year 1.
pub open spec fn leap_years_before(year: int) -> int {
    (year - 1) / 4 - (year - 1) / 100 + (year - 1) / 400
}

/// The count of leap years grows by one exactly at a leap year.
proof fn lemma_leap_years_step(year: int)
    requires
        1 <= year,
    ensures
        leap_years_before(year + 1) == leap_years_before(year) + if leap_year(year) {
            1int
        } else {
            0int
        },
{
    let a = (year - 1) / 4;
    let b = (year - 1) / 100;
    let c = (year - 1) / 400;
    assert(year / 4 == if year % 4 == 0 { a + 1 } else { a });
    assert(year / 100 == if year % 100 == 0 { b + 1 } else { b });
    assert(year / 400 == if year % 400 == 0 { c + 1 } else { c });
    assert(year % 400 == 0 ==> year % 100 == 0);
    assert(year % 100 == 0 ==> year % 4 == 0);
}

/// `days_before_year` in closed form.
pub proof fn lemma_days_before_year(year: int)
    requires
        1970 <= year,
    ensures
        days_before_year(year) == 365 * (year - 1970) + leap_years_before(year) - 477,
    decreases year,
{
    if year > 1970 {
        lemma_days_before_year(year - 1);
        lemma_leap_years_step(year - 1);
    }
}

/// `DAYS_LIMIT` is the day on which the year 65536 begins.
pub proof fn lemma_days_limit()
    ensures
        DAYS_LIMIT == days_before_year(65536),
{
    lemma_days_before_year(65536);
}

/// A later year does not start earlier.
pub proof fn lemma_days_before_year_monotone(a: int, b: int)
    requires
        a <= b,
    ensures
        days_before_year(a) <= days_before_year(b),
    decreases b - a,
{
    if a < b {
        lemma_days_before_year_monotone(a, b - 1);
    }
}

/// A year holds every day that is counted within it.
proof fn lemma_day_lies_in_year(days: int, year: int, month: int, day: int)
    requires
        is_date_of(days, year, month, day),
    ensures
        days_before_year(year) <= days < days_before_year(year + 1),
{
    reveal_with_fuel(days_before_month, 13);
}

/// A day count has one calendar date: two dates that lie the same number of
/// days after 1970-01-01 are the same date.
pub proof fn lemma_date_is_unique(
    days: int,
    year1: int,
    month1: int,
    day1: int,
    year2: int,
    month2: int,
    day2: int,
)
    requires
        is_date_of(days, year1, month1, day1),
        is_date_of(days, year2, month2, day2),
    ensures
        year1 == year2,
        month1 == month2,
        day1 == day2,
{
    lemma_day_lies_in_year(days, year1, month1, day1);
    lemma_day_lies_in_year(days, year2, month2, day2);
    if year1 < year2 {
        lemma_days_before_year_monotone(year1 + 1, year2);
    }
    if year2 < year1 {
        lemma_days_before_year_monotone(year2 + 1, year1);
    }
    reveal_with_fuel(days_before_month, 13);
}

/// Whether `year` is a leap year.
pub fn is_leap_year(year: u16) -> (leap: bool)
    ensures
        leap == leap_year(year as int),
{
    (year % 4 == 0) && ((year % 100 != 0) || (year % 400 == 0))
}

/// Length of `year` in days.
fn year_length(year: u16) -> (len: u64)
    ensures
        len == days_in_year(year as int),
{
    if is_leap_year(year) {
        366
    } else {
        365
    }
}

/// Length of month `month` of `year` in days.
fn month_length(year: u16, month: u8) -> (len: u64)
    requires
        1 <= month <= 12,
    ensures
        len == days_in_month(year as int, month as int),
{
    if month == 2 {
        if is_leap_year(year) {
            29
        } else {
            28
        }
    } else if month == 4 || month == 6 || month == 9 || month == 11 {
        30
    } else {
        31
    }
}

/// The calendar date that lies `days` days after 1970-01-01, as year, month
/// (1 to 12) and day of the month (from 1).
pub fn get_date(days: u64) -> (date: (u16, u8, u8))
    requires
        days < DAYS_LIMIT,
    ensures
        is_date_of(days as int, date.0 as int, date.1 as int, date.2 as int),
{
    let mut rest: u64 = days;
    let mut year: u16 = 1970;
    while rest >= year_length(year)
        invariant
            1970 <= year,
            rest + days_before_year(year as int) == days,
            days < DAYS_LIMIT,
        decreases rest,
    {
        proof {
            lemma_days_limit();
            if year == 65535 {
                assert(days_before_year(65536) == days_before_year(65535) + days_in_year(65535));
            }
        }
        rest -= year_length(year);
        year += 1;
    }
    let mut month: u8 = 1;
    proof {
        reveal_with_fuel(days_before_month, 13);
    }
    while month < 12 && rest >= month_length(year, month)
        invariant
            1 <= month <= 12,
            rest + days_before_month(year as int, month as int) + days_before_year(year as int)
                == days,
            rest + days_before_month(year as int, month as int) < days_in_year(year as int),
        decreases 12 - month,
    {
        proof {
            reveal_with_fuel(days_before_month, 13);
        }
        rest -= month_length(year, month);
        month += 1;
    }
    proof {
        reveal_with_fuel(days_before_month, 13);
    }
    (year, month, (rest + 1) as u8)
}

/// A UTC wall-clock reading: year, month, day, hour, minute, second and
/// millisecond.
pub type UtcTime = (u16, u8, u8, u8, u8, u8, u16);

/// `time` is the UTC reading of the instant `secs` seconds and `millis`
/// milliseconds after 1970-01-01 00:00:00.
pub open spec fn is_utc_time_of(secs: int, millis: int, time: UtcTime) -> bool {
    &&& is_date_of(secs / 86_400, time.0 as int, time.1 as int, time.2 as int)
    &&& time.3 == (secs / 3_600) % 24
    &&& time.4 == (secs / 60) % 60
    &&& time.5 == secs % 60
    &&& time.6 == millis
}

/// `time` is the UTC reading of some instant from 1970 on whose year fits in
/// a `u16`.
pub open spec fn is_utc_reading(time: UtcTime) -> bool {
    exists|secs: int, millis: int|
        0 <= secs && secs / 86_400 < DAYS_LIMIT && 0 <= millis < 1000 && #[trigger] is_utc_time_of(
            secs,
            millis,
            time,
        )
}

/// A UTC reading is a calendar date and a time of day.
pub proof fn lemma_utc_reading_is_valid(time: UtcTime)
    requires
        is_utc_reading(time),
    ensures
        1970 <= time.0,
        1 <= time.1 <= 12,
        1 <= time.2 <= days_in_month(time.0 as int, time.1 as int),
        time.3 < 24,
        time.4 < 60,
        time.5 < 60,
        time.6 < 1000,
{
    let (secs, millis) = choose|secs: int, millis: int|
        0 <= secs && secs / 86_400 < DAYS_LIMIT && 0 <= millis < 1000 && #[trigger] is_utc_time_of(
            secs,
            millis,
            time,
        );
    assert(is_utc_time_of(secs, millis, time));
}

/// The UTC reading of the instant `secs` seconds and `millis` milliseconds
/// after 1970-01-01 00:00:00; none for an instant whose year does not fit in
/// a `u16`.
pub fn utc_time_at(secs: u64, millis: u16) -> (time: Option<UtcTime>)
    ensures
        secs / 86_400 < DAYS_LIMIT ==> time is Some && is_utc_time_of(
            secs as int,
            millis as int,
            time->Some_0,
        ),
        secs / 86_400 >= DAYS_LIMIT ==> time is None,
{
    let days_since_epoch = secs / (24 * 3600);
    if days_since_epoch >= DAYS_LIMIT {
        return None;
    }
    let hour = ((secs / 3600) % 24) as u8;
    let minute = ((secs / 60) % 60) as u8;
    let second = (secs % 60) as u8;
    let (year, month, day) = get_date(days_since_epoch);
    Some((year, month, day, hour, minute, second, millis))
}

/// The text that reports a clock that cannot be read as a UTC time, for the
/// reason `reason`.
pub open spec fn clock_failure_text(reason: Seq<char>) -> Seq<char> {
    "Invalid system time: "@ + reason
}

/// What a reading of the clock means. `elapsed` is the time since
/// 1970-01-01 00:00:00 in whole seconds and milliseconds, or the reason why
/// the clock gave none (it stands before 1970). The result is the UTC
/// reading of that instant, or the text that reports the failure: the
/// clock's own reason, or that the year does not fit in a `u16`.
pub fn utc_time_of_clock(elapsed: Result<(u64, u16), String>) -> (result: Result<UtcTime, String>)
    ensures
        match elapsed {
            Ok((secs, millis)) => if secs / 86_400 < DAYS_LIMIT {
                result matches Ok(time) && is_utc_time_of(secs as int, millis as int, time)
            } else {
                result matches Err(text) && text@ == clock_failure_text("year out of range"@)
            },
            Err(reason) => result matches Err(text) && text@ == clock_failure_text(reason@),
        },
{
    match elapsed {
        Ok((secs, millis)) => match utc_time_at(secs, millis) {
            Some(time) => Ok(time),
            None => {
                let mut text = String::from_str("Invalid system time: ");
                text.append("year out of range");
                Err(text)
            },
        },
        Err(reason) => {
            let mut text = String::from_str("Invalid system time: ");
            text.append(reason.as_str());
            Err(text)
        },
    }
}

/// The current UTC time read from the system clock, or an error when the
/// clock stands before 1970 or beyond the last year that fits in a `u16`.
/// The error is of the kind `InvalidData` and carries the text that
/// `utc_time_of_clock` gives for what the clock said.
pub fn cur_utc_time() -> (result: Result<UtcTime, std::io::Error>)
    ensures
        result matches Ok(time) ==> is_utc_reading(time),
{
    let now = SystemTime::now();
    let elapsed = match now.duration_since(unix_epoch()) {
        Ok(since_the_epoch) => Ok(
            (since_the_epoch.as_secs(), since_the_epoch.subsec_millis() as u16),
        ),
        Err(error) => Err(error.to_string()),
    };
    match utc_time_of_clock(elapsed) {
        Ok(time) => {
            assert(is_utc_time_of(elapsed->Ok_0.0 as int, elapsed->Ok_0.1 as int, time));
            Ok(time)
        },
        Err(text) => Err(invalid_data_error(text)),
    }
}

/// A field must be quoted when it holds a comma, a double quote or a line
/// feed.
pub open spec fn needs_quoting(field: Seq<char>) -> bool {
    field.contains(',') || field.contains('"') || field.contains('\n')
}

/// `field` with every double quote written twice.
pub open spec fn double_quotes(field: Seq<char>) -> Seq<char>
    decreases field.len(),
{
    if field.len() == 0 {
        Seq::empty()
    } else if field.last() == '"' {
        double_quotes(field.drop_last()).push('"').push('"')
    } else {
        double_quotes(field.drop_last()).push(field.last())
    }
}

/// The form in which a text field stands in a row of the record: unchanged
/// when it needs no quoting, else wrapped in double quotes with every double
/// quote inside written twice.
pub open spec fn escaped_field(field: Seq<char>) -> Seq<char> {
    if needs_quoting(field) {
        seq!['"'] + double_quotes(field) + seq!['"']
    } else {
        field
    }
}

/// `text` with every pair of double quotes read as one, pairing from the
/// end.
pub open spec fn halve_quotes(text: Seq<char>) -> Seq<char>
    decreases text.len(),
{
    if text.len() == 0 {
        Seq::empty()
    } else if text.len() >= 2 && text.last() == '"' && text[text.len() - 2] == '"' {
        halve_quotes(text.subrange(0, text.len() - 2)).push('"')
    } else {
        halve_quotes(text.drop_last()).push(text.last())
    }
}

/// The field that a reader takes from `text`: what stands between the outer
/// double quotes, with doubled quotes read as one, or `text` itself where it
/// is not quoted.
pub open spec fn unescaped_field(text: Seq<char>) -> Seq<char> {
    if text.len() >= 2 && text.first() == '"' && text.last() == '"' {
        halve_quotes(text.subrange(1, text.len() - 1))
    } else {
        text
    }
}

/// Doubling the quotes of a field loses nothing.
proof fn lemma_halving_undoes_doubling(field: Seq<char>)
    ensures
        halve_quotes(double_quotes(field)) == field,
    decreases field.len(),
{
    if field.len() > 0 {
        let shorter = field.drop_last();
        lemma_halving_undoes_doubling(shorter);
        let doubled = double_quotes(field);
        if field.last() == '"' {
            assert(doubled.subrange(0, doubled.len() - 2) == double_quotes(shorter));
        } else {
            assert(doubled.drop_last() == double_quotes(shorter));
        }
        assert(shorter.push(field.last()) == field);
    }
}

/// The quoting rule loses nothing: the field can be read back from the form
/// in which it stands in the row.
pub proof fn lemma_escaping_is_reversible(field: Seq<char>)
    ensures
        unescaped_field(escaped_field(field)) == field,
{
    if needs_quoting(field) {
        let escaped = escaped_field(field);
        assert(escaped.subrange(1, escaped.len() - 1) == double_quotes(field));
        lemma_halving_undoes_doubling(field);
    } else if field.len() >= 2 && field.first() == '"' {
        assert(field.contains('"'));
    }
}

/// Two fields that stand in a row in the same form are the same field.
pub proof fn lemma_escaping_is_injective(first: Seq<char>, second: Seq<char>)
    requires
        escaped_field(first) == escaped_field(second),
    ensures
        first == second,
{
    lemma_escaping_is_reversible(first);
    lemma_escaping_is_reversible(second);
}

/// Quotes `field` for a comma-separated row where it needs it.
pub fn escape_csv_field(field: &str) -> (escaped: String)
    ensures
        escaped@ == escaped_field(field@),
{
    let mut special = false;
    let mut doubled = String::new();
    for ch in it: field.chars()
        invariant
            it.seq() == field@,
            special == needs_quoting(field@.take(it.index())),
            doubled@ == double_quotes(field@.take(it.index())),
    {
        proof {
            let before = field@.take(it.index());
            let after = field@.take(it.index() + 1);
            assert(after.drop_last() == before);
            assert(after.last() == ch);
            assert(after == before.push(ch));
        }
        if ch == ',' || ch == '"' || ch == '\n' {
            special = true;
        }
        if ch == '"' {
            doubled.push('"');
            doubled.push('"');
        } else {
            doubled.push(ch);
        }
    }
    assert(field@.take(field@.len() as int) == field@);
    if special {
        let mut escaped = String::new();
        escaped.push('"');
        escaped.append(doubled.as_str());
        escaped.push('"');
        escaped
    } else {
        field.to_owned()
    }
}

} // verus!
