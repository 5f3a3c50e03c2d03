//! Timestamps: the wall clock in ISO 8601, coordinated universal time.

use crate::text::{decimal_value, padded, padded_text, padded_text_fits, padded_text_reads_back};
use vstd::prelude::*;

verus! {

/// A day of the Gregorian calendar.
pub struct CivilDate {
    pub year: int,
    pub month: int,
    pub day: int,
}

/// Whether a year has a 29th of February.
pub open spec fn is_leap(year: int) -> bool {
    (year % 4 == 0 && year % 100 != 0) || year % 400 == 0
}

/// How many days a year has.
pub open spec fn year_length(year: int) -> int {
    if is_leap(year) {
        366
    } else {
        365
    }
}

/// How many days a month has.
pub open spec fn month_length(year: int, month: int) -> int {
    if month == 2 {
        if is_leap(year) {
            29
        } else {
            28
        }
    } else if month == 4 || month == 6 || month == 9 || month == 11 {
        30
    } else {
        31
    }
}

/// How many days lie between the first day of 1970 and that of a later year.
pub open spec fn days_before_year(year: int) -> int
    decreases year - 1970,
{
    if year <= 1970 {
        0
    } else {
        days_before_year(year - 1) + year_length(year - 1)
    }
}

/// How many days of a year lie before one of its months.
pub open spec fn days_before_month(year: int, month: int) -> int
    decreases month,
{
    if month <= 1 {
        0
    } else {
        days_before_month(year, month - 1) + month_length(year, month - 1)
    }
}

impl CivilDate {
    /// Whether this is a day of the calendar, from 1970 on.
    pub open spec fn is_valid(self) -> bool {
        &&& 1970 <= self.year
        &&& 1 <= self.month <= 12
        &&& 1 <= self.day <= month_length(self.year, self.month)
    }

    /// How many days lie between the first of January 1970 and this day.
    pub open spec fn day_number(self) -> int {
        days_before_year(self.year) + days_before_month(self.year, self.month) + self.day - 1
    }

    /// Whether this day comes before another one in the calendar.
    pub open spec fn is_before(self, other: CivilDate) -> bool {
        ||| self.year < other.year
        ||| self.year == other.year && self.month < other.month
        ||| self.year == other.year && self.month == other.month && self.day < other.day
    }
}

/// The day of the calendar that comes a number of days after the first of
/// January 1970.
pub open spec fn civil_date(days: nat) -> CivilDate {
    choose|date: CivilDate| date.is_valid() && #[trigger] date.day_number() == days
}

/// Date and time of day, a number of seconds after the start of 1970.
pub open spec fn date_time_text(unix_secs: nat) -> Seq<char> {
    let date = civil_date(unix_secs / 86400);
    let time_of_day = unix_secs % 86400;
    padded_text(date.year as nat, 4) + seq!['-'] + padded_text(date.month as nat, 2) + seq!['-']
        + padded_text(date.day as nat, 2) + seq!['T'] + padded_text(time_of_day / 3600, 2) + seq![
        ':',
    ] + padded_text(time_of_day % 3600 / 60, 2) + seq![':'] + padded_text(time_of_day % 60, 2)
}

/// A timestamp with milliseconds, in coordinated universal time.
pub open spec fn timestamp_text(unix_secs: nat, millis: nat) -> Seq<char> {
    date_time_text(unix_secs) + seq!['.'] + padded_text(millis, 3) + seq!['Z']
}

/// The timestamp of a moment, a number of nanoseconds after the start of 1970.
/// What is less than a millisecond is cut off.
pub open spec fn moment_text(nanos: nat) -> Seq<char> {
    timestamp_text(nanos / 1_000_000_000, nanos % 1_000_000_000 / 1_000_000)
}

/// Whether a text is the timestamp of some reading of the clock.
pub open spec fn is_timestamp(text: Seq<char>) -> bool {
    exists|unix_secs: u64, millis: u32|
        millis < 1000 && text == #[trigger] timestamp_text(unix_secs as nat, millis as nat)
}

proof fn lemma_days_before_year_grows(a: int, b: int)
    requires
        1970 <= a <= b,
    ensures
        days_before_year(a) + 365 * (b - a) <= days_before_year(b),
    decreases b - a,
{
    if a < b {
        lemma_days_before_year_grows(a, b - 1);
    }
}

proof fn lemma_days_before_month_grows(year: int, a: int, b: int)
    requires
        1 <= a <= b,
    ensures
        days_before_month(year, a) + 28 * (b - a) <= days_before_month(year, b),
    decreases b - a,
{
    if a < b {
        lemma_days_before_month_grows(year, a, b - 1);
    }
}

proof fn lemma_months_fill_year(year: int)
    ensures
        days_before_month(year, 13) == year_length(year),
{
    reveal_with_fuel(days_before_month, 14);
}

proof fn lemma_day_within_year(date: CivilDate)
    requires
        date.is_valid(),
    ensures
        days_before_year(date.year) <= date.day_number() < days_before_year(date.year + 1),
        days_before_month(date.year, date.month) <= date.day_number() - days_before_year(date.year)
            < days_before_month(date.year, date.month + 1),
{
    lemma_months_fill_year(date.year);
    lemma_days_before_month_grows(date.year, 1, date.month);
    lemma_days_before_month_grows(date.year, date.month + 1, 13);
}

/// A later day of the calendar has a higher number.
pub proof fn day_number_follows_the_calendar(a: CivilDate, b: CivilDate)
    requires
        a.is_valid(),
        b.is_valid(),
    ensures
        a.is_before(b) <==> a.day_number() < b.day_number(),
        a == b <==> a.day_number() == b.day_number(),
{
    lemma_day_within_year(a);
    lemma_day_within_year(b);
    if a.year < b.year {
        lemma_days_before_year_grows(a.year + 1, b.year);
    } else if b.year < a.year {
        lemma_days_before_year_grows(b.year + 1, a.year);
    } else if a.month < b.month {
        lemma_days_before_month_grows(a.year, a.month + 1, b.month);
    } else if b.month < a.month {
        lemma_days_before_month_grows(a.year, b.month + 1, a.month);
    }
}

/// The date of a day number is that day, and no other day has the number.
pub proof fn civil_date_of_day_number(date: CivilDate)
    requires
        date.is_valid(),
    ensures
        date.day_number() >= 0,
        civil_date(date.day_number() as nat) == date,
{
    lemma_days_before_year_grows(1970, date.year);
    lemma_days_before_month_grows(date.year, 1, date.month);
    let found = civil_date(date.day_number() as nat);
    day_number_follows_the_calendar(date, found);
}

proof fn lemma_year_of(days: nat, year: int) -> (found: int)
    requires
        1970 <= year,
        days < days_before_year(year),
    ensures
        1970 <= found,
        days_before_year(found) <= days < days_before_year(found + 1),
    decreases year,
{
    if days_before_year(year - 1) <= days {
        year - 1
    } else {
        lemma_year_of(days, year - 1)
    }
}

proof fn lemma_month_of(day_of_year: int, year: int, month: int) -> (found: int)
    requires
        1 <= month,
        0 <= day_of_year < days_before_month(year, month),
    ensures
        1 <= found < month,
        days_before_month(year, found) <= day_of_year < days_before_month(year, found + 1),
    decreases month,
{
    if days_before_month(year, month - 1) <= day_of_year {
        month - 1
    } else {
        lemma_month_of(day_of_year, year, month - 1)
    }
}

/// Every day number has a date of the calendar.
pub proof fn civil_date_counts_days(days: nat)
    ensures
        civil_date(days).is_valid(),
        civil_date(days).day_number() == days,
{
    lemma_days_before_year_grows(1970, 1971 + days as int);
    let year = lemma_year_of(days, 1971 + days as int);
    let day_of_year = days - days_before_year(year);
    lemma_months_fill_year(year);
    let month = lemma_month_of(day_of_year, year, 13);
    let date = CivilDate {
        year,
        month,
        day: day_of_year - days_before_month(year, month) + 1,
    };
    assert(date.is_valid() && date.day_number() == days);
}

/// Dates are in the order of the days they stand for.
pub proof fn civil_dates_are_in_order(earlier: nat, later: nat)
    requires
        earlier < later,
    ensures
        civil_date(earlier).is_before(civil_date(later)),
{
    civil_date_counts_days(earlier);
    civil_date_counts_days(later);
    day_number_follows_the_calendar(civil_date(earlier), civil_date(later));
}

/// Every fourth year is a leap year, but of the full centuries only every
/// fourth.
pub proof fn leap_years_recur(year: int)
    ensures
        year % 4 != 0 ==> !is_leap(year),
        year % 4 == 0 && year % 100 != 0 ==> is_leap(year),
        year % 100 == 0 ==> (is_leap(year) <==> year % 400 == 0),
{
}

/// The calendar starts with the first of January 1970, and each day is followed
/// by the next one of its month, by the first of the next month or by the first
/// of the next year. In years that four divides, but of full centuries only in
/// those that four hundred divides, February has 29 days.
pub proof fn days_follow_each_other(days: nat)
    ensures
        days == 0 ==> civil_date(days) == (CivilDate { year: 1970, month: 1, day: 1 }),
        ({
            let date = civil_date(days);
            let leap = date.year % 400 == 0 || (date.year % 4 == 0 && date.year % 100 != 0);
            let length = if date.month == 2 {
                if leap {
                    29int
                } else {
                    28int
                }
            } else if date.month == 4 || date.month == 6 || date.month == 9 || date.month == 11 {
                30int
            } else {
                31int
            };
            &&& 1970 <= date.year
            &&& 1 <= date.month <= 12
            &&& 1 <= date.day <= length
            &&& civil_date(days + 1) == if date.day < length {
                CivilDate { year: date.year, month: date.month, day: date.day + 1 }
            } else if date.month < 12 {
                CivilDate { year: date.year, month: date.month + 1, day: 1 }
            } else {
                CivilDate { year: date.year + 1, month: 1, day: 1 }
            }
        }),
{
    let date = civil_date(days);
    civil_date_counts_days(days);
    civil_date_of_day_number(CivilDate { year: 1970, month: 1, day: 1 });
    let next = if date.day < month_length(date.year, date.month) {
        CivilDate { year: date.year, month: date.month, day: date.day + 1 }
    } else if date.month < 12 {
        CivilDate { year: date.year, month: date.month + 1, day: 1 }
    } else {
        CivilDate { year: date.year + 1, month: 1, day: 1 }
    };
    lemma_months_fill_year(date.year);
    assert(days_before_month(date.year, date.month + 1) == days_before_month(date.year, date.month)
        + month_length(date.year, date.month));
    assert(days_before_year(date.year + 1) == days_before_year(date.year) + year_length(date.year));
    assert(days_before_month(date.year + 1, 1) == 0);
    assert(next.is_valid());
    assert(next.day_number() == days + 1);
    civil_date_of_day_number(next);
}

#[verifier::opaque]
spec fn joined(
    year: Seq<char>,
    month: Seq<char>,
    day: Seq<char>,
    hour: Seq<char>,
    minute: Seq<char>,
    second: Seq<char>,
) -> Seq<char> {
    year + seq!['-'] + month + seq!['-'] + day + seq!['T'] + hour + seq![':'] + minute + seq![':']
        + second
}

#[verifier::opaque]
spec fn all_digits(text: Seq<char>) -> bool {
    forall|i: int| 0 <= i < text.len() ==> '0' <= (#[trigger] text[i]) <= '9'
}

#[verifier::spinoff_prover]
proof fn lemma_joined_fields(
    year: Seq<char>,
    month: Seq<char>,
    day: Seq<char>,
    hour: Seq<char>,
    minute: Seq<char>,
    second: Seq<char>,
)
    requires
        month.len() == 2,
        day.len() == 2,
        hour.len() == 2,
        minute.len() == 2,
        second.len() == 2,
    ensures
        ({
            let text = joined(year, month, day, hour, minute, second);
            let n = year.len() as int;
            &&& text.len() == n + 15
            &&& text.take(n) == year
            &&& text[n] == '-'
            &&& text.subrange(n + 1, n + 3) == month
            &&& text[n + 3] == '-'
            &&& text.subrange(n + 4, n + 6) == day
            &&& text[n + 6] == 'T'
            &&& text.subrange(n + 7, n + 9) == hour
            &&& text[n + 9] == ':'
            &&& text.subrange(n + 10, n + 12) == minute
            &&& text[n + 12] == ':'
            &&& text.subrange(n + 13, n + 15) == second
        }),
{
    reveal(joined);
    let text = joined(year, month, day, hour, minute, second);
    let n = year.len() as int;
    assert(text.take(n) =~= year);
    assert(text.subrange(n + 1, n + 3) =~= month);
    assert(text.subrange(n + 4, n + 6) =~= day);
    assert(text.subrange(n + 7, n + 9) =~= hour);
    assert(text.subrange(n + 10, n + 12) =~= minute);
    assert(text.subrange(n + 13, n + 15) =~= second);
}

#[verifier::spinoff_prover]
proof fn lemma_joined_digits(
    year: Seq<char>,
    month: Seq<char>,
    day: Seq<char>,
    hour: Seq<char>,
    minute: Seq<char>,
    second: Seq<char>,
    i: int,
)
    requires
        month.len() == 2,
        day.len() == 2,
        hour.len() == 2,
        minute.len() == 2,
        second.len() == 2,
        all_digits(year),
        all_digits(month),
        all_digits(day),
        all_digits(hour),
        all_digits(minute),
        all_digits(second),
        0 <= i < year.len() + 15,
        i != year.len(),
        i != year.len() + 3,
        i != year.len() + 6,
        i != year.len() + 9,
        i != year.len() + 12,
    ensures
        '0' <= joined(year, month, day, hour, minute, second)[i] <= '9',
{
    reveal(joined);
    reveal(all_digits);
    let text = joined(year, month, day, hour, minute, second);
    let n = year.len() as int;
    if i < n {
        assert(text[i] == year[i]);
    } else if i < n + 3 {
        assert(text[i] == month[i - n - 1]);
    } else if i < n + 6 {
        assert(text[i] == day[i - n - 4]);
    } else if i < n + 9 {
        assert(text[i] == hour[i - n - 7]);
    } else if i < n + 12 {
        assert(text[i] == minute[i - n - 10]);
    } else {
        assert(text[i] == second[i - n - 13]);
    }
}

proof fn lemma_field(n: nat, width: nat)
    requires
        width == 4 || (width == 2 && n < 100),
    ensures
        decimal_value(padded_text(n, width)) == n,
        all_digits(padded_text(n, width)),
        padded_text(n, width).len() >= width,
        width == 2 ==> padded_text(n, width).len() == 2,
        padded_text(n, width).len() > width ==> padded_text(n, width)[0] != '0',
{
    reveal(all_digits);
    padded_text_reads_back(n, width);
    if width == 2 {
        padded_text_fits(n, width);
    }
}

/// Date and time read back: the year in four digits or more, then month, day,
/// hour, minute and second in two digits each, with hyphens, a `T` and colons
/// between them.
#[verifier::spinoff_prover]
pub proof fn date_times_read_back(unix_secs: nat)
    ensures
        ({
            let text = date_time_text(unix_secs);
            let date = civil_date(unix_secs / 86400);
            let n = text.len() - 15;
            &&& n >= 4
            &&& n > 4 ==> text[0] != '0'
            &&& decimal_value(text.take(n)) == date.year
            &&& text[n] == '-'
            &&& decimal_value(text.subrange(n + 1, n + 3)) == date.month
            &&& text[n + 3] == '-'
            &&& decimal_value(text.subrange(n + 4, n + 6)) == date.day
            &&& text[n + 6] == 'T'
            &&& decimal_value(text.subrange(n + 7, n + 9)) == unix_secs / 3600 % 24
            &&& text[n + 9] == ':'
            &&& decimal_value(text.subrange(n + 10, n + 12)) == unix_secs / 60 % 60
            &&& text[n + 12] == ':'
            &&& decimal_value(text.subrange(n + 13, n + 15)) == unix_secs % 60
            &&& forall|i: int|
                0 <= i < text.len() && i != n && i != n + 3 && i != n + 6 && i != n + 9 && i != n
                    + 12 ==> '0' <= (#[trigger] text[i]) <= '9'
        }),
{
    let text = date_time_text(unix_secs);
    let date = civil_date(unix_secs / 86400);
    civil_date_counts_days(unix_secs / 86400);
    let time_of_day = unix_secs % 86400;
    let year = padded_text(date.year as nat, 4);
    let month = padded_text(date.month as nat, 2);
    let day = padded_text(date.day as nat, 2);
    let hour = padded_text(time_of_day / 3600, 2);
    let minute = padded_text(time_of_day % 3600 / 60, 2);
    let second = padded_text(time_of_day % 60, 2);
    lemma_field(date.year as nat, 4);
    lemma_field(date.month as nat, 2);
    lemma_field(date.day as nat, 2);
    lemma_field(time_of_day / 3600, 2);
    lemma_field(time_of_day % 3600 / 60, 2);
    lemma_field(time_of_day % 60, 2);
    assert(text == joined(year, month, day, hour, minute, second)) by {
        reveal(joined);
    }
    lemma_joined_fields(year, month, day, hour, minute, second);
    let n = text.len() - 15;
    assert(year[0] == text.take(n)[0]);
    assert forall|i: int|
        0 <= i < text.len() && i != n && i != n + 3 && i != n + 6 && i != n + 9 && i != n
            + 12 implies '0' <= (#[trigger] text[i]) <= '9' by {
        lemma_joined_digits(year, month, day, hour, minute, second, i);
    }
}

/// A timestamp is date and time of the whole seconds, a dot, the milliseconds
/// in three digits and a `Z`. Of a moment in nanoseconds, what is less than a
/// millisecond does not show.
#[verifier::spinoff_prover]
pub proof fn moments_read_back(nanos: nat)
    ensures
        ({
            let text = moment_text(nanos);
            let n = text.len() - 5;
            &&& n >= 19
            &&& text.take(n) == date_time_text(nanos / 1_000_000_000)
            &&& text[n] == '.'
            &&& decimal_value(text.subrange(n + 1, n + 4)) == nanos / 1_000_000 % 1000
            &&& forall|i: int| n < i < n + 4 ==> '0' <= (#[trigger] text[i]) <= '9'
            &&& text[n + 4] == 'Z'
        }),
{
    let text = moment_text(nanos);
    let millis = nanos % 1_000_000_000 / 1_000_000;
    date_times_read_back(nanos / 1_000_000_000);
    padded_text_reads_back(millis, 3);
    padded_text_fits(millis, 3);
    let n = text.len() - 5;
    assert(text.take(n) =~= date_time_text(nanos / 1_000_000_000));
    assert(text.subrange(n + 1, n + 4) =~= padded_text(millis, 3));
    assert forall|i: int| n < i < n + 4 implies '0' <= (#[trigger] text[i]) <= '9' by {
        assert(text[i] == padded_text(millis, 3)[i - n - 1]);
    }
}

/// The text of a timestamp that is given in seconds and milliseconds is that of
/// the moment so many seconds and milliseconds after the start of 1970.
pub proof fn timestamps_are_those_of_moments(unix_secs: nat, millis: nat)
    requires
        millis < 1000,
    ensures
        timestamp_text(unix_secs, millis) == moment_text(
            unix_secs * 1_000_000_000 + millis * 1_000_000,
        ),
{
}

/// Whether a year has a 29th of February.
pub fn is_leap_year(year: u64) -> (leap: bool)
    ensures
        leap == is_leap(year as int),
{
    (year % 4 == 0 && year % 100 != 0) || year % 400 == 0
}

/// How many days a month has.
fn days_in_month(leap: bool, month: u64) -> (days: u64)
    requires
        1 <= month <= 12,
    ensures
        forall|year: int|
            is_leap(year) == leap ==> #[trigger] month_length(year, month as int) == days,
{
    if month == 2 {
        if leap {
            29
        } else {
            28
        }
    } else if month == 4 || month == 6 || month == 9 || month == 11 {
        30
    } else {
        31
    }
}

/// Writes date and time of day, a number of seconds after the start of 1970.
pub fn chrono_lite_format(unix_secs: u64) -> (text: String)
    ensures
        text@ == date_time_text(unix_secs as nat),
{
    let days: u64 = unix_secs / 86400;
    let time_of_day: u64 = unix_secs % 86400;
    let hours: u64 = time_of_day / 3600;
    let minutes: u64 = (time_of_day % 3600) / 60;
    let seconds: u64 = time_of_day % 60;

    let mut year: u64 = 1970;
    let mut remaining_days: u64 = days;
    loop
        invariant
            1970 <= year,
            days <= u64::MAX / 86400,
            days_before_year(year as int) + remaining_days == days,
            365 * (year - 1970) <= days - remaining_days,
        ensures
            remaining_days < year_length(year as int),
        decreases remaining_days,
    {
        let days_in_year: u64 = if is_leap_year(year) {
            366
        } else {
            365
        };
        if remaining_days < days_in_year {
            break;
        }
        remaining_days = remaining_days - days_in_year;
        year = year + 1;
    }

    let leap = is_leap_year(year);
    proof {
        lemma_months_fill_year(year as int);
    }
    let mut month: u64 = 1;
    while remaining_days >= days_in_month(leap, month)
        invariant
            1 <= month <= 12,
            leap == is_leap(year as int),
            days_before_month(year as int, 13) == year_length(year as int),
            days_before_year(year as int) + days_before_month(year as int, month as int)
                + remaining_days == days,
            days_before_month(year as int, month as int) + remaining_days < year_length(
                year as int,
            ),
        ensures
            remaining_days < month_length(year as int, month as int),
        decreases 12 - month,
    {
        assert(month_length(year as int, month as int) <= remaining_days);
        proof {
            if month == 12 {
                assert(days_before_month(year as int, 13) == days_before_month(year as int, 12)
                    + month_length(year as int, 12));
            }
        }
        remaining_days = remaining_days - days_in_month(leap, month);
        month = month + 1;
    }
    let day: u64 = remaining_days + 1;
    proof {
        let date = CivilDate { year: year as int, month: month as int, day: day as int };
        civil_date_of_day_number(date);
    }

    proof {
        reveal_strlit("-");
        reveal_strlit("T");
        reveal_strlit(":");
    }
    let mut text: String = padded(year, 4);
    text.append("-");
    text.append(padded(month, 2).as_str());
    text.append("-");
    text.append(padded(day, 2).as_str());
    text.append("T");
    text.append(padded(hours, 2).as_str());
    text.append(":");
    text.append(padded(minutes, 2).as_str());
    text.append(":");
    text.append(padded(seconds, 2).as_str());
    text
}

/// Writes a timestamp with milliseconds, in coordinated universal time.
pub fn timestamp(unix_secs: u64, millis: u32) -> (text: String)
    ensures
        text@ == timestamp_text(unix_secs as nat, millis as nat),
{
    proof {
        reveal_strlit(".");
        reveal_strlit("Z");
    }
    let mut text: String = chrono_lite_format(unix_secs);
    text.append(".");
    text.append(padded(millis as u64, 3).as_str());
    text.append("Z");
    text
}

/// A timestamp has 24 characters as long as the year has four digits.
pub proof fn timestamp_has_fixed_width(unix_secs: nat, millis: nat)
    requires
        millis < 1000,
        civil_date(unix_secs / 86400).year <= 9999,
    ensures
        timestamp_text(unix_secs, millis).len() == 24,
{
    let date = civil_date(unix_secs / 86400);
    civil_date_counts_days(unix_secs / 86400);
    padded_text_fits(date.year as nat, 4);
    padded_text_fits(date.month as nat, 2);
    padded_text_fits(date.day as nat, 2);
    padded_text_fits(unix_secs % 86400 / 3600, 2);
    padded_text_fits(unix_secs % 86400 % 3600 / 60, 2);
    padded_text_fits(unix_secs % 86400 % 60, 2);
    padded_text_fits(millis, 3);
}

/// A reading of the system clock.
#[verifier::external_type_specification]
#[verifier::external_body]
pub struct ExSystemTime(std::time::SystemTime);

/// What a clock reading before the reference time gives.
#[verifier::external_type_specification]
#[verifier::external_body]
pub struct ExSystemTimeError(std::time::SystemTimeError);

/// `std::time::SystemTime::now` reads the system clock. Nothing is claimed of
/// the reading.
pub assume_specification[ std::time::SystemTime::now ]() -> (reading: std::time::SystemTime);

/// The nanoseconds that a duration lasts.
pub uninterp spec fn duration_nanos(elapsed: std::time::Duration) -> nat;

/// The nanoseconds from the start of 1970 to a reading of the clock. They are
/// negative where the clock stands before that start.
pub uninterp spec fn nanos_since_1970(reading: std::time::SystemTime) -> int;

/// `std::time::SystemTime::duration_since`, from the start of 1970. It gives
/// the time from that start to the reading, and an error exactly where the
/// reading comes before it.
#[verifier::external_body]
fn since_1970(reading: std::time::SystemTime) -> (elapsed: Result<
    std::time::Duration,
    std::time::SystemTimeError,
>)
    ensures
        elapsed is Err <==> nanos_since_1970(reading) < 0,
        elapsed matches Ok(time) ==> duration_nanos(time) == nanos_since_1970(reading),
{
    reading.duration_since(std::time::UNIX_EPOCH)
}

/// `std::time::Duration::as_secs` gives the whole seconds of a duration,
/// without the part that is less than a second.
pub assume_specification[ std::time::Duration::as_secs ](elapsed: &std::time::Duration) -> (secs:
    u64)
    ensures
        secs == duration_nanos(*elapsed) / 1_000_000_000,
;

/// `std::time::Duration::subsec_millis` gives the whole milliseconds of the
/// part of a duration that is less than a second.
pub assume_specification[ std::time::Duration::subsec_millis ](elapsed: &std::time::Duration) -> (
millis: u32)
    ensures
        millis == duration_nanos(*elapsed) % 1_000_000_000 / 1_000_000,
;

/// The timestamp of a clock reading, given as the whole seconds since the
/// start of 1970 and the milliseconds beyond them. A clock that stands before
/// 1970 gives no such reading, and counts as standing at its start.
pub fn timestamp_of_reading(reading: Option<(u64, u32)>) -> (text: String)
    ensures
        text@ == match reading {
            Some((secs, millis)) => timestamp_text(secs as nat, millis as nat),
            None => timestamp_text(0, 0),
        },
{
    match reading {
        Some((secs, millis)) => timestamp(secs, millis),
        None => timestamp(0, 0),
    }
}

/// The timestamp of the time that has passed since the start of 1970, or of
/// that start where the clock stands before it.
pub fn timestamp_of_elapsed(
    elapsed: Result<std::time::Duration, std::time::SystemTimeError>,
) -> (text: String)
    ensures
        text@ == match elapsed {
            Ok(time) => moment_text(duration_nanos(time)),
            Err(_) => moment_text(0),
        },
        is_timestamp(text@),
{
    match elapsed {
        Ok(time) => timestamp_of_reading(Some((time.as_secs(), time.subsec_millis()))),
        Err(_) => timestamp_of_reading(None),
    }
}

/// The timestamp of a reading of the clock. A clock that stands before 1970
/// counts as standing at its start.
pub fn timestamp_of_clock(reading: std::time::SystemTime) -> (text: String)
    ensures
        text@ == moment_text(
            if nanos_since_1970(reading) < 0 {
                0
            } else {
                nanos_since_1970(reading) as nat
            },
        ),
        is_timestamp(text@),
{
    timestamp_of_elapsed(since_1970(reading))
}

/// Whether a text is the timestamp of what the system clock shows when it is
/// read. A clock that stands before 1970 counts as standing at its start.
pub open spec fn shows_the_clock(text: Seq<char>) -> bool {
    exists|reading: std::time::SystemTime| #[trigger]
        call_ensures(std::time::SystemTime::now, (), reading) && text == moment_text(
            if nanos_since_1970(reading) < 0 {
                0
            } else {
                nanos_since_1970(reading) as nat
            },
        )
}

/// The timestamp of this moment, as the system clock shows it.
pub fn now_iso8601() -> (text: String)
    ensures
        shows_the_clock(text@),
        is_timestamp(text@),
{
    timestamp_of_clock(std::time::SystemTime::now())
}

} // verus!
