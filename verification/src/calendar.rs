//! Dates of the calendar, a month as it is laid out in weeks, and texts of
//! dates and times.

use chrono::Datelike;
use vstd::prelude::*;
use vstd::string::*;

use crate::text::{decimal, decimal_int, decimal_int_text, decimal_text};

verus! {

/// The first year that has dates.
pub const MIN_YEAR: i32 = -262_143;

/// The last year that has dates.
pub const MAX_YEAR: i32 = 262_142;

/// The columns of a month's layout, one for each day of the week.
pub const CALENDAR_COLUMNS: usize = 7;

/// The rows of a month's layout.
pub const CALENDAR_ROWS: usize = 6;

/// Whether a year has a leap day.
pub open spec fn is_leap(year: int) -> bool {
    year % 4 == 0 && (year % 100 != 0 || year % 400 == 0)
}

/// How many days a month has.
pub open spec fn days_in(year: int, month: int) -> int {
    if month == 2 {
        if is_leap(year) {
            29
        } else {
            28
        }
    } else if month == 4 || month == 6 || month == 9 || month == 11 {
        30
    } else {
        31
    }
}

/// Whether a date exists.
pub open spec fn is_date(year: int, month: int, day: int) -> bool {
    &&& MIN_YEAR <= year <= MAX_YEAR
    &&& 1 <= month <= 12
    &&& 1 <= day <= days_in(year, month)
}

/// How many days of a year come before a month.
pub open spec fn days_before_month(year: int, month: int) -> int
    decreases month,
{
    if month <= 1 {
        0
    } else {
        days_before_month(year, month - 1) + days_in(year, month - 1)
    }
}

/// The number of a date, counted from the first day of the first year.
pub open spec fn day_number(year: int, month: int, day: int) -> int {
    let past = year - 1;
    365 * past + past / 4 - past / 100 + past / 400 + days_before_month(year, month) + day
}

/// The day of the week of a date, counted from Sunday.
pub open spec fn weekday(year: int, month: int, day: int) -> int {
    day_number(year, month, day) % 7
}

/// `chrono::NaiveDate::from_ymd_opt`: whether it makes a date of these numbers,
/// which it does where that day exists in the calendar and its year is in
/// range.
#[verifier::external_body]
fn date_exists(year: i32, month: u32, day: u32) -> (r: bool)
    ensures
        r == is_date(year as int, month as int, day as int),
{
    chrono::NaiveDate::from_ymd_opt(year, month, day).is_some()
}

/// `chrono::NaiveDate::weekday`, counted from Sunday: the day of the week of a
/// date that exists.
#[verifier::external_body]
fn weekday_of(year: i32, month: u32, day: u32) -> (r: u32)
    requires
        is_date(year as int, month as int, day as int),
    ensures
        r == weekday(year as int, month as int, day as int),
{
    match chrono::NaiveDate::from_ymd_opt(year, month, day) {
        Some(date) => date.weekday().num_days_from_sunday(),
        None => 0,
    }
}

/// The day before a date.
pub open spec fn before(year: int, month: int, day: int) -> (int, int, int) {
    if day > 1 {
        (year, month, day - 1)
    } else if month > 1 {
        (year, month - 1, days_in(year, month - 1))
    } else {
        (year - 1, 12, 31)
    }
}

/// `chrono::NaiveDate::pred_opt`: the day before a date that exists; none before
/// the first date there is.
#[verifier::external_body]
fn day_before(year: i32, month: u32, day: u32) -> (r: Option<(i32, u32, u32)>)
    requires
        is_date(year as int, month as int, day as int),
    ensures
        match r {
            None => year == MIN_YEAR && month == 1 && day == 1,
            Some((y, m, d)) => {
                &&& !(year == MIN_YEAR && month == 1 && day == 1)
                &&& before(year as int, month as int, day as int) == (y as int, m as int, d as int)
            },
        },
{
    let date = chrono::NaiveDate::from_ymd_opt(year, month, day)?;
    let earlier = date.pred_opt()?;
    Some((earlier.year(), earlier.month(), earlier.day()))
}

/// A month of a year.
#[derive(Clone, Copy, Debug, PartialEq, Eq, Structural)]
pub struct CalendarMonth {
    pub year: i32,
    pub month: u32,
}

/// Whether a month has dates.
pub open spec fn is_month(m: CalendarMonth) -> bool {
    is_date(m.year as int, m.month as int, 1)
}

/// The month before or behind a month.
pub open spec fn adjacent(year: int, month: int, direction: int) -> (int, int) {
    if month == 1 && direction == -1 {
        (year - 1, 12)
    } else if month == 12 && direction == 1 {
        (year + 1, 1)
    } else {
        (year, month + direction)
    }
}

/// The month before or behind a month, which must have dates.
pub fn adjacent_calendar_month(month: CalendarMonth, direction: i32) -> (r: CalendarMonth)
    requires
        is_month(month),
        direction == -1 || direction == 1,
        MIN_YEAR <= adjacent(month.year as int, month.month as int, direction as int).0 <= MAX_YEAR,
    ensures
        (r.year as int, r.month as int) == adjacent(
            month.year as int,
            month.month as int,
            direction as int,
        ),
        is_month(r),
{
    if month.month == 1 && direction == -1 {
        CalendarMonth { year: month.year - 1, month: 12 }
    } else if month.month == 12 && direction == 1 {
        CalendarMonth { year: month.year + 1, month: 1 }
    } else if direction == -1 {
        CalendarMonth { year: month.year, month: month.month - 1 }
    } else {
        CalendarMonth { year: month.year, month: month.month + 1 }
    }
}

/// The month of a date, where the date exists.
pub fn month_of(year: i32, month: u32) -> (r: Option<CalendarMonth>)
    ensures
        r is Some <==> is_date(year as int, month as int, 1),
        r is Some ==> r->0 == (CalendarMonth { year, month }),
{
    if date_exists(year, month, 1) {
        Some(CalendarMonth { year, month })
    } else {
        None
    }
}

/// The day at a place of a month's layout: the first stands in the column of its
/// day of the week, and the others follow.
pub open spec fn day_at(year: int, month: int, place: int) -> Option<u32> {
    let day = place - weekday(year, month, 1) + 1;
    if 1 <= day <= days_in(year, month) {
        Some(day as u32)
    } else {
        None
    }
}

/// The days of a month, laid out in weeks that begin with Sunday.
pub fn calendar_days_for_month(year: i32, month: u32) -> (r: Vec<Option<u32>>)
    requires
        is_date(year as int, month as int, 1),
        adjacent(year as int, month as int, 1).0 <= MAX_YEAR,
    ensures
        r@.len() == 42,
        forall|i: int| 0 <= i < 42 ==> #[trigger] r@[i] == day_at(year as int, month as int, i),
{
    let (next_year, next_month) = if month == 12 {
        (year + 1, 1)
    } else {
        (year, month + 1)
    };
    let days_in_month: u32 = match day_before(next_year, next_month, 1) {
        Some((_, _, day)) => day,
        None => 31,
    };
    proof {
        assert(days_in_month == days_in(year as int, month as int));
    }
    let first_weekday = weekday_of(year, month, 1) as usize;
    let ghost first = weekday(year as int, month as int, 1);
    let mut days: Vec<Option<u32>> = Vec::new();
    let mut place: usize = 0;
    while place < CALENDAR_ROWS * CALENDAR_COLUMNS
        invariant
            place <= 42,
            days@.len() == place,
            first == weekday(year as int, month as int, 1),
            first_weekday == first,
            first < 7,
            days_in_month == days_in(year as int, month as int),
            forall|i: int| 0 <= i < place ==> #[trigger] days@[i] == day_at(
                year as int,
                month as int,
                i,
            ),
        decreases 42 - place,
    {
        if place < first_weekday {
            days.push(None);
        } else {
            let day: u32 = (place - first_weekday) as u32 + 1;
            if day <= days_in_month {
                days.push(Some(day));
            } else {
                days.push(None);
            }
        }
        place += 1;
    }
    days
}

/// A date and a time of day.
#[derive(Clone, Copy, Debug, PartialEq, Eq, Structural)]
pub struct LocalTime {
    pub year: i32,
    pub month: u32,
    pub day: u32,
    pub hour: u32,
    pub minute: u32,
    pub second: u32,
}

/// Whether a date and time exist.
pub open spec fn is_time(t: LocalTime) -> bool {
    &&& is_date(t.year as int, t.month as int, t.day as int)
    &&& t.hour < 24
    &&& t.minute < 60
    &&& t.second < 60
}

/// A number with at least two digits.
pub open spec fn two_digits(n: nat) -> Seq<char> {
    if n < 10 {
        "0"@ + decimal(n)
    } else {
        decimal(n)
    }
}

/// A number with at least four digits.
pub open spec fn four_digits(n: nat) -> Seq<char> {
    if n < 10 {
        "000"@ + decimal(n)
    } else if n < 100 {
        "00"@ + decimal(n)
    } else if n < 1000 {
        "0"@ + decimal(n)
    } else {
        decimal(n)
    }
}

/// The date as year, month and day.
pub open spec fn date_text(t: LocalTime) -> Seq<char> {
    four_digits(t.year as nat) + "-"@ + two_digits(t.month as nat) + "-"@ + two_digits(t.day as nat)
}

/// The time as hour, minute and second, with something between them.
pub open spec fn time_text(t: LocalTime, between: Seq<char>) -> Seq<char> {
    two_digits(t.hour as nat) + between + two_digits(t.minute as nat) + between + two_digits(
        t.second as nat,
    )
}

/// A date and time, written by a pattern.
pub uninterp spec fn formatted(
    year: int,
    month: int,
    day: int,
    hour: int,
    minute: int,
    second: int,
    pattern: Seq<char>,
) -> Seq<char>;

/// `chrono::NaiveDateTime::format` with one of two patterns. In a year of at most
/// four digits each number stands with the digits of its field; for other years
/// the name stands for the text.
#[verifier::external_body]
fn format_time(t: &LocalTime, pattern: &str) -> (r: String)
    requires
        is_time(*t),
        pattern@ == "%Y-%m-%d %H:%M:%S"@ || pattern@ == "Screenshot_%Y-%m-%d_%H-%M-%S"@,
    ensures
        r@ == formatted(
            t.year as int,
            t.month as int,
            t.day as int,
            t.hour as int,
            t.minute as int,
            t.second as int,
            pattern@,
        ),
        pattern@ == "%Y-%m-%d %H:%M:%S"@ && 0 <= t.year <= 9999 ==> r@ == date_text(*t) + " "@
            + time_text(*t, ":"@),
        pattern@ == "Screenshot_%Y-%m-%d_%H-%M-%S"@ && 0 <= t.year <= 9999 ==> r@
            == "Screenshot_"@ + date_text(*t) + "_"@ + time_text(*t, "-"@),
{
    match chrono::NaiveDate::from_ymd_opt(t.year, t.month, t.day) {
        Some(date) => match date.and_hms_opt(t.hour, t.minute, t.second) {
            Some(time) => time.format(pattern).to_string(),
            None => String::new(),
        },
        None => String::new(),
    }
}

/// What a date and time give by a pattern.
pub open spec fn formatted_time(t: LocalTime, pattern: Seq<char>) -> Seq<char> {
    formatted(
        t.year as int,
        t.month as int,
        t.day as int,
        t.hour as int,
        t.minute as int,
        t.second as int,
        pattern,
    )
}

/// The text of the clock.
pub fn clock_text(t: &LocalTime) -> (r: String)
    requires
        is_time(*t),
    ensures
        r@ == formatted_time(*t, "%Y-%m-%d %H:%M:%S"@),
        0 <= t.year <= 9999 ==> r@ == date_text(*t) + " "@ + time_text(*t, ":"@),
{
    format_time(t, "%Y-%m-%d %H:%M:%S")
}

/// The name of a screenshot that is taken at a time, without its ending.
pub fn screenshot_timestamp(t: &LocalTime) -> (r: String)
    requires
        is_time(*t),
    ensures
        r@ == formatted_time(*t, "Screenshot_%Y-%m-%d_%H-%M-%S"@),
        0 <= t.year <= 9999 ==> r@ == "Screenshot_"@ + date_text(*t) + "_"@ + time_text(*t, "-"@),
{
    format_time(t, "Screenshot_%Y-%m-%d_%H-%M-%S")
}

/// The title of a month.
pub fn month_title(month: &CalendarMonth) -> (r: String)
    ensures
        r@ == decimal_int(month.year as int) + "年"@ + decimal(month.month as nat) + "月"@,
{
    let mut out = decimal_int_text(month.year as i64);
    out.append("年");
    out.append(decimal_text(month.month as u64).as_str());
    out.append("月");
    out
}

/// Whether a day of a month's layout is today.
pub fn is_today(month: &CalendarMonth, day: Option<u32>, today: &LocalTime) -> (r: bool)
    ensures
        r == (month.year == today.year && month.month == today.month && day == Some(today.day)),
{
    month.year == today.year && month.month == today.month && match day {
        Some(day) => day == today.day,
        None => false,
    }
}

/// Going to the next month and back, or to the one before and back, leads to
/// where one was.
pub proof fn law_months_there_and_back(year: int, month: int, direction: int)
    requires
        1 <= month <= 12,
        direction == -1 || direction == 1,
    ensures
        ({
            let (y, m) = adjacent(year, month, direction);
            adjacent(y, m, -direction) == (year, month)
        }),
{
}

/// Every day of a month stands once in its layout, in the column of its day of
/// the week; nothing else stands there.
pub proof fn law_layout_holds_every_day(year: int, month: int, day: int)
    requires
        is_date(year, month, day),
    ensures
        ({
            let place = weekday(year, month, 1) + day - 1;
            &&& 0 <= place < 42
            &&& day_at(year, month, place) == Some(day as u32)
            &&& place % 7 == weekday(year, month, day)
            &&& forall|other: int|
                #[trigger] day_at(year, month, other) == Some(day as u32) ==> other == place
        }),
{
    let first = weekday(year, month, 1);
    let place = first + day - 1;
    assert(day_number(year, month, day) == day_number(year, month, 1) + day - 1);
    let n = day_number(year, month, 1);
    assert((n % 7 + (day - 1)) % 7 == (n + (day - 1)) % 7);
    assert forall|other: int| #[trigger]
        day_at(year, month, other) == Some(day as u32) implies other == place by {}
}

/// The day behind a date has the next number, so the days of the week follow
/// each other across months and years.
pub proof fn law_days_follow(year: int, month: int, day: int)
    requires
        1 <= month <= 12,
        1 <= day <= days_in(year, month),
    ensures
        ({
            let (y, m, d) = before(year, month, day);
            day_number(y, m, d) == day_number(year, month, day) - 1
        }),
{
    if day == 1 && month == 1 {
        reveal_with_fuel(days_before_month, 12);
        let past = year - 1;
        let earlier = past - 1;
        assert(days_before_month(year - 1, 12) == 334 + if is_leap(year - 1) {
            1int
        } else {
            0
        });
        assert(past / 4 - earlier / 4 == if past % 4 == 0 {
            1int
        } else {
            0
        });
        assert(past / 100 - earlier / 100 == if past % 100 == 0 {
            1int
        } else {
            0
        });
        assert(past / 400 - earlier / 400 == if past % 400 == 0 {
            1int
        } else {
            0
        });
    }
}

/// Months follow each other without a gap: twelve make a year, and one step leads one
/// month on or back.
pub proof fn law_months_follow(year: int, month: int, direction: int)
    requires
        1 <= month <= 12,
        direction == -1 || direction == 1,
    ensures
        ({
            let (y, m) = adjacent(year, month, direction);
            &&& 1 <= m <= 12
            &&& 12 * y + m == 12 * year + month + direction
        }),
{
}

/// A year has 365 days, and a leap year one more. The first day of the first year is a
/// Monday.
pub proof fn law_length_of_years(year: int)
    ensures
        day_number(year + 1, 1, 1) - day_number(year, 1, 1) == (if year % 400 == 0 || (year % 4 == 0
            && year % 100 != 0) {
            366int
        } else {
            365int
        }),
        day_number(1, 1, 1) == 1,
        weekday(1, 1, 1) == 1,
{
    let past = year - 1;
    assert(days_before_month(year, 1) == 0 && days_before_month(year + 1, 1) == 0);
    assert(days_before_month(1, 1) == 0);
    assert(year / 4 - past / 4 == if year % 4 == 0 {
        1int
    } else {
        0
    });
    assert(year / 100 - past / 100 == if year % 100 == 0 {
        1int
    } else {
        0
    });
    assert(year / 400 - past / 400 == if year % 400 == 0 {
        1int
    } else {
        0
    });
}

/// A number below a hundred is written with two digits, and one below ten thousand with
/// four; what is written denotes the number.
pub proof fn law_padded_numbers(n: nat)
    ensures
        n < 100 ==> two_digits(n).len() == 2,
        n < 10000 ==> four_digits(n).len() == 4,
        n < 10 ==> two_digits(n) == seq!['0'] + decimal(n),
        n >= 10 ==> two_digits(n) == decimal(n),
        n >= 1000 ==> four_digits(n) == decimal(n),
        n < 1000 ==> decimal(n).is_suffix_of(four_digits(n)) && forall|i: int|
            0 <= i < four_digits(n).len() - decimal(n).len() ==> four_digits(n)[i] == '0',
{
    reveal_strlit("0");
    reveal_strlit("00");
    reveal_strlit("000");
    reveal_with_fuel(decimal, 4);
    assert("0"@ =~= seq!['0']);
    assert("00"@.len() == 2 && "000"@.len() == 3);
    let f = four_digits(n);
    let d = decimal(n);
    if n < 1000 {
        assert(d =~= f.subrange(f.len() - d.len(), f.len() as int));
    }
}

/// A date is written with the year first, in four digits, then the month and the day in
/// two each; a time with the hour first, then the minute and the second.
pub proof fn law_dates_and_times_in_digits(t: LocalTime, between: Seq<char>)
    requires
        0 <= t.year <= 9999,
        t.month < 100,
        t.day < 100,
        t.hour < 100,
        t.minute < 100,
        t.second < 100,
        between.len() == 1,
    ensures
        date_text(t).len() == 10,
        date_text(t).subrange(0, 4) == four_digits(t.year as nat),
        date_text(t).subrange(5, 7) == two_digits(t.month as nat),
        date_text(t).subrange(8, 10) == two_digits(t.day as nat),
        date_text(t)[4] == '-' && date_text(t)[7] == '-',
        time_text(t, between).len() == 8,
        time_text(t, between).subrange(0, 2) == two_digits(t.hour as nat),
        time_text(t, between).subrange(3, 5) == two_digits(t.minute as nat),
        time_text(t, between).subrange(6, 8) == two_digits(t.second as nat),
        time_text(t, between)[2] == between[0] && time_text(t, between)[5] == between[0],
{
    reveal_strlit("-");
    assert("-"@.len() == 1 && "-"@[0] == '-');
    law_padded_numbers(t.year as nat);
    law_padded_numbers(t.month as nat);
    law_padded_numbers(t.day as nat);
    law_padded_numbers(t.hour as nat);
    law_padded_numbers(t.minute as nat);
    law_padded_numbers(t.second as nat);
    let d = date_text(t);
    assert(d.subrange(0, 4) =~= four_digits(t.year as nat));
    assert(d.subrange(5, 7) =~= two_digits(t.month as nat));
    assert(d.subrange(8, 10) =~= two_digits(t.day as nat));
    let c = time_text(t, between);
    assert(c.subrange(0, 2) =~= two_digits(t.hour as nat));
    assert(c.subrange(3, 5) =~= two_digits(t.minute as nat));
    assert(c.subrange(6, 8) =~= two_digits(t.second as nat));
}

} // verus!
