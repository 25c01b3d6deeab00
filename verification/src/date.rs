//! Calendar dates, as far as the project listing needs them: validity and order.

use vstd::prelude::*;
use crate::order::chars_of;

verus! {

/// Whether `year` is a leap year of the proleptic Gregorian calendar.
pub open spec fn is_leap_year(year: int) -> bool {
    year % 4 == 0 && (year % 100 != 0 || year % 400 == 0)
}

/// The number of days of `month` in `year`; 0 where `month` is no month.
pub open spec fn days_in_month(year: int, month: int) -> int {
    if month == 1 || month == 3 || month == 5 || month == 7 || month == 8 || month == 10 || month
        == 12 {
        31
    } else if month == 4 || month == 6 || month == 9 || month == 11 {
        30
    } else if month == 2 {
        if is_leap_year(year) {
            29
        } else {
            28
        }
    } else {
        0
    }
}

/// Whether the three numbers name a day of the calendar.
pub open spec fn is_calendar_day(year: int, month: int, day: int) -> bool {
    1 <= month <= 12 && 1 <= day <= days_in_month(year, month)
}

/// A date as a plain triple: year, month, day of month.
pub struct DateView {
    pub year: int,
    pub month: int,
    pub day: int,
}

impl DateView {
    /// Strictly earlier in the calendar: the triples compared from the year down.
    pub open spec fn before(self, other: DateView) -> bool {
        self.year < other.year || (self.year == other.year && (self.month < other.month || (
        self.month == other.month && self.day < other.day)))
    }

    /// Whether the triple names a day of the calendar.
    pub open spec fn is_valid(self) -> bool {
        is_calendar_day(self.year, self.month, self.day)
    }
}

/// Two dates of which neither lies before the other are the same date.
pub proof fn lemma_neither_before(left: DateView, right: DateView)
    requires
        !left.before(right),
        !right.before(left),
    ensures
        left == right,
{
}

/// A day of the calendar, without a time of day.
#[derive(Clone, Copy, Debug, PartialEq, Eq, Structural)]
pub struct Date {
    year: i32,
    month: u32,
    day: u32,
}

impl View for Date {
    type V = DateView;

    closed spec fn view(&self) -> DateView {
        DateView { year: self.year as int, month: self.month as int, day: self.day as int }
    }
}

/// The format in which a content file gives its date: year, month and day
/// with `-` between them, in the notation of chrono.
pub const DATE_FORMAT: &'static str = "%Y-%m-%d";

/// What chrono reads from `text` under `format`: the year, the month and the
/// day of the month, or `None` where it rejects the text or the format.
pub uninterp spec fn chrono_ymd(text: Seq<char>, format: Seq<char>) -> Option<(int, int, int)>;

/// Whether `letter` is one of the digits `0` to `9`.
pub open spec fn is_digit(letter: char) -> bool {
    '0' <= letter <= '9'
}

/// The number that a digit stands for.
pub open spec fn digit_value(letter: char) -> int {
    letter as int - '0' as int
}

/// Whether `text` is written as a date: four digits for the year, two for
/// the month and two for the day, with `-` between them, and nothing else.
pub open spec fn has_date_shape(text: Seq<char>) -> bool {
    &&& text.len() == 10
    &&& is_digit(text[0]) && is_digit(text[1]) && is_digit(text[2]) && is_digit(text[3])
    &&& text[4] == '-'
    &&& is_digit(text[5]) && is_digit(text[6])
    &&& text[7] == '-'
    &&& is_digit(text[8]) && is_digit(text[9])
}

/// The year, month and day that the digits of a text of that shape give.
pub open spec fn written_date(text: Seq<char>) -> DateView {
    DateView {
        year: 1000 * digit_value(text[0]) + 100 * digit_value(text[1]) + 10 * digit_value(text[2])
            + digit_value(text[3]),
        month: 10 * digit_value(text[5]) + digit_value(text[6]),
        day: 10 * digit_value(text[8]) + digit_value(text[9]),
    }
}

/// The date that `text` stands for. The text has the shape of a date, its
/// digits give a day of the calendar, and chrono reads the same day from it
/// under `DATE_FORMAT`; else there is none.
pub open spec fn parsed_date(text: Seq<char>) -> Option<DateView> {
    let date = written_date(text);
    if has_date_shape(text) && date.is_valid() && chrono_ymd(text, DATE_FORMAT@) == Some(
        (date.year, date.month, date.day),
    ) {
        Some(date)
    } else {
        None
    }
}

/// Calls `chrono::NaiveDate::parse_from_str` and takes the result apart with
/// `Datelike::year`, `month` and `day`. Trusted: that the three numbers
/// depend on the text and the format alone, which `chrono_ymd` names.
/// Nothing is claimed about which texts chrono accepts.
#[verifier::external_body]
fn parse_ymd(text: &str, format: &str) -> (parts: Option<(i32, u32, u32)>)
    ensures
        parts matches Some(p) ==> chrono_ymd(text@, format@) == Some(
            (p.0 as int, p.1 as int, p.2 as int),
        ),
        parts is None ==> chrono_ymd(text@, format@) is None,
{
    match chrono::NaiveDate::parse_from_str(text, format) {
        Ok(date) => Some(
            (
                chrono::Datelike::year(&date),
                chrono::Datelike::month(&date),
                chrono::Datelike::day(&date),
            ),
        ),
        Err(_) => None,
    }
}

/// The number that `letter` stands for, if it is a digit.
fn digit_of(letter: char) -> (value: Option<u32>)
    ensures
        value is Some <==> is_digit(letter),
        value matches Some(number) ==> number == digit_value(letter) && number <= 9,
{
    if '0' <= letter && letter <= '9' {
        Some(letter as u32 - '0' as u32)
    } else {
        None
    }
}

/// The number that two digits stand for.
fn two_digits(tens: char, ones: char) -> (value: Option<u32>)
    ensures
        value is Some <==> is_digit(tens) && is_digit(ones),
        value matches Some(number) ==> number == 10 * digit_value(tens) + digit_value(ones),
{
    match (digit_of(tens), digit_of(ones)) {
        (Some(high), Some(low)) => Some(10 * high + low),
        _ => None,
    }
}

/// The year, month and day that the digits of `text` give, if it has the
/// shape of a date.
fn read_digits(text: &str) -> (written: Option<(i32, u32, u32)>)
    ensures
        written is Some <==> has_date_shape(text@),
        written matches Some(parts) ==> written_date(text@) == (DateView {
            year: parts.0 as int,
            month: parts.1 as int,
            day: parts.2 as int,
        }),
{
    let letters = chars_of(text);
    if letters.len() != 10 || letters[4] != '-' || letters[7] != '-' {
        return None;
    }
    let century = two_digits(letters[0], letters[1]);
    let decade = two_digits(letters[2], letters[3]);
    let month = two_digits(letters[5], letters[6]);
    let day = two_digits(letters[8], letters[9]);
    match (century, decade, month, day) {
        (Some(century), Some(decade), Some(month), Some(day)) => {
            let year: u32 = 100 * century + decade;
            Some((year as i32, month, day))
        },
        _ => None,
    }
}

fn leap_year(year: i32) -> (leap: bool)
    ensures
        leap == is_leap_year(year as int),
{
    year % 4 == 0 && (year % 100 != 0 || year % 400 == 0)
}

fn month_length(year: i32, month: u32) -> (days: u32)
    ensures
        days == days_in_month(year as int, month as int),
{
    if month == 1 || month == 3 || month == 5 || month == 7 || month == 8 || month == 10 || month
        == 12 {
        31
    } else if month == 4 || month == 6 || month == 9 || month == 11 {
        30
    } else if month == 2 {
        if leap_year(year) {
            29
        } else {
            28
        }
    } else {
        0
    }
}

impl Date {
    #[verifier::type_invariant]
    spec fn is_calendar_date(self) -> bool {
        self@.is_valid()
    }

    /// The date with the given year, month and day of month, if the calendar has it.
    pub fn new(year: i32, month: u32, day: u32) -> (date: Option<Date>)
        ensures
            date is Some <==> is_calendar_day(year as int, month as int, day as int),
            date matches Some(d) ==> d@ == (DateView {
                year: year as int,
                month: month as int,
                day: day as int,
            }),
    {
        if 1 <= month && month <= 12 && 1 <= day && day <= month_length(year, month) {
            Some(Date { year, month, day })
        } else {
            None
        }
    }

    /// Reads a date written as `YYYY-MM-DD`. The digits are read here and by
    /// chrono, under `DATE_FORMAT`; the date is taken where both agree and
    /// the calendar has the day.
    pub fn parse(text: &str) -> (date: Option<Date>)
        ensures
            date is Some <==> parsed_date(text@) is Some,
            date matches Some(d) ==> parsed_date(text@) == Some(d@),
            date matches Some(d) ==> has_date_shape(text@) && d@ == written_date(text@),
    {
        let (year, month, day) = match read_digits(text) {
            Some(written) => written,
            None => {
                return None;
            },
        };
        match parse_ymd(text, DATE_FORMAT) {
            Some((read_year, read_month, read_day)) => {
                if read_year == year && read_month == month && read_day == day {
                    Date::new(year, month, day)
                } else {
                    None
                }
            },
            None => None,
        }
    }

    /// The year; 0 is the year before the year 1.
    pub fn year(&self) -> (year: i32)
        ensures
            year == self@.year,
    {
        self.year
    }

    /// The month, counted from 1.
    pub fn month(&self) -> (month: u32)
        ensures
            month == self@.month,
            1 <= month <= 12,
    {
        proof {
            use_type_invariant(self);
        }
        self.month
    }

    /// The day of the month, counted from 1.
    pub fn day(&self) -> (day: u32)
        ensures
            day == self@.day,
            self@.is_valid(),
    {
        proof {
            use_type_invariant(self);
        }
        self.day
    }

    /// Whether this date lies strictly before `other`.
    pub fn is_before(&self, other: &Date) -> (earlier: bool)
        ensures
            earlier == self@.before(other@),
    {
        self.year < other.year || (self.year == other.year && (self.month < other.month || (
        self.month == other.month && self.day < other.day)))
    }
}

} // verus!
