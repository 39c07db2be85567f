//! Calendar dates, and the one call into `chrono` that reads them.

use vstd::prelude::*;

verus! {

/// A day of the proleptic Gregorian calendar, as plain numbers.
#[derive(Debug, PartialEq, Eq, Clone, Copy, Structural)]
pub struct CalendarDate {
    pub year: i32,
    pub month: u32,
    pub day: u32,
}

impl CalendarDate {
    /// The month is one of the twelve and the day lies in 1 to 31.
    pub open spec fn wf(self) -> bool {
        1 <= self.month <= 12 && 1 <= self.day <= 31
    }
}

/// What `chrono::NaiveDate::parse_from_str` makes of `text` under `format`:
/// the year, month and day of the date it returns, or `None` where it
/// returns an error.
pub uninterp spec fn chrono_date(text: Seq<char>, format: Seq<char>) -> Option<(i32, u32, u32)>;

/// Calls `chrono::NaiveDate::parse_from_str` and reads the year, month and
/// day of its result through `chrono::Datelike`. Nothing is proved of the
/// call; the contract only gives its result the name [`chrono_date`].
#[verifier::external_body]
fn chrono_parse(text: &str, format: &str) -> (out: Option<(i32, u32, u32)>)
    ensures
        out == chrono_date(text@, format@),
{
    match chrono::NaiveDate::parse_from_str(text, format) {
        Ok(date) => Some(
            (
                chrono::Datelike::year(&date),
                chrono::Datelike::month(&date),
                chrono::Datelike::day(&date),
            ),
        ),
        Err(_) => None,
    }
}

/// The format in which a save file writes its date: year, month and day in
/// digits, with hyphens between.
pub open spec fn date_format() -> Seq<char> {
    "%Y-%m-%d"@
}

/// The date that three numbers stand for, where they can stand for one.
pub open spec fn date_from_fields(fields: Option<(i32, u32, u32)>) -> Option<CalendarDate> {
    match fields {
        Some((year, month, day)) => if 1 <= month <= 12 && 1 <= day <= 31 {
            Some(CalendarDate { year: year, month: month, day: day })
        } else {
            None
        },
        None => None,
    }
}

/// The date that `text` writes, if it writes one.
pub open spec fn date_of(text: Seq<char>) -> Option<CalendarDate> {
    date_from_fields(chrono_date(text, date_format()))
}

impl CalendarDate {
    /// Makes a date of the year, month and day that the calendar service
    /// gave, and refuses numbers that no date has.
    pub fn from_fields(fields: Option<(i32, u32, u32)>) -> (out: Option<CalendarDate>)
        ensures
            out == date_from_fields(fields),
            out matches Some(date) ==> date.wf(),
    {
        match fields {
            Some((year, month, day)) => {
                if 1 <= month && month <= 12 && 1 <= day && day <= 31 {
                    Some(CalendarDate { year: year, month: month, day: day })
                } else {
                    None
                }
            },
            None => None,
        }
    }

    /// Reads a date written as `YYYY-MM-DD`.
    pub fn parse(text: &str) -> (out: Option<CalendarDate>)
        ensures
            out == date_of(text@),
            out matches Some(date) ==> date.wf(),
    {
        CalendarDate::from_fields(chrono_parse(text, "%Y-%m-%d"))
    }
}

} // verus!
