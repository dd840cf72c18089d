use vstd::prelude::*;

verus! {

/// The calendar and clock fields recovered from a reconstructed
/// date/time string.
#[derive(Debug, Clone, Copy, PartialEq, Eq, Structural)]
pub struct DateTimeParts {
    pub year: i32,
    pub month: u32,
    pub day: u32,
    pub hour: u32,
    pub minute: u32,
}

/// A reconstructed point in time: calendar and clock fields together
/// with the fixed offset, in seconds east of UTC, they are read at.
#[derive(Debug, Clone, Copy, PartialEq, Eq, Structural)]
pub struct PassDateTime {
    pub parts: DateTimeParts,
    pub offset_seconds: i32,
}

/// What the date parser yields from a reference year, a day-and-month
/// string, and a clock-time string, joined as "year day month time" and
/// read against the fixed format `year, day, abbreviated month,
/// hour:minute`: `None` when the composite does not match the format or
/// names no valid calendar date. The outcome depends on the three
/// arguments alone.
pub uninterp spec fn spec_day_month_time(year: int, date_part: Seq<char>, time_part: Seq<char>) -> Option<DateTimeParts>;

/// Relies on chrono::NaiveDateTime::parse_from_str with the fixed
/// format "%Y %d %b %H:%M": parses the composite string and hands back
/// its calendar and clock fields.
#[verifier::external_body]
pub(crate) fn parse_day_month_time(year: i32, date_part: &str, time_part: &str) -> (r: Option<
    DateTimeParts,
>)
    ensures
        r == spec_day_month_time(year as int, date_part@, time_part@),
{
    let s = format!("{} {} {}", year, date_part, time_part);
    let dt = match chrono::NaiveDateTime::parse_from_str(s.as_str(), "%Y %d %b %H:%M") {
        Ok(d) => d,
        Err(_) => return None,
    };
    Some(
        DateTimeParts {
            year: chrono::Datelike::year(&dt),
            month: chrono::Datelike::month(&dt),
            day: chrono::Datelike::day(&dt),
            hour: chrono::Timelike::hour(&dt),
            minute: chrono::Timelike::minute(&dt),
        },
    )
}

} // verus!
