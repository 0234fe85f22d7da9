//! Dates as they are read from a picture's data: text such as
//! `2025:11:18 14:30:45`, parsed by chrono.

use crate::template::DateStamp;
use crate::text::{chars_trim, chars_trim_of, from_chars, to_chars, trim, trim_of, CharClass};
use vstd::prelude::*;

verus! {

/// A date and time of day as a clock on the wall shows it, in no
/// particular time zone.
#[derive(Debug, Clone, Copy, PartialEq, Eq, Structural)]
pub struct ClockReading {
    pub year: i32,
    pub month: u32,
    pub day: u32,
    pub hour: u32,
    pub minute: u32,
    pub second: u32,
    pub nanosecond: u32,
}

impl DateStamp {
    /// The stamp of a clock that shows `reading` and is `utc_offset`
    /// seconds ahead of UTC.
    pub fn from_reading(reading: ClockReading, utc_offset: i32) -> (stamp: DateStamp)
        ensures
            stamp == (DateStamp {
                year: reading.year,
                month: reading.month,
                day: reading.day,
                hour: reading.hour,
                minute: reading.minute,
                second: reading.second,
                nanosecond: reading.nanosecond,
                utc_offset,
            }),
    {
        DateStamp {
            year: reading.year,
            month: reading.month,
            day: reading.day,
            hour: reading.hour,
            minute: reading.minute,
            second: reading.second,
            nanosecond: reading.nanosecond,
            utc_offset,
        }
    }
}

/// What chrono reads from `text` under the strftime pattern `pattern`, or
/// `None` where the text does not follow the pattern.
pub uninterp spec fn naive_datetime_read(text: Seq<char>, pattern: Seq<char>) -> Option<
    ClockReading,
>;

/// Calls chrono's `NaiveDateTime::parse_from_str` and takes the fields of
/// what it returns, by the getters of `Datelike` and `Timelike`. The result
/// is named by `naive_datetime_read`.
#[verifier::external_body]
pub(crate) fn read_naive_datetime(text: &str, pattern: &str) -> (reading: Option<ClockReading>)
    ensures
        reading == naive_datetime_read(text@, pattern@),
{
    let moment = chrono::NaiveDateTime::parse_from_str(text, pattern).ok()?;
    Some(
        ClockReading {
            year: chrono::Datelike::year(&moment),
            month: chrono::Datelike::month(&moment),
            day: chrono::Datelike::day(&moment),
            hour: chrono::Timelike::hour(&moment),
            minute: chrono::Timelike::minute(&moment),
            second: chrono::Timelike::second(&moment),
            nanosecond: chrono::Timelike::nanosecond(&moment),
        },
    )
}

/// The date that a picture's data states: the text without quotation marks
/// and whitespace around it, read as `2025:11:18 14:30:45` or, failing
/// that, as `2025-11-18 14:30:45`.
pub open spec fn exif_datetime(text: Seq<char>) -> Option<ClockReading> {
    let bare = trim(trim_of(text, CharClass::Quote));
    match naive_datetime_read(bare, "%Y:%m:%d %H:%M:%S"@) {
        Some(reading) => Some(reading),
        None => naive_datetime_read(bare, "%Y-%m-%d %H:%M:%S"@),
    }
}

/// Reads the date that a picture's data states, with colons or with
/// hyphens in the date, and with or without quotation marks around it.
pub fn parse_exif_datetime(datetime_str: &str) -> (reading: Option<ClockReading>)
    ensures
        reading == exif_datetime(datetime_str@),
{
    let raw = to_chars(datetime_str);
    let bare = from_chars(&chars_trim(&chars_trim_of(&raw, CharClass::Quote)));
    match read_naive_datetime(bare.as_str(), "%Y:%m:%d %H:%M:%S") {
        Some(reading) => Some(reading),
        None => read_naive_datetime(bare.as_str(), "%Y-%m-%d %H:%M:%S"),
    }
}

/// The dates that a picture's data offers, the best first: the time the
/// picture was taken, then the time it was changed, each only where it is
/// there and can be read.
pub open spec fn exif_dates(taken: Option<Seq<char>>, changed: Option<Seq<char>>) -> Seq<
    ClockReading,
> {
    let first = match taken {
        Some(text) => match exif_datetime(text) {
            Some(reading) => seq![reading],
            None => Seq::<ClockReading>::empty(),
        },
        None => Seq::<ClockReading>::empty(),
    };
    let second = match changed {
        Some(text) => match exif_datetime(text) {
            Some(reading) => seq![reading],
            None => Seq::<ClockReading>::empty(),
        },
        None => Seq::<ClockReading>::empty(),
    };
    first + second
}

/// The dates that a picture's data offers, the best first. `taken` is the
/// text of the field for the time the picture was taken, `changed` that of
/// the field for the time it was changed.
pub fn exif_date_candidates(taken: Option<&str>, changed: Option<&str>) -> (dates: Vec<
    ClockReading,
>)
    ensures
        dates@ == exif_dates(
            match taken {
                Some(text) => Some(text@),
                None => None,
            },
            match changed {
                Some(text) => Some(text@),
                None => None,
            },
        ),
{
    let mut dates: Vec<ClockReading> = Vec::new();
    match taken {
        Some(text) => match parse_exif_datetime(text) {
            Some(reading) => {
                dates.push(reading);
            },
            None => {},
        },
        None => {},
    }
    let ghost first = dates@;
    match changed {
        Some(text) => match parse_exif_datetime(text) {
            Some(reading) => {
                dates.push(reading);
                assert(dates@ == first + seq![reading]);
            },
            None => {
                assert(dates@ == first + Seq::<ClockReading>::empty());
            },
        },
        None => {
            assert(dates@ == first + Seq::<ClockReading>::empty());
        },
    }
    dates
}

} // verus!
