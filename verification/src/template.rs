//! Directory templates: a rule's template with its placeholders filled in
//! from a file's kind, extension and date.
//!
//! The placeholders are `{type}`, `{ext}`, `{year}`, `{month}`, `{day}` and
//! `{date}`. The date is rendered by chrono; what chrono returns for a
//! pattern is named here by `strftime_text`.

use crate::decimal::{four_digits, two_digits};
use crate::media_types::MediaType;
use crate::text::{
    append_chars, chars_eq_str, chars_replace_all, chars_trim, from_chars, replace_all, to_chars,
    to_uppercase, trim, uppercase_of,
};
use vstd::prelude::*;

verus! {

/// A date and time of day as a clock on the wall shows it, with the clock's
/// offset from UTC.
#[derive(Debug, Clone, Copy, PartialEq, Eq, Structural)]
pub struct DateStamp {
    pub year: i32,
    /// 1 to 12.
    pub month: u32,
    /// 1 to 31.
    pub day: u32,
    pub hour: u32,
    pub minute: u32,
    pub second: u32,
    pub nanosecond: u32,
    /// Seconds that the clock is ahead of UTC.
    pub utc_offset: i32,
}

/// Whether `year` has a 29th of February.
pub open spec fn is_leap_year(year: int) -> bool {
    year % 4 == 0 && (year % 100 != 0 || year % 400 == 0)
}

/// The number of days of a month.
pub open spec fn days_in_month(year: int, month: int) -> int {
    if month == 2 {
        if is_leap_year(year) {
            29
        } else {
            28
        }
    } else if month == 4 || month == 6 || month == 9 || month == 11 {
        30
    } else {
        31
    }
}

impl DateStamp {
    /// Whether the stamp is a day of the calendar in the years 0 to 9999
    /// with a time of day, no leap second, and an offset of less than a day.
    pub open spec fn is_plain(self) -> bool {
        &&& 0 <= self.year <= 9999
        &&& 1 <= self.month <= 12
        &&& 1 <= self.day <= days_in_month(self.year as int, self.month as int)
        &&& self.hour < 24
        &&& self.minute < 60
        &&& self.second < 60
        &&& self.nanosecond < 1_000_000_000
        &&& -86_400 < self.utc_offset < 86_400
    }
}

/// What chrono writes for `stamp` under the strftime pattern `pattern`, or
/// `None` where it writes nothing: the stamp is no date or time that chrono
/// holds, or the pattern has an item that chrono cannot render.
pub uninterp spec fn chrono_text(stamp: DateStamp, pattern: Seq<char>) -> Option<Seq<char>>;

/// Whether `pattern` is one of the three items whose rendering is spelled
/// out: `%Y`, `%m` and `%d`.
pub open spec fn is_date_item(pattern: Seq<char>) -> bool {
    pattern == "%Y"@ || pattern == "%m"@ || pattern == "%d"@
}

/// What chrono writes for `stamp` under `pattern`. For a plain stamp three
/// items are spelled out: `%Y` gives the year in four digits, `%m` the
/// month and `%d` the day in two, each padded with zeros. Anything else is
/// what chrono gives.
pub open spec fn strftime_text(stamp: DateStamp, pattern: Seq<char>) -> Option<Seq<char>> {
    if stamp.is_plain() && pattern == "%Y"@ {
        Some(four_digits(stamp.year as nat))
    } else if stamp.is_plain() && pattern == "%m"@ {
        Some(two_digits(stamp.month as nat))
    } else if stamp.is_plain() && pattern == "%d"@ {
        Some(two_digits(stamp.day as nat))
    } else {
        chrono_text(stamp, pattern)
    }
}

/// Calls chrono. The stamp becomes a `DateTime<FixedOffset>` by
/// `NaiveDate::from_ymd_opt`, `NaiveTime::from_hms_nano_opt`,
/// `FixedOffset::east_opt` and `TimeZone::from_local_datetime`; `format`
/// and `DelayedFormat::write_to` then render it. The contract claims what
/// `strftime_text` says: for a plain stamp, `%Y` gives the year in four
/// digits, `%m` the month and `%d` the day in two, each padded with zeros;
/// every other result is named by `chrono_text`.
#[verifier::external_body]
pub(crate) fn strftime(stamp: &DateStamp, pattern: &str) -> (text: Option<String>)
    ensures
        text.deep_view() == strftime_text(*stamp, pattern@),
        !(stamp.is_plain() && is_date_item(pattern@)) ==> text.deep_view() == chrono_text(
            *stamp,
            pattern@,
        ),
{
    let date = chrono::NaiveDate::from_ymd_opt(stamp.year, stamp.month, stamp.day)?;
    let time = chrono::NaiveTime::from_hms_nano_opt(
        stamp.hour,
        stamp.minute,
        stamp.second,
        stamp.nanosecond,
    )?;
    let zone = chrono::FixedOffset::east_opt(stamp.utc_offset)?;
    let moment = chrono::TimeZone::from_local_datetime(&zone, &date.and_time(time)).single()?;
    let mut text = String::new();
    moment.format(pattern).write_to(&mut text).ok()?;
    Some(text)
}

/// The year, month and day of a date as they are written into a path.
#[derive(Debug, Clone)]
pub struct DateParts {
    pub year: String,
    pub month: String,
    pub day: String,
}

/// `DateParts` as plain text.
pub struct DatePartsView {
    pub year: Seq<char>,
    pub month: Seq<char>,
    pub day: Seq<char>,
}

impl View for DateParts {
    type V = DatePartsView;

    open spec fn view(&self) -> DatePartsView {
        DatePartsView { year: self.year@, month: self.month@, day: self.day@ }
    }
}

/// The year, month and day of `stamp` as chrono writes them for `%Y`, `%m`
/// and `%d`.
pub open spec fn date_parts(stamp: DateStamp) -> Option<DatePartsView> {
    match (
        strftime_text(stamp, "%Y"@),
        strftime_text(stamp, "%m"@),
        strftime_text(stamp, "%d"@),
    ) {
        (Some(year), Some(month), Some(day)) => Some(DatePartsView { year, month, day }),
        _ => None,
    }
}

/// The year in four digits, the month and the day in two.
pub open spec fn plain_parts(stamp: DateStamp) -> DatePartsView {
    DatePartsView {
        year: four_digits(stamp.year as nat),
        month: two_digits(stamp.month as nat),
        day: two_digits(stamp.day as nat),
    }
}

/// The three items are three different patterns.
proof fn lemma_date_items_differ()
    ensures
        "%Y"@ != "%m"@,
        "%Y"@ != "%d"@,
        "%m"@ != "%d"@,
{
    reveal_strlit("%Y");
    reveal_strlit("%m");
    reveal_strlit("%d");
    assert("%Y"@[1] == 'Y');
    assert("%m"@[1] == 'm');
    assert("%d"@[1] == 'd');
}

/// For a plain stamp, year, month and day are the zero-padded digits, and
/// so are the dates and directories made of them.
pub proof fn lemma_plain_date(stamp: DateStamp)
    requires
        stamp.is_plain(),
    ensures
        date_parts(stamp) == Some(plain_parts(stamp)),
        forall|format: Seq<char>| #[trigger]
            date_text(stamp, format) == plain_date_text(stamp, format),
        forall|template: Seq<char>, extension: Seq<char>, media_type: MediaType, format: Seq<char>|
            #[trigger] expansion(template, extension, media_type, stamp, format) == plain_expansion(
                template,
                extension,
                media_type,
                stamp,
                format,
            ),
{
    lemma_date_items_differ();
}

/// Renders the year, month and day of `stamp`. For a plain stamp they are
/// the zero-padded digits.
pub fn render_parts(stamp: &DateStamp) -> (parts: Option<DateParts>)
    ensures
        match date_parts(*stamp) {
            Some(view) => parts matches Some(found) && found@ == view,
            None => parts is None,
        },
        stamp.is_plain() ==> (parts matches Some(found) && found@ == plain_parts(*stamp)),
{
    proof {
        if stamp.is_plain() {
            lemma_plain_date(*stamp);
        }
    }
    let year = match strftime(stamp, "%Y") {
        Some(text) => text,
        None => {
            return None;
        },
    };
    let month = match strftime(stamp, "%m") {
        Some(text) => text,
        None => {
            return None;
        },
    };
    let day = match strftime(stamp, "%d") {
        Some(text) => text,
        None => {
            return None;
        },
    };
    Some(DateParts { year, month, day })
}

/// The date that a known format asks for, made of the parts; `None` for a
/// format that is not one of the known ones. `token` has no whitespace
/// around it.
pub open spec fn known_date_text(token: Seq<char>, parts: DatePartsView) -> Option<Seq<char>> {
    if token == "YYYY"@ {
        Some(parts.year)
    } else if token == "YYYYMM"@ {
        Some(parts.year + parts.month)
    } else if token == "YYYYMMDD"@ {
        Some(parts.year + parts.month + parts.day)
    } else if token == "YYYY/MM"@ {
        Some(parts.year + seq!['/'] + parts.month)
    } else if token == "YYYY/MM/DD"@ {
        Some(parts.year + seq!['/'] + parts.month + seq!['/'] + parts.day)
    } else if token == "YYYY-MM"@ {
        Some(parts.year + seq!['-'] + parts.month)
    } else if token == "YYYY-MM-DD"@ {
        Some(parts.year + seq!['-'] + parts.month + seq!['-'] + parts.day)
    } else {
        None
    }
}

/// What stands between two parts of a date: the separator, or nothing.
spec fn between(separator: Option<char>) -> Seq<char> {
    match separator {
        Some(c) => seq![c],
        None => Seq::empty(),
    }
}

/// The first `fields` of year, month and day, one after the other, with the
/// separator between every two.
fn join_parts(parts: &DateParts, fields: usize, separator: Option<char>) -> (text: Vec<char>)
    requires
        1 <= fields <= 3,
    ensures
        fields == 1 ==> text@ == parts@.year,
        fields == 2 ==> text@ == parts@.year + between(separator) + parts@.month,
        fields == 3 ==> text@ == parts@.year + between(separator) + parts@.month + between(
            separator,
        ) + parts@.day,
{
    let mut text = to_chars(parts.year.as_str());
    if fields >= 2 {
        match separator {
            Some(c) => {
                text.push(c);
            },
            None => {},
        }
        let month = to_chars(parts.month.as_str());
        append_chars(&mut text, &month);
    }
    if fields >= 3 {
        match separator {
            Some(c) => {
                text.push(c);
            },
            None => {},
        }
        let day = to_chars(parts.day.as_str());
        append_chars(&mut text, &day);
    }
    text
}

/// Writes the date that a known format asks for from the rendered parts:
/// `YYYY`, `YYYYMM`, `YYYYMMDD`, `YYYY/MM`, `YYYY/MM/DD`, `YYYY-MM` or
/// `YYYY-MM-DD`. Any other format gives `None`.
pub fn format_known_date(token: &str, parts: &DateParts) -> (text: Option<String>)
    ensures
        text.deep_view() == known_date_text(token@, parts@),
{
    let name = to_chars(token);
    let chars = if chars_eq_str(&name, "YYYY") {
        join_parts(parts, 1, None)
    } else if chars_eq_str(&name, "YYYYMM") {
        join_parts(parts, 2, None)
    } else if chars_eq_str(&name, "YYYYMMDD") {
        join_parts(parts, 3, None)
    } else if chars_eq_str(&name, "YYYY/MM") {
        join_parts(parts, 2, Some('/'))
    } else if chars_eq_str(&name, "YYYY/MM/DD") {
        join_parts(parts, 3, Some('/'))
    } else if chars_eq_str(&name, "YYYY-MM") {
        join_parts(parts, 2, Some('-'))
    } else if chars_eq_str(&name, "YYYY-MM-DD") {
        join_parts(parts, 3, Some('-'))
    } else {
        return None;
    };
    assert(Some(chars@) == known_date_text(token@, parts@));
    Some(from_chars(&chars))
}

/// The date of `stamp` as `format` asks for it: by the parts for a known
/// format, by chrono for any other, which is then taken as a strftime
/// pattern. Whitespace around the format is ignored.
pub open spec fn date_text(stamp: DateStamp, format: Seq<char>) -> Option<Seq<char>> {
    match date_parts(stamp) {
        None => None,
        Some(parts) => match known_date_text(trim(format), parts) {
            Some(text) => Some(text),
            None => strftime_text(stamp, trim(format)),
        },
    }
}

/// The date of a plain stamp as `format` asks for it: for a known format
/// the zero-padded digits, for any other what chrono writes.
pub open spec fn plain_date_text(stamp: DateStamp, format: Seq<char>) -> Option<Seq<char>> {
    match known_date_text(trim(format), plain_parts(stamp)) {
        Some(text) => Some(text),
        None => strftime_text(stamp, trim(format)),
    }
}

/// Writes the date of `date` as `format` asks for it. A known format is one
/// of `YYYY`, `YYYYMM`, `YYYYMMDD`, `YYYY/MM`, `YYYY/MM/DD`, `YYYY-MM` and
/// `YYYY-MM-DD`; any other format is handed to chrono as a strftime
/// pattern, as it stands. `None` where chrono renders nothing.
pub fn format_date_string(date: &DateStamp, format: &str) -> (text: Option<String>)
    ensures
        text.deep_view() == date_text(*date, format@),
        date.is_plain() ==> text.deep_view() == plain_date_text(*date, format@),
{
    let parts = match render_parts(date) {
        Some(parts) => parts,
        None => {
            return None;
        },
    };
    let raw = to_chars(format);
    let token = from_chars(&chars_trim(&raw));
    match format_known_date(token.as_str(), &parts) {
        Some(text) => Some(text),
        None => strftime(date, token.as_str()),
    }
}

/// The date of `date` in eight digits, as in `20251118`.
pub fn format_date(date: &DateStamp) -> (text: Option<String>)
    ensures
        text.deep_view() == (match date_parts(*date) {
            Some(parts) => Some(parts.year + parts.month + parts.day),
            None => None,
        }),
        date.is_plain() ==> text.deep_view() == Some(
            four_digits(date.year as nat) + two_digits(date.month as nat) + two_digits(
                date.day as nat,
            ),
        ),
{
    match render_parts(date) {
        Some(parts) => Some(from_chars(&join_parts(&parts, 3, None))),
        None => None,
    }
}

/// `template` with each placeholder replaced: `{type}`, `{ext}`, `{year}`,
/// `{month}`, `{day}` and `{date}`, in this order.
pub open spec fn filled(
    template: Seq<char>,
    type_label: Seq<char>,
    extension: Seq<char>,
    parts: DatePartsView,
    date: Seq<char>,
) -> Seq<char> {
    let with_type = replace_all(template, "{type}"@, type_label);
    let with_ext = replace_all(with_type, "{ext}"@, extension);
    let with_year = replace_all(with_ext, "{year}"@, parts.year);
    let with_month = replace_all(with_year, "{month}"@, parts.month);
    let with_day = replace_all(with_month, "{day}"@, parts.day);
    replace_all(with_day, "{date}"@, date)
}

/// `template` with the placeholders that need no date replaced: `{ext}`,
/// then `{type}`.
pub open spec fn filled_undated(template: Seq<char>, extension: Seq<char>, type_label: Seq<char>) -> Seq<
    char,
> {
    replace_all(replace_all(template, "{ext}"@, extension), "{type}"@, type_label)
}

/// Replaces every `placeholder` in `text` by `value`.
fn substitute(text: &Vec<char>, placeholder: &str, value: &str) -> (out: Vec<char>)
    ensures
        out@ == replace_all(text@, placeholder@, value@),
{
    let from = to_chars(placeholder);
    let to = to_chars(value);
    chars_replace_all(text, &from, &to)
}

/// Fills every placeholder of `template` with the text given for it.
pub fn fill_template(
    template: &str,
    media_type: MediaType,
    extension: &str,
    parts: &DateParts,
    date: &str,
) -> (path: String)
    ensures
        path@ == filled(template@, media_type.label(), extension@, parts@, date@),
{
    let text = to_chars(template);
    let text = substitute(&text, "{type}", media_type.name());
    let text = substitute(&text, "{ext}", extension);
    let text = substitute(&text, "{year}", parts.year.as_str());
    let text = substitute(&text, "{month}", parts.month.as_str());
    let text = substitute(&text, "{day}", parts.day.as_str());
    let text = substitute(&text, "{date}", date);
    from_chars(&text)
}

/// Fills the placeholders of `template` that need no date: `{ext}` and
/// `{type}`. Any other placeholder stays as it is.
pub fn fill_undated_template(template: &str, extension: &str, media_type: MediaType) -> (path:
    String)
    ensures
        path@ == filled_undated(template@, extension@, media_type.label()),
{
    let text = to_chars(template);
    let text = substitute(&text, "{ext}", extension);
    let text = substitute(&text, "{type}", media_type.name());
    from_chars(&text)
}

/// The directory that `template` stands for, for a file of the given
/// extension and kind and the given date: the extension goes in in upper
/// case, the date as `date_format` asks for it.
pub open spec fn expansion(
    template: Seq<char>,
    extension: Seq<char>,
    media_type: MediaType,
    stamp: DateStamp,
    date_format: Seq<char>,
) -> Option<Seq<char>> {
    match (date_parts(stamp), date_text(stamp, date_format)) {
        (Some(parts), Some(date)) => Some(
            filled(template, media_type.label(), uppercase_of(extension), parts, date),
        ),
        _ => None,
    }
}

/// The directory that `template` stands for, for a plain date: year,
/// month and day are the zero-padded digits.
pub open spec fn plain_expansion(
    template: Seq<char>,
    extension: Seq<char>,
    media_type: MediaType,
    stamp: DateStamp,
    date_format: Seq<char>,
) -> Option<Seq<char>> {
    match plain_date_text(stamp, date_format) {
        Some(date) => Some(
            filled(template, media_type.label(), uppercase_of(extension), plain_parts(stamp), date),
        ),
        None => None,
    }
}

/// Expands a directory template for one file. `None` where chrono cannot
/// render the date.
pub fn expand_template(
    template: &str,
    extension: &str,
    media_type: MediaType,
    date: &DateStamp,
    date_format: &str,
) -> (path: Option<String>)
    ensures
        path.deep_view() == expansion(template@, extension@, media_type, *date, date_format@),
        date.is_plain() ==> path.deep_view() == plain_expansion(
            template@,
            extension@,
            media_type,
            *date,
            date_format@,
        ),
{
    let parts = match render_parts(date) {
        Some(parts) => parts,
        None => {
            return None;
        },
    };
    let formatted = match format_date_string(date, date_format) {
        Some(text) => text,
        None => {
            return None;
        },
    };
    let upper = to_uppercase(extension);
    Some(fill_template(template, media_type, upper.as_str(), &parts, formatted.as_str()))
}

} // verus!
