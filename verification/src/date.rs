//! Instants in time, as the header's `date` key gives them.

use crate::error::{BlogPostError, ErrorModel};
use crate::text::text_view;
use vstd::prelude::*;
use vstd::string::*;

verus! {

/// An instant on the UTC time line: whole seconds since the Unix epoch and the
/// nanoseconds past that second (a leap second counts past 999,999,999).
#[derive(Clone, Copy, Debug, PartialEq, Eq, Structural)]
pub struct Timestamp {
    pub seconds: i64,
    pub nanos: u32,
}

/// What chrono's RFC 3339 parser makes of a text: the instant it denotes, or
/// the parser's own message for a text it rejects.
pub uninterp spec fn rfc3339_instant(text: Seq<char>) -> Result<Timestamp, Seq<char>>;

/// Calls `chrono::DateTime::parse_from_rfc3339` and moves the result to UTC.
/// The contract names the outcome `rfc3339_instant(text)`: on success the
/// instant's seconds and nanoseconds, on failure the text of chrono's error.
#[verifier::external_body]
fn parse_rfc3339(text: &str) -> (r: Result<Timestamp, String>)
    ensures
        match r {
            Ok(t) => rfc3339_instant(text@) == Ok::<Timestamp, Seq<char>>(t),
            Err(m) => rfc3339_instant(text@) == Err::<Timestamp, Seq<char>>(m@),
        },
{
    match chrono::DateTime::parse_from_rfc3339(text) {
        Ok(parsed) => {
            let utc = parsed.with_timezone(&chrono::Utc);
            Ok(Timestamp { seconds: utc.timestamp(), nanos: utc.timestamp_subsec_nanos() })
        },
        Err(e) => Err(e.to_string()),
    }
}

/// How chrono writes an instant with the format `%B %e, %Y`: the month's
/// English name, the day of the month padded with a space to two places, and
/// the year; `None` for an instant outside the range of chrono's dates.
pub uninterp spec fn long_date(instant: Timestamp) -> Option<Seq<char>>;

/// Builds the UTC date and time with `chrono::DateTime::from_timestamp` and
/// formats it with `DateTime::format` and `%B %e, %Y`. The contract names the
/// outcome `long_date(instant)`.
#[verifier::external_body]
fn format_long_date(instant: Timestamp) -> (r: Option<String>)
    ensures
        text_view(r) == long_date(instant),
{
    chrono::DateTime::from_timestamp(instant.seconds, instant.nanos).map(
        |utc| utc.format("%B %e, %Y").to_string(),
    )
}

/// The long date of a text that is an RFC 3339 date, `None` for any other.
pub open spec fn long_date_of(text: Seq<char>) -> Option<Seq<char>> {
    match rfc3339_instant(text) {
        Ok(instant) => long_date(instant),
        Err(_) => None,
    }
}

/// The long date where there is one, else the text as it is.
pub fn date_or_text(text: &str, formatted: Option<String>) -> (shown: String)
    ensures
        shown@ == match formatted {
            Some(date) => date@,
            None => text@,
        },
{
    match formatted {
        Some(date) => date,
        None => String::from_str(text),
    }
}

/// Shows an RFC 3339 date as its long date in UTC, such as `March  1, 2024`;
/// a text that is no such date is handed back as it is.
pub fn format_date(text: &str) -> (shown: String)
    ensures
        shown@ == match long_date_of(text@) {
            Some(date) => date,
            None => text@,
        },
{
    match parse_rfc3339(text) {
        Ok(instant) => date_or_text(text, format_long_date(instant)),
        Err(_) => date_or_text(text, None),
    }
}

/// The outcome of reading a `date` value, given what the RFC 3339 parser made
/// of it: the instant, or a header error that quotes the parser.
pub open spec fn date_outcome(parsed: Result<Timestamp, Seq<char>>) -> Result<
    Timestamp,
    ErrorModel,
> {
    match parsed {
        Ok(t) => Ok(t),
        Err(m) => Err(ErrorModel::FrontmatterParse("Invalid date: "@ + m)),
    }
}

/// Turns the RFC 3339 parser's outcome into the header's: a rejected text
/// becomes a header error whose message is `Invalid date: ` and the cause.
pub fn date_from_parsed(parsed: Result<Timestamp, String>) -> (r: Result<Timestamp, BlogPostError>)
    ensures
        match r {
            Ok(t) => parsed == Ok::<Timestamp, String>(t),
            Err(e) => parsed is Err && e@ == ErrorModel::FrontmatterParse(
                "Invalid date: "@ + parsed->Err_0@,
            ),
        },
{
    match parsed {
        Ok(t) => Ok(t),
        Err(m) => Err(
            BlogPostError::FrontmatterParse(String::from_str("Invalid date: ").concat(m.as_str())),
        ),
    }
}

impl Timestamp {
    /// Whether `self` is strictly later than `other`.
    pub open spec fn is_after(self, other: Timestamp) -> bool {
        self.seconds > other.seconds || (self.seconds == other.seconds && self.nanos > other.nanos)
    }

    /// Whether `self` is strictly later than `other`.
    pub fn after(&self, other: &Timestamp) -> (b: bool)
        ensures
            b == self.is_after(*other),
    {
        self.seconds > other.seconds || (self.seconds == other.seconds && self.nanos > other.nanos)
    }

    /// Reads an RFC 3339 date. Succeeds exactly on the texts that the parser
    /// accepts, with the instant it gives.
    pub fn parse(text: &str) -> (r: Result<Timestamp, BlogPostError>)
        ensures
            match r {
                Ok(t) => date_outcome(rfc3339_instant(text@)) == Ok::<Timestamp, ErrorModel>(t),
                Err(e) => date_outcome(rfc3339_instant(text@)) == Err::<Timestamp, ErrorModel>(e@),
            },
    {
        date_from_parsed(parse_rfc3339(text))
    }
}

} // verus!
