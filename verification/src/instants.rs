//! Instants as microseconds since the Unix epoch, and their text.

use time::format_description::well_known::Rfc3339;
use time::OffsetDateTime;
use vstd::prelude::*;

verus! {

/// The RFC 3339 text, in UTC, of an instant in nanoseconds since the Unix epoch.
pub uninterp spec fn rfc3339_text(nanoseconds: i128) -> Result<Seq<char>, Seq<char>>;

/// The instant that an RFC 3339 text stands for, in nanoseconds since the Unix epoch.
pub uninterp spec fn rfc3339_value(text: Seq<char>) -> Option<i128>;

/// The instants of the years 0 to 9999, in nanoseconds since the Unix epoch.
pub open spec fn has_rfc3339_text(nanoseconds: i128) -> bool {
    -62_167_219_200_000_000_000 <= nanoseconds < 253_402_300_800_000_000_000
}

/// The instants of the years -9999 to -1, in nanoseconds since the Unix epoch.
pub open spec fn is_before_year_zero(nanoseconds: i128) -> bool {
    -377_705_116_800_000_000_000 <= nanoseconds < -62_167_219_200_000_000_000
}

pub open spec fn text_or_error(text: Result<String, String>) -> Result<Seq<char>, Seq<char>> {
    match text {
        Ok(text) => Ok(text@),
        Err(error) => Err(error@),
    }
}

/// `OffsetDateTime::format` of `time`, with `Rfc3339`: the text of an instant in UTC, or the words
/// of the error. Instants of the years 0 to 9999 have a text, and it is read back as the same
/// instant. Of an earlier year the error says that the year cannot be formatted. An instant that is
/// out of the range of `OffsetDateTime` has the error of `from_unix_timestamp_nanos`.
#[verifier::external_body]
pub(crate) fn format_nanoseconds(nanoseconds: i128) -> (text: Result<String, String>)
    ensures
        text_or_error(text) == rfc3339_text(nanoseconds),
        text is Ok <==> has_rfc3339_text(nanoseconds),
        text is Ok ==> rfc3339_value(text->Ok_0@) == Some(nanoseconds),
        is_before_year_zero(nanoseconds) ==> text->Err_0@
            == "The year component cannot be formatted into the requested format."@,
{
    match OffsetDateTime::from_unix_timestamp_nanos(nanoseconds) {
        Ok(instant) => instant.format(&Rfc3339).map_err(|error| error.to_string()),
        Err(error) => Err(error.to_string()),
    }
}

/// `OffsetDateTime::parse` of `time`, with `Rfc3339`: the instant that a text stands for,
/// whatever its offset from UTC.
#[verifier::external_body]
pub(crate) fn parse_nanoseconds(text: &str) -> (nanoseconds: Option<i128>)
    ensures
        nanoseconds == rfc3339_value(text@),
{
    OffsetDateTime::parse(text, &Rfc3339).ok().map(|instant| instant.unix_timestamp_nanos())
}

/// The RFC 3339 text of an instant in microseconds, or why it has none.
pub open spec fn instant_text(microseconds: i64) -> Result<Seq<char>, Seq<char>> {
    rfc3339_text((microseconds * 1000) as i128)
}

pub fn format_time(microseconds: i64) -> (text: Result<String, String>)
    ensures
        text_or_error(text) == instant_text(microseconds),
        text is Ok <==> has_rfc3339_text((microseconds * 1000) as i128),
        text is Ok ==> rfc3339_value(text->Ok_0@) == Some((microseconds * 1000) as i128),
        is_before_year_zero((microseconds * 1000) as i128) ==> text->Err_0@
            == "The year component cannot be formatted into the requested format."@,
{
    format_nanoseconds(microseconds as i128 * 1000)
}

/// The instant `seconds` after `now`, where it has one.
pub open spec fn instant_after(now: i64, seconds: i64) -> Option<i64> {
    if i64::MIN <= now + seconds * 1_000_000 <= i64::MAX {
        Some((now + seconds * 1_000_000) as i64)
    } else {
        None
    }
}

pub fn after(now: i64, seconds: i64) -> (instant: Option<i64>)
    ensures
        instant == instant_after(now, seconds),
{
    let instant: i128 = now as i128 + seconds as i128 * 1_000_000;
    if i64::MIN as i128 <= instant && instant <= i64::MAX as i128 {
        Some(instant as i64)
    } else {
        None
    }
}

} // verus!
