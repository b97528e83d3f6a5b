//! Calendar arithmetic is left to `chrono`.  This module is the boundary:
//! each function here makes one kind of call and names what comes back, so
//! that the rest of the library can state exactly what it does with it.

use vstd::prelude::*;

verus! {

/// Pattern of the time stamp that is written into a document.
pub const DATETIME_FORMAT: &'static str = "%Y-%m-%d %H:%M:%S";

/// Pattern by which a time stamp found in a document is read: the one above
/// followed by a zone.
pub const DATETIME_ZONE_FORMAT: &'static str = "%Y-%m-%d %H:%M:%S %z";

/// The zone that is appended to a time stamp before it is read.
pub const UTC_SUFFIX: &'static str = " +0000";

/// Pattern of the dates in a title line.
pub const TITLE_DATE_FORMAT: &'static str = "%d %B %Y";

/// Pattern of the date in a weather line.
pub const LONG_DATE_FORMAT: &'static str = "%B %d, %Y";

/// Pattern of a time of day.
pub const CLOCK_FORMAT: &'static str = "%H:%M";

/// The patterns that this library formats with.
pub open spec fn supported_format(fmt: Seq<char>) -> bool {
    ||| fmt == DATETIME_FORMAT@
    ||| fmt == TITLE_DATE_FORMAT@
    ||| fmt == LONG_DATE_FORMAT@
    ||| fmt == CLOCK_FORMAT@
}

/// A character that a time stamp written by `DATETIME_FORMAT` can hold: a
/// digit, a sign, a blank or a colon.
pub open spec fn is_stamp_char(c: char) -> bool {
    ('0' <= c && c <= '9') || c == '-' || c == '+' || c == ' ' || c == ':'
}

/// A text of such characters only.
pub open spec fn is_stamp_text(t: Seq<char>) -> bool {
    forall|i: int| 0 <= i < t.len() ==> is_stamp_char(#[trigger] t[i])
}

/// A view of an optional text.
pub open spec fn text_view(t: Option<String>) -> Option<Seq<char>> {
    match t {
        Some(s) => Some(s@),
        None => None,
    }
}

/// The instant, in seconds since 1970-01-01 00:00:00 UTC, that `text` denotes
/// when `chrono` reads it by the pattern `fmt`; `None` where it does not
/// parse.
pub uninterp spec fn parsed_seconds(text: Seq<char>, fmt: Seq<char>) -> Option<i64>;

/// Whether `chrono` has a date and time for the instant `secs`.
pub uninterp spec fn representable(secs: i64) -> bool;

/// The text that `chrono` writes for the instant `secs`, seen at `offset`
/// seconds east of UTC, by the pattern `fmt`.
pub uninterp spec fn formatted_time(secs: i64, offset: i32, fmt: Seq<char>) -> Option<Seq<char>>;

/// The instant and the offset east of UTC, both in seconds, that an RFC 3339
/// text denotes; `None` where `chrono` does not accept the text.
pub uninterp spec fn rfc3339_instant(text: Seq<char>) -> Option<(i64, i32)>;

/// An offset east of UTC that `chrono` accepts: less than a day either way.
pub open spec fn valid_offset(offset: i32) -> bool {
    -86_400 < offset && offset < 86_400
}

/// Calls `chrono::DateTime::parse_from_str` and takes the seconds of the
/// instant it returns.  Trusted: the result is the named one, `None` where
/// `chrono` reports an error.
#[verifier::external_body]
pub(crate) fn parse_seconds(text: &str, fmt: &str) -> (r: Option<i64>)
    ensures
        r == parsed_seconds(text@, fmt@),
{
    match chrono::DateTime::parse_from_str(text, fmt) {
        Ok(instant) => Some(instant.timestamp()),
        Err(_) => None,
    }
}

/// Calls `chrono::DateTime::from_timestamp` with no nanoseconds and says
/// whether it returned a value.  Trusted: that is what `representable` names.
#[verifier::external_body]
pub(crate) fn is_representable(secs: i64) -> (r: bool)
    ensures
        r == representable(secs),
{
    chrono::DateTime::from_timestamp(secs, 0).is_some()
}

/// Calls `chrono::FixedOffset::east_opt` and says whether it returned a
/// value.  Trusted: it does so for offsets of less than a day either way, as
/// its source shows.
#[verifier::external_body]
pub(crate) fn is_valid_offset(offset: i32) -> (r: bool)
    ensures
        r == valid_offset(offset),
{
    chrono::FixedOffset::east_opt(offset).is_some()
}

/// Builds the instant with `chrono::DateTime::from_timestamp`, moves it to
/// the zone that `chrono::FixedOffset::east_opt` gives for `offset`, and
/// writes it with `DateTime::format`.
///
/// Trusted: the text is the named one; there is a text exactly when
/// `chrono` has the instant and accepts the offset; and a text written by
/// `DATETIME_FORMAT` holds only digits, signs, blanks and colons, as the
/// documentation of `%Y`, `%m`, `%d`, `%H`, `%M` and `%S` says.  The patterns
/// that `requires` admits are well formed, so formatting does not fail.
#[verifier::external_body]
pub(crate) fn format_time(secs: i64, offset: i32, fmt: &str) -> (r: Option<String>)
    requires
        supported_format(fmt@),
    ensures
        text_view(r) == formatted_time(secs, offset, fmt@),
        (r is Some) == (representable(secs) && valid_offset(offset)),
        r matches Some(t) ==> (fmt@ == DATETIME_FORMAT@ ==> is_stamp_text(t@)),
{
    let utc = chrono::DateTime::from_timestamp(secs, 0)?;
    let zone = chrono::FixedOffset::east_opt(offset)?;
    Some(utc.with_timezone(&zone).format(fmt).to_string())
}

/// Calls `chrono::DateTime::parse_from_rfc3339` and takes the seconds of the
/// instant and of its offset.  Trusted: the result is the named one, `None`
/// where `chrono` reports an error.
#[verifier::external_body]
pub(crate) fn parse_rfc3339(text: &str) -> (r: Option<(i64, i32)>)
    ensures
        r == rfc3339_instant(text@),
{
    match chrono::DateTime::parse_from_rfc3339(text) {
        Ok(instant) => Some((instant.timestamp(), instant.offset().local_minus_utc())),
        Err(_) => None,
    }
}

} // verus!
