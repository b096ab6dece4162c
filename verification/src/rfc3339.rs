//! Reading and writing instants as RFC 3339 text, which is chrono's work.

use vstd::prelude::*;
use crate::instant::Instant;

verus! {

/// chrono's `ParseError`, the reason why a text was refused. It is carried
/// through unread.
#[verifier::external_type_specification]
#[verifier::external_body]
pub struct ExParseError(chrono::format::ParseError);

/// What `chrono::DateTime::parse_from_rfc3339` makes of `text`: the seconds
/// since the epoch and the nanoseconds of the date-time it reads, taken in
/// UTC, or `None` where it refuses the text.
pub uninterp spec fn parsed_rfc3339(text: Seq<char>) -> Option<(i64, u32)>;

/// What `chrono::DateTime::to_rfc3339` writes for the UTC date-time that
/// `chrono::DateTime::from_timestamp` makes of `secs` and `nanos`, or `None`
/// where chrono has no date-time for them.
pub uninterp spec fn rendered_rfc3339(secs: i64, nanos: u32) -> Option<Seq<char>>;

/// The instant that a text denotes, if it is a date-time with an offset.
pub open spec fn instant_of_text(text: Seq<char>) -> Option<Instant> {
    match parsed_rfc3339(text) {
        Some(p) => Some(Instant { secs: p.0, nanos: p.1 }),
        None => None,
    }
}

/// The text of an instant, if chrono can write it.
pub open spec fn text_of_instant(t: Instant) -> Option<Seq<char>> {
    rendered_rfc3339(t.secs, t.nanos)
}

/// Calls `chrono::DateTime::parse_from_rfc3339`, moves the result to UTC
/// with `with_timezone`, and hands out its `timestamp` and
/// `timestamp_subsec_nanos`. Trusted: the result is a function of the text
/// alone, which `parsed_rfc3339` names, and `from_timestamp` makes the same
/// date-time again of the two numbers, so they can be written.
#[verifier::external_body]
fn chrono_parse(text: &str) -> (r: Result<(i64, u32), chrono::format::ParseError>)
    ensures
        match r {
            Ok(p) => parsed_rfc3339(text@) == Some(p) && rendered_rfc3339(p.0, p.1).is_some(),
            Err(_) => parsed_rfc3339(text@).is_none(),
        },
{
    let parsed = chrono::DateTime::parse_from_rfc3339(text)?.with_timezone(&chrono::Utc);
    Ok((parsed.timestamp(), parsed.timestamp_subsec_nanos()))
}

/// Calls `chrono::DateTime::from_timestamp` and, where that yields a
/// date-time, `to_rfc3339` on it. Trusted: the result is a function of the
/// two numbers alone, which `rendered_rfc3339` names.
#[verifier::external_body]
fn chrono_render(secs: i64, nanos: u32) -> (r: Option<String>)
    ensures
        match r {
            Some(s) => rendered_rfc3339(secs, nanos) == Some(s@),
            None => rendered_rfc3339(secs, nanos).is_none(),
        },
{
    match chrono::DateTime::from_timestamp(secs, nanos) {
        Some(moment) => Some(moment.to_rfc3339()),
        None => None,
    }
}

/// Reads a date-time with an offset. What was read can be written.
pub fn parse_instant(text: &str) -> (r: Option<Instant>)
    ensures
        r == instant_of_text(text@),
        r matches Some(t) ==> text_of_instant(t).is_some(),
{
    match chrono_parse(text) {
        Ok(p) => Some(Instant { secs: p.0, nanos: p.1 }),
        Err(_) => None,
    }
}

/// Writes an instant as a UTC date-time.
pub fn render_instant(t: Instant) -> (r: Option<String>)
    ensures
        match r {
            Some(s) => text_of_instant(t) == Some(s@),
            None => text_of_instant(t).is_none(),
        },
{
    chrono_render(t.secs, t.nanos)
}

} // verus!
