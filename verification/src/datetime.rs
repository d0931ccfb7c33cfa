//! Timestamps as plain values: what the wire carries is an RFC 3339 text;
//! the library holds the instant it denotes as seconds and nanoseconds.

use vstd::prelude::*;

verus! {

/// An instant: whole seconds since the epoch and the nanosecond part.
#[derive(Debug, Clone, Copy, PartialEq, Eq, Structural)]
pub struct DateTimeValue {
    pub seconds: i64,
    pub nanos: u32,
}

/// The instant an RFC 3339 text denotes, or the parser's message when the
/// text denotes none. The result depends on the text alone.
pub uninterp spec fn datetime_parse(s: Seq<char>) -> Result<DateTimeValue, Seq<char>>;

/// Relies on `chrono::DateTime::parse_from_rfc3339` (with `timestamp` and
/// `timestamp_subsec_nanos` reading the parsed instant): the result is a
/// function of the text alone.
#[verifier::external_body]
pub fn parse_datetime(s: &str) -> (r: Result<DateTimeValue, String>)
    ensures
        match r {
            Ok(v) => datetime_parse(s@) == Ok::<DateTimeValue, Seq<char>>(v),
            Err(m) => datetime_parse(s@) == Err::<DateTimeValue, Seq<char>>(m@),
        },
{
    match chrono::DateTime::parse_from_rfc3339(s) {
        Ok(dt) => Ok(DateTimeValue { seconds: dt.timestamp(), nanos: dt.timestamp_subsec_nanos() }),
        Err(e) => Err(e.to_string()),
    }
}

} // verus!
