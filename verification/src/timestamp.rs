//! Millisecond timestamps written as ISO 8601 text.

use vstd::prelude::*;

verus! {

/// The ISO 8601 / RFC 3339 text for the instant that lies `millis`
/// milliseconds after 1970-01-01 00:00:00 UTC, or `None` where the
/// instant is outside the range of dates that can be represented.
pub uninterp spec fn iso8601_of_millis(millis: i64) -> Option<Seq<char>>;

/// Writes a millisecond timestamp as ISO 8601 text in UTC.
///
/// Trusted: `chrono::DateTime::<Utc>::from_timestamp_millis` returns
/// `None` for a number of milliseconds outside its range of dates and the
/// instant otherwise; formatting that instant with `%+` writes its
/// RFC 3339 form and does not fail. Both depend on `millis` alone, so the
/// outcome is named [`iso8601_of_millis`].
#[verifier::external_body]
pub(crate) fn format_millis(millis: i64) -> (r: Option<String>)
    ensures
        match r {
            Some(s) => iso8601_of_millis(millis) == Some(s@),
            None => iso8601_of_millis(millis) is None,
        },
{
    match chrono::DateTime::<chrono::Utc>::from_timestamp_millis(millis) {
        Some(instant) => Some(format!("{}", instant.format("%+"))),
        None => None,
    }
}

} // verus!
