//! Calendar texts of a moment that is given in seconds since 1970.

use vstd::prelude::*;

verus! {

/// The calendar day of a moment in universal time, as year, month and day
/// with hyphens between them; nothing for a moment outside the calendar's
/// range.
pub uninterp spec fn utc_date_text(timestamp: int) -> Option<Seq<char>>;

/// The day and time of a moment in the form of an HTTP `Date` header;
/// nothing for a moment outside the calendar's range.
pub uninterp spec fn http_date_text(timestamp: int) -> Option<Seq<char>>;

/// Calls `DateTime::from_timestamp` of the crate chrono with no
/// nanoseconds, and formats the moment with `%Y-%m-%d`. `from_timestamp`
/// gives nothing for a number of seconds that is out of range. The text is
/// claimed to depend on the number of seconds alone, and is here only
/// given a name.
#[verifier::external_body]
pub(crate) fn utc_date(timestamp: i64) -> (r: Option<String>)
    ensures
        match r {
            Some(s) => utc_date_text(timestamp as int) == Some(s@),
            None => utc_date_text(timestamp as int) is None,
        },
{
    match chrono::DateTime::from_timestamp(timestamp, 0) {
        Some(moment) => Some(moment.format("%Y-%m-%d").to_string()),
        None => None,
    }
}

/// Calls `DateTime::from_timestamp` of the crate chrono with no
/// nanoseconds, and formats the moment with `%a, %d %b %Y %H:%M:%S GMT`.
/// The text is claimed to depend on the number of seconds alone, and is
/// here only given a name.
#[verifier::external_body]
pub(crate) fn http_date(timestamp: i64) -> (r: Option<String>)
    ensures
        match r {
            Some(s) => http_date_text(timestamp as int) == Some(s@),
            None => http_date_text(timestamp as int) is None,
        },
{
    match chrono::DateTime::from_timestamp(timestamp, 0) {
        Some(moment) => Some(moment.format("%a, %d %b %Y %H:%M:%S GMT").to_string()),
        None => None,
    }
}

} // verus!
