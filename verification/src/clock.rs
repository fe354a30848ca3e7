//! The current time as an RFC 3339 timestamp, read through the `time` crate.

use vstd::prelude::*;
use crate::error::AppError;

verus! {

#[verifier::external_type_specification]
#[verifier::external_body]
pub struct ExOffsetDateTime(time::OffsetDateTime);

#[verifier::external_type_specification]
#[verifier::external_body]
pub struct ExFormatError(time::error::Format);

/// The fixed separators of an RFC 3339 date-time: `YYYY-MM-DDTHH:MM:SS` and at least a `Z`
/// or an offset after it.
pub open spec fn rfc3339_shaped(s: Seq<char>) -> bool {
    &&& s.len() >= 20
    &&& s[4] == '-'
    &&& s[7] == '-'
    &&& s[10] == 'T'
    &&& s[13] == ':'
    &&& s[16] == ':'
}

/// Calls `time::OffsetDateTime::now_utc`, which reads the system clock: nothing is
/// promised of the instant it returns.
#[verifier::external_body]
fn current_utc_time() -> time::OffsetDateTime {
    time::OffsetDateTime::now_utc()
}

/// Calls `time::OffsetDateTime::format` with the `Rfc3339` description. Its source writes the
/// four-digit year, `-`, month, `-`, day, `T`, hour, `:`, minute, `:`, second, then optional
/// fractional seconds and `Z` or an offset; it fails only for a year outside 0..=9999 or an
/// offset that cannot be written. The digits themselves are not stated.
#[verifier::external_body]
fn format_rfc3339(t: time::OffsetDateTime) -> (r: Result<String, time::error::Format>)
    ensures
        r matches Ok(s) ==> rfc3339_shaped(s@),
{
    t.format(&time::format_description::well_known::Rfc3339)
}

/// Returns the current UTC time formatted as an RFC 3339 string. A clock that cannot be
/// written in RFC 3339 gives an internal error.
pub fn now_rfc3339() -> (r: Result<String, AppError>)
    ensures
        r matches Ok(s) ==> rfc3339_shaped(s@),
        r matches Err(e) ==> e is Internal,
{
    let now = current_utc_time();
    match format_rfc3339(now) {
        Ok(s) => Ok(s),
        Err(_) => Err(AppError::Internal { message: String::from_str("RFC 3339 formatting failed") }),
    }
}

} // verus!
