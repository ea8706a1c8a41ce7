//! Small shared helpers.

use vstd::prelude::*;

use crate::strutil::all_digits;

verus! {

/// The current time in whole seconds since the Unix epoch, as a decimal
/// string; used for upload names and protocol timestamps.
///
/// Relies on `std::time::SystemTime::now`, `duration_since` and `as_secs`
/// for the clock reading, and on `u64`'s `to_string`, which renders the
/// value as decimal digits.
#[verifier::external_body]
pub fn get_timestamp_string() -> (r: String)
    ensures
        r@.len() > 0,
        all_digits(r@),
{
    let current_time = std::time::SystemTime::now()
        .duration_since(std::time::UNIX_EPOCH)
        .map(|duration| duration.as_secs())
        .unwrap_or(0);
    current_time.to_string()
}

} // verus!
