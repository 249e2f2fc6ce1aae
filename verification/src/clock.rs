//! The current time, as the text that goes into a log line.

use vstd::prelude::*;

verus! {

/// Relies on chrono's Utc::now and the display form of a UTC datetime:
/// reads the wall clock, so nothing is promised of the result, which
/// differs from call to call.
#[verifier::external_body]
pub(crate) fn now_utc() -> (r: Vec<u8>) {
    chrono::Utc::now().to_string().into_bytes()
}

} // verus!
