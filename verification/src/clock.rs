//! The wall clock, read in whole seconds since the Unix epoch.
//!
//! Nothing is claimed of what the clock says: callers that need a definite
//! time take it as an argument and leave the reading to [`unix_seconds`].

use vstd::prelude::*;

verus! {

#[verifier::external_type_specification]
#[verifier::external_body]
pub struct ExSystemTime(std::time::SystemTime);

#[verifier::external_type_specification]
#[verifier::external_body]
pub struct ExSystemTimeError(std::time::SystemTimeError);

/// `SystemTime::now`: the current reading of the system clock.
#[verifier::external_body]
fn system_now() -> std::time::SystemTime {
    std::time::SystemTime::now()
}

/// `SystemTime::duration_since` the Unix epoch: how far `at` lies behind
/// the epoch, or the error for a clock set before it.
#[verifier::external_body]
fn since_epoch(at: &std::time::SystemTime) -> Result<
    std::time::Duration,
    std::time::SystemTimeError,
> {
    at.duration_since(std::time::UNIX_EPOCH)
}

/// `Duration::as_secs`: the whole seconds of `span`.
#[verifier::external_body]
fn whole_seconds(span: &std::time::Duration) -> u64 {
    span.as_secs()
}

/// The current time in seconds since the Unix epoch.
pub fn unix_seconds() -> Result<u64, std::time::SystemTimeError> {
    let now = system_now();
    match since_epoch(&now) {
        Ok(span) => Ok(whole_seconds(&span)),
        Err(e) => Err(e),
    }
}

} // verus!
