//! Wall-clock seconds since the Unix epoch. Nothing is claimed about the value.
use vstd::prelude::*;

verus! {

/// A wall-clock reading (`std::time::SystemTime`), opaque.
#[verifier::external_type_specification]
#[verifier::external_body]
pub struct ExSystemTime(std::time::SystemTime);

/// The error of a clock reading earlier than the epoch, opaque.
#[verifier::external_type_specification]
#[verifier::external_body]
pub struct ExSystemTimeError(std::time::SystemTimeError);

/// `SystemTime::now()`.
#[verifier::external_body]
pub(crate) fn system_time_now() -> std::time::SystemTime {
    std::time::SystemTime::now()
}

/// `SystemTime::duration_since(UNIX_EPOCH)`.
#[verifier::external_body]
pub(crate) fn duration_since_epoch(t: std::time::SystemTime) -> Result<
    std::time::Duration,
    std::time::SystemTimeError,
> {
    t.duration_since(std::time::UNIX_EPOCH)
}

/// `Duration::as_secs()`.
#[verifier::external_body]
pub(crate) fn duration_secs(d: &std::time::Duration) -> u64 {
    d.as_secs()
}

/// Whole seconds since the Unix epoch; 0 when the clock reads earlier than the epoch.
pub fn get_current_time() -> u64 {
    match duration_since_epoch(system_time_now()) {
        Ok(d) => duration_secs(&d),
        Err(_) => 0,
    }
}

} // verus!
