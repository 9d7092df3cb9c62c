//! The wall clock, read in milliseconds since the Unix epoch.

use vstd::prelude::*;

verus! {

#[verifier::external_type_specification]
#[verifier::external_body]
pub struct ExSystemTime(std::time::SystemTime);

#[verifier::external_type_specification]
#[verifier::external_body]
pub struct ExSystemTimeError(std::time::SystemTimeError);

/// `std::time::SystemTime::now`: the current wall-clock time. Nothing is
/// claimed of the value, which depends on the machine's clock.
#[verifier::external_body]
fn system_time_now() -> std::time::SystemTime {
    std::time::SystemTime::now()
}

/// `std::time::SystemTime::duration_since`, taken against the Unix epoch.
/// Nothing is claimed of the result: it depends on the time read before.
#[verifier::external_body]
fn since_unix_epoch(t: &std::time::SystemTime) -> Result<
    std::time::Duration,
    std::time::SystemTimeError,
> {
    t.duration_since(std::time::UNIX_EPOCH)
}

/// `std::time::Duration::as_millis`: the whole milliseconds of a duration.
/// The duration is opaque here, so nothing is claimed of the number.
#[verifier::external_body]
fn duration_millis(d: &std::time::Duration) -> u128 {
    d.as_millis()
}

/// The current time in milliseconds since the Unix epoch, truncated to
/// 64 bits; 0 when the clock reads a time before the epoch.
pub fn now_millis() -> u64 {
    let t = system_time_now();
    match since_unix_epoch(&t) {
        Ok(d) => {
            let ms = duration_millis(&d);
            #[verifier::truncate]
            (ms as u64)
        },
        Err(_) => 0,
    }
}

} // verus!
