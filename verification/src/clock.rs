//! The wall clock, read through the standard library.

use vstd::prelude::*;
use vstd::string::*;

verus! {

/// An instant of the system clock.
#[verifier::external_type_specification]
#[verifier::external_body]
pub struct ExSystemTime(std::time::SystemTime);

/// The failure of a clock that stands before the epoch.
#[verifier::external_type_specification]
#[verifier::external_body]
pub struct ExSystemTimeError(std::time::SystemTimeError);

/// `std::time::SystemTime::now`: the present instant. Nothing is claimed of it.
#[verifier::external_body]
pub(crate) fn system_now() -> (t: std::time::SystemTime) {
    std::time::SystemTime::now()
}

/// `std::time::SystemTime::duration_since`, measured from `UNIX_EPOCH`: the
/// time that has passed since the epoch, or the failure of a clock that
/// stands before it. Nothing is claimed of either.
#[verifier::external_body]
pub(crate) fn since_epoch(t: &std::time::SystemTime) -> (r: Result<
    std::time::Duration,
    std::time::SystemTimeError,
>) {
    t.duration_since(std::time::UNIX_EPOCH)
}

/// `std::time::Duration::as_secs`: the whole seconds of a duration.
#[verifier::external_body]
pub(crate) fn whole_seconds(d: &std::time::Duration) -> (secs: u64) {
    d.as_secs()
}

/// `std::time::Duration::as_millis`: the whole milliseconds of a duration.
#[verifier::external_body]
pub(crate) fn whole_millis(d: &std::time::Duration) -> (millis: u128) {
    d.as_millis()
}

/// `ToString::to_string` on the clock's failure: its description.
#[verifier::external_body]
pub(crate) fn clock_failure_text(e: &std::time::SystemTimeError) -> (text: String) {
    e.to_string()
}

/// The present time in whole seconds since the epoch, or why it cannot be had.
pub(crate) fn unix_now_seconds() -> (r: Result<i64, String>)
    ensures
        r is Ok ==> r->Ok_0 >= 0,
{
    let t = system_now();
    match since_epoch(&t) {
        Ok(d) => {
            let secs = whole_seconds(&d);
            if secs <= 0x7fff_ffff_ffff_ffff {
                Ok(secs as i64)
            } else {
                Err(String::from_str("clock out of range"))
            }
        },
        Err(e) => Err(clock_failure_text(&e)),
    }
}

/// The present time in whole milliseconds since the epoch, or why it cannot be had.
pub(crate) fn unix_now_millis() -> (r: Result<u64, String>) {
    let t = system_now();
    match since_epoch(&t) {
        Ok(d) => {
            let ms = whole_millis(&d);
            if ms <= 0xffff_ffff_ffff_ffff {
                Ok(ms as u64)
            } else {
                Err(String::from_str("clock out of range"))
            }
        },
        Err(e) => Err(clock_failure_text(&e)),
    }
}

} // verus!
