//! The parts of std the library hands values through: wall-clock time and I/O errors.
use crate::Timestamp;
use std::time::{SystemTime, UNIX_EPOCH};
use vstd::prelude::*;

verus! {

#[verifier::external_type_specification]
#[verifier::external_body]
pub struct ExSystemTime(SystemTime);

#[verifier::external_type_specification]
#[verifier::external_body]
pub struct ExIoError(std::io::Error);

/// Relies on `SystemTime::duration_since(UNIX_EPOCH)`: the time since the epoch as
/// whole seconds and the nanoseconds beyond them, which are fewer than a billion;
/// for a time before the epoch, the error's message.
#[verifier::external_body]
pub(crate) fn since_epoch(t: &SystemTime) -> (r: Result<Timestamp, String>)
    ensures
        r is Ok ==> r->Ok_0.nanos < 1_000_000_000,
{
    match t.duration_since(UNIX_EPOCH) {
        Ok(d) => Ok(Timestamp { secs: d.as_secs(), nanos: d.subsec_nanos() }),
        Err(e) => Err(e.to_string()),
    }
}

/// Relies on `SystemTime::now`: the current wall-clock time.
#[verifier::external_body]
pub(crate) fn now() -> (r: SystemTime) {
    SystemTime::now()
}

} // verus!
