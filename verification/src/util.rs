//! The host facilities the runtime needs from outside: the wall clock and
//! the system's randomness. Nothing can be promised about the values they
//! produce, so their contracts state only shape and range.

use rand::Rng;
use vstd::prelude::*;

verus! {

/// Relies on `std::time::SystemTime`: nanoseconds since the Unix epoch.
/// The reading is never negative: a clock before the epoch reads as zero,
/// and a reading too large for an `i64` saturates.
#[verifier::external_body]
pub fn epoch_ns() -> (r: i64)
    ensures
        0 <= r,
{
    match std::time::SystemTime::now().duration_since(std::time::UNIX_EPOCH) {
        Ok(d) => {
            let n = d.as_nanos();
            if n > i64::MAX as u128 {
                i64::MAX
            } else {
                n as i64
            }
        },
        Err(_) => 0,
    }
}

/// Relies on `std::time::SystemTime`: the wall time as whole seconds since
/// the Unix epoch and the nanoseconds within the current second, which by
/// `Duration`'s documentation are below one billion.
#[verifier::external_body]
pub fn walltime() -> (r: (i64, i32))
    ensures
        0 <= r.1 < 1_000_000_000,
{
    match std::time::SystemTime::now().duration_since(std::time::UNIX_EPOCH) {
        Ok(d) => (d.as_secs() as i64, d.subsec_nanos() as i32),
        Err(_) => (0, 0),
    }
}

/// Relies on `rand::thread_rng` and `Rng::fill`: fills the buffer with
/// bytes from the thread-local CSPRNG. Only the length is promised; the
/// contents depend on the generator's state.
#[verifier::external_body]
pub fn fill_random(buf: &mut Vec<u8>)
    ensures
        final(buf)@.len() == old(buf)@.len(),
{
    rand::thread_rng().fill(buf.as_mut_slice());
}

} // verus!
