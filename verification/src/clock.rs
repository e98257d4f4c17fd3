//! Wall-clock reading and expiration arithmetic. The clock itself is read
//! through a trusted wrapper; everything that depends on the reading takes
//! the instant as an explicit argument, so the logic is verified for every
//! possible reading.

use vstd::prelude::*;

verus! {

/// Milliseconds since the Unix epoch, as reported by the system clock.
///
/// Relies on `std::time::SystemTime::now` and
/// `SystemTime::duration_since(UNIX_EPOCH)`: the current instant, converted
/// to whole milliseconds. The reading is nondeterministic, so nothing is
/// promised of the value; callers state what holds for every reading.
#[verifier::external_body]
pub fn get_timestamp() -> u128 {
    std::time::SystemTime::now()
        .duration_since(std::time::SystemTime::UNIX_EPOCH)
        .unwrap()
        .as_millis()
}

/// The absolute instant at which an entry written at `now` with time-to-live
/// `ttl` (both in milliseconds) stops being alive.
pub fn calc_expiration(now: u128, ttl: u128) -> (r: u128)
    requires
        now + ttl <= u128::MAX,
    ensures
        r == now + ttl,
{
    now + ttl
}

} // verus!
