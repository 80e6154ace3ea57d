//! How long a node waits before it tries to reach the coordinator again.
use vstd::prelude::*;

verus! {

/// The first wait before reconnecting, in nanoseconds.
pub const BASE_RETRY_NANOS: u128 = 3_000_000_000;

/// The wait before the next attempt to connect, given the current wait and
/// how long the last attempt lasted (both in nanoseconds): an attempt that
/// outlasted the wait starts over from the first wait, otherwise the wait
/// doubles.
pub fn next_retry_wait(current: u128, elapsed: u128) -> (w: u128)
    requires
        elapsed > current || current * 2 <= u128::MAX,
    ensures
        w == if elapsed > current {
            BASE_RETRY_NANOS as int
        } else {
            current * 2
        },
{
    if elapsed > current {
        BASE_RETRY_NANOS
    } else {
        current * 2
    }
}

} // verus!
