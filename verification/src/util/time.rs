//! Time, as readings of a clock that never runs backwards, in milliseconds.

use vstd::prelude::*;

verus! {

/// The milliseconds from the reading `start_time` to the reading `now`; none
/// where `now` is the earlier of the two.
pub fn get_ms_since(start_time: u128, now: u128) -> (r: u128)
    ensures
        r == (if now >= start_time {
            now - start_time
        } else {
            0
        }),
{
    if now >= start_time {
        now - start_time
    } else {
        0
    }
}

} // verus!
