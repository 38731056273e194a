//! The pacing of the loop that reads the race off the screen.
use vstd::prelude::*;

verus! {

/// Seconds to wait before the next cycle, when a cycle should take
/// `cycle_time` seconds and this one took `elapsed`: what is left, or none.
/// (`elapsed` is narrowed to an `i32` the way `as` does.)
pub fn cycle_sleep_secs(cycle_time: i32, elapsed: u64) -> (r: u64)
    requires
        i32::MIN <= cycle_time - (elapsed as i32) <= i32::MAX,
    ensures
        r == if cycle_time - (elapsed as i32) > 0 {
            cycle_time - (elapsed as i32)
        } else {
            0
        },
{
    let e: i32 = elapsed as i32;
    let left: i32 = cycle_time - e;
    if left > 0 {
        left as u64
    } else {
        0
    }
}

} // verus!
