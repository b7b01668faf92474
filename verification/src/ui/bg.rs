//! The busy indicator: background work counts as busy once it has been in
//! flight for a while, so sub-frame store operations do not flash it.

use vstd::prelude::*;

verus! {

/// Whether the indicator shows, given `pending` jobs in flight, the time
/// `since` the count last left zero, the time `now` and the `delay`, all in
/// milliseconds of a monotonic clock. With no job pending the start time is
/// forgotten; otherwise it is set to `now` if unset, and the indicator shows
/// once at least `delay` has passed since it (a clock read before the start
/// counts as no time passed).
pub fn busy(delay: u64, pending: usize, since: &mut Option<u64>, now: u64) -> (b: bool)
    ensures
        pending == 0 ==> !b && *final(since) == None::<u64>,
        pending > 0 ==> ({
            let start = match *old(since) {
                Some(s) => s,
                None => now,
            };
            &&& *final(since) == Some(start)
            &&& b == ((if now >= start { now - start } else { 0 }) >= delay)
        }),
{
    if pending == 0 {
        *since = None;
        return false;
    }
    let start = match *since {
        Some(s) => s,
        None => now,
    };
    *since = Some(start);
    let elapsed = if now >= start { now - start } else { 0 };
    elapsed >= delay
}

} // verus!
