//! The default u.RECS firmware, whose node report carries the time of its last
//! sensor update: a report is recorded only when that time has changed.
use vstd::prelude::*;

verus! {

/// The sensor update to record for a report stamped `reported`, where `last` is the
/// update recorded last (0 before the first): none when the stamp is unchanged.
pub fn next_sensor_update(last: usize, reported: usize) -> (r: Option<usize>)
    ensures
        r == (if reported != last {
            Some(reported)
        } else {
            None::<usize>
        }),
{
    if reported != last {
        Some(reported)
    } else {
        None
    }
}

} // verus!
