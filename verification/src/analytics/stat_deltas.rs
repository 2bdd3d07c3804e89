use vstd::prelude::*;

verus! {

/// The prior-day snapshot that today's snapshot is diffed against:
/// yesterday's, when both days have a snapshot, and none when either is
/// missing, so that a missing day (a cold start included) never yields a
/// "vs yesterday" delta.
pub fn prior_day_snapshot<T>(today: &Option<T>, yesterday: Option<T>) -> (prior: Option<T>)
    ensures
        prior == (if today is Some {
            yesterday
        } else {
            None
        }),
{
    match today {
        Some(_) => yesterday,
        None => None,
    }
}

} // verus!
