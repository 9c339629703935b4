use vstd::prelude::*;

verus! {

/// One stretch of tracked work: when it started and how long it lasted, in seconds.
#[derive(Clone, Copy, Debug, PartialEq, Eq)]
pub struct TrackerSession {
    pub start_time: i64,
    pub duration: i64,
}

impl TrackerSession {
    pub fn new(start_time: i64, duration: i64) -> (session: Self)
        ensures
            session.start_time == start_time,
            session.duration == duration,
    {
        Self { start_time, duration }
    }
}

} // verus!
