use vstd::prelude::*;

verus! {

/// The time tracked on one day, counted back from the present.
#[derive(Clone, Copy, Debug, PartialEq, Eq)]
pub struct Day {
    pub day_index: usize,
    pub time: i64,
}

impl Day {
    pub fn new(day_index: usize, time: i64) -> (day: Self)
        ensures
            day.day_index == day_index,
            day.time == time,
    {
        Self { day_index, time }
    }
}

} // verus!
