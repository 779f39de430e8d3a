//! The real-time clock's time-of-day buckets.

use vstd::prelude::*;

verus! {

/// The five time-of-day buckets, in index order.
#[derive(Debug, Clone, Copy, PartialEq, Eq, Hash, Structural)]
pub enum TimeOfDay {
    /// Morning (0).
    Morn,
    /// Day (1).
    Day,
    /// Evening (2).
    Eve,
    /// Night (3).
    Nite,
    /// Late night (4).
    Late,
}

/// The bucket with index `i`, if any.
pub open spec fn time_of_day_of(i: int) -> Option<TimeOfDay> {
    if i == 0 {
        Some(TimeOfDay::Morn)
    } else if i == 1 {
        Some(TimeOfDay::Day)
    } else if i == 2 {
        Some(TimeOfDay::Eve)
    } else if i == 3 {
        Some(TimeOfDay::Nite)
    } else if i == 4 {
        Some(TimeOfDay::Late)
    } else {
        None
    }
}

impl TimeOfDay {
    /// The number of buckets.
    pub const COUNT: usize = 5;

    /// The bucket with index `index`, `None` past 4.
    pub fn from_index(index: usize) -> (res: Option<Self>)
        ensures
            res == time_of_day_of(index as int),
    {
        match index {
            0 => Some(TimeOfDay::Morn),
            1 => Some(TimeOfDay::Day),
            2 => Some(TimeOfDay::Eve),
            3 => Some(TimeOfDay::Nite),
            4 => Some(TimeOfDay::Late),
            _ => None,
        }
    }
}

} // verus!
