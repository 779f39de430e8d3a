//! Map-prop time-of-day visual state: the five time-of-day buckets fold
//! into four animation slots, and once per frame the stored bucket is
//! compared with the game's current one; on any change the props swap
//! the old bucket's slot for the new one's.
//!
//! Because the comparison is on the bucket, the midnight night-to-late
//! edge fires a swap whose two slots are the same (3 to 3): visually a
//! no-op. The state machine reports that edge like any other and lets
//! the caller ask whether the slot actually moved.

use vstd::prelude::*;

use crate::rtc::TimeOfDay;

verus! {

/// The number of animation slots a time-of-day prop carries.
pub const VISUAL_STATES: usize = 4;

/// The slot a bucket shows: morning 0, day 1, evening 2, night and
/// late night 3.
pub open spec fn spec_visual_state(t: TimeOfDay) -> u8 {
    match t {
        TimeOfDay::Morn => 0,
        TimeOfDay::Day => 1,
        TimeOfDay::Eve => 2,
        TimeOfDay::Nite => 3,
        TimeOfDay::Late => 3,
    }
}

/// The slot a bucket shows: morning 0, day 1, evening 2, night and
/// late night 3.
pub fn visual_state(time_of_day: TimeOfDay) -> (res: u8)
    ensures
        res == spec_visual_state(time_of_day),
        res < VISUAL_STATES,
{
    match time_of_day {
        TimeOfDay::Morn => 0,
        TimeOfDay::Day => 1,
        TimeOfDay::Eve => 2,
        TimeOfDay::Nite | TimeOfDay::Late => 3,
    }
}

/// One bucket edge: the bucket before and after.
#[derive(Debug, Clone, Copy, PartialEq, Eq, Hash, Structural)]
pub struct BucketChange {
    /// The bucket the state held before the edge.
    pub previous: TimeOfDay,
    /// The bucket it holds now.
    pub current: TimeOfDay,
}

impl BucketChange {
    /// The slot removed from every registered prop.
    pub fn previous_slot(&self) -> (res: u8)
        ensures
            res == spec_visual_state(self.previous),
    {
        visual_state(self.previous)
    }

    /// The slot added to every registered prop.
    pub fn slot(&self) -> (res: u8)
        ensures
            res == spec_visual_state(self.current),
    {
        visual_state(self.current)
    }

    /// Whether the props actually show something new: false on the
    /// midnight night-to-late edge.
    pub fn slot_changed(&self) -> (res: bool)
        ensures
            res == (spec_visual_state(self.previous) != spec_visual_state(self.current)),
    {
        self.previous_slot() != self.slot()
    }
}

/// The stored bucket and its per-frame comparison.
#[derive(Debug, Clone, Copy, PartialEq, Eq, Hash)]
pub struct TimeOfDayState {
    current: TimeOfDay,
}

impl TimeOfDayState {
    /// The stored bucket.
    pub closed spec fn spec_current(self) -> TimeOfDay {
        self.current
    }

    /// The state as the field creates it: the bucket in force at map
    /// load.
    pub fn new(initial: TimeOfDay) -> (res: Self)
        ensures
            res.spec_current() == initial,
    {
        TimeOfDayState { current: initial }
    }

    /// The bucket the props currently show.
    pub fn current(&self) -> (res: TimeOfDay)
        ensures
            res == self.spec_current(),
    {
        self.current
    }

    /// The slot the props currently show.
    pub fn visual_state(&self) -> (res: u8)
        ensures
            res == spec_visual_state(self.spec_current()),
    {
        visual_state(self.current)
    }

    /// Once per field frame with the game's current bucket: `Some` (and
    /// the stored bucket replaced) exactly when it differs from the
    /// stored one.
    pub fn update(&mut self, now: TimeOfDay) -> (res: Option<BucketChange>)
        ensures
            final(self).spec_current() == now,
            now == old(self).spec_current() ==> res is None,
            now != old(self).spec_current() ==> res == Some(
                BucketChange { previous: old(self).spec_current(), current: now },
            ),
    {
        if now == self.current {
            return None;
        }
        let change = BucketChange { previous: self.current, current: now };
        self.current = now;
        Some(change)
    }
}

} // verus!
