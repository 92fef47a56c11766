//! The rule that picks the better of two timed slots for a target time.

use vstd::prelude::*;
use crate::timeline::Candidate;

verus! {

impl Candidate {
    /// How far the block time lies from the target, in seconds.
    pub open spec fn distance(self, target: i64) -> int {
        if self.time <= target {
            target - self.time
        } else {
            self.time - target
        }
    }

    /// `self` is strictly better than `other`: a time at or before the target
    /// beats any time after it, and on the same side the nearer time wins.
    pub open spec fn beats(self, other: Candidate, target: i64) -> bool {
        if self.time <= target {
            other.time > target || self.distance(target) < other.distance(target)
        } else {
            other.time > target && self.distance(target) < other.distance(target)
        }
    }

    /// `self` is at least as good as a slot with block time `time`.
    pub open spec fn holds_against(self, time: i64, target: i64) -> bool {
        !(Candidate { slot: 0, time }).beats(self, target)
    }

    pub fn is_better_than(self, other: Candidate, target: i64) -> (r: bool)
        ensures
            r == self.beats(other, target),
    {
        if self.time <= target {
            other.time > target || self.time > other.time
        } else {
            other.time > target && self.time < other.time
        }
    }
}

/// The candidate to keep once `candidate` has been seen: `candidate` where it
/// beats `current`, else `current`.
pub open spec fn better_of(current: Option<Candidate>, candidate: Candidate, target: i64) -> Candidate {
    match current {
        Some(c) => if candidate.beats(c, target) {
            candidate
        } else {
            c
        },
        None => candidate,
    }
}

pub fn choose_better(current: Option<Candidate>, candidate: Candidate, target: i64) -> (r: Candidate)
    ensures
        r == better_of(current, candidate, target),
{
    match current {
        Some(c) => {
            if candidate.is_better_than(c, target) {
                candidate
            } else {
                c
            }
        },
        None => candidate,
    }
}

} // verus!
