//! The data that a resolution works on: slots, block times, and the chain
//! as a sequence of per-slot answers.

use vstd::prelude::*;

verus! {

/// What the chain says when asked for the block time of one slot.
#[derive(Clone, Copy, Debug, PartialEq, Eq, Structural)]
pub enum SlotReply {
    /// The slot holds a block with this time, in epoch seconds.
    Time(i64),
    /// The slot was skipped, or its block is not available.
    Absent,
    /// The query itself failed.
    Failed,
}

/// Why a resolution ended without a slot.
#[derive(Clone, Copy, Debug, PartialEq, Eq, Structural)]
pub enum ResolveError {
    /// The chain could not be asked: the current slot or the block of the
    /// resolved slot was not to be had.
    Upstream,
    /// No slot at or before the target time was found.
    NotFound,
    /// The target time lies in the future.
    InvalidInput,
}

/// A slot seen with its block time.
#[derive(Clone, Copy, Debug, PartialEq, Eq, Structural)]
pub struct Candidate {
    pub slot: u64,
    pub time: i64,
}

impl SlotReply {
    /// The block time, where the reply carries one.
    pub open spec fn time(self) -> Option<i64> {
        match self {
            SlotReply::Time(t) => Some(t),
            _ => None,
        }
    }

    pub fn block_time(self) -> (r: Option<i64>)
        ensures
            r == self.time(),
    {
        match self {
            SlotReply::Time(t) => Some(t),
            _ => None,
        }
    }
}

impl Candidate {
    /// Block time minus target: negative before the target, zero on it.
    pub open spec fn diff(self, target: i64) -> int {
        self.time - target
    }

    pub fn time_diff(self, target: i64) -> (d: i128)
        ensures
            d == self.diff(target),
    {
        self.time as i128 - target as i128
    }
}

/// The answer of `chain` for `slot`: slots past its end are absent.
pub open spec fn reply_at(chain: Seq<SlotReply>, slot: int) -> SlotReply {
    if 0 <= slot < chain.len() {
        chain[slot]
    } else {
        SlotReply::Absent
    }
}

/// The block time of `slot` in `chain`, if it has one.
pub open spec fn time_at(chain: Seq<SlotReply>, slot: int) -> Option<i64> {
    reply_at(chain, slot).time()
}

/// `slot` has a block time at or before `target`.
pub open spec fn early(chain: Seq<SlotReply>, slot: int, target: i64) -> bool {
    time_at(chain, slot) matches Some(t) && t <= target
}

/// `slot` carries exactly the block time `target`.
pub open spec fn exact(chain: Seq<SlotReply>, slot: int, target: i64) -> bool {
    time_at(chain, slot) == Some(target)
}

/// `slot` has a block time after `target`.
pub open spec fn late(chain: Seq<SlotReply>, slot: int, target: i64) -> bool {
    time_at(chain, slot) matches Some(t) && t > target
}

/// Block times never go down as slots go up.
pub open spec fn non_decreasing(chain: Seq<SlotReply>) -> bool {
    forall|a: int, b: int|
        0 <= a <= b < chain.len() && time_at(chain, a) is Some && time_at(chain, b) is Some
            ==> time_at(chain, a)->0 <= time_at(chain, b)->0
}

/// Block times go up with every timed slot.
pub open spec fn strictly_increasing(chain: Seq<SlotReply>) -> bool {
    forall|a: int, b: int|
        0 <= a < b < chain.len() && time_at(chain, a) is Some && time_at(chain, b) is Some
            ==> time_at(chain, a)->0 < time_at(chain, b)->0
}

/// No query against the chain fails.
pub open spec fn reliable(chain: Seq<SlotReply>) -> bool {
    forall|s: int| 0 <= s < chain.len() ==> !(#[trigger] chain[s] is Failed)
}

/// Every slot without a block time has a timed slot at most `width` away.
pub open spec fn gaps_within(chain: Seq<SlotReply>, width: int) -> bool {
    forall|m: int|
        0 <= m < chain.len() && #[trigger] time_at(chain, m) is None ==> exists|s: int|
            m - width <= s <= m + width && s != m && #[trigger] time_at(chain, s) is Some
}

/// Some slot from `first` to `last` has a block time.
pub open spec fn timed_between(chain: Seq<SlotReply>, first: int, last: int) -> bool {
    exists|s: int| first <= s <= last && #[trigger] time_at(chain, s) is Some
}

/// Some slot has a block time, and no run of slots without one is longer
/// than `width`.
pub open spec fn gaps_at_most(chain: Seq<SlotReply>, width: int) -> bool {
    &&& timed_between(chain, 0, chain.len() - 1)
    &&& forall|first: int|
        0 <= first && first + width < chain.len() ==> #[trigger] timed_between(chain, first, first + width)
}

/// Where no run of slots without a block time is longer than `width`, every
/// such slot has a timed slot at most `width` away.
pub proof fn lemma_short_gaps_are_within_reach(chain: Seq<SlotReply>, width: int)
    requires
        0 <= width,
        gaps_at_most(chain, width),
    ensures
        gaps_within(chain, width),
{
    assert forall|m: int| 0 <= m < chain.len() && #[trigger] time_at(chain, m) is None implies exists|s: int|
        m - width <= s <= m + width && s != m && #[trigger] time_at(chain, s) is Some by {
        if chain.len() > width {
            let first = if m <= chain.len() - 1 - width {
                m
            } else {
                chain.len() - 1 - width
            };
            assert(timed_between(chain, first, first + width));
            let s = choose|s: int| first <= s <= first + width && #[trigger] time_at(chain, s) is Some;
            assert(m - width <= s <= m + width && s != m && time_at(chain, s) is Some);
        } else {
            let s = choose|s: int| 0 <= s <= chain.len() - 1 && #[trigger] time_at(chain, s) is Some;
            assert(m - width <= s <= m + width && s != m && time_at(chain, s) is Some);
        }
    }
}

} // verus!
