//! A chain held in memory, which answers the requests of a resolution.

use vstd::prelude::*;
use crate::config::SearchLimits;
use crate::laws::{
    fitting, law_failures, law_gaps_within_reach_do_not_mislead,
    law_resolved_slot_is_at_or_before_target, orderly,
};
use crate::probe::{
    lemma_probe_outcome, near, probe_outcome, probe_replies, probe_slots, select_best,
};
use crate::replay::{answered, lemma_answer_advances, resolution, run, tip};
use crate::resolver::{Phase, Request, Resolver};
use crate::timeline::{early, reply_at, time_at, Candidate, ResolveError, SlotReply};
use crate::walks::{
    is_rewind_result, is_scan_result, law_rewind_ends_at_or_before_target,
    law_scan_ends_on_highest_match,
};

verus! {

/// A simulated chain: `slots[s]` is what the chain answers for slot `s`, and
/// the last slot is the current one.
#[derive(Clone, Debug)]
pub struct SimChain {
    pub slots: Vec<SlotReply>,
}

impl View for SimChain {
    type V = Seq<SlotReply>;

    open spec fn view(&self) -> Seq<SlotReply> {
        self.slots@
    }
}

impl SimChain {
    /// A chain with these answers, slot 0 first.
    pub fn new(slots: Vec<SlotReply>) -> (chain: SimChain)
        ensures
            chain@ == slots@,
    {
        SimChain { slots }
    }

    /// The current slot, or `None` where the chain has no slot.
    pub fn current_slot(&self) -> (r: Option<u64>)
        ensures
            r == tip(self@),
    {
        let n: usize = self.slots.len();
        if n == 0 {
            None
        } else {
            Some((n - 1) as u64)
        }
    }

    /// What the chain answers for `slot`.
    pub fn block_time(&self, slot: u64) -> (r: SlotReply)
        ensures
            r == reply_at(self@, slot as int),
    {
        if slot < self.slots.len() as u64 {
            self.slots[slot as usize]
        } else {
            SlotReply::Absent
        }
    }

    /// What the chain answers for each of `slots`, in their order.
    pub fn block_times(&self, slots: &Vec<u64>) -> (r: Vec<SlotReply>)
        ensures
            r@ == Seq::new(slots@.len(), |i: int| reply_at(self@, slots@[i] as int)),
    {
        let mut replies: Vec<SlotReply> = Vec::new();
        let mut i: usize = 0;
        while i < slots.len()
            invariant
                i <= slots.len(),
                replies@ == Seq::new(i as nat, |k: int| reply_at(self@, slots@[k] as int)),
            decreases slots.len() - i,
        {
            replies.push(self.block_time(slots[i]));
            i = i + 1;
        }
        replies
    }

    /// Answers the request of `state` and gives the state that follows.
    pub fn answer(&self, state: Resolver) -> (next: Resolver)
        requires
            state.wf(),
        ensures
            next == answered(self@, state),
            next.wf(),
    {
        match state.next_request() {
            Request::CurrentSlot => state.on_current_slot(self.current_slot()),
            Request::BlockTime { slot, .. } => state.on_block_time(self.block_time(slot)),
            Request::Probe { center, width } => {
                let slots = probe_slots(center, width);
                let replies = self.block_times(&slots);
                assert(replies@ == probe_replies(self@, center, width));
                state.on_probe(&replies)
            },
            Request::Done(_) => state,
        }
    }

    /// Answers the requests of `state` until the resolution is over.
    pub fn finish(&self, state: Resolver) -> (r: Result<u64, ResolveError>)
        requires
            state.wf(),
        ensures
            r == run(self@, state),
    {
        let mut current = state;
        while !current.finished()
            invariant
                current.wf(),
                run(self@, current) == run(self@, state),
            decreases current.rank(), current.remaining(),
        {
            proof {
                lemma_answer_advances(self@, current);
            }
            current = self.answer(current);
        }
        match current.phase {
            Phase::Finished(result) => result,
            _ => Err(ResolveError::NotFound),
        }
    }

    /// Probes the neighbours of `center`, `width` slots to each side, and
    /// keeps the best of those with a block time.
    pub fn probe(&self, center: u64, target: i64, width: u64) -> (best: Option<Candidate>)
        ensures
            best == probe_outcome(self@, center, width, target),
            best is None <==> forall|s: int| near(center, width, s) ==> #[trigger] time_at(self@, s) is None,
            best matches Some(b) ==> {
                &&& near(center, width, b.slot as int)
                &&& time_at(self@, b.slot as int) == Some(b.time)
                &&& forall|s: int|
                    near(center, width, s) && #[trigger] time_at(self@, s) is Some ==> b.holds_against(
                        time_at(self@, s)->0,
                        target,
                    )
            },
    {
        proof {
            lemma_probe_outcome(self@, center, width, target);
            if let Some(b) = probe_outcome(self@, center, width, target) {
                assert(time_at(self@, b.slot as int) is Some);
            }
        }
        let slots = probe_slots(center, width);
        let replies = self.block_times(&slots);
        assert(replies@ == probe_replies(self@, center, width));
        select_best(&slots, &replies, target)
    }

    /// Scans at most `max_scan` slots above `start` for the highest slot
    /// with the block time `target`, and stops at the first slot after it.
    pub fn scan_highest(&self, start: u64, target: i64, max_scan: u64) -> (found: u64)
        ensures
            is_scan_result(self@, start, target, max_scan, found),
    {
        let limits = SearchLimits { probe_width: 0, scan_budget: max_scan };
        let slots: usize = self.slots.len();
        proof {
            assert(self@.len() == slots);
            law_scan_ends_on_highest_match(self@, start, target, limits);
        }
        match self.finish(Resolver::scanning(start, target, limits)) {
            Ok(found) => found,
            Err(_) => start,
        }
    }

    /// Walks down from `start` to the first slot at or before `target`.
    pub fn rewind(&self, start: u64, target: i64, limits: SearchLimits) -> (r: Result<u64, ResolveError>)
        ensures
            is_rewind_result(self@, start, target, limits.scan_budget, r),
    {
        let slots: usize = self.slots.len();
        proof {
            assert(self@.len() == slots);
            law_rewind_ends_at_or_before_target(self@, start, target, limits);
        }
        self.finish(Resolver::rewinding(start, target, limits))
    }

    /// Resolves `target` against the chain. The slot that comes out has a
    /// block time at or before the target; on an orderly chain it is a slot
    /// with the latest such time, and the highest match within the scan
    /// budget where a slot carries the target time itself.
    pub fn resolve(&self, target: i64, limits: SearchLimits) -> (r: Result<u64, ResolveError>)
        ensures
            r == resolution(self@, target, limits),
            r matches Ok(slot) ==> early(self@, slot as int, target),
            r == Err::<u64, ResolveError>(ResolveError::Upstream) <==> self@.len() == 0,
            r != Err::<u64, ResolveError>(ResolveError::InvalidInput),
            orderly(self@, limits) ==> fitting(self@, target, limits.scan_budget, r),
    {
        let slots: usize = self.slots.len();
        proof {
            assert(self@.len() == slots);
            law_resolved_slot_is_at_or_before_target(self@, target, limits);
            law_failures(self@, target, limits);
            if orderly(self@, limits) {
                law_gaps_within_reach_do_not_mislead(self@, target, limits);
            }
        }
        self.finish(Resolver { target, limits, phase: Phase::Bootstrap })
    }

    /// Resolves `target` against the chain, as asked at the wall-clock time
    /// `now`: a target after `now` is refused before the chain is asked.
    pub fn find_slot_at_or_before(&self, target: i64, now: i64, limits: SearchLimits) -> (r: Result<
        u64,
        ResolveError,
    >)
        ensures
            r == if target > now {
                Err::<u64, ResolveError>(ResolveError::InvalidInput)
            } else {
                resolution(self@, target, limits)
            },
    {
        match Resolver::begin(target, now, limits) {
            Ok(state) => self.finish(state),
            Err(e) => Err(e),
        }
    }
}

} // verus!
