//! What holds of every resolution against a chain.

use vstd::prelude::*;
use crate::config::SearchLimits;
use crate::probe::{lemma_probe_outcome, near, probe_outcome};
use crate::replay::{answered, lemma_answer_advances, resolution, run, tip};
use crate::resolver::{Phase, Resolver, SearchWindow};
use crate::tiebreak::better_of;
use crate::timeline::{
    early, exact, gaps_at_most, gaps_within, lemma_short_gaps_are_within_reach, non_decreasing,
    reliable, strictly_increasing, time_at, Candidate, ResolveError, SlotReply,
};

verus! {

/// The state in which `state` ends on `chain`.
pub open spec fn final_state(chain: Seq<SlotReply>, state: Resolver) -> Resolver {
    state.moved_to(Phase::Finished(run(chain, state)))
}

/// Induction along a run: what holds of a state, and is kept by every answer
/// of the chain, holds of the state in which the run ends.
pub proof fn lemma_run_keeps(chain: Seq<SlotReply>, state: Resolver, inv: spec_fn(Resolver) -> bool)
    requires
        state.wf(),
        inv(state),
        forall|s: Resolver| s.wf() && !s.is_finished() && #[trigger] inv(s) ==> inv(answered(chain, s)),
    ensures
        inv(final_state(chain, state)),
    decreases state.rank(), state.remaining(),
{
    if state.is_finished() {
        assert(final_state(chain, state) == state);
    } else {
        lemma_answer_advances(chain, state);
        lemma_run_keeps(chain, answered(chain, state), inv);
        assert(final_state(chain, answered(chain, state)) == final_state(chain, state));
    }
}

/// `slot` has a block time on `chain`, and it is `time`.
pub open spec fn observed(chain: Seq<SlotReply>, slot: u64, time: i64) -> bool {
    time_at(chain, slot as int) == Some(time)
}

/// What a state knows of the chain is true of it: the best candidate has the
/// block time it was seen with, a scan stands on a slot with the target time,
/// and a slot that the resolution ended on is at or before the target.
pub open spec fn truthful(chain: Seq<SlotReply>, state: Resolver) -> bool {
    match state.phase {
        Phase::Searching { best, .. } => best matches Some(b) ==> observed(chain, b.slot, b.time),
        Phase::Probing { best, .. } => best matches Some(b) ==> observed(chain, b.slot, b.time),
        Phase::Scanning { highest, .. } => observed(chain, highest, state.target),
        Phase::Finished(Ok(slot)) => time_at(chain, slot as int) matches Some(t) && t <= state.target,
        _ => true,
    }
}

/// Every answer of the chain keeps a state truthful.
pub proof fn lemma_truthful_step(chain: Seq<SlotReply>, state: Resolver)
    requires
        state.wf(),
        !state.is_finished(),
        truthful(chain, state),
    ensures
        truthful(chain, answered(chain, state)),
{
    if let Phase::Probing { window, .. } = state.phase {
        lemma_probe_outcome(chain, window.mid(), state.limits.probe_width, state.target);
    }
}

/// The slot that a target resolves to has a block time, and that time is at
/// or before the target: on every chain, whatever its gaps and its order.
pub proof fn law_resolved_slot_is_at_or_before_target(chain: Seq<SlotReply>, target: i64, limits: SearchLimits)
    ensures
        resolution(chain, target, limits) matches Ok(slot) ==> time_at(chain, slot as int) matches Some(t)
            && t <= target,
{
    let start = Resolver::initial(target, limits);
    let inv = |s: Resolver| truthful(chain, s);
    assert forall|s: Resolver| s.wf() && !s.is_finished() && #[trigger] inv(s) implies inv(
        answered(chain, s),
    ) by {
        lemma_truthful_step(chain, s);
    }
    lemma_run_keeps(chain, start, inv);
}

/// The chains on which the search is at home: there is a current slot, block
/// times never go down, no query fails, and every slot without a block time
/// has a timed slot within the reach of a probe.
pub open spec fn orderly(chain: Seq<SlotReply>, limits: SearchLimits) -> bool {
    &&& 0 < chain.len() <= u64::MAX
    &&& non_decreasing(chain)
    &&& reliable(chain)
    &&& gaps_within(chain, limits.probe_width as int)
}

/// The best candidate lies before the target and is no earlier than `slot`.
pub open spec fn dominated(chain: Seq<SlotReply>, slot: int, target: i64, best: Option<Candidate>) -> bool {
    best matches Some(b) && b.time < target && time_at(chain, slot)->0 <= b.time
}

/// The best candidate was seen on the chain, off the target.
pub open spec fn known(chain: Seq<SlotReply>, target: i64, best: Option<Candidate>) -> bool {
    best matches Some(b) ==> observed(chain, b.slot, b.time) && b.time != target
}

/// Every slot at or before the target is still in the window `low..=high`,
/// or the best candidate is no earlier than it.
pub open spec fn covers(chain: Seq<SlotReply>, target: i64, low: int, high: int, best: Option<Candidate>) -> bool {
    forall|s: int| #[trigger]
        early(chain, s, target) ==> (low <= s <= high) || dominated(chain, s, target, best)
}

/// No slot has a block time at or before the target.
pub open spec fn nothing_early(chain: Seq<SlotReply>, target: i64) -> bool {
    forall|s: int| !#[trigger] early(chain, s, target)
}

/// `slot` is the highest slot with the block time `target` among the slots
/// that a scan of `budget` slots reaches from some slot `m` with that time.
pub open spec fn highest_within_budget(chain: Seq<SlotReply>, target: i64, budget: u64, slot: u64) -> bool {
    exists|m: int|
        0 <= m <= slot <= m + budget && #[trigger] exact(chain, m, target) && forall|s: int|
            slot < s <= m + budget ==> !#[trigger] exact(chain, s, target)
}

/// The result that an orderly chain owes: a slot with the latest block time
/// at or before the target, which on an exact match is the highest such slot
/// within the scan budget; and no slot only where none is at or before the
/// target.
pub open spec fn fitting(chain: Seq<SlotReply>, target: i64, budget: u64, result: Result<u64, ResolveError>) -> bool {
    match result {
        Ok(slot) => {
            &&& time_at(chain, slot as int) matches Some(t) && t <= target
            &&& forall|s: int| #[trigger]
                early(chain, s, target) ==> time_at(chain, s)->0 <= time_at(chain, slot as int)->0
            &&& exact(chain, slot as int, target) ==> highest_within_budget(chain, target, budget, slot)
        },
        Err(ResolveError::NotFound) => nothing_early(chain, target),
        Err(_) => false,
    }
}

/// The invariant of a search on an orderly chain.
pub open spec fn on_course(chain: Seq<SlotReply>, state: Resolver) -> bool {
    match state.phase {
        Phase::Bootstrap => true,
        Phase::Searching { window, best } => {
            &&& window.high < chain.len()
            &&& known(chain, state.target, best)
            &&& covers(chain, state.target, window.low as int, window.high as int, best)
        },
        Phase::Probing { window, best } => {
            &&& window.high < chain.len()
            &&& known(chain, state.target, best)
            &&& covers(chain, state.target, window.low as int, window.high as int, best)
            &&& time_at(chain, window.mid() as int) is None
        },
        Phase::Scanning { start, highest, scanned } => {
            &&& exact(chain, start as int, state.target)
            &&& exact(chain, highest as int, state.target)
            &&& forall|s: int| highest < s <= start + scanned ==> !#[trigger] exact(chain, s, state.target)
        },
        Phase::Rewinding { .. } => nothing_early(chain, state.target),
        Phase::Finished(result) => fitting(chain, state.target, state.limits.scan_budget, result),
    }
}

/// On a chain whose block times never go down, a lower timed slot has no
/// later block time than a higher one.
proof fn lemma_in_order(chain: Seq<SlotReply>, a: int, b: int)
    requires
        non_decreasing(chain),
        a <= b,
        time_at(chain, a) is Some,
        time_at(chain, b) is Some,
    ensures
        time_at(chain, a)->0 <= time_at(chain, b)->0,
{
}

/// A scan that has seen no higher match than `highest` in its first
/// `scanned` slots is on course, whether it goes on or ends there.
proof fn lemma_scan_on(chain: Seq<SlotReply>, state: Resolver, start: u64, highest: u64, scanned: int)
    requires
        chain.len() <= u64::MAX,
        exact(chain, start as int, state.target),
        exact(chain, highest as int, state.target),
        start <= highest <= start + scanned,
        0 <= scanned <= state.limits.scan_budget,
        forall|s: int| highest < s <= start + scanned ==> !#[trigger] exact(chain, s, state.target),
    ensures
        on_course(chain, state.scan_on(start, highest, scanned)),
{
    let next = state.scan_on(start, highest, scanned);
    if next.phase is Finished {
        let budget = state.limits.scan_budget;
        assert forall|s: int| highest < s <= start + budget implies !#[trigger] exact(
            chain,
            s,
            state.target,
        ) by {
            if s > start + scanned {
                assert(s > u64::MAX);
            }
        }
        assert(exact(chain, start as int, state.target));
        assert(highest_within_budget(chain, state.target, budget, highest));
    }
}

/// A window that is used up leaves the search on course.
proof fn lemma_concluded(chain: Seq<SlotReply>, state: Resolver, best: Option<Candidate>)
    requires
        chain.len() <= u64::MAX,
        known(chain, state.target, best),
        covers(chain, state.target, 1, 0, best),
    ensures
        on_course(chain, state.concluded(best)),
{
    let target = state.target;
    match best {
        None => {
            assert forall|s: int| !#[trigger] early(chain, s, target) by {
                if early(chain, s, target) {
                    assert(dominated(chain, s, target, best));
                }
            }
        },
        Some(b) => {
            if b.time > target {
                assert forall|s: int| !#[trigger] early(chain, s, target) by {
                    if early(chain, s, target) {
                        assert(dominated(chain, s, target, best));
                    }
                }
            } else {
                assert forall|s: int| #[trigger] early(chain, s, target) implies time_at(chain, s)->0
                    <= b.time by {
                    assert(dominated(chain, s, target, best));
                }
            }
        },
    }
}

/// Raising the window past `pivot` keeps the search on course, where every
/// slot at or before the target up to `pivot` is covered by the best
/// candidate.
proof fn lemma_raised(
    chain: Seq<SlotReply>,
    state: Resolver,
    window: SearchWindow,
    pivot: u64,
    best: Option<Candidate>,
)
    requires
        chain.len() <= u64::MAX,
        window.high < chain.len(),
        window.low <= pivot,
        known(chain, state.target, best),
        covers(chain, state.target, pivot + 1, window.high as int, best),
    ensures
        on_course(chain, state.raised(window, pivot, best)),
{
    if window.above(pivot) is None {
        assert(covers(chain, state.target, 1, 0, best)) by {
            assert forall|s: int| #[trigger] early(chain, s, state.target) implies dominated(
                chain,
                s,
                state.target,
                best,
            ) by {}
        }
        lemma_concluded(chain, state, best);
    }
}

/// Lowering the window below `pivot` keeps the search on course, where no
/// slot at or before the target lies at or above `pivot` uncovered.
proof fn lemma_lowered(
    chain: Seq<SlotReply>,
    state: Resolver,
    window: SearchWindow,
    pivot: u64,
    best: Option<Candidate>,
)
    requires
        chain.len() <= u64::MAX,
        window.high < chain.len(),
        pivot <= window.high,
        known(chain, state.target, best),
        covers(chain, state.target, window.low as int, pivot - 1, best),
    ensures
        on_course(chain, state.lowered(window, pivot, best)),
{
    if window.below(pivot) is None {
        assert(covers(chain, state.target, 1, 0, best)) by {
            assert forall|s: int| #[trigger] early(chain, s, state.target) implies dominated(
                chain,
                s,
                state.target,
                best,
            ) by {}
        }
        lemma_concluded(chain, state, best);
    }
}

/// A timed slot off the target, seen while the search was in `window`,
/// keeps the search on course: it must be no worse than any timed slot
/// between itself and the middle of the window.
proof fn lemma_narrowed(
    chain: Seq<SlotReply>,
    state: Resolver,
    window: SearchWindow,
    best: Option<Candidate>,
    seen: Candidate,
)
    requires
        chain.len() <= u64::MAX,
        non_decreasing(chain),
        window.wf(),
        window.high < chain.len(),
        known(chain, state.target, best),
        covers(chain, state.target, window.low as int, window.high as int, best),
        observed(chain, seen.slot, seen.time),
        seen.time != state.target,
        forall|s: int|
            (seen.slot <= s <= window.mid() || window.mid() <= s <= seen.slot) && s != seen.slot
                && #[trigger] time_at(chain, s) is Some ==> seen.holds_against(
                time_at(chain, s)->0,
                state.target,
            ),
    ensures
        on_course(chain, state.narrowed(window, best, seen)),
{
    let target = state.target;
    let mid = window.mid();
    let kept = Some(better_of(best, seen, target));
    if seen.time < target {
        let pivot: u64 = if seen.slot > mid {
            seen.slot
        } else {
            mid
        };
        assert forall|s: int| #[trigger] early(chain, s, target) implies (pivot + 1 <= s <= window.high)
            || dominated(chain, s, target, kept) by {
            if dominated(chain, s, target, best) {
            } else if s <= pivot {
                if s <= seen.slot {
                    lemma_in_order(chain, s, seen.slot as int);
                } else {
                    assert(seen.holds_against(time_at(chain, s)->0, target));
                }
            }
        }
        lemma_raised(chain, state, window, pivot, kept);
    } else {
        let pivot: u64 = if seen.slot < mid {
            seen.slot
        } else {
            mid
        };
        assert forall|s: int| #[trigger] early(chain, s, target) implies (window.low <= s <= pivot - 1)
            || dominated(chain, s, target, kept) by {
            if dominated(chain, s, target, best) {
            } else if s >= pivot {
                if s >= seen.slot {
                    lemma_in_order(chain, seen.slot as int, s);
                } else {
                    assert(seen.holds_against(time_at(chain, s)->0, target));
                }
            }
        }
        lemma_lowered(chain, state, window, pivot, kept);
    }
}

/// On an orderly chain every answer keeps the search on course.
pub proof fn lemma_on_course_step(chain: Seq<SlotReply>, state: Resolver)
    requires
        orderly(chain, state.limits),
        state.wf(),
        !state.is_finished(),
        on_course(chain, state),
    ensures
        on_course(chain, answered(chain, state)),
{
    let target = state.target;
    match state.phase {
        Phase::Bootstrap => {
            assert(covers(chain, target, 0, chain.len() - 1, None));
        },
        Phase::Searching { window, best } => {
            let mid = window.mid();
            match time_at(chain, mid as int) {
                Some(t) => {
                    if t == target {
                        lemma_scan_on(chain, state, mid, mid, 0);
                    } else {
                        lemma_narrowed(chain, state, window, best, Candidate { slot: mid, time: t });
                    }
                },
                None => {
                    assert(chain[mid as int] is Absent);
                },
            }
        },
        Phase::Probing { window, best } => {
            let mid = window.mid();
            let width = state.limits.probe_width;
            lemma_probe_outcome(chain, mid, width, target);
            match probe_outcome(chain, mid, width, target) {
                Some(found) => {
                    if found.time == target {
                        lemma_scan_on(chain, state, found.slot, found.slot, 0);
                    } else {
                        assert forall|s: int|
                            (found.slot <= s <= mid || mid <= s <= found.slot) && s != found.slot
                                && #[trigger] time_at(chain, s) is Some implies found.holds_against(
                            time_at(chain, s)->0,
                            target,
                        ) by {
                            assert(near(mid, width, s));
                        }
                        lemma_narrowed(chain, state, window, best, found);
                    }
                },
                None => {
                    let s = choose|s: int|
                        mid - width <= s <= mid + width && s != mid && #[trigger] time_at(chain, s) is Some;
                    assert(near(mid, width, s));
                },
            }
        },
        Phase::Scanning { start, highest, scanned } => {
            let slot = (start + scanned + 1) as u64;
            match time_at(chain, slot as int) {
                Some(t) => {
                    if t > target {
                        assert forall|s: int|
                            highest < s <= start + state.limits.scan_budget implies !#[trigger] exact(
                            chain,
                            s,
                            target,
                        ) by {
                            if s >= slot && time_at(chain, s) is Some {
                                lemma_in_order(chain, slot as int, s);
                            }
                        }
                        assert(exact(chain, start as int, target));
                        assert(highest_within_budget(chain, target, state.limits.scan_budget, highest));
                    } else if t == target {
                        lemma_scan_on(chain, state, start, slot, scanned + 1);
                    } else {
                        lemma_scan_on(chain, state, start, highest, scanned + 1);
                    }
                },
                None => {
                    lemma_scan_on(chain, state, start, highest, scanned + 1);
                },
            }
        },
        Phase::Rewinding { slot } => {
            assert(!early(chain, slot as int, target));
        },
        Phase::Finished(_) => {},
    }
}

/// On an orderly chain a target resolves to a slot with the latest block
/// time at or before it, and to no slot only where no slot is at or before
/// it. Slots without a block time do not lead the search astray as long as
/// each has a timed slot within the reach of a probe.
pub proof fn law_gaps_within_reach_do_not_mislead(chain: Seq<SlotReply>, target: i64, limits: SearchLimits)
    requires
        orderly(chain, limits),
    ensures
        fitting(chain, target, limits.scan_budget, resolution(chain, target, limits)),
{
    let start = Resolver::initial(target, limits);
    let inv = |s: Resolver| s.limits == limits && on_course(chain, s);
    assert forall|s: Resolver| s.wf() && !s.is_finished() && #[trigger] inv(s) implies inv(
        answered(chain, s),
    ) by {
        lemma_answer_advances(chain, s);
        lemma_on_course_step(chain, s);
    }
    lemma_run_keeps(chain, start, inv);
}

/// Runs of slots without a block time do not lead the search astray as
/// long as none is longer than a probe is wide: on such a chain, with block
/// times that never go down and no failing query, a target resolves as on
/// any orderly chain.
pub proof fn law_short_gaps_do_not_mislead(chain: Seq<SlotReply>, target: i64, limits: SearchLimits)
    requires
        chain.len() <= u64::MAX,
        non_decreasing(chain),
        reliable(chain),
        gaps_at_most(chain, limits.probe_width as int),
    ensures
        fitting(chain, target, limits.scan_budget, resolution(chain, target, limits)),
{
    lemma_short_gaps_are_within_reach(chain, limits.probe_width as int);
    let s = choose|s: int| 0 <= s <= chain.len() - 1 && #[trigger] time_at(chain, s) is Some;
    law_gaps_within_reach_do_not_mislead(chain, target, limits);
}

/// Where some slot carries exactly the target time, an orderly chain
/// resolves the target to a slot with that time: the highest one that a scan
/// within the budget reaches from a slot with that time. Where all slots with
/// that time lie within the budget of each other, it is the highest of them
/// all.
pub proof fn law_exact_match_resolves_to_highest(
    chain: Seq<SlotReply>,
    target: i64,
    limits: SearchLimits,
    witness: int,
)
    requires
        orderly(chain, limits),
        exact(chain, witness, target),
    ensures
        resolution(chain, target, limits) matches Ok(slot) && exact(chain, slot as int, target)
            && highest_within_budget(chain, target, limits.scan_budget, slot) && ((forall|a: int, b: int|
            #[trigger] exact(chain, a, target) && #[trigger] exact(chain, b, target) ==> b - a
                <= limits.scan_budget) ==> forall|s: int| #[trigger]
            exact(chain, s, target) ==> s <= slot),
{
    law_gaps_within_reach_do_not_mislead(chain, target, limits);
    assert(early(chain, witness, target));
    let slot = resolution(chain, target, limits)->Ok_0;
    let m = choose|m: int|
        0 <= m <= slot <= m + limits.scan_budget && #[trigger] exact(chain, m, target) && forall|s: int|
            slot < s <= m + limits.scan_budget ==> !#[trigger] exact(chain, s, target);
    if forall|a: int, b: int|
        #[trigger] exact(chain, a, target) && #[trigger] exact(chain, b, target) ==> b - a
            <= limits.scan_budget {
        assert forall|s: int| #[trigger] exact(chain, s, target) implies s <= slot by {
            assert(exact(chain, m, target) && exact(chain, s, target));
        }
    }
}

/// On an orderly chain whose block times go up with every timed slot, a
/// target resolves to the highest slot at or before it.
pub proof fn law_resolves_to_latest_slot(chain: Seq<SlotReply>, target: i64, limits: SearchLimits)
    requires
        orderly(chain, limits),
        strictly_increasing(chain),
    ensures
        match resolution(chain, target, limits) {
            Ok(slot) => early(chain, slot as int, target) && forall|s: int| #[trigger]
                early(chain, s, target) ==> s <= slot,
            Err(e) => e == ResolveError::NotFound && nothing_early(chain, target),
        },
{
    law_gaps_within_reach_do_not_mislead(chain, target, limits);
}

/// A later target never resolves to a lower slot: on an orderly chain whose
/// block times go up with every timed slot, the slots that two targets
/// resolve to are in the order of the targets.
pub proof fn law_later_target_resolves_no_lower(
    chain: Seq<SlotReply>,
    earlier: i64,
    later: i64,
    limits: SearchLimits,
)
    requires
        orderly(chain, limits),
        strictly_increasing(chain),
        earlier < later,
    ensures
        resolution(chain, earlier, limits) matches Ok(a) ==> resolution(chain, later, limits) matches Ok(b)
            && a <= b,
{
    law_resolves_to_latest_slot(chain, earlier, limits);
    law_resolves_to_latest_slot(chain, later, limits);
    if let Ok(a) = resolution(chain, earlier, limits) {
        assert(early(chain, a as int, later));
    }
}

/// On an orderly chain the block times that two targets resolve to are in
/// the order of the targets, also where slots share a block time.
pub proof fn law_later_target_resolves_no_earlier_time(
    chain: Seq<SlotReply>,
    earlier: i64,
    later: i64,
    limits: SearchLimits,
)
    requires
        orderly(chain, limits),
        earlier < later,
    ensures
        resolution(chain, earlier, limits) matches Ok(a) ==> resolution(chain, later, limits) matches Ok(b)
            && time_at(chain, a as int)->0 <= time_at(chain, b as int)->0,
{
    law_gaps_within_reach_do_not_mislead(chain, earlier, limits);
    law_gaps_within_reach_do_not_mislead(chain, later, limits);
    if let Ok(a) = resolution(chain, earlier, limits) {
        assert(early(chain, a as int, later));
    }
}

/// Resolving a target depends on nothing but the chain, the target and the
/// limits: against a chain with the same answers it gives the same result.
pub proof fn law_same_chain_same_result(
    chain: Seq<SlotReply>,
    again: Seq<SlotReply>,
    target: i64,
    limits: SearchLimits,
)
    requires
        chain.len() == again.len(),
        forall|s: int| 0 <= s < chain.len() ==> chain[s] == again[s],
    ensures
        resolution(chain, target, limits) == resolution(again, target, limits),
{
    assert(chain =~= again);
}

/// A resolution fails as `Upstream` exactly where the chain has no current
/// slot, and never as `InvalidInput` once it has begun.
pub proof fn law_failures(chain: Seq<SlotReply>, target: i64, limits: SearchLimits)
    ensures
        resolution(chain, target, limits) == Err::<u64, ResolveError>(ResolveError::Upstream) <==> tip(
            chain,
        ) is None,
        resolution(chain, target, limits) != Err::<u64, ResolveError>(ResolveError::InvalidInput),
{
    let start = Resolver::initial(target, limits);
    let next = answered(chain, start);
    lemma_answer_advances(chain, start);
    assert(run(chain, start) == run(chain, next));
    if tip(chain) is None {
        assert(run(chain, next) == Err::<u64, ResolveError>(ResolveError::Upstream));
    } else {
        let inv = |s: Resolver|
            !(s.phase is Bootstrap) && (s.phase matches Phase::Finished(Err(e)) ==> e
                == ResolveError::NotFound);
        assert forall|s: Resolver| s.wf() && !s.is_finished() && #[trigger] inv(s) implies inv(
            answered(chain, s),
        ) by {}
        lemma_run_keeps(chain, next, inv);
    }
}

} // verus!
