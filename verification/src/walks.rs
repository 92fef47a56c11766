//! The two walks at the end of a search, each on its own: the scan upward
//! for the highest slot with the target time, and the walk down to the first
//! slot at or before the target.

use vstd::prelude::*;
use crate::config::SearchLimits;
use crate::laws::{final_state, lemma_run_keeps};
use crate::replay::{answered, lemma_answer_advances, run};
use crate::resolver::{Phase, Resolver};
use crate::timeline::{early, exact, late, ResolveError, SlotReply};

verus! {

/// `found` is what a scan of `budget` slots above `start` comes to: `start`
/// itself or a slot with the target time, reached before any slot after the
/// target, and with no further slot of the target time within the budget
/// unless a slot after the target stands before it.
pub open spec fn is_scan_result(chain: Seq<SlotReply>, start: u64, target: i64, budget: u64, found: u64) -> bool {
    &&& start <= found <= start + budget
    &&& found == start || exact(chain, found as int, target)
    &&& forall|s: int| start < s <= found ==> !#[trigger] late(chain, s, target)
    &&& forall|s: int|
        found < s <= start + budget && #[trigger] exact(chain, s, target) ==> exists|q: int|
            found < q < s && #[trigger] late(chain, q, target)
}

/// `result` is what a walk down from `start` comes to. It fails where no
/// slot below `start` is at or before the target. Else it stops at the
/// highest such slot: one before the target is the result, and from one with
/// the target time the scan for the highest match gives the result.
pub open spec fn is_rewind_result(
    chain: Seq<SlotReply>,
    start: u64,
    target: i64,
    budget: u64,
    result: Result<u64, ResolveError>,
) -> bool {
    match result {
        Ok(found) => exists|p: int|
            0 <= p < start && #[trigger] early(chain, p, target) && (forall|s: int|
                p < s < start ==> !#[trigger] early(chain, s, target)) && if exact(chain, p, target) {
                is_scan_result(chain, p as u64, target, budget, found)
            } else {
                found == p
            },
        Err(e) => e == ResolveError::NotFound && forall|s: int|
            0 <= s < start ==> !#[trigger] early(chain, s, target),
    }
}

/// The invariant of a scan that began above `start`.
pub open spec fn scan_on_course(chain: Seq<SlotReply>, start: u64, state: Resolver) -> bool {
    match state.phase {
        Phase::Scanning { start: from, highest, scanned } => {
            &&& from == start
            &&& highest == start || exact(chain, highest as int, state.target)
            &&& forall|s: int| start < s <= start + scanned ==> !#[trigger] late(chain, s, state.target)
            &&& forall|s: int| highest < s <= start + scanned ==> !#[trigger] exact(chain, s, state.target)
        },
        Phase::Finished(Ok(found)) => is_scan_result(
            chain,
            start,
            state.target,
            state.limits.scan_budget,
            found,
        ),
        _ => false,
    }
}

/// The invariant of a walk down that began below `start`.
pub open spec fn rewind_on_course(chain: Seq<SlotReply>, start: u64, state: Resolver) -> bool {
    match state.phase {
        Phase::Rewinding { slot } => slot < start && forall|s: int|
            slot < s < start ==> !#[trigger] early(chain, s, state.target),
        Phase::Scanning { start: from, .. } => {
            &&& from < start
            &&& exact(chain, from as int, state.target)
            &&& forall|s: int| from < s < start ==> !#[trigger] early(chain, s, state.target)
            &&& scan_on_course(chain, from, state)
        },
        Phase::Finished(result) => is_rewind_result(
            chain,
            start,
            state.target,
            state.limits.scan_budget,
            result,
        ),
        _ => false,
    }
}

/// A scan that begins above `start` is on course from its first state.
proof fn lemma_scan_begins(chain: Seq<SlotReply>, state: Resolver, start: u64)
    requires
        chain.len() <= u64::MAX,
    ensures
        scan_on_course(chain, start, state.scan_from(start)),
{
}

/// Every answer keeps a scan on course.
proof fn lemma_scan_step(chain: Seq<SlotReply>, start: u64, state: Resolver)
    requires
        chain.len() <= u64::MAX,
        state.wf(),
        state.phase is Scanning,
        scan_on_course(chain, start, state),
    ensures
        scan_on_course(chain, start, answered(chain, state)),
{
    let target = state.target;
    let budget = state.limits.scan_budget;
    if let Phase::Scanning { start: from, highest, scanned } = state.phase {
        let slot = start + scanned + 1;
        let next = answered(chain, state);
        if let Phase::Finished(Ok(found)) = next.phase {
            if late(chain, slot, target) {
                assert forall|s: int|
                    found < s <= start + budget && #[trigger] exact(chain, s, target) implies exists|q: int|
                    found < q < s && #[trigger] late(chain, q, target) by {
                    assert(late(chain, slot, target));
                }
            } else {
                assert forall|s: int| start < s <= found implies !#[trigger] late(chain, s, target) by {
                    if s == slot {
                        assert(!late(chain, slot, target));
                    }
                }
                assert forall|s: int|
                    found < s <= start + budget && #[trigger] exact(chain, s, target) implies exists|q: int|
                    found < q < s && #[trigger] late(chain, q, target) by {
                    if s == slot {
                        assert(!exact(chain, slot, target));
                    } else if s > slot {
                        assert(s > u64::MAX);
                    }
                }
            }
        } else {
            assert forall|s: int| start < s <= start + scanned + 1 implies !#[trigger] late(
                chain,
                s,
                target,
            ) by {
                if s == slot {
                    assert(!late(chain, slot, target));
                }
            }
        }
    }
}

/// The scan for the highest match, begun on any slot of any chain, ends with
/// the slot that `is_scan_result` describes.
pub proof fn law_scan_ends_on_highest_match(chain: Seq<SlotReply>, start: u64, target: i64, limits: SearchLimits)
    requires
        chain.len() <= u64::MAX,
    ensures
        run(chain, Resolver::initial(target, limits).scan_from(start)) matches Ok(found) && is_scan_result(
            chain,
            start,
            target,
            limits.scan_budget,
            found,
        ),
{
    let first = Resolver::initial(target, limits).scan_from(start);
    lemma_scan_begins(chain, Resolver::initial(target, limits), start);
    let inv = |s: Resolver| s.target == target && s.limits == limits && scan_on_course(chain, start, s);
    assert forall|s: Resolver| s.wf() && !s.is_finished() && #[trigger] inv(s) implies inv(
        answered(chain, s),
    ) by {
        lemma_answer_advances(chain, s);
        lemma_scan_step(chain, start, s);
    }
    lemma_run_keeps(chain, first, inv);
}

/// Every answer keeps a walk down on course.
proof fn lemma_rewind_step(chain: Seq<SlotReply>, start: u64, state: Resolver)
    requires
        chain.len() <= u64::MAX,
        state.wf(),
        !state.is_finished(),
        rewind_on_course(chain, start, state),
    ensures
        rewind_on_course(chain, start, answered(chain, state)),
{
    let target = state.target;
    let budget = state.limits.scan_budget;
    let next = answered(chain, state);
    match state.phase {
        Phase::Rewinding { slot } => {
            if early(chain, slot as int, target) {
                if exact(chain, slot as int, target) {
                    lemma_scan_begins(chain, state, slot);
                }
            } else {
                assert forall|s: int| slot <= s < start implies !#[trigger] early(chain, s, target) by {
                    if s == slot {
                        assert(!early(chain, slot as int, target));
                    }
                }
            }
        },
        Phase::Scanning { start: from, .. } => {
            lemma_scan_step(chain, from, state);
            if next.phase is Finished {
                assert(early(chain, from as int, target));
            }
        },
        _ => {},
    }
}

/// The walk down, begun below any slot of any chain, ends as
/// `is_rewind_result` describes.
pub proof fn law_rewind_ends_at_or_before_target(
    chain: Seq<SlotReply>,
    start: u64,
    target: i64,
    limits: SearchLimits,
)
    requires
        chain.len() <= u64::MAX,
    ensures
        is_rewind_result(
            chain,
            start,
            target,
            limits.scan_budget,
            run(chain, Resolver::initial(target, limits).rewind_from(start)),
        ),
{
    let first = Resolver::initial(target, limits).rewind_from(start);
    let inv = |s: Resolver| s.target == target && s.limits == limits && rewind_on_course(chain, start, s);
    assert forall|s: Resolver| s.wf() && !s.is_finished() && #[trigger] inv(s) implies inv(
        answered(chain, s),
    ) by {
        lemma_answer_advances(chain, s);
        lemma_rewind_step(chain, start, s);
    }
    lemma_run_keeps(chain, first, inv);
    assert(final_state(chain, first).phase == Phase::Finished(run(chain, first)));
}

/// A scan has one result: two slots that `is_scan_result` describes are the
/// same slot.
pub proof fn law_scan_result_is_unique(
    chain: Seq<SlotReply>,
    start: u64,
    target: i64,
    budget: u64,
    one: u64,
    other: u64,
)
    requires
        is_scan_result(chain, start, target, budget, one),
        is_scan_result(chain, start, target, budget, other),
    ensures
        one == other,
{
    if one < other {
        assert(exact(chain, other as int, target));
        let q = choose|q: int| one < q < other && #[trigger] late(chain, q, target);
        assert(!late(chain, q, target));
    }
    if other < one {
        assert(exact(chain, one as int, target));
        let q = choose|q: int| other < q < one && #[trigger] late(chain, q, target);
        assert(!late(chain, q, target));
    }
}

} // verus!
