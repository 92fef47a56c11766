//! What a chain makes of a resolution: the run of the resolver when the
//! chain answers every request.

use vstd::prelude::*;
use crate::config::SearchLimits;
use crate::probe::probe_replies;
use crate::resolver::{Phase, Request, Resolver};
use crate::timeline::{reply_at, ResolveError, SlotReply};

verus! {

/// The current slot of `chain`: its last slot. A chain without slots has
/// none, and asking for it fails; so does a chain that is longer than there
/// are slot numbers.
pub open spec fn tip(chain: Seq<SlotReply>) -> Option<u64> {
    if 0 < chain.len() <= u64::MAX {
        Some((chain.len() - 1) as u64)
    } else {
        None
    }
}

/// The state after `chain` has answered the request of `state`.
pub open spec fn answered(chain: Seq<SlotReply>, state: Resolver) -> Resolver {
    match state.request() {
        Request::CurrentSlot => state.after_current_slot(tip(chain)),
        Request::BlockTime { slot, .. } => state.after_block_time(reply_at(chain, slot as int)),
        Request::Probe { center, width } => state.after_probe(probe_replies(chain, center, width)),
        Request::Done(_) => state,
    }
}

/// The result that `state` comes to when `chain` answers every request.
pub open spec fn run(chain: Seq<SlotReply>, state: Resolver) -> Result<u64, ResolveError>
    decreases state.rank(), state.remaining(),
    when state.wf()
    via run_terminates
{
    match state.phase {
        Phase::Finished(result) => result,
        _ => run(chain, answered(chain, state)),
    }
}

#[via_fn]
proof fn run_terminates(chain: Seq<SlotReply>, state: Resolver) {
    if !state.is_finished() {
        lemma_answer_advances(chain, state);
    }
}

/// An answer of the chain brings a resolution nearer to its end.
pub proof fn lemma_answer_advances(chain: Seq<SlotReply>, state: Resolver)
    requires
        state.wf(),
        !state.is_finished(),
    ensures
        answered(chain, state).advances(state),
{
    match state.request() {
        Request::CurrentSlot => {
            state.lemma_progress(tip(chain), SlotReply::Absent, Seq::empty());
        },
        Request::BlockTime { slot, .. } => {
            state.lemma_progress(None, reply_at(chain, slot as int), Seq::empty());
        },
        Request::Probe { center, width } => {
            state.lemma_progress(None, SlotReply::Absent, probe_replies(chain, center, width));
        },
        Request::Done(_) => {},
    }
}

/// The slot that `target` resolves to on `chain`, or why it resolves to none.
pub open spec fn resolution(chain: Seq<SlotReply>, target: i64, limits: SearchLimits) -> Result<
    u64,
    ResolveError,
> {
    run(chain, Resolver::initial(target, limits))
}

} // verus!
