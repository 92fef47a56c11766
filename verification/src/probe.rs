//! The neighbour probe: which slots to ask around a slot that gave no time,
//! and which of the answers to keep.

use vstd::prelude::*;
use crate::timeline::{reply_at, time_at, Candidate, SlotReply};
use crate::tiebreak::{better_of, choose_better};

verus! {

/// The slots asked around `center`, in the order asked: for each offset from
/// 1 to `width` the slot below (where there is one), then the slot above
/// (where it fits a slot number).
pub open spec fn probe_window(center: u64, width: u64) -> Seq<u64>
    decreases width,
{
    if width == 0 {
        Seq::empty()
    } else {
        let inner = probe_window(center, (width - 1) as u64);
        let below = if center >= width {
            inner.push((center - width) as u64)
        } else {
            inner
        };
        if center + width <= u64::MAX {
            below.push((center + width) as u64)
        } else {
            below
        }
    }
}

/// `slot` is another slot than `center`, at most `width` away from it.
pub open spec fn near(center: u64, width: u64, slot: int) -> bool {
    slot != center && center - width <= slot <= center + width && 0 <= slot <= u64::MAX
}

/// The reply that belongs to the `i`-th slot asked: one that is missing
/// counts as absent.
pub open spec fn reply_of(replies: Seq<SlotReply>, i: int) -> SlotReply {
    if 0 <= i < replies.len() {
        replies[i]
    } else {
        SlotReply::Absent
    }
}

/// The candidate kept after the first `n` slots and their replies, taken in
/// order through the tie-break.
pub open spec fn best_among(slots: Seq<u64>, replies: Seq<SlotReply>, target: i64, n: nat) -> Option<
    Candidate,
>
    decreases n,
{
    if n == 0 {
        None
    } else {
        let prev = best_among(slots, replies, target, (n - 1) as nat);
        match reply_of(replies, n - 1) {
            SlotReply::Time(t) => Some(better_of(prev, Candidate { slot: slots[n - 1], time: t }, target)),
            _ => prev,
        }
    }
}

/// The candidate that a probe keeps: the best of all slots asked.
pub open spec fn selected(slots: Seq<u64>, replies: Seq<SlotReply>, target: i64) -> Option<Candidate> {
    best_among(slots, replies, target, slots.len())
}

/// What the chain answers to a probe around `center`.
pub open spec fn probe_replies(chain: Seq<SlotReply>, center: u64, width: u64) -> Seq<SlotReply> {
    let window = probe_window(center, width);
    Seq::new(window.len(), |i: int| reply_at(chain, window[i] as int))
}

/// The candidate that a probe around `center` keeps on `chain`.
pub open spec fn probe_outcome(chain: Seq<SlotReply>, center: u64, width: u64, target: i64) -> Option<
    Candidate,
> {
    selected(probe_window(center, width), probe_replies(chain, center, width), target)
}

/// The slots to ask around `center`.
pub fn probe_slots(center: u64, width: u64) -> (slots: Vec<u64>)
    ensures
        slots@ == probe_window(center, width),
        slots@.len() <= 2 * width,
        slots@.no_duplicates(),
        forall|slot: u64| slots@.contains(slot) <==> near(center, width, slot as int),
{
    proof {
        lemma_window_shape(center, width);
        assert forall|slot: u64| probe_window(center, width).contains(slot) <==> near(
            center,
            width,
            slot as int,
        ) by {
            lemma_window_members(center, width, slot);
        }
    }
    let mut slots: Vec<u64> = Vec::new();
    let mut offset: u64 = 0;
    while offset < width
        invariant
            offset <= width,
            slots@ == probe_window(center, offset),
        decreases width - offset,
    {
        offset = offset + 1;
        if center >= offset {
            slots.push(center - offset);
        }
        if offset <= u64::MAX - center {
            slots.push(center + offset);
        }
    }
    slots
}

/// Picks the candidate to keep from the replies to a probe. `replies[i]`
/// answers `slots[i]`; replies that are missing count as absent, and replies
/// beyond the slots asked are left aside.
pub fn select_best(slots: &Vec<u64>, replies: &Vec<SlotReply>, target: i64) -> (best: Option<Candidate>)
    ensures
        best == selected(slots@, replies@, target),
        best is None <==> forall|i: int|
            0 <= i < slots@.len() ==> (#[trigger] reply_of(replies@, i)).time() is None,
        best matches Some(b) ==> {
            &&& exists|j: int|
                0 <= j < slots@.len() && #[trigger] reply_of(replies@, j) == SlotReply::Time(b.time)
                    && slots@[j] == b.slot
            &&& forall|i: int|
                0 <= i < slots@.len() && (#[trigger] reply_of(replies@, i)).time() is Some
                    ==> b.holds_against(reply_of(replies@, i).time()->0, target)
        },
{
    proof {
        lemma_best_among(slots@, replies@, target, slots@.len());
        if let Some(b) = selected(slots@, replies@, target) {
            let j = choose|j: int|
                0 <= j < slots@.len() && #[trigger] reply_of(replies@, j) == SlotReply::Time(b.time)
                    && slots@[j] == b.slot;
            assert(reply_of(replies@, j).time() is Some);
        }
    }
    let mut best: Option<Candidate> = None;
    let mut i: usize = 0;
    while i < slots.len()
        invariant
            i <= slots.len(),
            best == best_among(slots@, replies@, target, i as nat),
        decreases slots.len() - i,
    {
        if i < replies.len() {
            match replies[i] {
                SlotReply::Time(t) => {
                    best = Some(choose_better(best, Candidate { slot: slots[i], time: t }, target));
                },
                _ => {},
            }
        }
        i = i + 1;
    }
    best
}

/// The window holds exactly the slots near its centre.
pub proof fn lemma_window_members(center: u64, width: u64, slot: u64)
    ensures
        probe_window(center, width).contains(slot) <==> near(center, width, slot as int),
    decreases width,
{
    if width > 0 {
        let inner = probe_window(center, (width - 1) as u64);
        lemma_window_members(center, (width - 1) as u64, slot);
        let below = if center >= width {
            inner.push((center - width) as u64)
        } else {
            inner
        };
        let all = probe_window(center, width);
        if center >= width {
            assert(below.contains(slot) <==> inner.contains(slot) || slot == center - width) by {
                lemma_push_contains(inner, (center - width) as u64, slot);
            }
        }
        if center + width <= u64::MAX {
            assert(all.contains(slot) <==> below.contains(slot) || slot == center + width) by {
                lemma_push_contains(below, (center + width) as u64, slot);
            }
        }
    }
}

proof fn lemma_push_contains(s: Seq<u64>, x: u64, y: u64)
    ensures
        s.push(x).contains(y) <==> s.contains(y) || y == x,
{
    if s.contains(y) {
        let i = choose|i: int| 0 <= i < s.len() && s[i] == y;
        assert(s.push(x)[i] == y);
    }
    if y == x {
        assert(s.push(x)[s.len() as int] == y);
    }
    if s.push(x).contains(y) {
        let i = choose|i: int| 0 <= i < s.push(x).len() && s.push(x)[i] == y;
        if i < s.len() {
            assert(s[i] == y);
        }
    }
}

/// What the tie-break leaves after the first `n` replies: nothing where none
/// of them carries a time, else one of the timed slots, and none of the
/// others beats it.
pub proof fn lemma_best_among(slots: Seq<u64>, replies: Seq<SlotReply>, target: i64, n: nat)
    requires
        n <= slots.len(),
    ensures
        match best_among(slots, replies, target, n) {
            None => forall|i: int| 0 <= i < n ==> (#[trigger] reply_of(replies, i)).time() is None,
            Some(b) => {
                &&& exists|j: int|
                    0 <= j < n && #[trigger] reply_of(replies, j) == SlotReply::Time(b.time) && slots[j]
                        == b.slot
                &&& forall|i: int|
                    0 <= i < n && (#[trigger] reply_of(replies, i)).time() is Some ==> b.holds_against(
                        reply_of(replies, i).time()->0,
                        target,
                    )
            },
        },
    decreases n,
{
    if n > 0 {
        lemma_best_among(slots, replies, target, (n - 1) as nat);
        let prev = best_among(slots, replies, target, (n - 1) as nat);
        match reply_of(replies, n - 1) {
            SlotReply::Time(t) => {
                let b = better_of(prev, Candidate { slot: slots[n - 1], time: t }, target);
                match prev {
                    Some(p) => {
                        let j = choose|j: int|
                            0 <= j < n - 1 && #[trigger] reply_of(replies, j) == SlotReply::Time(p.time)
                                && slots[j] == p.slot;
                        if b == p {
                            assert(reply_of(replies, j) == SlotReply::Time(b.time) && slots[j] == b.slot);
                        } else {
                            assert(reply_of(replies, n - 1) == SlotReply::Time(b.time) && slots[n - 1]
                                == b.slot);
                        }
                    },
                    None => {
                        assert(reply_of(replies, n - 1) == SlotReply::Time(b.time) && slots[n - 1]
                            == b.slot);
                    },
                }
            },
            _ => {
                if let Some(p) = prev {
                    let j = choose|j: int|
                        0 <= j < n - 1 && #[trigger] reply_of(replies, j) == SlotReply::Time(p.time)
                            && slots[j] == p.slot;
                    assert(reply_of(replies, j) == SlotReply::Time(p.time) && slots[j] == p.slot);
                }
            },
        }
    }
}

/// What a probe keeps on a chain: nothing where no slot near the centre has
/// a block time, else a timed slot near the centre that none of the others
/// beats.
pub proof fn lemma_probe_outcome(chain: Seq<SlotReply>, center: u64, width: u64, target: i64)
    ensures
        match probe_outcome(chain, center, width, target) {
            None => forall|s: int| near(center, width, s) ==> #[trigger] time_at(chain, s) is None,
            Some(b) => {
                &&& near(center, width, b.slot as int)
                &&& time_at(chain, b.slot as int) == Some(b.time)
                &&& forall|s: int|
                    near(center, width, s) && #[trigger] time_at(chain, s) is Some ==> b.holds_against(
                        time_at(chain, s)->0,
                        target,
                    )
            },
        },
{
    let window = probe_window(center, width);
    let replies = probe_replies(chain, center, width);
    lemma_best_among(window, replies, target, window.len());
    assert forall|s: int| near(center, width, s) implies exists|i: int|
        0 <= i < window.len() && window[i] == s && reply_of(replies, i) == reply_at(chain, s) by {
        lemma_window_members(center, width, s as u64);
        let i = choose|i: int| 0 <= i < window.len() && window[i] == s as u64;
        assert(reply_of(replies, i) == reply_at(chain, s));
    }
    match probe_outcome(chain, center, width, target) {
        None => {
            assert forall|s: int| near(center, width, s) implies #[trigger] time_at(chain, s) is None by {
                let i = choose|i: int|
                    0 <= i < window.len() && window[i] == s && reply_of(replies, i) == reply_at(chain, s);
                assert(reply_of(replies, i).time() is None);
            }
        },
        Some(b) => {
            let j = choose|j: int|
                0 <= j < window.len() && #[trigger] reply_of(replies, j) == SlotReply::Time(b.time)
                    && window[j] == b.slot;
            assert(window.contains(b.slot));
            lemma_window_members(center, width, b.slot);
            assert(reply_of(replies, j) == reply_at(chain, b.slot as int));
            assert forall|s: int| near(center, width, s) && #[trigger] time_at(chain, s) is Some implies b.holds_against(
                time_at(chain, s)->0,
                target,
            ) by {
                let i = choose|i: int|
                    0 <= i < window.len() && window[i] == s && reply_of(replies, i) == reply_at(chain, s);
                assert(reply_of(replies, i).time() is Some);
            }
        },
    }
}

/// A probe asks at most two slots for each offset, and no slot twice.
pub proof fn lemma_window_shape(center: u64, width: u64)
    ensures
        probe_window(center, width).len() <= 2 * width,
        probe_window(center, width).no_duplicates(),
    decreases width,
{
    if width > 0 {
        let inner = probe_window(center, (width - 1) as u64);
        lemma_window_shape(center, (width - 1) as u64);
        assert forall|i: int| 0 <= i < inner.len() implies near(
            center,
            (width - 1) as u64,
            #[trigger] inner[i] as int,
        ) by {
            lemma_window_members(center, (width - 1) as u64, inner[i]);
            assert(inner.contains(inner[i]));
        }
        let below = if center >= width {
            inner.push((center - width) as u64)
        } else {
            inner
        };
        assert(below.no_duplicates() && forall|i: int|
            0 <= i < below.len() ==> #[trigger] below[i] < center + width) by {
            assert forall|i: int| 0 <= i < below.len() implies #[trigger] below[i] < center + width by {
                if i < inner.len() {
                    assert(near(center, (width - 1) as u64, inner[i] as int));
                }
            }
            assert forall|i: int, j: int|
                0 <= i < below.len() && 0 <= j < below.len() && i != j implies below[i] != below[j] by {
                if i < inner.len() {
                    assert(near(center, (width - 1) as u64, inner[i] as int));
                }
                if j < inner.len() {
                    assert(near(center, (width - 1) as u64, inner[j] as int));
                }
            }
        }
    }
}

/// Every slot of the first probe, with its reply, is also in the second.
pub open spec fn replies_within(
    slots: Seq<u64>,
    replies: Seq<SlotReply>,
    other_slots: Seq<u64>,
    other_replies: Seq<SlotReply>,
) -> bool {
    forall|i: int|
        0 <= i < slots.len() ==> exists|j: int|
            0 <= j < other_slots.len() && other_slots[j] == slots[i] && #[trigger] reply_of(
                other_replies,
                j,
            ) == #[trigger] reply_of(replies, i)
}

/// The order in which the replies of a probe come in does not change the
/// block time that is kept: two probes with the same slots and replies, in
/// whatever order, keep candidates with the same block time, or both none.
pub proof fn law_reply_order_is_irrelevant(
    slots: Seq<u64>,
    replies: Seq<SlotReply>,
    other_slots: Seq<u64>,
    other_replies: Seq<SlotReply>,
    target: i64,
)
    requires
        replies_within(slots, replies, other_slots, other_replies),
        replies_within(other_slots, other_replies, slots, replies),
    ensures
        match (selected(slots, replies, target), selected(other_slots, other_replies, target)) {
            (Some(a), Some(b)) => a.time == b.time,
            (None, None) => true,
            _ => false,
        },
{
    lemma_best_among(slots, replies, target, slots.len());
    lemma_best_among(other_slots, other_replies, target, other_slots.len());
    let one = selected(slots, replies, target);
    let two = selected(other_slots, other_replies, target);
    if let Some(a) = one {
        let i = choose|i: int|
            0 <= i < slots.len() && #[trigger] reply_of(replies, i) == SlotReply::Time(a.time) && slots[i]
                == a.slot;
        let j = choose|j: int|
            0 <= j < other_slots.len() && other_slots[j] == slots[i] && #[trigger] reply_of(
                other_replies,
                j,
            ) == reply_of(replies, i);
        assert(reply_of(other_replies, j).time() is Some);
    }
    if let Some(b) = two {
        let j = choose|j: int|
            0 <= j < other_slots.len() && #[trigger] reply_of(other_replies, j) == SlotReply::Time(
                b.time,
            ) && other_slots[j] == b.slot;
        let i = choose|i: int|
            0 <= i < slots.len() && slots[i] == other_slots[j] && #[trigger] reply_of(replies, i)
                == reply_of(other_replies, j);
        assert(reply_of(replies, i).time() is Some);
    }
}

} // verus!
