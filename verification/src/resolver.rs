//! The search as a state machine: each state names the next request to put to
//! the chain, and each answer leads to the next state.

use vstd::prelude::*;
use crate::config::SearchLimits;
use crate::probe::{probe_slots, probe_window, select_best, selected};
use crate::tiebreak::{better_of, choose_better};
use crate::timeline::{Candidate, ResolveError, SlotReply};

verus! {

/// Milliseconds to wait after a query of the binary search.
pub const SEARCH_PAUSE_MILLIS: u64 = 10;

/// Milliseconds to wait after a query of the scan for the highest match.
pub const SCAN_PAUSE_MILLIS: u64 = 5;

/// The slots among which the binary search still looks: `low..=high`.
#[derive(Clone, Copy, Debug, PartialEq, Eq, Structural)]
pub struct SearchWindow {
    pub low: u64,
    pub high: u64,
}

/// Where a resolution stands.
#[derive(Clone, Copy, Debug, PartialEq, Eq)]
pub enum Phase {
    /// The current slot of the chain is awaited.
    Bootstrap,
    /// The block time of the middle of the window is awaited.
    Searching { window: SearchWindow, best: Option<Candidate> },
    /// The middle of the window gave no time: the replies of its neighbours
    /// are awaited.
    Probing { window: SearchWindow, best: Option<Candidate> },
    /// `start` carries the target time; `scanned` slots above it have been
    /// asked for a higher slot with that time, `highest` is the highest seen,
    /// and the block time of the next slot is awaited.
    Scanning { start: u64, highest: u64, scanned: u64 },
    /// The search ended above the target: the block time of `slot` is awaited
    /// on the way down.
    Rewinding { slot: u64 },
    /// The resolution is over.
    Finished(Result<u64, ResolveError>),
}

/// What the resolver asks of whoever drives it.
#[derive(Clone, Copy, Debug, PartialEq, Eq)]
pub enum Request {
    /// The current finalized slot.
    CurrentSlot,
    /// The block time of `slot`; wait `pause_millis` before the next request.
    BlockTime { slot: u64, pause_millis: u64 },
    /// The block times of the slots around `center`, asked all at once.
    Probe { center: u64, width: u64 },
    /// Nothing more: this is the result.
    Done(Result<u64, ResolveError>),
}

/// An answer to a request.
#[derive(Clone, Debug, PartialEq, Eq)]
pub enum Event {
    /// The current slot, or `None` where it could not be had.
    CurrentSlot(Option<u64>),
    /// The reply for the slot asked.
    BlockTime(SlotReply),
    /// The replies for the slots of a probe, in the order asked.
    Probed(Vec<SlotReply>),
}

/// One resolution of a target time.
#[derive(Clone, Copy, Debug, PartialEq, Eq)]
pub struct Resolver {
    pub target: i64,
    pub limits: SearchLimits,
    pub phase: Phase,
}

impl SearchWindow {
    /// A window holds at least one slot.
    pub open spec fn wf(self) -> bool {
        self.low <= self.high
    }

    /// The middle of the window, the lower one of two.
    pub open spec fn mid(self) -> u64 {
        (self.low + (self.high - self.low) / 2) as u64
    }

    /// The part of the window above `pivot`, where any is left.
    pub open spec fn above(self, pivot: u64) -> Option<SearchWindow> {
        if pivot < self.high {
            Some(SearchWindow { low: (pivot + 1) as u64, high: self.high })
        } else {
            None
        }
    }

    /// The part of the window below `pivot`, where any is left.
    pub open spec fn below(self, pivot: u64) -> Option<SearchWindow> {
        if pivot > self.low {
            Some(SearchWindow { low: self.low, high: (pivot - 1) as u64 })
        } else {
            None
        }
    }

    /// `self` lies within `outer` and holds fewer slots.
    pub open spec fn narrows(self, outer: SearchWindow) -> bool {
        &&& self.wf()
        &&& outer.low <= self.low
        &&& self.high <= outer.high
        &&& self.high - self.low < outer.high - outer.low
    }

    pub fn middle(self) -> (mid: u64)
        requires
            self.wf(),
        ensures
            mid == self.mid(),
            self.low <= mid <= self.high,
    {
        self.low + (self.high - self.low) / 2
    }

    /// Cuts the window down to its part above `pivot`. With `pivot` in the
    /// window, what is left is narrower.
    pub fn part_above(self, pivot: u64) -> (r: Option<SearchWindow>)
        ensures
            r == self.above(pivot),
            self.low <= pivot ==> (r matches Some(w) ==> w.narrows(self)),
    {
        if pivot < self.high {
            Some(SearchWindow { low: pivot + 1, high: self.high })
        } else {
            None
        }
    }

    /// Cuts the window down to its part below `pivot`. With `pivot` in the
    /// window, what is left is narrower.
    pub fn part_below(self, pivot: u64) -> (r: Option<SearchWindow>)
        ensures
            r == self.below(pivot),
            pivot <= self.high ==> (r matches Some(w) ==> w.narrows(self)),
    {
        if pivot > self.low {
            Some(SearchWindow { low: self.low, high: pivot - 1 })
        } else {
            None
        }
    }
}

impl Resolver {
    /// The invariant of a resolution: a window is never empty, and a scan
    /// stays within its budget and within the slot numbers.
    pub open spec fn wf(self) -> bool {
        match self.phase {
            Phase::Searching { window, .. } => window.wf(),
            Phase::Probing { window, .. } => window.wf(),
            Phase::Scanning { start, highest, scanned } => {
                &&& scanned < self.limits.scan_budget
                &&& start + scanned + 1 <= u64::MAX
                &&& start <= highest <= start + scanned
            },
            _ => true,
        }
    }

    pub open spec fn is_finished(self) -> bool {
        self.phase is Finished
    }

    /// The same resolution in another phase.
    pub open spec fn moved_to(self, phase: Phase) -> Resolver {
        Resolver { target: self.target, limits: self.limits, phase }
    }

    /// The state in which a resolution of `target` starts.
    pub open spec fn initial(target: i64, limits: SearchLimits) -> Resolver {
        Resolver { target, limits, phase: Phase::Bootstrap }
    }

    /// The request that the state waits on.
    pub open spec fn request(self) -> Request {
        match self.phase {
            Phase::Bootstrap => Request::CurrentSlot,
            Phase::Searching { window, .. } => Request::BlockTime {
                slot: window.mid(),
                pause_millis: SEARCH_PAUSE_MILLIS,
            },
            Phase::Probing { window, .. } => Request::Probe {
                center: window.mid(),
                width: self.limits.probe_width,
            },
            Phase::Scanning { start, scanned, .. } => Request::BlockTime {
                slot: (start + scanned + 1) as u64,
                pause_millis: SCAN_PAUSE_MILLIS,
            },
            Phase::Rewinding { slot } => Request::BlockTime { slot, pause_millis: 0 },
            Phase::Finished(result) => Request::Done(result),
        }
    }

    /// The scan for the highest match goes on after `scanned` slots above
    /// `start`, or ends with `highest` where the budget or the slot numbers
    /// are used up.
    pub open spec fn scan_on(self, start: u64, highest: u64, scanned: int) -> Resolver {
        if scanned < self.limits.scan_budget && start + scanned + 1 <= u64::MAX {
            self.moved_to(Phase::Scanning { start, highest, scanned: scanned as u64 })
        } else {
            self.moved_to(Phase::Finished(Ok(highest)))
        }
    }

    /// `start` carries the target time: the scan for the highest such slot
    /// begins above it.
    pub open spec fn scan_from(self, start: u64) -> Resolver {
        self.scan_on(start, start, 0)
    }

    /// The walk down goes on below `start`, or fails at slot 0.
    pub open spec fn rewind_from(self, start: u64) -> Resolver {
        if start == 0 {
            self.moved_to(Phase::Finished(Err(ResolveError::NotFound)))
        } else {
            self.moved_to(Phase::Rewinding { slot: (start - 1) as u64 })
        }
    }

    /// The window is used up: what becomes of the best candidate.
    pub open spec fn concluded(self, best: Option<Candidate>) -> Resolver {
        match best {
            None => self.moved_to(Phase::Finished(Err(ResolveError::NotFound))),
            Some(b) => if b.time == self.target {
                self.scan_from(b.slot)
            } else if b.time > self.target {
                self.rewind_from(b.slot)
            } else {
                self.moved_to(Phase::Finished(Ok(b.slot)))
            },
        }
    }

    /// The search goes on in the part of `window` above `pivot`, or is
    /// over where none is left.
    pub open spec fn raised(self, window: SearchWindow, pivot: u64, best: Option<Candidate>) -> Resolver {
        match window.above(pivot) {
            Some(rest) => self.moved_to(Phase::Searching { window: rest, best }),
            None => self.concluded(best),
        }
    }

    /// The search goes on in the part of `window` below `pivot`, or is
    /// over where none is left.
    pub open spec fn lowered(self, window: SearchWindow, pivot: u64, best: Option<Candidate>) -> Resolver {
        match window.below(pivot) {
            Some(rest) => self.moved_to(Phase::Searching { window: rest, best }),
            None => self.concluded(best),
        }
    }

    /// A timed slot that does not carry the target time has been seen while
    /// the search was in `window`: the best candidate is updated, and the
    /// window is cut past both its middle and the slot seen, upward where the
    /// slot is before the target and downward where it is after.
    pub open spec fn narrowed(self, window: SearchWindow, best: Option<Candidate>, seen: Candidate) -> Resolver {
        let kept = Some(better_of(best, seen, self.target));
        let mid = window.mid();
        if seen.time < self.target {
            self.raised(window, if seen.slot > mid { seen.slot } else { mid }, kept)
        } else {
            self.lowered(window, if seen.slot < mid { seen.slot } else { mid }, kept)
        }
    }

    /// The state after the current slot came in. In another phase than
    /// `Bootstrap` the event is ignored.
    pub open spec fn after_current_slot(self, current: Option<u64>) -> Resolver {
        match self.phase {
            Phase::Bootstrap => match current {
                Some(high) => self.moved_to(
                    Phase::Searching { window: SearchWindow { low: 0, high }, best: None },
                ),
                None => self.moved_to(Phase::Finished(Err(ResolveError::Upstream))),
            },
            _ => self,
        }
    }

    /// The state after the reply for the slot asked came in. In a phase that
    /// waits on no single slot the event is ignored.
    pub open spec fn after_block_time(self, reply: SlotReply) -> Resolver {
        match self.phase {
            Phase::Searching { window, best } => {
                let mid = window.mid();
                match reply {
                    SlotReply::Time(t) => if t == self.target {
                        self.scan_from(mid)
                    } else {
                        self.narrowed(window, best, Candidate { slot: mid, time: t })
                    },
                    SlotReply::Absent => self.moved_to(Phase::Probing { window, best }),
                    SlotReply::Failed => self.raised(window, mid, best),
                }
            },
            Phase::Scanning { start, highest, scanned } => {
                let slot = (start + scanned + 1) as u64;
                match reply {
                    SlotReply::Time(t) => if t > self.target {
                        self.moved_to(Phase::Finished(Ok(highest)))
                    } else if t == self.target {
                        self.scan_on(start, slot, scanned + 1)
                    } else {
                        self.scan_on(start, highest, scanned + 1)
                    },
                    _ => self.scan_on(start, highest, scanned + 1),
                }
            },
            Phase::Rewinding { slot } => match reply {
                SlotReply::Time(t) => if t == self.target {
                    self.scan_from(slot)
                } else if t < self.target {
                    self.moved_to(Phase::Finished(Ok(slot)))
                } else {
                    self.rewind_from(slot)
                },
                _ => self.rewind_from(slot),
            },
            _ => self,
        }
    }

    /// The state after the replies of a probe came in. In another phase than
    /// `Probing` the event is ignored.
    pub open spec fn after_probe(self, replies: Seq<SlotReply>) -> Resolver {
        match self.phase {
            Phase::Probing { window, best } => {
                let mid = window.mid();
                match selected(probe_window(mid, self.limits.probe_width), replies, self.target) {
                    Some(found) => if found.time == self.target {
                        self.scan_from(found.slot)
                    } else {
                        self.narrowed(window, best, found)
                    },
                    None => self.raised(window, mid, best),
                }
            },
            _ => self,
        }
    }

    /// The state after `event`.
    pub open spec fn after(self, event: Event) -> Resolver {
        match event {
            Event::CurrentSlot(current) => self.after_current_slot(current),
            Event::BlockTime(reply) => self.after_block_time(reply),
            Event::Probed(replies) => self.after_probe(replies@),
        }
    }

    /// How far the phase is from the end: a resolution only ever moves to a
    /// phase of the same or a lower rank.
    pub open spec fn rank(self) -> nat {
        match self.phase {
            Phase::Bootstrap => 4,
            Phase::Searching { .. } => 3,
            Phase::Probing { .. } => 3,
            Phase::Rewinding { .. } => 2,
            Phase::Scanning { .. } => 1,
            Phase::Finished(_) => 0,
        }
    }

    /// How much is left to do within the phase.
    pub open spec fn remaining(self) -> nat {
        match self.phase {
            Phase::Searching { window, .. } => if window.wf() {
                (2 * (window.high - window.low) + 2) as nat
            } else {
                0
            },
            Phase::Probing { window, .. } => if window.wf() {
                (2 * (window.high - window.low) + 1) as nat
            } else {
                0
            },
            Phase::Rewinding { slot } => slot as nat,
            Phase::Scanning { scanned, .. } => if scanned <= self.limits.scan_budget {
                (self.limits.scan_budget - scanned) as nat
            } else {
                0
            },
            _ => 0,
        }
    }

    /// `self` is nearer to the end than `earlier`.
    pub open spec fn precedes(self, earlier: Resolver) -> bool {
        self.rank() < earlier.rank() || (self.rank() == earlier.rank() && self.remaining()
            < earlier.remaining())
    }

    /// Every answer to the request of a state that is not finished leads to
    /// a well-formed state nearer to the end, with the same target and limits.
    pub proof fn lemma_progress(self, current: Option<u64>, reply: SlotReply, replies: Seq<SlotReply>)
        requires
            self.wf(),
            !self.is_finished(),
        ensures
            self.request() is CurrentSlot ==> self.after_current_slot(current).advances(self),
            self.request() is BlockTime ==> self.after_block_time(reply).advances(self),
            self.request() is Probe ==> self.after_probe(replies).advances(self),
    {
    }

    /// The window of the binary search, where the state has one.
    pub open spec fn window(self) -> Option<SearchWindow> {
        match self.phase {
            Phase::Searching { window, .. } => Some(window),
            Phase::Probing { window, .. } => Some(window),
            _ => None,
        }
    }

    /// The window of the search only ever shrinks: an answer leaves a
    /// narrower window within the one before, unless it only calls for a
    /// probe of the same window.
    pub proof fn law_window_shrinks(self, reply: SlotReply, replies: Seq<SlotReply>)
        requires
            self.wf(),
            self.window() is Some,
        ensures
            ({
                let next = if self.phase is Searching {
                    self.after_block_time(reply)
                } else {
                    self.after_probe(replies)
                };
                next.window() matches Some(rest) ==> rest.narrows(self.window()->0) || (self.phase is Searching
                    && next.phase is Probing && rest == self.window()->0)
            }),
    {
    }

    /// `self` is a well-formed state of the same resolution as `earlier`,
    /// nearer to the end.
    pub open spec fn advances(self, earlier: Resolver) -> bool {
        &&& self.wf()
        &&& self.target == earlier.target
        &&& self.limits == earlier.limits
        &&& self.precedes(earlier)
    }

    /// Starts a resolution of `target`. `now` is the wall-clock time in epoch
    /// seconds: a target after it is refused.
    pub fn begin(target: i64, now: i64, limits: SearchLimits) -> (r: Result<Resolver, ResolveError>)
        ensures
            r == if target > now {
                Err::<Resolver, ResolveError>(ResolveError::InvalidInput)
            } else {
                Ok(Resolver::initial(target, limits))
            },
            r is Ok ==> r->Ok_0.wf(),
    {
        if target > now {
            Err(ResolveError::InvalidInput)
        } else {
            Ok(Resolver { target, limits, phase: Phase::Bootstrap })
        }
    }

    /// A resolution that stands on `start`, a slot with the target time, and
    /// looks for the highest slot with that time.
    pub fn scanning(start: u64, target: i64, limits: SearchLimits) -> (r: Resolver)
        ensures
            r == Resolver::initial(target, limits).scan_from(start),
            r.wf(),
    {
        (Resolver { target, limits, phase: Phase::Bootstrap }).start_scan(start)
    }

    /// A resolution that ended its search on `start`, a slot after the
    /// target, and walks down from there.
    pub fn rewinding(start: u64, target: i64, limits: SearchLimits) -> (r: Resolver)
        ensures
            r == Resolver::initial(target, limits).rewind_from(start),
            r.wf(),
    {
        (Resolver { target, limits, phase: Phase::Bootstrap }).start_rewind(start)
    }

    pub fn finished(&self) -> (r: bool)
        ensures
            r == self.is_finished(),
    {
        match self.phase {
            Phase::Finished(_) => true,
            _ => false,
        }
    }

    /// The result, once the resolution is over.
    pub fn outcome(&self) -> (r: Option<Result<u64, ResolveError>>)
        ensures
            r == match self.phase {
                Phase::Finished(result) => Some(result),
                _ => None::<Result<u64, ResolveError>>,
            },
    {
        match self.phase {
            Phase::Finished(result) => Some(result),
            _ => None,
        }
    }

    /// Whether the state keeps the invariant of a resolution.
    pub fn is_well_formed(&self) -> (r: bool)
        ensures
            r == self.wf(),
    {
        match self.phase {
            Phase::Searching { window, .. } => window.low <= window.high,
            Phase::Probing { window, .. } => window.low <= window.high,
            Phase::Scanning { start, highest, scanned } => {
                scanned < self.limits.scan_budget && scanned < u64::MAX - start && start <= highest
                    && highest - start <= scanned
            },
            _ => true,
        }
    }

    /// The request to perform next.
    pub fn next_request(&self) -> (r: Request)
        requires
            self.wf(),
        ensures
            r == self.request(),
    {
        match self.phase {
            Phase::Bootstrap => Request::CurrentSlot,
            Phase::Searching { window, .. } => Request::BlockTime {
                slot: window.middle(),
                pause_millis: SEARCH_PAUSE_MILLIS,
            },
            Phase::Probing { window, .. } => Request::Probe {
                center: window.middle(),
                width: self.limits.probe_width,
            },
            Phase::Scanning { start, scanned, .. } => Request::BlockTime {
                slot: start + scanned + 1,
                pause_millis: SCAN_PAUSE_MILLIS,
            },
            Phase::Rewinding { slot } => Request::BlockTime { slot, pause_millis: 0 },
            Phase::Finished(result) => Request::Done(result),
        }
    }

    fn move_to(self, phase: Phase) -> (r: Resolver)
        ensures
            r == self.moved_to(phase),
    {
        Resolver { target: self.target, limits: self.limits, phase }
    }

    fn continue_scan(self, start: u64, highest: u64, scanned: u64) -> (r: Resolver)
        requires
            start <= highest <= start + scanned,
        ensures
            r == self.scan_on(start, highest, scanned as int),
            r.wf(),
    {
        if scanned < self.limits.scan_budget && scanned < u64::MAX - start {
            self.move_to(Phase::Scanning { start, highest, scanned })
        } else {
            self.move_to(Phase::Finished(Ok(highest)))
        }
    }

    fn start_scan(self, start: u64) -> (r: Resolver)
        ensures
            r == self.scan_from(start),
            r.wf(),
    {
        self.continue_scan(start, start, 0)
    }

    fn start_rewind(self, start: u64) -> (r: Resolver)
        ensures
            r == self.rewind_from(start),
            r.wf(),
    {
        if start == 0 {
            self.move_to(Phase::Finished(Err(ResolveError::NotFound)))
        } else {
            self.move_to(Phase::Rewinding { slot: start - 1 })
        }
    }

    fn conclude(self, best: Option<Candidate>) -> (r: Resolver)
        ensures
            r == self.concluded(best),
            r.wf(),
    {
        match best {
            None => self.move_to(Phase::Finished(Err(ResolveError::NotFound))),
            Some(b) => {
                if b.time == self.target {
                    self.start_scan(b.slot)
                } else if b.time > self.target {
                    self.start_rewind(b.slot)
                } else {
                    self.move_to(Phase::Finished(Ok(b.slot)))
                }
            },
        }
    }

    fn raise(self, window: SearchWindow, pivot: u64, best: Option<Candidate>) -> (r: Resolver)
        requires
            window.low <= pivot,
        ensures
            r == self.raised(window, pivot, best),
            r.wf(),
    {
        match window.part_above(pivot) {
            Some(rest) => self.move_to(Phase::Searching { window: rest, best }),
            None => self.conclude(best),
        }
    }

    fn lower(self, window: SearchWindow, pivot: u64, best: Option<Candidate>) -> (r: Resolver)
        requires
            pivot <= window.high,
        ensures
            r == self.lowered(window, pivot, best),
            r.wf(),
    {
        match window.part_below(pivot) {
            Some(rest) => self.move_to(Phase::Searching { window: rest, best }),
            None => self.conclude(best),
        }
    }

    fn narrow(self, window: SearchWindow, best: Option<Candidate>, seen: Candidate) -> (r: Resolver)
        requires
            window.wf(),
        ensures
            r == self.narrowed(window, best, seen),
            r.wf(),
    {
        let kept = Some(choose_better(best, seen, self.target));
        let mid = window.middle();
        if seen.time < self.target {
            let pivot: u64 = if seen.slot > mid {
                seen.slot
            } else {
                mid
            };
            self.raise(window, pivot, kept)
        } else {
            let pivot: u64 = if seen.slot < mid {
                seen.slot
            } else {
                mid
            };
            self.lower(window, pivot, kept)
        }
    }

    /// Takes the current slot of the chain, or `None` where it could not be
    /// had.
    pub fn on_current_slot(self, current: Option<u64>) -> (r: Resolver)
        requires
            self.wf(),
        ensures
            r == self.after_current_slot(current),
            r.wf(),
            self.request() is CurrentSlot ==> r.advances(self),
    {
        proof {
            if !self.is_finished() {
                self.lemma_progress(current, SlotReply::Absent, Seq::empty());
            }
        }
        match self.phase {
            Phase::Bootstrap => match current {
                Some(high) => self.move_to(
                    Phase::Searching { window: SearchWindow { low: 0, high }, best: None },
                ),
                None => self.move_to(Phase::Finished(Err(ResolveError::Upstream))),
            },
            _ => self,
        }
    }

    /// Takes the reply for the slot asked.
    pub fn on_block_time(self, reply: SlotReply) -> (r: Resolver)
        requires
            self.wf(),
        ensures
            r == self.after_block_time(reply),
            r.wf(),
            self.request() is BlockTime ==> r.advances(self),
    {
        proof {
            if !self.is_finished() {
                self.lemma_progress(None, reply, Seq::empty());
            }
        }
        match self.phase {
            Phase::Searching { window, best } => {
                let mid = window.middle();
                match reply {
                    SlotReply::Time(t) => {
                        if t == self.target {
                            self.start_scan(mid)
                        } else {
                            self.narrow(window, best, Candidate { slot: mid, time: t })
                        }
                    },
                    SlotReply::Absent => self.move_to(Phase::Probing { window, best }),
                    SlotReply::Failed => self.raise(window, mid, best),
                }
            },
            Phase::Scanning { start, highest, scanned } => {
                let slot: u64 = start + scanned + 1;
                match reply {
                    SlotReply::Time(t) => {
                        if t > self.target {
                            self.move_to(Phase::Finished(Ok(highest)))
                        } else if t == self.target {
                            self.continue_scan(start, slot, scanned + 1)
                        } else {
                            self.continue_scan(start, highest, scanned + 1)
                        }
                    },
                    _ => self.continue_scan(start, highest, scanned + 1),
                }
            },
            Phase::Rewinding { slot } => match reply {
                SlotReply::Time(t) => {
                    if t == self.target {
                        self.start_scan(slot)
                    } else if t < self.target {
                        self.move_to(Phase::Finished(Ok(slot)))
                    } else {
                        self.start_rewind(slot)
                    }
                },
                _ => self.start_rewind(slot),
            },
            _ => self,
        }
    }

    /// Takes the replies of a probe, in the order in which the slots were
    /// asked.
    pub fn on_probe(self, replies: &Vec<SlotReply>) -> (r: Resolver)
        requires
            self.wf(),
        ensures
            r == self.after_probe(replies@),
            r.wf(),
            self.request() is Probe ==> r.advances(self),
    {
        proof {
            if !self.is_finished() {
                self.lemma_progress(None, SlotReply::Absent, replies@);
            }
        }
        match self.phase {
            Phase::Probing { window, best } => {
                let mid = window.middle();
                let slots = probe_slots(mid, self.limits.probe_width);
                match select_best(&slots, replies, self.target) {
                    Some(found) => {
                        if found.time == self.target {
                            self.start_scan(found.slot)
                        } else {
                            self.narrow(window, best, found)
                        }
                    },
                    None => self.raise(window, mid, best),
                }
            },
            _ => self,
        }
    }

    /// Takes an answer and gives the next state. An event that does not
    /// answer the request of the state leaves it as it is.
    pub fn step(self, event: &Event) -> (r: Resolver)
        requires
            self.wf(),
        ensures
            r == self.after(*event),
            r.wf(),
    {
        match event {
            Event::CurrentSlot(current) => self.on_current_slot(*current),
            Event::BlockTime(reply) => self.on_block_time(*reply),
            Event::Probed(replies) => self.on_probe(replies),
        }
    }
}

} // verus!
