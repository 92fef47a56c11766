use solana_block_finder::config::SearchLimits;
use solana_block_finder::fixture::SimChain;
use solana_block_finder::resolver::{Phase, Resolver, SearchWindow};
use solana_block_finder::timeline::{ResolveError, SlotReply};

fn next_random(state: &mut u64) -> u64 {
    *state = state.wrapping_mul(6364136223846793005).wrapping_add(1442695040888963407);
    *state >> 33
}

/// A chain of `slots` slots whose block times start at 1000 and grow by 0 to
/// `max_step` seconds per timed slot, with runs of absent slots of at most
/// `max_gap` slots.
fn growing_chain(seed: u64, slots: usize, min_step: i64, max_step: i64, max_gap: u64) -> Vec<SlotReply> {
    let mut state = seed;
    let mut replies = Vec::new();
    let mut time: i64 = 1000;
    let mut gap: u64 = 0;
    replies.push(SlotReply::Time(time));
    while replies.len() < slots {
        if gap < max_gap && replies.len() + 1 < slots && next_random(&mut state) % 3 == 0 {
            replies.push(SlotReply::Absent);
            gap += 1;
        } else {
            time += min_step + (next_random(&mut state) % (max_step - min_step + 1) as u64) as i64;
            replies.push(SlotReply::Time(time));
            gap = 0;
        }
    }
    replies
}

/// Any answers at all: times in no order, gaps of any length, failed queries.
fn wild_chain(seed: u64, slots: usize) -> Vec<SlotReply> {
    let mut state = seed;
    let mut replies = Vec::new();
    for _ in 0..slots {
        let kind = next_random(&mut state) % 5;
        if kind == 0 {
            replies.push(SlotReply::Absent);
        } else if kind == 1 {
            replies.push(SlotReply::Failed);
        } else {
            replies.push(SlotReply::Time(1000 + (next_random(&mut state) % 60) as i64));
        }
    }
    replies
}

fn latest_time_at_or_before(replies: &[SlotReply], target: i64) -> Option<i64> {
    let mut latest = None;
    for reply in replies {
        if let SlotReply::Time(t) = reply {
            if *t <= target && latest.map_or(true, |l| l < *t) {
                latest = Some(*t);
            }
        }
    }
    latest
}

fn highest_slot_at_or_before(replies: &[SlotReply], target: i64) -> Option<u64> {
    let mut highest = None;
    for (slot, reply) in replies.iter().enumerate() {
        if let SlotReply::Time(t) = reply {
            if *t <= target {
                highest = Some(slot as u64);
            }
        }
    }
    highest
}

#[test]
fn resolved_slot_is_at_or_before_target_on_any_chain() {
    let limits = SearchLimits::new(3, 4);
    for seed in 0..40u64 {
        let replies = wild_chain(seed, 1 + (seed as usize * 7) % 90);
        let chain = SimChain::new(replies.clone());
        for target in 990..1070i64 {
            match chain.resolve(target, limits) {
                Ok(slot) => match replies[slot as usize] {
                    SlotReply::Time(t) => assert!(t <= target),
                    _ => panic!("resolved to a slot without a block time"),
                },
                Err(e) => assert_eq!(e, ResolveError::NotFound),
            }
        }
    }
}

#[test]
fn exact_match_resolves_to_the_highest_slot_with_that_time() {
    let limits = SearchLimits::default();
    for seed in 0..20u64 {
        let replies = growing_chain(seed, 400, 0, 2, 20);
        let chain = SimChain::new(replies.clone());
        for (slot, reply) in replies.iter().enumerate() {
            if let SlotReply::Time(t) = reply {
                let mut highest = slot;
                for (other, r) in replies.iter().enumerate() {
                    if *r == SlotReply::Time(*t) {
                        highest = other;
                    }
                }
                assert_eq!(chain.resolve(*t, limits), Ok(highest as u64));
            }
        }
    }
}

#[test]
fn exact_match_beyond_the_scan_budget_stays_within_it() {
    let mut replies = Vec::new();
    for slot in 0..401i64 {
        replies.push(SlotReply::Time(if slot < 100 { slot } else if slot < 350 { 100 } else { slot }));
    }
    let chain = SimChain::new(replies);
    assert_eq!(chain.resolve(100, SearchLimits::default()), Ok(300));
    assert_eq!(chain.resolve(100, SearchLimits::new(20, 149)), Ok(349));
    assert_eq!(chain.resolve(100, SearchLimits::new(20, 500)), Ok(349));
    assert_eq!(chain.resolve(100, SearchLimits::new(20, 0)), Ok(200));
}

#[test]
fn resolving_twice_gives_the_same_slot() {
    let limits = SearchLimits::default();
    for seed in 0..10u64 {
        let replies = wild_chain(seed, 300);
        let chain = SimChain::new(replies.clone());
        let again = SimChain::new(replies);
        for target in 990..1070i64 {
            let first = chain.resolve(target, limits);
            assert_eq!(chain.resolve(target, limits), first);
            assert_eq!(again.resolve(target, limits), first);
        }
    }
}

#[test]
fn later_target_resolves_to_no_lower_slot() {
    let limits = SearchLimits::default();
    for seed in 0..20u64 {
        let replies = growing_chain(seed, 500, 1, 4, 20);
        let chain = SimChain::new(replies.clone());
        let mut previous = 0;
        for target in 1000..2600i64 {
            let slot = chain.resolve(target, limits).unwrap();
            assert!(previous <= slot);
            assert_eq!(Some(slot), highest_slot_at_or_before(&replies, target));
            previous = slot;
        }
        assert_eq!(chain.resolve(999, limits), Err(ResolveError::NotFound));
    }
}

#[test]
fn later_target_may_resolve_lower_among_slots_that_share_a_time() {
    let times = [10, 20, 20, 20, 20, 20, 20, 20, 20, 40];
    let mut replies = Vec::new();
    for time in times {
        replies.push(SlotReply::Time(time));
    }
    let chain = SimChain::new(replies);
    let limits = SearchLimits::default();
    assert_eq!(chain.resolve(20, limits), Ok(8));
    assert_eq!(chain.resolve(30, limits), Ok(4));
}

#[test]
fn later_target_resolves_to_no_earlier_time_when_slots_share_times() {
    let limits = SearchLimits::default();
    for seed in 0..20u64 {
        let replies = growing_chain(seed, 500, 0, 3, 20);
        let chain = SimChain::new(replies.clone());
        for target in 1000..1800i64 {
            let slot = chain.resolve(target, limits).unwrap();
            let time = match replies[slot as usize] {
                SlotReply::Time(t) => t,
                _ => panic!("resolved to a slot without a block time"),
            };
            assert_eq!(Some(time), latest_time_at_or_before(&replies, target));
        }
    }
}

#[test]
fn gap_as_wide_as_the_probe_does_not_stop_the_search() {
    let mut replies = Vec::new();
    for slot in 0..1001i64 {
        replies.push(SlotReply::Time(1000 + slot));
    }
    for slot in 490..510 {
        replies[slot] = SlotReply::Absent;
    }
    let chain = SimChain::new(replies);
    let limits = SearchLimits::default();
    assert_eq!(chain.resolve(1500, limits), Ok(489));
    assert_eq!(chain.resolve(1489, limits), Ok(489));
    assert_eq!(chain.resolve(1509, limits), Ok(489));
    assert_eq!(chain.resolve(1510, limits), Ok(510));
    assert_eq!(chain.resolve(1488, limits), Ok(488));
}

#[test]
fn gaps_within_a_narrow_probe_width_do_not_mislead() {
    let limits = SearchLimits::new(2, 100);
    for seed in 0..20u64 {
        let replies = growing_chain(seed, 300, 1, 3, 2);
        let chain = SimChain::new(replies.clone());
        for target in 1000..1700i64 {
            assert_eq!(chain.resolve(target, limits).ok(), highest_slot_at_or_before(&replies, target));
        }
    }
}

#[test]
fn gap_wider_than_the_probe_is_walked_down_by_the_rewind() {
    let mut replies = Vec::new();
    for slot in 0..1001i64 {
        replies.push(SlotReply::Time(1000 + slot));
    }
    for slot in 480..=520 {
        replies[slot] = SlotReply::Absent;
    }
    let chain = SimChain::new(replies);
    assert_eq!(chain.resolve(1470, SearchLimits::default()), Ok(470));
}

#[test]
fn chain_without_slots_fails_as_upstream() {
    let chain = SimChain::new(Vec::new());
    assert_eq!(chain.resolve(1500, SearchLimits::default()), Err(ResolveError::Upstream));
    assert_eq!(
        chain.find_slot_at_or_before(1500, 1500, SearchLimits::default()),
        Err(ResolveError::Upstream)
    );
}

#[test]
fn chain_without_block_times_is_not_found() {
    let chain = SimChain::new(vec![SlotReply::Absent; 200]);
    assert_eq!(chain.resolve(1500, SearchLimits::default()), Err(ResolveError::NotFound));
    let failing = SimChain::new(vec![SlotReply::Failed; 200]);
    assert_eq!(failing.resolve(1500, SearchLimits::default()), Err(ResolveError::NotFound));
}

#[test]
fn target_at_now_is_resolved() {
    let mut replies = Vec::new();
    for slot in 0..1001i64 {
        replies.push(SlotReply::Time(1000 + slot));
    }
    let chain = SimChain::new(replies);
    let limits = SearchLimits::default();
    assert_eq!(chain.find_slot_at_or_before(2000, 2000, limits), Ok(1000));
    assert_eq!(chain.find_slot_at_or_before(1500, 2000, limits), Ok(500));
    assert_eq!(chain.find_slot_at_or_before(5000, 6000, limits), Ok(1000));
    assert_eq!(chain.find_slot_at_or_before(999, 2000, limits), Err(ResolveError::NotFound));
}

fn window_of(state: &Resolver) -> Option<SearchWindow> {
    match state.phase {
        Phase::Searching { window, .. } => Some(window),
        Phase::Probing { window, .. } => Some(window),
        _ => None,
    }
}

#[test]
fn window_only_shrinks_and_every_resolution_ends() {
    let limits = SearchLimits::new(3, 5);
    for seed in 0..30u64 {
        let replies = wild_chain(seed, 1 + (seed as usize * 11) % 200);
        let slots = replies.len() as u64;
        let chain = SimChain::new(replies);
        for target in [990i64, 1000, 1010, 1030, 1059, 1070] {
            let mut state = Resolver::begin(target, target, limits).unwrap();
            let mut steps: u64 = 0;
            while !state.finished() {
                assert!(state.is_well_formed());
                let next = chain.answer(state);
                if let (Some(before), Some(after)) = (window_of(&state), window_of(&next)) {
                    assert!(before.low <= after.low && after.high <= before.high);
                    let probing_same_window =
                        matches!(next.phase, Phase::Probing { .. }) && before == after;
                    assert!(probing_same_window || after.high - after.low < before.high - before.low);
                }
                state = next;
                steps += 1;
                assert!(steps <= 3 + 2 * slots + limits.scan_budget);
            }
            assert_eq!(state.outcome(), Some(chain.resolve(target, limits)));
        }
    }
}
