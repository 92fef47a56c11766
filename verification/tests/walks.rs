use solana_block_finder::config::SearchLimits;
use solana_block_finder::fixture::SimChain;
use solana_block_finder::timeline::{Candidate, ResolveError, SlotReply};

fn timed(times: &[i64]) -> SimChain {
    let mut replies = Vec::new();
    for time in times {
        replies.push(SlotReply::Time(*time));
    }
    SimChain::new(replies)
}

#[test]
fn fixture_answers_for_each_slot_and_absent_past_its_end() {
    let chain = SimChain::new(vec![SlotReply::Time(5), SlotReply::Absent, SlotReply::Failed]);
    assert_eq!(chain.current_slot(), Some(2));
    assert_eq!(chain.block_time(0), SlotReply::Time(5));
    assert_eq!(chain.block_time(1), SlotReply::Absent);
    assert_eq!(chain.block_time(2), SlotReply::Failed);
    assert_eq!(chain.block_time(3), SlotReply::Absent);
    assert_eq!(chain.block_time(u64::MAX), SlotReply::Absent);
    assert_eq!(
        chain.block_times(&vec![2, 0, 9]),
        vec![SlotReply::Failed, SlotReply::Time(5), SlotReply::Absent]
    );
    assert_eq!(SimChain::new(Vec::new()).current_slot(), None);
}

#[test]
fn scan_returns_the_highest_match_before_a_later_slot() {
    let chain = SimChain::new(vec![
        SlotReply::Time(100),
        SlotReply::Time(100),
        SlotReply::Absent,
        SlotReply::Time(100),
        SlotReply::Time(101),
        SlotReply::Time(100),
    ]);
    assert_eq!(chain.scan_highest(0, 100, 100), 3);
    assert_eq!(chain.scan_highest(1, 100, 100), 3);
    assert_eq!(chain.scan_highest(3, 100, 100), 3);
}

#[test]
fn scan_returns_its_start_without_a_higher_match() {
    let chain = timed(&[100, 101, 102]);
    assert_eq!(chain.scan_highest(0, 100, 100), 0);
    assert_eq!(chain.scan_highest(2, 102, 100), 2);
    assert_eq!(chain.scan_highest(7, 102, 100), 7);
}

#[test]
fn scan_goes_on_past_failed_slots_and_earlier_times() {
    let chain = SimChain::new(vec![
        SlotReply::Time(100),
        SlotReply::Failed,
        SlotReply::Time(99),
        SlotReply::Time(100),
        SlotReply::Time(150),
    ]);
    assert_eq!(chain.scan_highest(0, 100, 100), 3);
}

#[test]
fn scan_stops_after_its_budget() {
    let chain = timed(&[7; 150]);
    assert_eq!(chain.scan_highest(0, 7, 100), 100);
    assert_eq!(chain.scan_highest(10, 7, 100), 110);
    assert_eq!(chain.scan_highest(60, 7, 100), 149);
    assert_eq!(chain.scan_highest(0, 7, 1), 1);
    assert_eq!(chain.scan_highest(0, 7, 0), 0);
}

#[test]
fn scan_from_the_last_slot_number_returns_it() {
    let chain = timed(&[7, 7]);
    assert_eq!(chain.scan_highest(u64::MAX, 7, 100), u64::MAX);
}

#[test]
fn rewind_returns_the_first_slot_before_the_target() {
    let chain = SimChain::new(vec![
        SlotReply::Time(5),
        SlotReply::Absent,
        SlotReply::Time(8),
        SlotReply::Failed,
        SlotReply::Time(20),
    ]);
    let limits = SearchLimits::default();
    assert_eq!(chain.rewind(4, 10, limits), Ok(2));
    assert_eq!(chain.rewind(2, 10, limits), Ok(0));
    assert_eq!(chain.rewind(4, 7, limits), Ok(0));
}

#[test]
fn rewind_onto_the_target_time_returns_the_highest_match() {
    let chain = timed(&[8, 8, 9, 8, 8, 20, 8]);
    let limits = SearchLimits::default();
    assert_eq!(chain.rewind(5, 8, limits), Ok(4));
    assert_eq!(chain.rewind(4, 8, limits), Ok(4));
    assert_eq!(chain.rewind(2, 8, limits), Ok(1));
    assert_eq!(chain.rewind(1, 8, limits), Ok(1));
}

#[test]
fn rewind_fails_when_it_reaches_slot_zero() {
    let chain = timed(&[50, 60, 70]);
    let limits = SearchLimits::default();
    assert_eq!(chain.rewind(2, 10, limits), Err(ResolveError::NotFound));
    assert_eq!(chain.rewind(1, 10, limits), Err(ResolveError::NotFound));
    assert_eq!(chain.rewind(0, 10, limits), Err(ResolveError::NotFound));
    assert_eq!(chain.rewind(0, 100, limits), Err(ResolveError::NotFound));
}

#[test]
fn probe_on_a_chain_finds_the_nearest_slot_before_the_target() {
    let mut replies = Vec::new();
    for slot in 0..1001i64 {
        replies.push(SlotReply::Time(1000 + slot));
    }
    replies[500] = SlotReply::Absent;
    let chain = SimChain::new(replies);
    assert_eq!(chain.probe(500, 1500, 20), Some(Candidate { slot: 499, time: 1499 }));
    assert_eq!(chain.probe(500, 1400, 20), Some(Candidate { slot: 480, time: 1480 }));
    assert_eq!(chain.probe(500, 1510, 20), Some(Candidate { slot: 510, time: 1510 }));
    assert_eq!(chain.probe(500, 1500, 0), None);
    assert_eq!(chain.probe(1030, 1500, 20), None);
    assert_eq!(chain.probe(1010, 5000, 20), Some(Candidate { slot: 1000, time: 2000 }));
}
