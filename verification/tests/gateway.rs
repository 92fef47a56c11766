use solana_block_finder::config::{Config, SearchLimits};
use solana_block_finder::gateway::{
    assemble_block_info, block_from_reply, block_info_from_json, block_time_from_reply,
    current_slot_from_reply, resolved_block, BlockInfo, RpcReply, BLOCK_NOT_AVAILABLE,
};
use solana_block_finder::timeline::{ResolveError, SlotReply};

fn json(text: &str) -> serde_json::Value {
    serde_json::from_str(text).unwrap()
}

fn answer<T>(result: Option<T>, error_code: Option<i32>) -> Option<RpcReply<T>> {
    Some(RpcReply { result, error_code })
}

#[test]
fn current_slot_reply_without_result_fails_as_upstream() {
    assert_eq!(current_slot_from_reply(answer(Some(312_000_000), None)), Ok(312_000_000));
    assert_eq!(current_slot_from_reply(answer(Some(0), None)), Ok(0));
    assert_eq!(current_slot_from_reply(answer(Some(5), Some(-32000))), Ok(5));
    assert_eq!(current_slot_from_reply(answer(None, None)), Err(ResolveError::Upstream));
    assert_eq!(current_slot_from_reply(answer(None, Some(-32005))), Err(ResolveError::Upstream));
}

#[test]
fn current_slot_call_without_reply_fails_as_upstream() {
    assert_eq!(current_slot_from_reply(None), Err(ResolveError::Upstream));
}

#[test]
fn block_time_result_is_the_block_time() {
    assert_eq!(block_time_from_reply(answer(Some(1_750_921_805), None)), SlotReply::Time(1_750_921_805));
    assert_eq!(block_time_from_reply(answer(Some(0), None)), SlotReply::Time(0));
    assert_eq!(block_time_from_reply(answer(Some(7), Some(-32009))), SlotReply::Time(7));
    assert_eq!(block_time_from_reply(answer(Some(7), Some(-32000))), SlotReply::Time(7));
}

#[test]
fn block_not_available_means_an_absent_slot() {
    assert_eq!(BLOCK_NOT_AVAILABLE, -32009);
    assert_eq!(block_time_from_reply(answer(None, Some(-32009))), SlotReply::Absent);
}

#[test]
fn other_error_codes_mean_a_failed_query() {
    assert_eq!(block_time_from_reply(answer(None, Some(-32004))), SlotReply::Failed);
    assert_eq!(block_time_from_reply(answer(None, Some(-32008))), SlotReply::Failed);
    assert_eq!(block_time_from_reply(answer(None, Some(-32010))), SlotReply::Failed);
    assert_eq!(block_time_from_reply(answer(None, Some(32009))), SlotReply::Failed);
    assert_eq!(block_time_from_reply(answer(None, Some(0))), SlotReply::Failed);
}

#[test]
fn reply_without_result_or_error_means_an_absent_slot() {
    assert_eq!(block_time_from_reply(answer(None, None)), SlotReply::Absent);
}

#[test]
fn block_time_call_without_reply_is_a_failed_query() {
    assert_eq!(block_time_from_reply(None), SlotReply::Failed);
}

#[test]
fn block_reply_with_a_result_holds_the_block() {
    let reply = answer(Some(json(r#"{"blockhash":"abc","parentSlot":41,"blockTime":5}"#)), None);
    let expected = BlockInfo {
        blockhash: "abc".to_string(),
        parent_slot: 41,
        block_time: Some(5),
        block_height: None,
    };
    assert_eq!(block_from_reply(&reply), Some(expected));
}

#[test]
fn block_reply_without_a_result_holds_no_block() {
    assert_eq!(block_from_reply(&answer(None, Some(-32009))), None);
    assert_eq!(block_from_reply(&answer(None, None)), None);
    assert_eq!(block_from_reply(&None), None);
}

#[test]
fn block_is_read_from_its_json_members() {
    let block = json(
        r#"{"blockhash":"9xQeWvG816bUx9EPjHmaT23yvVM2ZWbrrpZb9PusVFin","parentSlot":41,
            "blockTime":1750921805,"blockHeight":7,"previousBlockhash":"x"}"#,
    );
    let info = block_info_from_json(&block);
    assert_eq!(info.blockhash, "9xQeWvG816bUx9EPjHmaT23yvVM2ZWbrrpZb9PusVFin");
    assert_eq!(info.parent_slot, 41);
    assert_eq!(info.block_time, Some(1750921805));
    assert_eq!(info.block_height, Some(7));
}

#[test]
fn missing_block_members_take_their_defaults() {
    let info = block_info_from_json(&json("{}"));
    let empty = BlockInfo { blockhash: String::new(), parent_slot: 0, block_time: None, block_height: None };
    assert_eq!(info, empty);
    assert_eq!(block_info_from_json(&json(r#"{"blockTime":null,"blockHeight":null}"#)), empty);
}

#[test]
fn block_members_of_the_wrong_kind_count_as_missing() {
    let block = json(r#"{"blockhash":12,"parentSlot":-3,"blockTime":"1750921805","blockHeight":1.5}"#);
    let info = block_info_from_json(&block);
    assert_eq!(info.blockhash, "");
    assert_eq!(info.parent_slot, 0);
    assert_eq!(info.block_time, None);
    assert_eq!(info.block_height, None);
}

#[test]
fn json_that_is_no_object_gives_an_empty_block() {
    let empty = BlockInfo { blockhash: String::new(), parent_slot: 0, block_time: None, block_height: None };
    assert_eq!(block_info_from_json(&json(r#"["blockhash","abc"]"#)), empty);
    assert_eq!(block_info_from_json(&json(r#""blockhash""#)), empty);
    assert_eq!(block_info_from_json(&json("7")), empty);
    assert_eq!(block_info_from_json(&json("null")), empty);
}

#[test]
fn block_numbers_are_read_at_the_ends_of_their_ranges() {
    let block = json(
        r#"{"parentSlot":18446744073709551615,"blockTime":-9223372036854775808,
            "blockHeight":9223372036854775808}"#,
    );
    let info = block_info_from_json(&block);
    assert_eq!(info.parent_slot, u64::MAX);
    assert_eq!(info.block_time, Some(i64::MIN));
    assert_eq!(info.block_height, Some(9223372036854775808));
    let late = block_info_from_json(&json(r#"{"blockTime":9223372036854775808}"#));
    assert_eq!(late.block_time, None);
    let last = block_info_from_json(&json(r#"{"blockTime":9223372036854775807}"#));
    assert_eq!(last.block_time, Some(i64::MAX));
}

#[test]
fn block_members_are_found_by_their_own_keys_only() {
    let block = json(r#"{"blockHash":"a","parentslot":5,"block_time":6,"height":7}"#);
    let empty = BlockInfo { blockhash: String::new(), parent_slot: 0, block_time: None, block_height: None };
    assert_eq!(block_info_from_json(&block), empty);
}

#[test]
fn assembled_block_defaults_hash_and_parent_slot() {
    let full = assemble_block_info(Some("abc".to_string()), Some(9), Some(-4), Some(2));
    let expected = BlockInfo {
        blockhash: "abc".to_string(),
        parent_slot: 9,
        block_time: Some(-4),
        block_height: Some(2),
    };
    assert_eq!(full, expected);
    let bare = assemble_block_info(None, None, None, None);
    let empty = BlockInfo { blockhash: String::new(), parent_slot: 0, block_time: None, block_height: None };
    assert_eq!(bare, empty);
}

#[test]
fn resolved_slot_without_its_block_fails_as_upstream() {
    let info = BlockInfo {
        blockhash: "abc".to_string(),
        parent_slot: 499,
        block_time: Some(1500),
        block_height: Some(400),
    };
    assert_eq!(resolved_block(500, Some(info.clone())), Ok((500, info)));
    assert_eq!(resolved_block(500, None), Err(ResolveError::Upstream));
}

#[test]
fn configuration_defaults() {
    let limits = SearchLimits::default();
    assert_eq!(limits.probe_width, 20);
    assert_eq!(limits.scan_budget, 100);
    assert_eq!(SearchLimits::new(3, 4), SearchLimits { probe_width: 3, scan_budget: 4 });
    let config = Config::new("https://rpc.example".to_string(), "key".to_string());
    assert_eq!(config.endpoint, "https://rpc.example");
    assert_eq!(config.api_key, "key");
    assert_eq!(config.connect_timeout_secs, 5);
    assert_eq!(config.total_timeout_secs, 10);
    assert_eq!(config.limits, limits);
}
