//! What the answers of the RPC endpoint mean to a resolution.
//!
//! Whoever talks to the endpoint hands over what it decoded: the result and
//! the error of a reply, or the JSON of a block. The rules of reading them
//! are here.

use vstd::prelude::*;
use crate::timeline::{ResolveError, SlotReply};

verus! {

/// The error code by which the endpoint says that a slot has no block to
/// show: it means that the slot is absent, not that the query failed.
pub const BLOCK_NOT_AVAILABLE: i32 = -32009;

/// What is kept of the block of the resolved slot.
#[derive(Clone, Debug, PartialEq, Eq)]
pub struct BlockInfo {
    pub blockhash: String,
    pub parent_slot: u64,
    pub block_time: Option<i64>,
    pub block_height: Option<u64>,
}

/// A reply of the endpoint as decoded: its result, and the code of its error.
#[derive(Clone, Debug, PartialEq, Eq)]
pub struct RpcReply<T> {
    pub result: Option<T>,
    pub error_code: Option<i32>,
}

#[verifier::external_type_specification]
#[verifier::external_body]
pub struct ExJsonValue(serde_json::Value);

/// The member `key` of a JSON value, as `serde_json::Value::get` gives it
/// for a string key.
pub uninterp spec fn json_member(value: serde_json::Value, key: Seq<char>) -> Option<serde_json::Value>;

/// The text of a JSON value, as `serde_json::Value::as_str` gives it.
pub uninterp spec fn json_text(value: serde_json::Value) -> Option<Seq<char>>;

/// A JSON value as an unsigned number, as `serde_json::Value::as_u64` gives
/// it.
pub uninterp spec fn json_unsigned(value: serde_json::Value) -> Option<u64>;

/// A JSON value as a signed number, as `serde_json::Value::as_i64` gives it.
pub uninterp spec fn json_signed(value: serde_json::Value) -> Option<i64>;

/// Calls `serde_json::Value::get` with a string key. Nothing is proved of
/// it: the result is taken to be what `json_member` names, the member of an
/// object under that key, and `None` for a missing key or another kind of
/// value.
#[verifier::external_body]
fn member<'a>(value: &'a serde_json::Value, key: &str) -> (r: Option<&'a serde_json::Value>)
    ensures
        r is Some == json_member(*value, key@) is Some,
        r is Some ==> *r->0 == json_member(*value, key@)->0,
{
    value.get(key)
}

/// Calls `serde_json::Value::as_str` and copies the text. Nothing is proved
/// of it: the result is taken to be what `json_text` names, the text of a
/// JSON string, and `None` for another kind of value.
#[verifier::external_body]
fn text(value: &serde_json::Value) -> (r: Option<String>)
    ensures
        r is Some == json_text(*value) is Some,
        r is Some ==> r->0@ == json_text(*value)->0,
{
    value.as_str().map(String::from)
}

/// Calls `serde_json::Value::as_u64`. Nothing is proved of it: the result is
/// taken to be what `json_unsigned` names, the number where the value is a
/// non-negative integer, and `None` otherwise.
#[verifier::external_body]
fn unsigned(value: &serde_json::Value) -> (r: Option<u64>)
    ensures
        r == json_unsigned(*value),
{
    value.as_u64()
}

/// Calls `serde_json::Value::as_i64`. Nothing is proved of it: the result is
/// taken to be what `json_signed` names, the number where the value is an
/// integer that fits, and `None` otherwise.
#[verifier::external_body]
fn signed(value: &serde_json::Value) -> (r: Option<i64>)
    ensures
        r == json_signed(*value),
{
    value.as_i64()
}

/// The text under `key` in `value`, if it has a member there that is text.
pub open spec fn text_field(value: serde_json::Value, key: Seq<char>) -> Option<Seq<char>> {
    match json_member(value, key) {
        Some(v) => json_text(v),
        None => None,
    }
}

/// The unsigned number under `key` in `value`, if it has such a member.
pub open spec fn unsigned_field(value: serde_json::Value, key: Seq<char>) -> Option<u64> {
    match json_member(value, key) {
        Some(v) => json_unsigned(v),
        None => None,
    }
}

/// The signed number under `key` in `value`, if it has such a member.
pub open spec fn signed_field(value: serde_json::Value, key: Seq<char>) -> Option<i64> {
    match json_member(value, key) {
        Some(v) => json_signed(v),
        None => None,
    }
}

/// The current slot that the answer to a current-slot query stands for.
/// `None` is a call that brought no reply; it fails as `Upstream`, and so
/// does a reply without a result.
pub fn current_slot_from_reply(reply: Option<RpcReply<u64>>) -> (r: Result<u64, ResolveError>)
    ensures
        r == match reply {
            Some(RpcReply { result: Some(slot), .. }) => Ok::<u64, ResolveError>(slot),
            _ => Err(ResolveError::Upstream),
        },
{
    match reply {
        Some(RpcReply { result: Some(slot), .. }) => Ok(slot),
        _ => Err(ResolveError::Upstream),
    }
}

/// The meaning of a reply to a block-time query. A result is the block time.
/// Without a result, the error code for a block that is not available means
/// that the slot is absent, and so does a reply with neither result nor
/// error; any other error is a failed query.
pub open spec fn block_time_meaning(result: Option<i64>, error_code: Option<i32>) -> SlotReply {
    match result {
        Some(t) => SlotReply::Time(t),
        None => match error_code {
            Some(code) => if code == BLOCK_NOT_AVAILABLE {
                SlotReply::Absent
            } else {
                SlotReply::Failed
            },
            None => SlotReply::Absent,
        },
    }
}

/// What the answer to a block-time query means. `None` is a call that
/// brought no reply: a failed query.
pub fn block_time_from_reply(reply: Option<RpcReply<i64>>) -> (r: SlotReply)
    ensures
        r == match reply {
            Some(reply) => block_time_meaning(reply.result, reply.error_code),
            None => SlotReply::Failed,
        },
{
    match reply {
        Some(RpcReply { result: Some(t), .. }) => SlotReply::Time(t),
        Some(RpcReply { result: None, error_code: Some(code) }) => {
            if code == BLOCK_NOT_AVAILABLE {
                SlotReply::Absent
            } else {
                SlotReply::Failed
            }
        },
        Some(RpcReply { result: None, error_code: None }) => SlotReply::Absent,
        None => SlotReply::Failed,
    }
}

/// Puts a block together from what its JSON held: a hash that is missing is
/// empty, a parent slot that is missing is 0.
pub fn assemble_block_info(
    blockhash: Option<String>,
    parent_slot: Option<u64>,
    block_time: Option<i64>,
    block_height: Option<u64>,
) -> (info: BlockInfo)
    ensures
        info.blockhash@ == match blockhash {
            Some(h) => h@,
            None => Seq::<char>::empty(),
        },
        info.parent_slot == match parent_slot {
            Some(p) => p,
            None => 0,
        },
        info.block_time == block_time,
        info.block_height == block_height,
{
    let blockhash = match blockhash {
        Some(h) => h,
        None => String::new(),
    };
    let parent_slot: u64 = match parent_slot {
        Some(p) => p,
        None => 0,
    };
    BlockInfo { blockhash, parent_slot, block_time, block_height }
}

/// `info` holds what the JSON of `block` holds under `blockhash`,
/// `parentSlot`, `blockTime` and `blockHeight`, each taken only where it has
/// the right kind of value: a hash that is missing is empty, a parent slot
/// that is missing is 0.
pub open spec fn describes(info: BlockInfo, block: serde_json::Value) -> bool {
    &&& info.blockhash@ == match text_field(block, "blockhash"@) {
        Some(h) => h,
        None => Seq::<char>::empty(),
    }
    &&& info.parent_slot == match unsigned_field(block, "parentSlot"@) {
        Some(p) => p,
        None => 0,
    }
    &&& info.block_time == signed_field(block, "blockTime"@)
    &&& info.block_height == unsigned_field(block, "blockHeight"@)
}

/// Reads a block from its JSON.
pub fn block_info_from_json(block: &serde_json::Value) -> (info: BlockInfo)
    ensures
        describes(info, *block),
{
    let blockhash = match member(block, "blockhash") {
        Some(v) => text(v),
        None => None,
    };
    let parent_slot = match member(block, "parentSlot") {
        Some(v) => unsigned(v),
        None => None,
    };
    let block_time = match member(block, "blockTime") {
        Some(v) => signed(v),
        None => None,
    };
    let block_height = match member(block, "blockHeight") {
        Some(v) => unsigned(v),
        None => None,
    };
    assemble_block_info(blockhash, parent_slot, block_time, block_height)
}

/// The block that the answer to a block query holds. `None` is a call that
/// brought no reply; it holds no block, and neither does a reply without a
/// result.
pub fn block_from_reply(reply: &Option<RpcReply<serde_json::Value>>) -> (r: Option<BlockInfo>)
    ensures
        match *reply {
            Some(RpcReply { result: Some(block), .. }) => r is Some && describes(r->0, block),
            _ => r is None,
        },
{
    match reply {
        Some(RpcReply { result: Some(block), .. }) => Some(block_info_from_json(block)),
        _ => None,
    }
}

/// The result of the whole operation: the resolved slot with its block, or
/// `Upstream` where the block could not be had.
pub fn resolved_block(slot: u64, block: Option<BlockInfo>) -> (r: Result<(u64, BlockInfo), ResolveError>)
    ensures
        r == match block {
            Some(info) => Ok::<(u64, BlockInfo), ResolveError>((slot, info)),
            None => Err(ResolveError::Upstream),
        },
{
    match block {
        Some(info) => Ok((slot, info)),
        None => Err(ResolveError::Upstream),
    }
}

} // verus!
