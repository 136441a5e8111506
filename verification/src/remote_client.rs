//! What the frontend sends to a datanode to run part of a query, and how it
//! reads the answers about a query's state.

use vstd::prelude::*;
use vstd::bytes::*;
use vstd::string::*;
use crate::decimal::str_to_chars;
use crate::error::DistributedError;
use crate::join::{chars_contain, text_contains};
use crate::plan_serde::{length_prefixed, push_length_prefixed};
use crate::types::RegionId;

verus! {

/// Query execution status
#[derive(Debug, Clone, Copy, PartialEq, Eq, Structural)]
pub enum QueryStatus {
    Pending,
    Running,
    Completed,
    Failed,
    Cancelled,
}

/// The region ids, each as eight little-endian bytes, in order.
pub open spec fn region_id_bytes(ids: Seq<u64>) -> Seq<u8>
    decreases ids.len(),
{
    if ids.len() == 0 {
        seq![]
    } else {
        region_id_bytes(ids.drop_last()) + spec_u64_to_le_bytes(ids.last())
    }
}

/// The raw ids of a sequence of regions.
pub open spec fn raw_region_ids(ids: Seq<RegionId>) -> Seq<u64> {
    ids.map_values(|r: RegionId| r.0)
}

/// A ticket: the query id, the region ids preceded by their count, and
/// the serialized plan; each count or length is four little-endian bytes.
pub open spec fn ticket_bytes(query_id: Seq<u8>, region_ids: Seq<u64>, plan: Seq<u8>) -> Seq<u8> {
    length_prefixed(query_id) + spec_u32_to_le_bytes(region_ids.len() as u32) + region_id_bytes(region_ids)
        + length_prefixed(plan)
}

/// Encodes what a datanode needs to run a query on some of its regions.
pub fn encode_ticket(query_id: &str, region_ids: &[RegionId], serialized_plan: &[u8]) -> (r: Result<
    Vec<u8>,
    DistributedError,
>)
    ensures
        r matches Ok(b) && b@ == ticket_bytes(query_id.spec_bytes(), raw_region_ids(region_ids@), serialized_plan@),
{
    let mut ticket: Vec<u8> = Vec::new();
    push_length_prefixed(&mut ticket, query_id.as_bytes());
    let ghost start = ticket@;
    let count: u32 = #[verifier::truncate] (region_ids.len() as u32);
    let count_bytes = u32_to_le_bytes(count);
    ticket.extend_from_slice(count_bytes.as_slice());
    assert(ticket@ =~= start + spec_u32_to_le_bytes(count));
    let ghost head = ticket@;
    let mut i: usize = 0;
    while i < region_ids.len()
        invariant
            i <= region_ids@.len(),
            ticket@ == head + region_id_bytes(raw_region_ids(region_ids@).take(i as int)),
        decreases region_ids.len() - i,
    {
        let id_bytes = u64_to_le_bytes(region_ids[i].0);
        ticket.extend_from_slice(id_bytes.as_slice());
        proof {
            let ids = raw_region_ids(region_ids@);
            assert(ids.take(i as int + 1).drop_last() =~= ids.take(i as int));
            assert(ids.take(i as int + 1).last() == region_ids@[i as int].0);
        }
        i = i + 1;
        assert(ticket@ =~= head + region_id_bytes(raw_region_ids(region_ids@).take(i as int)));
    }
    assert(raw_region_ids(region_ids@).take(i as int) =~= raw_region_ids(region_ids@));
    push_length_prefixed(&mut ticket, serialized_plan);
    assert(ticket@ =~= ticket_bytes(query_id.spec_bytes(), raw_region_ids(region_ids@), serialized_plan@));
    Ok(ticket)
}

/// The state of a query whose flight information came back with the given
/// number of endpoints: none yet means it is still pending.
pub open spec fn status_of_flight_info(endpoint_count: nat) -> QueryStatus {
    if endpoint_count == 0 {
        QueryStatus::Pending
    } else {
        QueryStatus::Completed
    }
}

/// The state of a query whose flight information was refused with the
/// given message.
pub open spec fn status_of_error_message(message: Seq<char>) -> QueryStatus {
    if text_contains(message, "not found"@) {
        QueryStatus::Pending
    } else if text_contains(message, "failed"@) || text_contains(message, "error"@) {
        QueryStatus::Failed
    } else if text_contains(message, "cancelled"@) {
        QueryStatus::Cancelled
    } else {
        QueryStatus::Running
    }
}

/// The state of a query whose flight information has this many endpoints.
pub fn query_status_from_flight_info(endpoint_count: usize) -> (s: QueryStatus)
    ensures
        s == status_of_flight_info(endpoint_count as nat),
{
    if endpoint_count == 0 {
        QueryStatus::Pending
    } else {
        QueryStatus::Completed
    }
}

/// The state of a query whose flight information was refused with this message.
pub fn query_status_from_error(message: &str) -> (s: QueryStatus)
    ensures
        s == status_of_error_message(message@),
{
    let m = str_to_chars(message);
    if chars_contain(&m, &str_to_chars("not found")) {
        QueryStatus::Pending
    } else if chars_contain(&m, &str_to_chars("failed")) || chars_contain(&m, &str_to_chars("error")) {
        QueryStatus::Failed
    } else if chars_contain(&m, &str_to_chars("cancelled")) {
        QueryStatus::Cancelled
    } else {
        QueryStatus::Running
    }
}

/// A command for a query: its verb, a colon, and the query id.
pub open spec fn query_command(verb: Seq<char>, query_id: Seq<char>) -> Seq<char> {
    verb + ":"@ + query_id
}

/// The command that asks for the state of a query.
pub fn status_command(query_id: &str) -> (c: String)
    ensures
        c@ == query_command("status"@, query_id@),
{
    let mut c = String::from_str("status:");
    c.append(query_id);
    proof {
        reveal_strlit("status:");
        reveal_strlit("status");
        reveal_strlit(":");
    }
    assert(c@ =~= query_command("status"@, query_id@));
    c
}

/// The command that cancels a query.
pub fn cancel_command(query_id: &str) -> (c: String)
    ensures
        c@ == query_command("cancel"@, query_id@),
{
    let mut c = String::from_str("cancel:");
    c.append(query_id);
    proof {
        reveal_strlit("cancel:");
        reveal_strlit("cancel");
        reveal_strlit(":");
    }
    assert(c@ =~= query_command("cancel"@, query_id@));
    c
}

} // verus!
