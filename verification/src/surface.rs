//! The answers of the request surface.
//!
//! A request is served in two steps. The caller asks the durable store (or,
//! for a broadcast, nobody) and hands the outcome to one of the functions
//! here, which decides what the client is told.

use crate::broadcaster::{broadcast, fan_out_of, Delivery};
use crate::models::Message;
use crate::registry::Registry;
use vstd::prelude::*;

verus! {

/// A failure of the durable store. What went wrong stays with the store:
/// no answer depends on it.
#[derive(Debug, Clone, Copy, PartialEq, Eq)]
pub struct StoreError {}

/// What an answer carries.
#[derive(Debug, PartialEq, Eq)]
pub enum Body {
    /// A plain text.
    Text(String),
    /// Message records, for the caller to encode.
    Messages(Vec<Message>),
}

/// The answer to one request: an HTTP status code and a body.
#[derive(Debug, PartialEq, Eq)]
pub struct Reply {
    pub status: u16,
    pub body: Body,
}

/// Whether `reply` has the status `status` and the plain text `text` as its
/// body.
pub open spec fn says(reply: Reply, status: u16, text: Seq<char>) -> bool {
    &&& reply.status == status
    &&& reply.body matches Body::Text(body)
    &&& body@ == text
}

/// Whether `reply` has the status 200 and the records `list` as its body.
pub open spec fn lists(reply: Reply, list: Vec<Message>) -> bool {
    &&& reply.status == 200
    &&& reply.body matches Body::Messages(body)
    &&& body == list
}

fn plain(status: u16, text: &str) -> (reply: Reply)
    ensures
        says(reply, status, text@),
{
    Reply { status, body: Body::Text(text.to_owned()) }
}

/// The answer to a request to add a message, given what the store made of
/// it: 201 if the message is stored, 500 if it is not.
pub fn reply_to_add_message(stored: &Result<Message, StoreError>) -> (reply: Reply)
    ensures
        stored is Ok ==> says(reply, 201, "Message added"@),
        stored is Err ==> says(reply, 500, "Failed to insert"@),
{
    match stored {
        Ok(_) => plain(201, "Message added"),
        Err(_) => plain(500, "Failed to insert"),
    }
}

/// The answer to a request to delete a message, given the number of
/// records that the store deleted: 200 if it was exactly one, 404 for any
/// other number, 500 if the store failed.
pub fn reply_to_delete_message(deleted: &Result<usize, StoreError>) -> (reply: Reply)
    ensures
        deleted == Ok::<usize, StoreError>(1) ==> says(reply, 200, "Deleted"@),
        deleted is Ok && deleted != Ok::<usize, StoreError>(1) ==> says(
            reply,
            404,
            "Message not found"@,
        ),
        deleted is Err ==> says(reply, 500, "DB error"@),
{
    match deleted {
        Ok(count) => {
            if *count == 1 {
                plain(200, "Deleted")
            } else {
                plain(404, "Message not found")
            }
        },
        Err(_) => plain(500, "DB error"),
    }
}

/// The answer to a request for all messages, given what the store found:
/// the records with 200, or 500 if the store failed.
pub fn reply_to_get_messages(found: Result<Vec<Message>, StoreError>) -> (reply: Reply)
    ensures
        found matches Ok(list) ==> lists(reply, list),
        found is Err ==> says(reply, 500, "DB error"@),
{
    match found {
        Ok(list) => Reply { status: 200, body: Body::Messages(list) },
        Err(_) => plain(500, "DB error"),
    }
}

/// Serves a request to broadcast `text` to every registered connection:
/// the pushes to make, and the answer, which is 200 whatever becomes of
/// the pushes. The text goes to the connections only, not to the store.
pub fn broadcast_message(registry: &Registry, text: &str) -> (served: (Vec<Delivery>, Reply))
    ensures
        served.0.deep_view() == fan_out_of(registry@, text@),
        says(served.1, 200, "Broadcasted"@),
{
    let plan = broadcast(registry, text);
    (plan, plain(200, "Broadcasted"))
}

/// The key under which the store knows the record that a request names by
/// `id`. The store keys its records by 64-bit signed integers, and a record
/// is found by its own identity alone: an `id` that fits is its own key, and
/// an `id` beyond them is the identity of no record and has no key.
pub fn record_key(id: usize) -> (key: Option<i64>)
    ensures
        id <= i64::MAX ==> key == Some(id as i64),
        id > i64::MAX ==> key is None,
{
    let wide: u64 = id as u64;
    if wide <= 0x7fff_ffff_ffff_ffff {
        Some(wide as i64)
    } else {
        None
    }
}

} // verus!
