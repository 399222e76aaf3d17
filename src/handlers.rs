use vstd::prelude::*;
use crate::router::{Endpoint, Rejection};

verus! {

/// The text that the index route answers with.
pub const SERVICE_BANNER: &'static str = "Market API Server";

/// What a store call came back with.
#[derive(Debug, PartialEq, Eq)]
pub enum StoreResult {
    /// A document, a blob or a listing.
    Found(Vec<u8>),
    /// No entity under the key.
    Missing,
    /// A write or a delete went through.
    Done,
    /// The store failed; its details stay inside.
    Failed,
}

/// What a handler answers.
#[derive(Debug, PartialEq, Eq)]
pub enum Reply {
    Payload(Vec<u8>),
    Ack,
    NotFound,
    ServerError,
}

/// The bytes of the index route's answer, "Market API Server".
pub open spec fn banner_bytes() -> Seq<u8> {
    seq![
        77u8, 97u8, 114u8, 107u8, 101u8, 116u8, 32u8, 65u8, 80u8, 73u8, 32u8, 83u8, 101u8,
        114u8, 118u8, 101u8, 114u8,
    ]
}

/// The index route's answer: a fixed text that names the service, with no store call.
pub fn index_reply() -> (r: Reply)
    ensures
        r matches Reply::Payload(b) && b@ == banner_bytes(),
{
    let b: Vec<u8> = vec![
        77u8, 97u8, 114u8, 107u8, 101u8, 116u8, 32u8, 65u8, 80u8, 73u8, 32u8, 83u8, 101u8,
        114u8, 118u8, 101u8, 114u8,
    ];
    assert(b@ =~= banner_bytes());
    Reply::Payload(b)
}

pub open spec fn is_delete(e: Endpoint) -> bool {
    e == Endpoint::DeleteResource || e == Endpoint::DeleteFile
}

pub open spec fn reply_spec(e: Endpoint, r: StoreResult) -> Reply {
    match r {
        StoreResult::Found(b) => Reply::Payload(b),
        StoreResult::Missing => if is_delete(e) {
            Reply::Ack
        } else {
            Reply::NotFound
        },
        StoreResult::Done => Reply::Ack,
        StoreResult::Failed => Reply::ServerError,
    }
}

/// The handler's answer to what its store call returned: a read of an absent key is
/// NotFound, a delete of one is success, and a store failure is an opaque server error.
pub fn reply_for(e: Endpoint, result: StoreResult) -> (r: Reply)
    ensures
        r == reply_spec(e, result),
{
    match result {
        StoreResult::Found(b) => Reply::Payload(b),
        StoreResult::Missing => {
            if e == Endpoint::DeleteResource || e == Endpoint::DeleteFile {
                Reply::Ack
            } else {
                Reply::NotFound
            }
        },
        StoreResult::Done => Reply::Ack,
        StoreResult::Failed => Reply::ServerError,
    }
}

/// Deleting a key that is absent succeeds, just as deleting a present one does.
pub proof fn law_delete_absent_is_success(e: Endpoint)
    requires
        is_delete(e),
    ensures
        reply_spec(e, StoreResult::Missing) == Reply::Ack,
        reply_spec(e, StoreResult::Done) == Reply::Ack,
{
}

pub open spec fn reply_status_spec(r: &Reply) -> u16 {
    match r {
        Reply::Payload(_) | Reply::Ack => 200,
        Reply::NotFound => 404,
        Reply::ServerError => 500,
    }
}

/// The HTTP status of a reply.
pub fn reply_status(r: &Reply) -> (s: u16)
    ensures
        s == reply_status_spec(r),
{
    match r {
        Reply::Payload(_) | Reply::Ack => 200,
        Reply::NotFound => 404,
        Reply::ServerError => 500,
    }
}

pub open spec fn rejection_status_spec(j: Rejection) -> u16 {
    match j {
        Rejection::NotFound => 404,
        Rejection::MethodNotAllowed => 405,
        Rejection::BadKey(_) | Rejection::BadBody => 400,
        Rejection::Unauthorized => 401,
    }
}

/// The HTTP status of a rejection.
pub fn rejection_status(j: Rejection) -> (s: u16)
    ensures
        s == rejection_status_spec(j),
{
    match j {
        Rejection::NotFound => 404,
        Rejection::MethodNotAllowed => 405,
        Rejection::BadKey(_) | Rejection::BadBody => 400,
        Rejection::Unauthorized => 401,
    }
}

} // verus!
