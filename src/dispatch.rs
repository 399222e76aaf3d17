use vstd::prelude::*;
use crate::body::{is_json, json_well_formed};
use crate::query::{is_query_map, pairs_view, parse_query, query_pairs};
use crate::auth::credential_view;
use crate::router::{
    body_kind, plan_view, route, route_result, takes_key, BodyKind, Endpoint, Method, Plan,
    Rejection,
};

verus! {

/// The call that a request makes on its store, with everything the call needs.
#[derive(Debug, PartialEq, Eq)]
pub enum Action {
    Index,
    ResourceEditor,
    GetResource(Vec<u8>),
    GetAllResources,
    PutResource(Vec<u8>),
    DeleteResource(Vec<u8>),
    GetFile(Vec<u8>),
    GetAllFiles,
    UploadFile(Vec<u8>, Vec<u8>),
    DeleteFile(Vec<u8>),
    /// The listing is deliberately public: it sits behind no authentication guard.
    ListItems(Vec<(Vec<u8>, Vec<u8>)>),
}

/// `a` is the call for endpoint `e` with key `key`, request body `body` and query `query`.
pub open spec fn action_fits(
    a: Action,
    e: Endpoint,
    key: Option<Seq<u8>>,
    body: Seq<u8>,
    query: Seq<u8>,
) -> bool {
    match a {
        Action::Index => e == Endpoint::Index,
        Action::ResourceEditor => e == Endpoint::ResourceEditor,
        Action::GetResource(k) => e == Endpoint::GetResource && key == Some(k@),
        Action::GetAllResources => e == Endpoint::GetAllResources,
        Action::PutResource(b) => e == Endpoint::PostResource && b@ == body,
        Action::DeleteResource(k) => e == Endpoint::DeleteResource && key == Some(k@),
        Action::GetFile(k) => e == Endpoint::GetFile && key == Some(k@),
        Action::GetAllFiles => e == Endpoint::GetAllFiles,
        Action::UploadFile(k, b) => e == Endpoint::UploadFile && key == Some(k@) && b@ == body,
        Action::DeleteFile(k) => e == Endpoint::DeleteFile && key == Some(k@),
        Action::ListItems(m) => e == Endpoint::Items && is_query_map(
            pairs_view(m@),
            query_pairs(query),
        ),
    }
}

/// The body-decoding guard, which runs once routing and authentication have passed:
/// the JSON route takes only well-formed JSON, the upload route takes any bytes.
pub open spec fn body_rejection(e: Endpoint, key: Option<Seq<u8>>, body: Seq<u8>) -> Option<
    Rejection,
> {
    if takes_key(e) && key is None {
        Some(Rejection::NotFound)
    } else if body_kind(e) == BodyKind::Json && !is_json(body) {
        Some(Rejection::BadBody)
    } else {
        None
    }
}

/// Turns a routed request into the store call it makes, after the body guard.
pub fn prepare(plan: Plan, body: Vec<u8>, query: &[u8]) -> (r: Result<Action, Rejection>)
    ensures
        match r {
            Ok(a) => body_rejection(plan_view(plan).0, plan_view(plan).1, body@).is_none()
                && action_fits(a, plan_view(plan).0, plan_view(plan).1, body@, query@),
            Err(j) => body_rejection(plan_view(plan).0, plan_view(plan).1, body@) == Some(j),
        },
{
    let ghost pv = plan_view(plan);
    match plan.endpoint {
        Endpoint::Index => Ok(Action::Index),
        Endpoint::ResourceEditor => Ok(Action::ResourceEditor),
        Endpoint::GetAllResources => Ok(Action::GetAllResources),
        Endpoint::GetAllFiles => Ok(Action::GetAllFiles),
        Endpoint::PostResource => {
            if json_well_formed(body.as_slice()) {
                Ok(Action::PutResource(body))
            } else {
                Err(Rejection::BadBody)
            }
        },
        Endpoint::Items => Ok(Action::ListItems(parse_query(query))),
        Endpoint::GetResource => match plan.key {
            Some(k) => Ok(Action::GetResource(k)),
            None => Err(Rejection::NotFound),
        },
        Endpoint::DeleteResource => match plan.key {
            Some(k) => Ok(Action::DeleteResource(k)),
            None => Err(Rejection::NotFound),
        },
        Endpoint::GetFile => match plan.key {
            Some(k) => Ok(Action::GetFile(k)),
            None => Err(Rejection::NotFound),
        },
        Endpoint::UploadFile => match plan.key {
            Some(k) => Ok(Action::UploadFile(k, body)),
            None => Err(Rejection::NotFound),
        },
        Endpoint::DeleteFile => match plan.key {
            Some(k) => Ok(Action::DeleteFile(k)),
            None => Err(Rejection::NotFound),
        },
    }
}

/// A whole request, guards in their fixed order: routing, key decoding and
/// authentication first, the body guard only for a request that passed them.
pub fn handle(
    secret: &[u8],
    m: Method,
    path: &[u8],
    credential: Option<&[u8]>,
    body: Vec<u8>,
    query: &[u8],
) -> (r: Result<Action, Rejection>)
    ensures
        match route_result(secret@, m, path@, credential_view(credential)) {
            Err(j) => r == Err::<Action, Rejection>(j),
            Ok(x) => match r {
                Ok(a) => body_rejection(x.0, x.1, body@).is_none() && action_fits(
                    a,
                    x.0,
                    x.1,
                    body@,
                    query@,
                ),
                Err(j) => body_rejection(x.0, x.1, body@) == Some(j),
            },
        },
{
    match route(secret, m, path, credential) {
        Err(j) => Err(j),
        Ok(plan) => prepare(plan, body, query),
    }
}

/// A resource body that is not well-formed JSON is refused as BadBody, so no write
/// of it is ever handed to the store.
pub proof fn law_malformed_json_is_bad_body(key: Option<Seq<u8>>, body: Seq<u8>)
    requires
        !is_json(body),
    ensures
        body_rejection(Endpoint::PostResource, key, body) == Some(Rejection::BadBody),
{
}

} // verus!
