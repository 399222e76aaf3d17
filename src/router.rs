use vstd::prelude::*;
use crate::auth::{authorized, check, credential_view, AuthOutcome};
use crate::codec::{decode, decode_result, utf8_valid, DecodeError};
use vstd::utf8::valid_utf8;

verus! {

/// The byte `/`, which separates path segments.
pub const SLASH: u8 = 47;

/// The request methods that the routes tell apart.
#[derive(Debug, Clone, Copy, PartialEq, Eq, Structural)]
pub enum Method {
    Get,
    Post,
    Put,
    Delete,
    Other,
}

/// The operation that a route is bound to.
#[derive(Debug, Clone, Copy, PartialEq, Eq, Structural)]
pub enum Endpoint {
    Index,
    ResourceEditor,
    GetResource,
    GetAllResources,
    PostResource,
    DeleteResource,
    GetFile,
    GetAllFiles,
    UploadFile,
    DeleteFile,
    Items,
}

/// Why no route takes a request.
#[derive(Debug, Clone, Copy, PartialEq, Eq, Structural)]
pub enum RouteError {
    /// No route has this path.
    NotFound,
    /// Routes have this path, none with this method.
    MethodNotAllowed,
}

/// What the body-decoding guard of a route reads.
#[derive(Debug, Clone, Copy, PartialEq, Eq, Structural)]
pub enum BodyKind {
    NoBody,
    Json,
    Bytes,
}

pub open spec fn needs_auth(e: Endpoint) -> bool {
    match e {
        Endpoint::GetAllResources | Endpoint::PostResource | Endpoint::DeleteResource
        | Endpoint::GetAllFiles | Endpoint::UploadFile | Endpoint::DeleteFile => true,
        _ => false,
    }
}

/// Endpoints whose route ends in a captured key segment.
pub open spec fn takes_key(e: Endpoint) -> bool {
    match e {
        Endpoint::GetResource | Endpoint::DeleteResource | Endpoint::GetFile
        | Endpoint::UploadFile | Endpoint::DeleteFile => true,
        _ => false,
    }
}

pub open spec fn body_kind(e: Endpoint) -> BodyKind {
    match e {
        Endpoint::PostResource => BodyKind::Json,
        Endpoint::UploadFile => BodyKind::Bytes,
        _ => BodyKind::NoBody,
    }
}

/// Whether the route of `e` sits behind the authentication guard.
pub fn requires_auth(e: Endpoint) -> (r: bool)
    ensures
        r == needs_auth(e),
{
    match e {
        Endpoint::GetAllResources | Endpoint::PostResource | Endpoint::DeleteResource
        | Endpoint::GetAllFiles | Endpoint::UploadFile | Endpoint::DeleteFile => true,
        _ => false,
    }
}

/// Whether the route of `e` captures a key segment.
pub fn captures_key(e: Endpoint) -> (r: bool)
    ensures
        r == takes_key(e),
{
    match e {
        Endpoint::GetResource | Endpoint::DeleteResource | Endpoint::GetFile
        | Endpoint::UploadFile | Endpoint::DeleteFile => true,
        _ => false,
    }
}

pub open spec fn lit_res_editor() -> Seq<u8> {
    seq![114u8, 101u8, 115u8, 69u8, 100u8, 105u8, 116u8, 111u8, 114u8]
}

pub open spec fn lit_res() -> Seq<u8> {
    seq![114u8, 101u8, 115u8]
}

pub open spec fn lit_file() -> Seq<u8> {
    seq![102u8, 105u8, 108u8, 101u8]
}

pub open spec fn lit_all() -> Seq<u8> {
    seq![97u8, 108u8, 108u8]
}

/// `s` cut at every `/`; an empty `s` is one empty segment.
pub open spec fn split_slash(s: Seq<u8>) -> Seq<Seq<u8>>
    decreases s.len(),
{
    if s.len() == 0 {
        seq![Seq::empty()]
    } else {
        let r = split_slash(s.drop_last());
        if s.last() == SLASH {
            r.push(Seq::empty())
        } else {
            r.update(r.len() - 1, r.last().push(s.last()))
        }
    }
}

/// The segments of a request path: it starts with `/`, and one trailing `/` is ignored.
pub open spec fn path_segments(p: Seq<u8>) -> Option<Seq<Seq<u8>>> {
    if p.len() == 0 || p[0] != SLASH {
        None
    } else {
        let s = split_slash(p.skip(1));
        if s.last().len() == 0 {
            Some(s.drop_last())
        } else {
            Some(s)
        }
    }
}

/// The route table: the endpoint for a method and a path, or why there is none.
pub open spec fn resolve(m: Method, segs: Seq<Seq<u8>>) -> Result<Endpoint, RouteError> {
    if segs.len() == 0 {
        if m == Method::Get {
            Ok(Endpoint::Index)
        } else {
            Err(RouteError::MethodNotAllowed)
        }
    } else if segs.len() == 1 && segs[0] == lit_res_editor() {
        if m == Method::Get {
            Ok(Endpoint::ResourceEditor)
        } else {
            Err(RouteError::MethodNotAllowed)
        }
    } else if segs.len() == 1 && segs[0] == lit_res() {
        match m {
            Method::Get => Ok(Endpoint::GetAllResources),
            Method::Post => Ok(Endpoint::PostResource),
            _ => Err(RouteError::MethodNotAllowed),
        }
    } else if segs.len() == 2 && segs[0] == lit_res() {
        match m {
            Method::Get => Ok(Endpoint::GetResource),
            Method::Delete => Ok(Endpoint::DeleteResource),
            _ => Err(RouteError::MethodNotAllowed),
        }
    } else if segs.len() == 1 && segs[0] == lit_file() {
        if m == Method::Get {
            Ok(Endpoint::GetAllFiles)
        } else {
            Err(RouteError::MethodNotAllowed)
        }
    } else if segs.len() == 2 && segs[0] == lit_file() {
        match m {
            Method::Get => Ok(Endpoint::GetFile),
            Method::Put => Ok(Endpoint::UploadFile),
            Method::Delete => Ok(Endpoint::DeleteFile),
            _ => Err(RouteError::MethodNotAllowed),
        }
    } else if segs.len() == 1 && segs[0] == lit_all() {
        if m == Method::Get {
            Ok(Endpoint::Items)
        } else {
            Err(RouteError::MethodNotAllowed)
        }
    } else {
        Err(RouteError::NotFound)
    }
}

pub open spec fn segments_view(v: Seq<Vec<u8>>) -> Seq<Seq<u8>> {
    v.map_values(|x: Vec<u8>| x@)
}

proof fn lemma_split_nonempty(s: Seq<u8>)
    ensures
        split_slash(s).len() >= 1,
    decreases s.len(),
{
    if s.len() > 0 {
        lemma_split_nonempty(s.drop_last());
    }
}

/// Splits a request path into its segments.
pub fn split_path(p: &[u8]) -> (r: Option<Vec<Vec<u8>>>)
    ensures
        match r {
            Some(v) => path_segments(p@) == Some(segments_view(v@)),
            None => path_segments(p@).is_none(),
        },
{
    if p.len() == 0 || p[0] != SLASH {
        return None;
    }
    let mut done: Vec<Vec<u8>> = Vec::new();
    let mut cur: Vec<u8> = Vec::new();
    let mut i: usize = 1;
    assert(p@.subrange(1, 1) =~= Seq::<u8>::empty());
    assert(segments_view(done@).push(cur@) =~= split_slash(p@.subrange(1, 1)));
    while i < p.len()
        invariant
            1 <= i <= p@.len(),
            segments_view(done@).push(cur@) == split_slash(p@.subrange(1, i as int)),
        decreases p@.len() - i,
    {
        let ghost before = p@.subrange(1, i as int);
        assert(p@.subrange(1, i + 1).drop_last() =~= before);
        proof {
            lemma_split_nonempty(before);
        }
        if p[i] == SLASH {
            let ghost old_done = done@;
            let finished = cur;
            done.push(finished);
            cur = Vec::new();
            assert(segments_view(done@) =~= segments_view(old_done).push(finished@));
        } else {
            cur.push(p[i]);
        }
        i = i + 1;
        assert(segments_view(done@).push(cur@) =~= split_slash(p@.subrange(1, i as int)));
    }
    assert(p@.subrange(1, i as int) =~= p@.skip(1));
    if cur.len() > 0 {
        let ghost old_done = done@;
        done.push(cur);
        assert(segments_view(done@) =~= segments_view(old_done).push(cur@));
    } else {
        assert(segments_view(done@) =~= segments_view(done@).push(cur@).drop_last());
    }
    Some(done)
}

/// Compares a segment with a literal.
pub(crate) fn seg_is(seg: &[u8], lit: &[u8]) -> (r: bool)
    ensures
        r == (seg@ == lit@),
{
    if seg.len() != lit.len() {
        return false;
    }
    let mut i: usize = 0;
    while i < seg.len()
        invariant
            seg@.len() == lit@.len(),
            i <= seg@.len(),
            forall|j: int| 0 <= j < i ==> seg@[j] == lit@[j],
        decreases seg@.len() - i,
    {
        if seg[i] != lit[i] {
            return false;
        }
        i = i + 1;
    }
    assert(seg@ =~= lit@);
    true
}

/// Finds the endpoint for a method and the segments of a path.
pub fn resolve_route(m: Method, segs: &Vec<Vec<u8>>) -> (r: Result<Endpoint, RouteError>)
    ensures
        r == resolve(m, segments_view(segs@)),
{
    let ghost sv = segments_view(segs@);
    let n = segs.len();
    if n == 0 {
        return if m == Method::Get {
            Ok(Endpoint::Index)
        } else {
            Err(RouteError::MethodNotAllowed)
        };
    }
    if n > 2 {
        return Err(RouteError::NotFound);
    }
    let first = segs[0].as_slice();
    assert(sv[0] == first@);
    let lit_editor: [u8; 9] = [114u8, 101u8, 115u8, 69u8, 100u8, 105u8, 116u8, 111u8, 114u8];
    let lit_r: [u8; 3] = [114u8, 101u8, 115u8];
    let lit_f: [u8; 4] = [102u8, 105u8, 108u8, 101u8];
    let lit_a: [u8; 3] = [97u8, 108u8, 108u8];
    assert(lit_editor@ =~= lit_res_editor());
    assert(lit_r@ =~= lit_res());
    assert(lit_f@ =~= lit_file());
    assert(lit_a@ =~= lit_all());
    if n == 1 && seg_is(first, lit_editor.as_slice()) {
        if m == Method::Get {
            Ok(Endpoint::ResourceEditor)
        } else {
            Err(RouteError::MethodNotAllowed)
        }
    } else if seg_is(first, lit_r.as_slice()) {
        if n == 1 {
            match m {
                Method::Get => Ok(Endpoint::GetAllResources),
                Method::Post => Ok(Endpoint::PostResource),
                _ => Err(RouteError::MethodNotAllowed),
            }
        } else {
            match m {
                Method::Get => Ok(Endpoint::GetResource),
                Method::Delete => Ok(Endpoint::DeleteResource),
                _ => Err(RouteError::MethodNotAllowed),
            }
        }
    } else if seg_is(first, lit_f.as_slice()) {
        if n == 1 {
            if m == Method::Get {
                Ok(Endpoint::GetAllFiles)
            } else {
                Err(RouteError::MethodNotAllowed)
            }
        } else {
            match m {
                Method::Get => Ok(Endpoint::GetFile),
                Method::Put => Ok(Endpoint::UploadFile),
                Method::Delete => Ok(Endpoint::DeleteFile),
                _ => Err(RouteError::MethodNotAllowed),
            }
        }
    } else if n == 1 && seg_is(first, lit_a.as_slice()) {
        if m == Method::Get {
            Ok(Endpoint::Items)
        } else {
            Err(RouteError::MethodNotAllowed)
        }
    } else {
        Err(RouteError::NotFound)
    }
}

/// Why a request is turned away before its handler runs.
#[derive(Debug, Clone, Copy, PartialEq, Eq, Structural)]
pub enum Rejection {
    NotFound,
    MethodNotAllowed,
    /// The key segment is not a well-formed percent-encoded key, or does not decode
    /// to UTF-8 text.
    BadKey(DecodeError),
    /// The route is authenticated and the credential is missing or wrong.
    Unauthorized,
    /// The body of a JSON route is not well-formed JSON.
    BadBody,
}

/// A request that has passed routing, key decoding and authentication.
#[derive(Debug, PartialEq, Eq)]
pub struct Plan {
    pub endpoint: Endpoint,
    /// The decoded key, for the endpoints that capture one.
    pub key: Option<Vec<u8>>,
}

pub open spec fn plan_view(p: Plan) -> (Endpoint, Option<Seq<u8>>) {
    (
        p.endpoint,
        match p.key {
            Some(k) => Some(k@),
            None => None,
        },
    )
}

/// The authentication guard: it runs after the route is known and before anything else.
pub open spec fn gate(
    secret: Seq<u8>,
    credential: Option<Seq<u8>>,
    e: Endpoint,
    key: Option<Seq<u8>>,
) -> Result<(Endpoint, Option<Seq<u8>>), Rejection> {
    if needs_auth(e) && !authorized(secret, credential) {
        Err(Rejection::Unauthorized)
    } else {
        Ok((e, key))
    }
}

/// What routing makes of a request: the endpoint and its key, or the rejection.
pub open spec fn route_result(
    secret: Seq<u8>,
    m: Method,
    path: Seq<u8>,
    credential: Option<Seq<u8>>,
) -> Result<(Endpoint, Option<Seq<u8>>), Rejection> {
    match path_segments(path) {
        None => Err(Rejection::NotFound),
        Some(segs) => match resolve(m, segs) {
            Err(RouteError::NotFound) => Err(Rejection::NotFound),
            Err(RouteError::MethodNotAllowed) => Err(Rejection::MethodNotAllowed),
            Ok(e) => if takes_key(e) {
                match decode_result(segs[1]) {
                    Err(d) => Err(Rejection::BadKey(d)),
                    Ok(k) => if !valid_utf8(k) {
                        Err(Rejection::BadKey(DecodeError::InvalidEncoding))
                    } else if k.contains(SLASH) {
                        Err(Rejection::NotFound)
                    } else {
                        gate(secret, credential, e, Some(k))
                    },
                }
            } else {
                gate(secret, credential, e, None)
            },
        },
    }
}

fn contains_slash(k: &Vec<u8>) -> (r: bool)
    ensures
        r == k@.contains(SLASH),
{
    let mut i: usize = 0;
    while i < k.len()
        invariant
            i <= k@.len(),
            forall|j: int| 0 <= j < i ==> k@[j] != SLASH,
        decreases k@.len() - i,
    {
        if k[i] == SLASH {
            assert(k@[i as int] == SLASH);
            return true;
        }
        i = i + 1;
    }
    false
}

fn apply_gate(secret: &[u8], credential: Option<&[u8]>, e: Endpoint, key: Option<Vec<u8>>) -> (r:
    Result<Plan, Rejection>)
    ensures
        match r {
            Ok(p) => gate(secret@, credential_view(credential), e, plan_view(
                Plan { endpoint: e, key },
            ).1) == Ok::<(Endpoint, Option<Seq<u8>>), Rejection>(plan_view(p)),
            Err(j) => gate(secret@, credential_view(credential), e, plan_view(
                Plan { endpoint: e, key },
            ).1) == Err::<(Endpoint, Option<Seq<u8>>), Rejection>(j),
        },
{
    if requires_auth(e) {
        if check(secret, credential) == AuthOutcome::Unauthorized {
            return Err(Rejection::Unauthorized);
        }
    }
    Ok(Plan { endpoint: e, key })
}

/// Matches a request to its route and runs the guards that come before the body:
/// key decoding, then authentication against `secret`.
pub fn route(secret: &[u8], m: Method, path: &[u8], credential: Option<&[u8]>) -> (r: Result<
    Plan,
    Rejection,
>)
    ensures
        match r {
            Ok(p) => route_result(secret@, m, path@, credential_view(credential)) == Ok::<
                (Endpoint, Option<Seq<u8>>),
                Rejection,
            >(plan_view(p)),
            Err(j) => route_result(secret@, m, path@, credential_view(credential)) == Err::<
                (Endpoint, Option<Seq<u8>>),
                Rejection,
            >(j),
        },
{
    let segs = match split_path(path) {
        None => return Err(Rejection::NotFound),
        Some(s) => s,
    };
    let ghost sv = segments_view(segs@);
    let e = match resolve_route(m, &segs) {
        Err(RouteError::NotFound) => return Err(Rejection::NotFound),
        Err(RouteError::MethodNotAllowed) => return Err(Rejection::MethodNotAllowed),
        Ok(e) => e,
    };
    if captures_key(e) {
        assert(sv[1] == segs@[1]@);
        match decode(segs[1].as_slice()) {
            Err(d) => Err(Rejection::BadKey(d)),
            Ok(k) => {
                if !utf8_valid(k.as_slice()) {
                    Err(Rejection::BadKey(DecodeError::InvalidEncoding))
                } else if contains_slash(&k) {
                    Err(Rejection::NotFound)
                } else {
                    apply_gate(secret, credential, e, Some(k))
                }
            },
        }
    } else {
        apply_gate(secret, credential, e, None)
    }
}

/// A request that carries no credential is refused as Unauthorized by every
/// authenticated route that it reaches, and is never routed to an authenticated
/// endpoint, so it never reaches the store behind one.
pub proof fn law_no_credential_is_unauthorized(secret: Seq<u8>, m: Method, path: Seq<u8>)
    ensures
        match route_result(secret, m, path, None) {
            Ok(x) => !needs_auth(x.0),
            Err(_) => true,
        },
        match route_result(secret, m, path, Some(secret)) {
            Ok(x) => needs_auth(x.0) ==> route_result(secret, m, path, None) == Err::<
                (Endpoint, Option<Seq<u8>>),
                Rejection,
            >(Rejection::Unauthorized),
            Err(_) => true,
        },
{
}

/// With the right credential a request is never turned away as Unauthorized, and it
/// is routed wherever any credential, or none, would let it be routed.
pub proof fn law_secret_proceeds(
    secret: Seq<u8>,
    m: Method,
    path: Seq<u8>,
    credential: Option<Seq<u8>>,
)
    ensures
        route_result(secret, m, path, Some(secret)) != Err::<
            (Endpoint, Option<Seq<u8>>),
            Rejection,
        >(Rejection::Unauthorized),
        route_result(secret, m, path, credential) is Ok ==> route_result(
            secret,
            m,
            path,
            Some(secret),
        ) == route_result(secret, m, path, credential),
{
}

/// `GET /res/{key}` and `GET /res` go to different endpoints: the first reads one
/// resource and is public, the second lists them all and is authenticated.
pub proof fn law_res_routes_differ(key: Seq<u8>)
    ensures
        resolve(Method::Get, seq![lit_res(), key]) == Ok::<Endpoint, RouteError>(
            Endpoint::GetResource,
        ),
        resolve(Method::Get, seq![lit_res()]) == Ok::<Endpoint, RouteError>(
            Endpoint::GetAllResources,
        ),
        !needs_auth(Endpoint::GetResource),
        needs_auth(Endpoint::GetAllResources),
{
    assert(lit_res().len() != lit_res_editor().len());
    assert(lit_res().len() != lit_file().len());
}

} // verus!
