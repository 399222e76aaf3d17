use market_api::codec::DecodeError;
use market_api::dispatch::{handle, prepare, Action};
use market_api::handlers::{
    index_reply, rejection_status, reply_for, reply_status, Reply, StoreResult, SERVICE_BANNER,
};
use market_api::router::{route, split_path, Endpoint, Method, Plan, Rejection};
use std::collections::HashMap;

const SECRET: &[u8] = b"s3cr3t";

fn plan(m: Method, path: &str, credential: Option<&[u8]>) -> Result<Plan, Rejection> {
    route(SECRET, m, path.as_bytes(), credential)
}

fn endpoint(m: Method, path: &str, credential: Option<&[u8]>) -> Result<Endpoint, Rejection> {
    plan(m, path, credential).map(|p| p.endpoint)
}

#[test]
fn split_path_segments() {
    assert_eq!(split_path(b"/"), Some(vec![]));
    assert_eq!(split_path(b"/res"), Some(vec![b"res".to_vec()]));
    assert_eq!(split_path(b"/res/"), Some(vec![b"res".to_vec()]));
    assert_eq!(split_path(b"/res/foo"), Some(vec![b"res".to_vec(), b"foo".to_vec()]));
    assert_eq!(split_path(b"/a//b"), Some(vec![b"a".to_vec(), b"".to_vec(), b"b".to_vec()]));
    assert_eq!(split_path(b"res"), None);
    assert_eq!(split_path(b""), None);
}

#[test]
fn public_routes() {
    assert_eq!(endpoint(Method::Get, "/", None), Ok(Endpoint::Index));
    assert_eq!(endpoint(Method::Get, "/resEditor", None), Ok(Endpoint::ResourceEditor));
    assert_eq!(endpoint(Method::Get, "/res/foo", None), Ok(Endpoint::GetResource));
    assert_eq!(endpoint(Method::Get, "/file/foo", None), Ok(Endpoint::GetFile));
    assert_eq!(endpoint(Method::Get, "/all", None), Ok(Endpoint::Items));
}

#[test]
fn authenticated_routes_without_credential() {
    let cases = [
        (Method::Get, "/res"),
        (Method::Post, "/res"),
        (Method::Delete, "/res/foo"),
        (Method::Get, "/file"),
        (Method::Put, "/file/foo"),
        (Method::Delete, "/file/foo"),
    ];
    for (m, p) in cases {
        assert_eq!(endpoint(m, p, None), Err(Rejection::Unauthorized));
        assert_eq!(endpoint(m, p, Some(b"wrong")), Err(Rejection::Unauthorized));
        assert_eq!(endpoint(m, p, Some(b"s3cr3")), Err(Rejection::Unauthorized));
    }
}

#[test]
fn authenticated_routes_with_secret() {
    let s = Some(SECRET);
    assert_eq!(endpoint(Method::Get, "/res", s), Ok(Endpoint::GetAllResources));
    assert_eq!(endpoint(Method::Post, "/res", s), Ok(Endpoint::PostResource));
    assert_eq!(endpoint(Method::Delete, "/res/foo", s), Ok(Endpoint::DeleteResource));
    assert_eq!(endpoint(Method::Get, "/file", s), Ok(Endpoint::GetAllFiles));
    assert_eq!(endpoint(Method::Put, "/file/foo", s), Ok(Endpoint::UploadFile));
    assert_eq!(endpoint(Method::Delete, "/file/foo", s), Ok(Endpoint::DeleteFile));
}

#[test]
fn res_one_and_res_all_differ() {
    assert_eq!(endpoint(Method::Get, "/res/foo", None), Ok(Endpoint::GetResource));
    assert_eq!(endpoint(Method::Get, "/res", None), Err(Rejection::Unauthorized));
    assert_eq!(endpoint(Method::Get, "/res", Some(SECRET)), Ok(Endpoint::GetAllResources));
}

#[test]
fn wrong_method_and_wrong_path() {
    assert_eq!(endpoint(Method::Post, "/", None), Err(Rejection::MethodNotAllowed));
    assert_eq!(endpoint(Method::Put, "/res", Some(SECRET)), Err(Rejection::MethodNotAllowed));
    assert_eq!(endpoint(Method::Post, "/file/x", Some(SECRET)), Err(Rejection::MethodNotAllowed));
    assert_eq!(endpoint(Method::Other, "/all", None), Err(Rejection::MethodNotAllowed));
    assert_eq!(endpoint(Method::Get, "/nope", None), Err(Rejection::NotFound));
    assert_eq!(endpoint(Method::Get, "/res/a/b", None), Err(Rejection::NotFound));
    assert_eq!(endpoint(Method::Get, "/all/x", None), Err(Rejection::NotFound));
}

#[test]
fn bad_keys() {
    assert_eq!(
        endpoint(Method::Get, "/res/%4", None),
        Err(Rejection::BadKey(DecodeError::InvalidEncoding))
    );
    assert_eq!(endpoint(Method::Get, "/res//", None), Err(Rejection::BadKey(DecodeError::Empty)));
    assert_eq!(endpoint(Method::Get, "/res/a%2Fb", None), Err(Rejection::NotFound));
}

#[test]
fn decoded_key_is_in_plan() {
    let p = plan(Method::Get, "/res/hello%20world", None).unwrap();
    assert_eq!(p.key, Some(b"hello world".to_vec()));
    let p = plan(Method::Get, "/res", Some(SECRET)).unwrap();
    assert_eq!(p.key, None);
}

#[test]
fn delete_of_absent_key_is_success() {
    let p = plan(Method::Delete, "/res/never", Some(SECRET)).unwrap();
    assert_eq!(prepare(p, vec![], b""), Ok(Action::DeleteResource(b"never".to_vec())));
    let r = reply_for(Endpoint::DeleteResource, StoreResult::Missing);
    assert_eq!(r, Reply::Ack);
    assert_eq!(reply_status(&r), 200);
    assert_eq!(reply_for(Endpoint::DeleteFile, StoreResult::Missing), Reply::Ack);
}

#[test]
fn read_of_absent_key_is_not_found() {
    let r = reply_for(Endpoint::GetResource, StoreResult::Missing);
    assert_eq!(r, Reply::NotFound);
    assert_eq!(reply_status(&r), 404);
}

#[test]
fn store_failure_is_server_error() {
    let r = reply_for(Endpoint::GetAllFiles, StoreResult::Failed);
    assert_eq!(r, Reply::ServerError);
    assert_eq!(reply_status(&r), 500);
}

#[test]
fn malformed_json_is_bad_body() {
    let p = plan(Method::Post, "/res", Some(SECRET)).unwrap();
    assert_eq!(prepare(p, b"{\"a\": ".to_vec(), b""), Err(Rejection::BadBody));
    let p = plan(Method::Post, "/res", Some(SECRET)).unwrap();
    assert_eq!(prepare(p, b"not json".to_vec(), b""), Err(Rejection::BadBody));
    assert_eq!(rejection_status(Rejection::BadBody), 400);
}

#[test]
fn well_formed_json_is_put() {
    let body = b"{\"key\": \"a\", \"n\": [1, 2]}".to_vec();
    let p = plan(Method::Post, "/res", Some(SECRET)).unwrap();
    assert_eq!(prepare(p, body.clone(), b""), Ok(Action::PutResource(body)));
}

#[test]
fn upload_takes_any_bytes() {
    let body: Vec<u8> = vec![0, 159, 146, 150, 255];
    let p = plan(Method::Put, "/file/x", Some(SECRET)).unwrap();
    assert_eq!(prepare(p, body.clone(), b""), Ok(Action::UploadFile(b"x".to_vec(), body)));
}

#[test]
fn rejection_statuses() {
    assert_eq!(rejection_status(Rejection::NotFound), 404);
    assert_eq!(rejection_status(Rejection::MethodNotAllowed), 405);
    assert_eq!(rejection_status(Rejection::Unauthorized), 401);
    assert_eq!(rejection_status(Rejection::BadKey(DecodeError::Empty)), 400);
}

#[test]
fn index_banner() {
    let p = plan(Method::Get, "/", None).unwrap();
    assert_eq!(prepare(p, vec![], b""), Ok(Action::Index));
    assert_eq!(SERVICE_BANNER, "Market API Server");
    let r = index_reply();
    assert_eq!(r, Reply::Payload(b"Market API Server".to_vec()));
    assert_eq!(reply_status(&r), 200);
}

fn perform(files: &mut HashMap<Vec<u8>, Vec<u8>>, a: Action) -> Reply {
    match a {
        Action::UploadFile(k, b) => {
            files.insert(k, b);
            reply_for(Endpoint::UploadFile, StoreResult::Done)
        }
        Action::GetFile(k) => match files.get(&k) {
            Some(b) => reply_for(Endpoint::GetFile, StoreResult::Found(b.clone())),
            None => reply_for(Endpoint::GetFile, StoreResult::Missing),
        },
        _ => panic!("unexpected action"),
    }
}

#[test]
fn upload_then_read_file() {
    let mut files: HashMap<Vec<u8>, Vec<u8>> = HashMap::new();
    let body = b"%PDF-1.4 bytes".to_vec();
    let p = route(b"s3cr3t", Method::Put, b"/file/report%2Epdf", Some(b"s3cr3t")).unwrap();
    let a = prepare(p, body.clone(), b"").unwrap();
    assert_eq!(a, Action::UploadFile(b"report.pdf".to_vec(), body.clone()));
    assert_eq!(perform(&mut files, a), Reply::Ack);
    assert_eq!(files.get(&b"report.pdf".to_vec()), Some(&body));
    let p = route(b"s3cr3t", Method::Get, b"/file/report%2Epdf", None).unwrap();
    let a = prepare(p, vec![], b"").unwrap();
    assert_eq!(perform(&mut files, a), Reply::Payload(body));
}

#[test]
fn items_query_is_passed_through() {
    let p = plan(Method::Get, "/all", None).unwrap();
    let a = prepare(p, vec![], b"type=foo&limit=5").unwrap();
    assert_eq!(
        a,
        Action::ListItems(vec![
            (b"type".to_vec(), b"foo".to_vec()),
            (b"limit".to_vec(), b"5".to_vec()),
        ])
    );
}

#[test]
fn keys_must_be_utf8() {
    assert_eq!(
        endpoint(Method::Get, "/res/%FF", None),
        Err(Rejection::BadKey(DecodeError::InvalidEncoding))
    );
    let p = plan(Method::Get, "/file/caf%C3%A9", None).unwrap();
    assert_eq!(p.key, Some("caf\u{e9}".as_bytes().to_vec()));
}

#[test]
fn authentication_runs_before_body_guard() {
    assert_eq!(
        handle(SECRET, Method::Post, b"/res", None, b"{bad".to_vec(), b""),
        Err(Rejection::Unauthorized)
    );
    assert_eq!(
        handle(SECRET, Method::Post, b"/res", Some(SECRET), b"{bad".to_vec(), b""),
        Err(Rejection::BadBody)
    );
    assert_eq!(
        handle(SECRET, Method::Post, b"/res", Some(SECRET), b"[1]".to_vec(), b""),
        Ok(Action::PutResource(b"[1]".to_vec()))
    );
}
