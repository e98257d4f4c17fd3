use radish::protocol::{handle_request, HttpReply, RadishSetRequest, RequestKind};
use radish::store::SafeMap;

fn reply(
    store: &mut SafeMap,
    kind: RequestKind,
    path: &str,
    body: Option<&str>,
    now: u128,
) -> HttpReply {
    handle_request(store, kind, path, body, now)
}

#[test]
fn get_missing_key_answers_null() {
    let mut m = SafeMap::new(false);
    let r = reply(&mut m, RequestKind::Get, "/missing", None, 1_000);
    assert_eq!(r.status, 200);
    assert!(r.is_json);
    assert_eq!(r.body, "{\"query\":\"missing\",\"data\":null}");
}

#[test]
fn post_stores_and_echoes_then_expires() {
    let mut m = SafeMap::new(false);
    let r = reply(
        &mut m,
        RequestKind::Post,
        "/a",
        Some("{\"value\":\"hi\",\"ttl\":1}"),
        1_000,
    );
    assert_eq!(r.status, 200);
    assert!(r.is_json);
    assert_eq!(r.body, "{\"query\":\"a\",\"data\":\"hi\"}");
    // still there just before one second has passed
    let r2 = reply(&mut m, RequestKind::Get, "/a", None, 1_999);
    assert_eq!(r2.body, "{\"query\":\"a\",\"data\":\"hi\"}");
    // one second later the entry is gone
    let r3 = reply(&mut m, RequestKind::Get, "/a", None, 2_000);
    assert_eq!(r3.status, 200);
    assert_eq!(r3.body, "{\"query\":\"a\",\"data\":null}");
}

#[test]
fn unsupported_method_is_rejected() {
    let mut m = SafeMap::new(false);
    let r = reply(&mut m, RequestKind::Other, "/a", None, 1_000);
    assert_eq!(r.status, 405);
    assert!(!r.is_json);
    assert_eq!(r.body, "Method Not Allowed");
    // no store access happened
    let r2 = reply(&mut m, RequestKind::Get, "/a", None, 1_000);
    assert_eq!(r2.body, "{\"query\":\"a\",\"data\":null}");
}

#[test]
fn post_with_empty_object_is_bad_request() {
    let mut m = SafeMap::new(false);
    let r = reply(&mut m, RequestKind::Post, "/a", Some("{}"), 1_000);
    assert_eq!(r.status, 400);
    assert_eq!(r.body, "Bad Request");
    let r2 = reply(&mut m, RequestKind::Get, "/a", None, 1_000);
    assert_eq!(r2.body, "{\"query\":\"a\",\"data\":null}");
}

#[test]
fn post_without_body_is_bad_request() {
    let mut m = SafeMap::new(false);
    let r = reply(&mut m, RequestKind::Post, "/a", None, 1_000);
    assert_eq!(r.status, 400);
}

#[test]
fn post_with_malformed_body_is_bad_request() {
    let mut m = SafeMap::new(false);
    for body in [
        "",
        "null",
        "[1,2]",
        "{\"value\":\"hi\"}",
        "{\"ttl\":1}",
        "{\"value\":\"hi\",\"ttl\":-1}",
        "{\"value\":\"hi\",\"ttl\":1.5}",
        "{\"value\":\"hi\",\"ttl\":1}trailing",
        "{\"value\":\"hi\",\"ttl\":01}",
        "{\"value\":\"hi\",\"ttl\":18446744073709551616}",
        "{\"value\":\"hi\",\"ttl\":1,\"extra\":2}",
        "{\"value\":7,\"ttl\":1}",
    ] {
        let r = reply(&mut m, RequestKind::Post, "/a", Some(body), 1_000);
        assert_eq!(r.status, 400, "body should be rejected: {}", body);
    }
}

#[test]
fn post_members_in_either_order() {
    let mut m = SafeMap::new(false);
    let r = reply(
        &mut m,
        RequestKind::Post,
        "/a",
        Some(" { \"ttl\" : 60 , \"value\" : \"x\" } "),
        1_000,
    );
    assert_eq!(r.status, 200);
    assert_eq!(r.body, "{\"query\":\"a\",\"data\":\"x\"}");
    let r2 = reply(&mut m, RequestKind::Get, "/a", None, 50_000);
    assert_eq!(r2.body, "{\"query\":\"a\",\"data\":\"x\"}");
}

#[test]
fn post_with_zero_ttl_stores_permanently() {
    let mut m = SafeMap::new(false);
    let r = reply(
        &mut m,
        RequestKind::Post,
        "/p",
        Some("{\"value\":\"v\",\"ttl\":0}"),
        1_000,
    );
    assert_eq!(r.status, 200);
    let r2 = reply(&mut m, RequestKind::Get, "/p", None, 1_000_000_000);
    assert_eq!(r2.body, "{\"query\":\"p\",\"data\":\"v\"}");
}

#[test]
fn root_path_is_informational() {
    let mut m = SafeMap::new(false);
    let r = reply(&mut m, RequestKind::Get, "/", None, 1_000);
    assert_eq!(r.status, 200);
    assert!(!r.is_json);
    assert_eq!(r.body, "Index Page");
    let rp = reply(&mut m, RequestKind::Post, "/", None, 1_000);
    assert_eq!(rp.status, 200);
    assert_eq!(rp.body, "Index Page");
}

#[test]
fn set_request_parse_reads_fields() {
    let q = RadishSetRequest::parse("{\"value\":\"abc\",\"ttl\":42}").unwrap();
    assert_eq!(q.value, "abc");
    assert_eq!(q.ttl, 42);
    assert!(RadishSetRequest::parse("{\"value\":\"abc\"}").is_none());
}
