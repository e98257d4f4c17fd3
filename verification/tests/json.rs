use radish::json::{parse_set_request, render_response};
use radish::protocol::RadishResponse;

#[test]
fn render_with_value() {
    let r = render_response("a", &Some("hi".to_string()));
    assert_eq!(r, "{\"query\":\"a\",\"data\":\"hi\"}");
}

#[test]
fn render_with_null() {
    let r = render_response("missing", &None);
    assert_eq!(r, "{\"query\":\"missing\",\"data\":null}");
}

#[test]
fn render_escapes_quote_backslash_and_controls() {
    let r = render_response("k", &Some("a\"b\\c\nd\te\u{1f}f".to_string()));
    assert_eq!(r, "{\"query\":\"k\",\"data\":\"a\\\"b\\\\c\\nd\\te\\u001ff\"}");
}

#[test]
fn render_leaves_unicode_unescaped() {
    let r = render_response("k", &Some("héllo\u{4e16}".to_string()));
    assert_eq!(r, "{\"query\":\"k\",\"data\":\"héllo\u{4e16}\"}");
}

#[test]
fn response_to_json_matches_renderer() {
    let resp = RadishResponse::new("q1".to_string(), Some("v1".to_string()));
    assert_eq!(resp.to_json(), "{\"query\":\"q1\",\"data\":\"v1\"}");
    let none = RadishResponse::new("q2".to_string(), None);
    assert_eq!(none.to_json(), "{\"query\":\"q2\",\"data\":null}");
}

#[test]
fn rendered_output_agrees_with_serde_json() {
    for data in [
        Some("plain".to_string()),
        Some("with \"quotes\" and \\ and \n and \u{7}".to_string()),
        Some("ünïcodé \u{1F600}".to_string()),
        None,
    ] {
        let rendered = render_response("the-key", &data);
        let v: serde_json::Value = serde_json::from_str(&rendered).unwrap();
        assert_eq!(v.get("query").unwrap().as_str(), Some("the-key"));
        match &data {
            Some(s) => assert_eq!(v.get("data").unwrap().as_str(), Some(s.as_str())),
            None => assert!(v.get("data").unwrap().is_null()),
        }
    }
}

#[test]
fn parse_accepts_plain_request() {
    let (v, t) = parse_set_request("{\"value\":\"hi\",\"ttl\":1}").unwrap();
    assert_eq!(v, "hi");
    assert_eq!(t, 1);
}

#[test]
fn parse_accepts_whitespace_and_either_order() {
    let (v, t) = parse_set_request("  {\n\t\"ttl\" : 300 ,\r\n \"value\" : \"x y\" }  ").unwrap();
    assert_eq!(v, "x y");
    assert_eq!(t, 300);
}

#[test]
fn parse_decodes_escapes() {
    let (v, _) =
        parse_set_request("{\"value\":\"a\\\"b\\\\c\\/d\\be\\ff\\ng\\rh\\ti\",\"ttl\":1}").unwrap();
    assert_eq!(v, "a\"b\\c/d\u{8}e\u{c}f\ng\rh\ti");
}

#[test]
fn parse_decodes_unicode_escapes() {
    let (v, _) = parse_set_request("{\"value\":\"\\u0041\\u00e9\\u4e16\",\"ttl\":1}").unwrap();
    assert_eq!(v, "Aé\u{4e16}");
}

#[test]
fn parse_decodes_surrogate_pairs() {
    let (v, _) = parse_set_request("{\"value\":\"\\ud83d\\ude00\",\"ttl\":1}").unwrap();
    assert_eq!(v, "\u{1F600}");
}

#[test]
fn parse_rejects_lone_surrogate() {
    assert!(parse_set_request("{\"value\":\"\\ud83d\",\"ttl\":1}").is_none());
    assert!(parse_set_request("{\"value\":\"\\udc00x\",\"ttl\":1}").is_none());
}

#[test]
fn parse_rejects_raw_control_character() {
    assert!(parse_set_request("{\"value\":\"a\u{1}b\",\"ttl\":1}").is_none());
}

#[test]
fn parse_accepts_largest_ttl() {
    let (_, t) = parse_set_request("{\"value\":\"v\",\"ttl\":18446744073709551615}").unwrap();
    assert_eq!(t, u64::MAX);
}

#[test]
fn parse_rejects_ttl_overflow() {
    assert!(parse_set_request("{\"value\":\"v\",\"ttl\":18446744073709551616}").is_none());
}

#[test]
fn parse_rejects_unterminated_string() {
    assert!(parse_set_request("{\"value\":\"hi,\"ttl\":1}").is_none());
    assert!(parse_set_request("{\"value\":\"hi").is_none());
}

#[test]
fn parse_agrees_with_serde_json_on_well_formed_bodies() {
    for body in [
        "{\"value\":\"hi\",\"ttl\":1}",
        " { \"ttl\" : 12 , \"value\" : \"a\\nb\" } ",
        "{\"value\":\"\\u0041\",\"ttl\":0}",
    ] {
        let (v, t) = parse_set_request(body).unwrap();
        let j: serde_json::Value = serde_json::from_str(body).unwrap();
        assert_eq!(j.get("value").unwrap().as_str().unwrap(), v);
        assert_eq!(j.get("ttl").unwrap().as_u64().unwrap(), t);
    }
}
