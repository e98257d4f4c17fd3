//! The request adapter: routing and the request/response shapes of the
//! wire protocol, as pure logic. The transport hands in the method, the
//! path, the body and the current instant; the adapter drives the store
//! and yields the status and body to send back.

use vstd::prelude::*;
use crate::json::{json_response, parse_set_request, parse_set_request_spec, render_response};
use crate::store::{spec_get_map, spec_get_result, spec_set_map, NodeView, SafeMap};

verus! {

/// The largest time-to-live a request can ask for, in milliseconds:
/// `u64::MAX` seconds.
pub const MAX_TTL_MS: u128 = 18446744073709551615000;

/// The request methods the adapter distinguishes: reads, writes, and
/// everything else.
pub enum RequestKind {
    Get,
    Post,
    Other,
}

/// A response body paired with the key it answers for: the shape of every
/// JSON reply, `{"query":...,"data":...}`.
pub struct RadishResponse {
    pub query: String,
    pub data: Option<String>,
}

impl RadishResponse {
    pub fn new(query: String, data: Option<String>) -> (r: Self)
        ensures
            r.query@ == query@,
            r.data.deep_view() == data.deep_view(),
    {
        RadishResponse { query, data }
    }

    /// Renders this response as its JSON text.
    pub fn to_json(&self) -> (r: String)
        ensures
            r@ == json_response(self.query@, self.data.deep_view()),
    {
        render_response(self.query.as_str(), &self.data)
    }
}

/// A write request: the value to store and a time-to-live in whole
/// seconds.
pub struct RadishSetRequest {
    pub value: String,
    pub ttl: u64,
}

impl RadishSetRequest {
    /// Parses a request body; yields the request exactly when the body is
    /// well-formed as `parse_set_request_spec` states it.
    pub fn parse(body: &str) -> (r: Option<Self>)
        ensures
            r is Some <==> parse_set_request_spec(body@) is Some,
            r matches Some(q) ==> parse_set_request_spec(body@) == Some((q.value@, q.ttl)),
    {
        match parse_set_request(body) {
            Some((value, ttl)) => Some(RadishSetRequest { value, ttl }),
            None => None,
        }
    }
}

/// What an HTTP reply carries: the status code, the body text, and whether
/// the body is JSON.
pub struct HttpReply {
    pub status: u16,
    pub body: String,
    pub is_json: bool,
}

/// The mathematical content of an `HttpReply`.
pub struct ReplyView {
    pub status: u16,
    pub body: Seq<char>,
    pub is_json: bool,
}

impl View for HttpReply {
    type V = ReplyView;

    open spec fn view(&self) -> ReplyView {
        ReplyView { status: self.status, body: self.body@, is_json: self.is_json }
    }
}

/// A requested time-to-live in seconds, as milliseconds.
pub open spec fn ttl_ms_of(t: u64) -> u128 {
    ((t as u128) * 1000) as u128
}

/// The reply to a request, and the store's mapping after it. The root path
/// answers with a fixed text and touches nothing; an unsupported method is
/// rejected without store access; a read always succeeds, carrying the
/// value or `null`; a write parses its body — rejecting a malformed one
/// untouched — then stores the value and echoes it.
pub open spec fn spec_handle(
    m: Map<Seq<char>, NodeView>,
    kind: RequestKind,
    path: Seq<char>,
    body: Option<Seq<char>>,
    now: u128,
) -> (ReplyView, Map<Seq<char>, NodeView>) {
    if path.len() == 1 {
        (ReplyView { status: 200, body: "Index Page"@, is_json: false }, m)
    } else {
        match kind {
            RequestKind::Other => (
                ReplyView { status: 405, body: "Method Not Allowed"@, is_json: false },
                m,
            ),
            RequestKind::Get => (
                ReplyView {
                    status: 200,
                    body: json_response(path.skip(1), spec_get_result(m, path.skip(1), now)),
                    is_json: true,
                },
                spec_get_map(m, path.skip(1), now),
            ),
            RequestKind::Post => match body {
                Some(b) => match parse_set_request_spec(b) {
                    Some(req) => (
                        ReplyView {
                            status: 200,
                            body: json_response(path.skip(1), Some(req.0)),
                            is_json: true,
                        },
                        spec_set_map(m, path.skip(1), req.0, Some(ttl_ms_of(req.1)), now),
                    ),
                    None => (ReplyView { status: 400, body: "Bad Request"@, is_json: false }, m),
                },
                None => (ReplyView { status: 400, body: "Bad Request"@, is_json: false }, m),
            },
        }
    }
}

/// Handles one request against the store at instant `now`. The path must
/// carry its leading separator; everything after it is the key.
pub fn handle_request(
    store: &mut SafeMap,
    kind: RequestKind,
    path: &str,
    body: Option<&str>,
    now: u128,
) -> (r: HttpReply)
    requires
        path@.len() >= 1,
        path@[0] == '/',
        now + MAX_TTL_MS <= u128::MAX,
    ensures
        r@ == spec_handle(old(store)@, kind, path@, body.deep_view(), now).0,
        final(store)@ == spec_handle(old(store)@, kind, path@, body.deep_view(), now).1,
{
    let n = path.unicode_len();
    if n == 1 {
        return HttpReply { status: 200, body: String::from_str("Index Page"), is_json: false };
    }
    match kind {
        RequestKind::Other => HttpReply {
            status: 405,
            body: String::from_str("Method Not Allowed"),
            is_json: false,
        },
        RequestKind::Get => {
            let key = path.substring_char(1, n);
            proof {
                assert(key@ =~= path@.skip(1));
            }
            let data = store.get(key, now);
            let body_s = render_response(key, &data);
            HttpReply { status: 200, body: body_s, is_json: true }
        },
        RequestKind::Post => {
            match body {
                None => HttpReply {
                    status: 400,
                    body: String::from_str("Bad Request"),
                    is_json: false,
                },
                Some(b) => {
                    match RadishSetRequest::parse(b) {
                        None => HttpReply {
                            status: 400,
                            body: String::from_str("Bad Request"),
                            is_json: false,
                        },
                        Some(req) => {
                            let key = path.substring_char(1, n);
                            proof {
                                assert(key@ =~= path@.skip(1));
                            }
                            let key_string = String::from_str(key);
                            let ttl_ms = (req.ttl as u128) * 1000;
                            let data = store.set(key_string, req.value, Some(ttl_ms), now);
                            let body_s = render_response(key, &data);
                            HttpReply { status: 200, body: body_s, is_json: true }
                        },
                    }
                },
            }
        },
    }
}

} // verus!
