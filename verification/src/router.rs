//! The composite router: an ordered match over method and path segments,
//! wiring each route to its handler, with the bearer-token check in front
//! of the protected route. Unmatched requests, undecodable bodies and
//! failed auth each map to one fixed client-error response.

use vstd::prelude::*;
use crate::auth;
use crate::auth::Error;
use crate::handlers;
use crate::handlers::HelloJson;
use crate::json;

verus! {

/// The request methods the API routes on.
#[derive(Debug, Clone, Copy, PartialEq, Eq, Structural)]
pub enum Method {
    Get,
    Post,
}

/// The media type of a response body.
#[derive(Debug, Clone, Copy, PartialEq, Eq, Structural)]
pub enum ContentType {
    TextPlain,
    ApplicationJson,
}

/// One incoming request, as plain values: the method, the raw path, the raw
/// `Authorization` header value if one came, and the body text if the raw
/// body was UTF-8. A body that was not UTF-8 is handed in as `None` and
/// counts as undecodable wherever a body is needed.
pub struct Request {
    pub method: Method,
    pub path: String,
    pub authorization: Option<Vec<u8>>,
    pub body: Option<String>,
}

/// The mathematical value of a [`Request`].
#[verifier::ext_equal]
pub struct RequestView {
    pub method: Method,
    pub path: Seq<char>,
    pub authorization: Option<Seq<u8>>,
    pub body: Option<Seq<char>>,
}

impl View for Request {
    type V = RequestView;

    open spec fn view(&self) -> RequestView {
        RequestView {
            method: self.method,
            path: self.path@,
            authorization: auth::spec_header_view(self.authorization),
            body: match self.body {
                None => None,
                Some(s) => Some(s@),
            },
        }
    }
}

/// One outgoing response: a status code, a media type, and the body.
pub struct Response {
    pub status: u16,
    pub content_type: ContentType,
    pub body: String,
}

/// The mathematical value of a [`Response`].
#[verifier::ext_equal]
pub struct ResponseView {
    pub status: u16,
    pub content_type: ContentType,
    pub body: Seq<char>,
}

impl View for Response {
    type V = ResponseView;

    open spec fn view(&self) -> ResponseView {
        ResponseView { status: self.status, content_type: self.content_type, body: self.body@ }
    }
}

// --- splitting a path into segments ---

/// Splits the characters from `i` on at every `/`, with `cur` the segment
/// read so far: `a/b` gives `[a, b]`, a trailing `/` gives a final empty
/// segment.
pub open spec fn spec_split_acc(s: Seq<char>, i: int, cur: Seq<char>) -> Seq<Seq<char>>
    decreases s.len() - i,
{
    if i < 0 || i >= s.len() {
        seq![cur]
    } else if s[i] == '/' {
        seq![cur] + spec_split_acc(s, i + 1, Seq::empty())
    } else {
        spec_split_acc(s, i + 1, cur.push(s[i]))
    }
}

/// The segments of a request path: one leading `/` is dropped, the rest is
/// split at every `/`.
pub open spec fn spec_split_segments(s: Seq<char>) -> Seq<Seq<char>> {
    if s.len() > 0 && s[0] == '/' {
        spec_split_acc(s, 1, Seq::empty())
    } else {
        spec_split_acc(s, 0, Seq::empty())
    }
}

/// The segment strings as mathematical values.
pub open spec fn spec_segments_view(v: Seq<String>) -> Seq<Seq<char>> {
    v.map_values(|x: String| x@)
}

fn split_acc(chars: &Vec<char>, i: usize, cur: String) -> (r: Vec<String>)
    requires
        i <= chars.len(),
    ensures
        spec_segments_view(r@) == spec_split_acc(chars@, i as int, cur@),
    decreases chars.len() - i,
{
    if i >= chars.len() {
        let mut v: Vec<String> = Vec::new();
        v.push(cur);
        proof {
            assert(spec_segments_view(v@) =~= seq![v@[0]@]);
        }
        v
    } else {
        let c = chars[i];
        if c == '/' {
            let ghost cur0 = cur@;
            let mut rest = split_acc(chars, i + 1, String::new());
            let ghost rest0 = rest@;
            let mut v: Vec<String> = Vec::new();
            v.push(cur);
            v.append(&mut rest);
            proof {
                assert(spec_segments_view(v@) =~= seq![cur0] + spec_segments_view(rest0));
            }
            v
        } else {
            let mut cur2 = cur;
            json::push_char(&mut cur2, c);
            split_acc(chars, i + 1, cur2)
        }
    }
}

/// Splits a request path into its segments.
pub fn split_path(path: &str) -> (r: Vec<String>)
    ensures
        spec_segments_view(r@) == spec_split_segments(path@),
{
    let chars = json::str_to_chars(path);
    if chars.len() > 0 && chars[0] == '/' {
        split_acc(&chars, 1, String::new())
    } else {
        split_acc(&chars, 0, String::new())
    }
}

// --- the routes ---

/// Which route a request structurally matches, in matching-priority order.
pub enum RouteView {
    HelloText { name: Seq<char> },
    HelloJsonRoute { name: Seq<char> },
    ReceiveJson,
    WithAuthRoute,
    NotFound,
}

/// The ordered route table: `GET /hello/{name}`, `GET /hello/json/{name}`,
/// `POST /receive/json`, `POST /with_auth/json`; anything else misses. The
/// `{name}` capture takes exactly one segment, the empty one included, so
/// `GET /hello/json` greets the name `json`.
pub open spec fn spec_route(method: Method, segs: Seq<Seq<char>>) -> RouteView {
    if method == Method::Get && segs.len() == 2 && segs[0] == "hello"@ {
        RouteView::HelloText { name: segs[1] }
    } else if method == Method::Get && segs.len() == 3 && segs[0] == "hello"@ && segs[1]
        == "json"@ {
        RouteView::HelloJsonRoute { name: segs[2] }
    } else if method == Method::Post && segs.len() == 2 && segs[0] == "receive"@ && segs[1]
        == "json"@ {
        RouteView::ReceiveJson
    } else if method == Method::Post && segs.len() == 2 && segs[0] == "with_auth"@ && segs[1]
        == "json"@ {
        RouteView::WithAuthRoute
    } else {
        RouteView::NotFound
    }
}

// --- the responses ---

/// The body sent with a failed bearer-token check.
pub open spec fn spec_error_message(e: Error) -> Seq<char> {
    match e {
        Error::NoAuthHeaderError => "no auth header"@,
        Error::InvalidAuthHeaderError => "invalid auth header"@,
    }
}

/// The response to a body that does not decode as `{"data": <string>}`.
pub open spec fn spec_decode_error() -> ResponseView {
    ResponseView {
        status: 400,
        content_type: ContentType::TextPlain,
        body: "Request body deserialize error"@,
    }
}

/// The response to a request no route matches. A method mismatch on an
/// otherwise matching path misses the same way.
pub open spec fn spec_not_found() -> ResponseView {
    ResponseView { status: 404, content_type: ContentType::TextPlain, body: "not found"@ }
}

/// What the whole pipeline answers: route on method and path, run the
/// bearer-token check in front of the protected route, decode the body
/// where one is required, and hand the values to the matched handler.
pub open spec fn spec_handle(req: RequestView) -> ResponseView {
    let segs = spec_split_segments(req.path);
    match spec_route(req.method, segs) {
        RouteView::HelloText { name } => ResponseView {
            status: 200,
            content_type: ContentType::TextPlain,
            body: handlers::spec_greeting(name),
        },
        RouteView::HelloJsonRoute { name } => ResponseView {
            status: 200,
            content_type: ContentType::ApplicationJson,
            body: json::spec_serialize_data(handlers::spec_greeting(name)),
        },
        RouteView::ReceiveJson => match req.body {
            Some(text) => match json::spec_parse_data(text) {
                Some(d) => ResponseView {
                    status: 200,
                    content_type: ContentType::ApplicationJson,
                    body: json::spec_serialize_data(d),
                },
                None => spec_decode_error(),
            },
            None => spec_decode_error(),
        },
        RouteView::WithAuthRoute => match auth::spec_authorize(req.authorization) {
            Err(e) => ResponseView {
                status: 401,
                content_type: ContentType::TextPlain,
                body: spec_error_message(e),
            },
            Ok(u) => match req.body {
                Some(text) => match json::spec_parse_data(text) {
                    Some(d) => ResponseView {
                        status: 200,
                        content_type: ContentType::ApplicationJson,
                        body: json::spec_serialize_with_auth(u.id as nat, u.name, d),
                    },
                    None => spec_decode_error(),
                },
                None => spec_decode_error(),
            },
        },
        RouteView::NotFound => spec_not_found(),
    }
}

fn seg_is(seg: &String, lit: &str) -> (r: bool)
    ensures
        r == (seg@ == lit@),
{
    let other = String::from_str(lit);
    *seg == other
}

/// The body sent with a failed bearer-token check.
pub fn error_message(e: &Error) -> (r: String)
    ensures
        r@ == spec_error_message(*e),
{
    match e {
        Error::NoAuthHeaderError => String::from_str("no auth header"),
        Error::InvalidAuthHeaderError => String::from_str("invalid auth header"),
    }
}

fn decode_error_response() -> (r: Response)
    ensures
        r@ == spec_decode_error(),
{
    Response {
        status: 400,
        content_type: ContentType::TextPlain,
        body: String::from_str("Request body deserialize error"),
    }
}

fn not_found_response() -> (r: Response)
    ensures
        r@ == spec_not_found(),
{
    Response { status: 404, content_type: ContentType::TextPlain, body: String::from_str("not found") }
}

fn receive_body_response(body: &Option<String>) -> (r: Response)
    ensures
        r@ == (match (match *body {
            None => None,
            Some(s) => Some(s@),
        }) {
            Some(text) => match json::spec_parse_data(text) {
                Some(d) => ResponseView {
                    status: 200,
                    content_type: ContentType::ApplicationJson,
                    body: json::spec_serialize_data(d),
                },
                None => spec_decode_error(),
            },
            None => spec_decode_error(),
        }),
{
    match body {
        Some(text) => match json::parse_data(text.as_str()) {
            Some(d) => {
                let h = handlers::receive_json(HelloJson { data: d });
                let out = handlers::serialize_hello_json(&h);
                Response { status: 200, content_type: ContentType::ApplicationJson, body: out }
            },
            None => decode_error_response(),
        },
        None => decode_error_response(),
    }
}

/// Answers one request: the verified pipeline from raw path and header
/// bytes to the response the server sends back.
pub fn handle_request(req: &Request) -> (r: Response)
    ensures
        r@ == spec_handle(req@),
{
    let segs = split_path(req.path.as_str());
    let n = segs.len();
    proof {
        assert(spec_segments_view(segs@).len() == n);
        assert(forall|k: int| 0 <= k < n ==> spec_segments_view(segs@)[k] == segs@[k]@);
    }
    match req.method {
        Method::Get => {
            if n == 2 && seg_is(&segs[0], "hello") {
                let body = handlers::hello(segs[1].as_str());
                Response { status: 200, content_type: ContentType::TextPlain, body }
            } else if n == 3 && seg_is(&segs[0], "hello") && seg_is(&segs[1], "json") {
                let h = handlers::hello_json(segs[2].as_str());
                let body = handlers::serialize_hello_json(&h);
                Response { status: 200, content_type: ContentType::ApplicationJson, body }
            } else {
                not_found_response()
            }
        },
        Method::Post => {
            if n == 2 && seg_is(&segs[0], "receive") && seg_is(&segs[1], "json") {
                receive_body_response(&req.body)
            } else if n == 2 && seg_is(&segs[0], "with_auth") && seg_is(&segs[1], "json") {
                match auth::authorize(&req.authorization) {
                    Err(e) => {
                        let body = error_message(&e);
                        Response { status: 401, content_type: ContentType::TextPlain, body }
                    },
                    Ok(u) => match &req.body {
                        Some(text) => match json::parse_data(text.as_str()) {
                            Some(d) => {
                                let w = handlers::with_auth(u, HelloJson { data: d });
                                let body = handlers::serialize_with_auth_json(&w);
                                Response {
                                    status: 200,
                                    content_type: ContentType::ApplicationJson,
                                    body,
                                }
                            },
                            None => decode_error_response(),
                        },
                        None => decode_error_response(),
                    },
                }
            } else {
                not_found_response()
            }
        },
    }
}

// --- laws of the pipeline ---

proof fn lemma_split_acc_no_slash(s: Seq<char>, i: int, cur: Seq<char>)
    requires
        0 <= i <= s.len(),
        forall|k: int| i <= k < s.len() ==> s[k] != '/',
    ensures
        spec_split_acc(s, i, cur) == seq![cur + s.skip(i)],
    decreases s.len() - i,
{
    if i >= s.len() {
        assert(cur + s.skip(i) =~= cur);
    } else {
        lemma_split_acc_no_slash(s, i + 1, cur.push(s[i]));
        assert(cur.push(s[i]) + s.skip(i + 1) =~= cur + s.skip(i));
    }
}

/// For every name that fits in one path segment, `GET /hello/{name}` answers
/// 200 with the exact text `Hello, {name}!`, whatever the headers and body
/// hold. The empty name is included.
pub proof fn lemma_hello_text(name: Seq<char>, authorization: Option<Seq<u8>>, body: Option<
    Seq<char>,
>)
    requires
        forall|k: int| 0 <= k < name.len() ==> name[k] != '/',
    ensures
        (spec_handle(
            RequestView { method: Method::Get, path: "/hello/"@ + name, authorization, body },
        ) == ResponseView {
            status: 200,
            content_type: ContentType::TextPlain,
            body: handlers::spec_greeting(name),
        }),
{
    let p = "/hello/"@ + name;
    reveal_strlit("/hello/");
    reveal_strlit("hello");
    assert(p.len() == 7 + name.len());
    assert(p[0] == '/');
    assert(p[1] == 'h');
    assert(p[2] == 'e');
    assert(p[3] == 'l');
    assert(p[4] == 'l');
    assert(p[5] == 'o');
    assert(p[6] == '/');
    assert(forall|k: int| 7 <= k < p.len() ==> p[k] != '/');
    lemma_split_acc_no_slash(p, 7, Seq::empty());
    assert(Seq::empty() + p.skip(7) =~= name);
    reveal_with_fuel(spec_split_acc, 8);
    assert(spec_split_segments(p) =~~= seq!["hello"@, name]);
}

/// For every name that fits in one path segment, `GET /hello/json/{name}`
/// answers 200 with the JSON body `{"data":"Hello, {name}!"}`.
pub proof fn lemma_hello_json(name: Seq<char>, authorization: Option<Seq<u8>>, body: Option<
    Seq<char>,
>)
    requires
        forall|k: int| 0 <= k < name.len() ==> name[k] != '/',
    ensures
        (spec_handle(
            RequestView { method: Method::Get, path: "/hello/json/"@ + name, authorization, body },
        ) == ResponseView {
            status: 200,
            content_type: ContentType::ApplicationJson,
            body: json::spec_serialize_data(handlers::spec_greeting(name)),
        }),
{
    let p = "/hello/json/"@ + name;
    reveal_strlit("/hello/json/");
    reveal_strlit("hello");
    reveal_strlit("json");
    assert(p.len() == 12 + name.len());
    assert(p[0] == '/');
    assert(p[1] == 'h');
    assert(p[2] == 'e');
    assert(p[3] == 'l');
    assert(p[4] == 'l');
    assert(p[5] == 'o');
    assert(p[6] == '/');
    assert(p[7] == 'j');
    assert(p[8] == 's');
    assert(p[9] == 'o');
    assert(p[10] == 'n');
    assert(p[11] == '/');
    assert(forall|k: int| 12 <= k < p.len() ==> p[k] != '/');
    lemma_split_acc_no_slash(p, 12, Seq::empty());
    assert(Seq::empty() + p.skip(12) =~= name);
    reveal_with_fuel(spec_split_acc, 13);
    assert(spec_split_segments(p) =~~= seq!["hello"@, "json"@, name]);
}

/// Round trip: for every string, posting the serialised `{"data": s}` to
/// `/receive/json` answers 200 with the identical JSON text.
pub proof fn lemma_receive_json_round_trip(data: Seq<char>, authorization: Option<Seq<u8>>)
    ensures
        (spec_handle(
            RequestView {
                method: Method::Post,
                path: "/receive/json"@,
                authorization,
                body: Some(json::spec_serialize_data(data)),
            },
        ) == ResponseView {
            status: 200,
            content_type: ContentType::ApplicationJson,
            body: json::spec_serialize_data(data),
        }),
{
    let p = "/receive/json"@;
    reveal_strlit("/receive/json");
    reveal_strlit("receive");
    reveal_strlit("json");
    assert(p.len() == 13);
    reveal_with_fuel(spec_split_acc, 15);
    assert(spec_split_segments(p) =~~= seq!["receive"@, "json"@]);
    json::lemma_parse_serialize_data(data);
}

/// A failed bearer-token check turns `POST /with_auth/json` away with the
/// 401 message of its failure, and the response does not depend on the
/// request body: the handler never sees it.
pub proof fn lemma_with_auth_rejects(authorization: Option<Seq<u8>>, body1: Option<Seq<char>>, body2: Option<
    Seq<char>,
>)
    requires
        (auth::spec_authorize(authorization) matches Err(_)),
    ensures
        (spec_handle(
            RequestView { method: Method::Post, path: "/with_auth/json"@, authorization, body: body1 },
        ) == spec_handle(
            RequestView { method: Method::Post, path: "/with_auth/json"@, authorization, body: body2 },
        )),
        (spec_handle(
            RequestView { method: Method::Post, path: "/with_auth/json"@, authorization, body: body1 },
        ).status == 401),
        (match auth::spec_authorize(authorization) {
            Err(e) => spec_handle(
                RequestView {
                    method: Method::Post,
                    path: "/with_auth/json"@,
                    authorization,
                    body: body1,
                },
            ) == ResponseView {
                status: 401,
                content_type: ContentType::TextPlain,
                body: spec_error_message(e),
            },
            Ok(_) => true,
        }),
{
    let p = "/with_auth/json"@;
    reveal_strlit("/with_auth/json");
    reveal_strlit("with_auth");
    reveal_strlit("receive");
    reveal_strlit("json");
    assert(p.len() == 15);
    reveal_with_fuel(spec_split_acc, 17);
    assert(spec_split_segments(p) =~~= seq!["with_auth"@, "json"@]);
    let segs = spec_split_segments(p);
    assert("with_auth"@.len() == 9);
    assert("receive"@.len() == 7);
    assert(segs[0] != "receive"@);
    assert(spec_route(Method::Post, segs) == RouteView::WithAuthRoute);
}

/// A passed bearer-token check lets `POST /with_auth/json` answer 200 with
/// the authenticated user and the decoded body, for every string the body
/// carries.
pub proof fn lemma_with_auth_accepts(authorization: Option<Seq<u8>>, data: Seq<char>)
    requires
        (auth::spec_authorize(authorization) matches Ok(_)),
    ensures
        (match auth::spec_authorize(authorization) {
            Ok(u) => spec_handle(
                RequestView {
                    method: Method::Post,
                    path: "/with_auth/json"@,
                    authorization,
                    body: Some(json::spec_serialize_data(data)),
                },
            ) == ResponseView {
                status: 200,
                content_type: ContentType::ApplicationJson,
                body: json::spec_serialize_with_auth(u.id as nat, u.name, data),
            },
            Err(_) => true,
        }),
{
    let p = "/with_auth/json"@;
    reveal_strlit("/with_auth/json");
    reveal_strlit("with_auth");
    reveal_strlit("receive");
    reveal_strlit("json");
    assert(p.len() == 15);
    reveal_with_fuel(spec_split_acc, 17);
    assert(spec_split_segments(p) =~~= seq!["with_auth"@, "json"@]);
    let segs = spec_split_segments(p);
    assert("with_auth"@.len() == 9);
    assert("receive"@.len() == 7);
    assert(segs[0] != "receive"@);
    assert(spec_route(Method::Post, segs) == RouteView::WithAuthRoute);
    json::lemma_parse_serialize_data(data);
}

/// Idempotence: handling is a pure function of the request, so repeating
/// the same request any number of times yields the identical response.
pub proof fn lemma_handle_deterministic(req1: RequestView, req2: RequestView)
    requires
        req1 == req2,
    ensures
        spec_handle(req1) == spec_handle(req2),
{
}

} // verus!
