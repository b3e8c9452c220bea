use hello_api::handlers;
use hello_api::router::{handle_request, ContentType, Method, Request, Response};

fn get(path: &str) -> Response {
    handle_request(&Request {
        method: Method::Get,
        path: path.to_string(),
        authorization: None,
        body: None,
    })
}

fn post(path: &str, authorization: Option<Vec<u8>>, body: Option<&str>) -> Response {
    handle_request(&Request {
        method: Method::Post,
        path: path.to_string(),
        authorization,
        body: body.map(|s| s.to_string()),
    })
}

#[test]
fn test_hello() {
    let res = get("/hello/warp");
    assert_eq!(res.status, 200);
    assert_eq!(res.body, "Hello, warp!");
    assert_eq!(res.content_type, ContentType::TextPlain);
}

#[test]
fn test_hello_json() {
    let res = get("/hello/json/warp");
    assert_eq!(res.status, 200);
    assert_eq!(res.content_type, ContentType::ApplicationJson);
    let got: serde_json::Value = serde_json::from_str(&res.body).unwrap();
    let expected: serde_json::Value = serde_json::from_str("{\"data\":\"Hello, warp!\"}").unwrap();
    assert_eq!(got, expected);
}

#[test]
fn test_receive_json() {
    let body = "{\"data\":\"Hello, warp!\"}";
    let res = post("/receive/json", None, Some(body));
    assert_eq!(res.status, 200);
    let got: serde_json::Value = serde_json::from_str(&res.body).unwrap();
    let expected: serde_json::Value = serde_json::from_str(body).unwrap();
    assert_eq!(got, expected);
}

#[test]
fn test_receive_json_invalid() {
    let res = post("/receive/json", None, Some("{\"hoge\":\"foo\"}"));
    assert_eq!(res.status, 400);
    assert_eq!(res.body, "Request body deserialize error");
}

#[test]
fn test_with_auth() {
    let res = post(
        "/with_auth/json",
        Some(b"Bearer hogehoge".to_vec()),
        Some("{\"data\":\"foo\"}"),
    );
    assert_eq!(res.status, 200);
    let got: serde_json::Value = serde_json::from_str(&res.body).unwrap();
    let expected: serde_json::Value =
        serde_json::from_str("{\"user\":{\"id\":0,\"name\":\"hoge\"},\"body\":{\"data\":\"foo\"}}")
            .unwrap();
    assert_eq!(got, expected);
}

#[test]
fn hello_empty_name() {
    let res = get("/hello/");
    assert_eq!(res.status, 200);
    assert_eq!(res.body, "Hello, !");
}

#[test]
fn hello_unicode_name() {
    let res = get("/hello/wörld");
    assert_eq!(res.status, 200);
    assert_eq!(res.body, "Hello, wörld!");
}

#[test]
fn hello_name_json_takes_text_route() {
    // `/hello/json` has two segments, so the one-segment capture wins.
    let res = get("/hello/json");
    assert_eq!(res.status, 200);
    assert_eq!(res.content_type, ContentType::TextPlain);
    assert_eq!(res.body, "Hello, json!");
}

#[test]
fn hello_json_empty_name() {
    let res = get("/hello/json/");
    assert_eq!(res.status, 200);
    let got: serde_json::Value = serde_json::from_str(&res.body).unwrap();
    let expected: serde_json::Value = serde_json::from_str("{\"data\":\"Hello, !\"}").unwrap();
    assert_eq!(got, expected);
}

#[test]
fn receive_json_round_trip_with_escapes() {
    let h = handlers::HelloJson {
        data: "a\"b\\c\nd\u{1}e".to_string(),
    };
    let body = handlers::serialize_hello_json(&h);
    let res = post("/receive/json", None, Some(&body));
    assert_eq!(res.status, 200);
    assert_eq!(res.body, body);
    // and what was sent is real JSON meaning the same string
    let got: serde_json::Value = serde_json::from_str(&res.body).unwrap();
    assert_eq!(got["data"].as_str().unwrap(), "a\"b\\c\nd\u{1}e");
}

#[test]
fn receive_json_no_body() {
    let res = post("/receive/json", None, None);
    assert_eq!(res.status, 400);
}

#[test]
fn with_auth_missing_header_rejected() {
    let res = post("/with_auth/json", None, Some("{\"data\":\"foo\"}"));
    assert_eq!(res.status, 401);
    assert_eq!(res.body, "no auth header");
    assert!(!res.body.contains("foo"));
}

#[test]
fn with_auth_wrong_token_rejected() {
    let res = post(
        "/with_auth/json",
        Some(b"Bearer wrongtoken".to_vec()),
        Some("{\"data\":\"foo\"}"),
    );
    assert_eq!(res.status, 401);
    assert_eq!(res.body, "invalid auth header");
    assert!(!res.body.contains("foo"));
}

#[test]
fn with_auth_bad_scheme_rejected() {
    let res = post(
        "/with_auth/json",
        Some(b"Basic hogehoge".to_vec()),
        Some("{\"data\":\"foo\"}"),
    );
    assert_eq!(res.status, 401);
    assert_eq!(res.body, "invalid auth header");
}

#[test]
fn unknown_path_not_found() {
    let res = get("/nothing/here");
    assert_eq!(res.status, 404);
    assert_eq!(res.body, "not found");
}

#[test]
fn method_mismatch_not_found() {
    let res = get("/receive/json");
    assert_eq!(res.status, 404);
}

#[test]
fn repeated_get_is_byte_identical() {
    let a = get("/hello/json/warp");
    let b = get("/hello/json/warp");
    let c = get("/hello/json/warp");
    assert_eq!(a.status, b.status);
    assert_eq!(a.body, b.body);
    assert_eq!(b.body, c.body);
    assert_eq!(a.content_type, b.content_type);
}
