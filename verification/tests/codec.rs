use hello_api::auth::{authorize, token_from_header, Error};
use hello_api::json::{parse_data, serialize_data, serialize_user, serialize_with_auth};

#[test]
fn serialize_plain() {
    assert_eq!(serialize_data("Hello, warp!"), "{\"data\":\"Hello, warp!\"}");
}

#[test]
fn serialize_escapes() {
    assert_eq!(
        serialize_data("a\"b\\c\nd\u{1}e"),
        "{\"data\":\"a\\\"b\\\\c\\u000ad\\u0001e\"}"
    );
}

#[test]
fn serialize_output_is_json_for_serde() {
    let out = serialize_data("tab\t quote\" back\\ bell\u{7}");
    let v: serde_json::Value = serde_json::from_str(&out).unwrap();
    assert_eq!(v["data"].as_str().unwrap(), "tab\t quote\" back\\ bell\u{7}");
}

#[test]
fn serialize_user_exact() {
    assert_eq!(
        serialize_user(12345, "a\"b"),
        "{\"id\":12345,\"name\":\"a\\\"b\"}"
    );
}

#[test]
fn serialize_with_auth_exact() {
    assert_eq!(
        serialize_with_auth(0, "hoge", "foo"),
        "{\"user\":{\"id\":0,\"name\":\"hoge\"},\"body\":{\"data\":\"foo\"}}"
    );
}

#[test]
fn parse_round_trip() {
    for s in ["", "plain", "a\"b\\c\nd", "wörld \u{1f600}", "\u{0}\u{1f}"] {
        let out = serialize_data(s);
        assert_eq!(parse_data(&out).as_deref(), Some(s));
    }
}

#[test]
fn parse_with_whitespace() {
    assert_eq!(
        parse_data(" {\t\"data\" :\n\"x y\" } ").as_deref(),
        Some("x y")
    );
}

#[test]
fn parse_unicode_escape() {
    assert_eq!(
        parse_data("{\"data\":\"\\u0041\\u00e9\\u3042\"}").as_deref(),
        Some("Aéあ")
    );
}

#[test]
fn parse_simple_escapes() {
    assert_eq!(
        parse_data("{\"data\":\"\\\"\\\\\\/\\n\\t\\r\\b\\f\"}").as_deref(),
        Some("\"\\/\n\t\r\u{8}\u{c}")
    );
}

#[test]
fn parse_rejects_bad_bodies() {
    // missing `data`
    assert_eq!(parse_data("{\"hoge\":\"foo\"}"), None);
    // not a string
    assert_eq!(parse_data("{\"data\":1}"), None);
    // malformed syntax
    assert_eq!(parse_data("{\"data\":\"x\""), None);
    assert_eq!(parse_data("not json"), None);
    assert_eq!(parse_data(""), None);
    // trailing garbage
    assert_eq!(parse_data("{\"data\":\"x\"} extra"), None);
    // unterminated escape, bad hex, surrogate escape
    assert_eq!(parse_data("{\"data\":\"x\\"), None);
    assert_eq!(parse_data("{\"data\":\"\\uZZZZ\"}"), None);
    assert_eq!(parse_data("{\"data\":\"\\ud800\"}"), None);
    // raw control character inside the string
    assert_eq!(parse_data("{\"data\":\"a\u{1}b\"}"), None);
}

#[test]
fn token_extraction() {
    assert_eq!(token_from_header(&None), Err(Error::NoAuthHeaderError));
    assert_eq!(
        token_from_header(&Some(vec![0xff, 0xfe])),
        Err(Error::NoAuthHeaderError)
    );
    assert_eq!(
        token_from_header(&Some(b"Basic abc".to_vec())),
        Err(Error::InvalidAuthHeaderError)
    );
    assert_eq!(
        token_from_header(&Some(b"Bear".to_vec())),
        Err(Error::InvalidAuthHeaderError)
    );
    assert_eq!(
        token_from_header(&Some(b"Bearer hogehoge".to_vec())),
        Ok(b"hogehoge".to_vec())
    );
    assert_eq!(
        token_from_header(&Some(b"Bearer ".to_vec())),
        Ok(Vec::new())
    );
}

#[test]
fn authorize_accepts_only_the_token() {
    let u = authorize(&Some(b"Bearer hogehoge".to_vec())).unwrap();
    assert_eq!(u.id, 0);
    assert_eq!(u.name, "hoge");
    assert_eq!(
        authorize(&Some(b"Bearer wrongtoken".to_vec())),
        Err(Error::InvalidAuthHeaderError)
    );
    assert_eq!(
        authorize(&Some(b"Bearer hogehoge ".to_vec())),
        Err(Error::InvalidAuthHeaderError)
    );
    assert_eq!(authorize(&None), Err(Error::NoAuthHeaderError));
}
