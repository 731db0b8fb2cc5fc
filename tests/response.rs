use browser_http::response::{BodyStep, Response, ResponseError};
use browser_http::text::{find_char, parse_set_cookie, trim_ws};

fn raw(k: &str, v: &str) -> (String, Option<String>) {
    (k.to_string(), Some(v.to_string()))
}

fn with_body(headers: Vec<(String, Option<String>)>, body: Vec<u8>) -> Response {
    let mut r = Response::new("http://x/".to_string(), 200, headers);
    assert!(matches!(r.take_body(), BodyStep::Drain));
    assert!(r.store_body(Ok(body)).is_ok());
    r
}

#[test]
fn set_cookie_yields_name_and_value() {
    let r = Response::new(
        "http://x/".to_string(),
        200,
        vec![raw("set-cookie", "session=abc123; Path=/; HttpOnly")],
    );
    assert_eq!(r.cookie("session"), Some("abc123".to_string()));
    assert_eq!(r.cookies(), vec![("session".to_string(), "abc123".to_string())]);
}

#[test]
fn cookie_parsing_edges() {
    assert_eq!(parse_set_cookie("  a = b c ;x"), Some(("a".to_string(), "b c".to_string())));
    assert_eq!(parse_set_cookie("k=v=w"), Some(("k".to_string(), "v=w".to_string())));
    assert_eq!(parse_set_cookie("noequals"), None);
    assert_eq!(parse_set_cookie("e="), Some(("e".to_string(), "".to_string())));
}

#[test]
fn headers_last_wins_and_non_text_skipped() {
    let r = Response::new(
        "http://x/".to_string(),
        404,
        vec![
            raw("x-a", "1"),
            ("x-bin".to_string(), None),
            raw("x-a", "2"),
            raw("set-cookie", "a=1"),
            raw("set-cookie", "a=2; Secure"),
        ],
    );
    assert_eq!(r.header("x-a"), Some("2".to_string()));
    assert_eq!(r.header("x-bin"), None);
    assert_eq!(r.cookie("a"), Some("2".to_string()));
    let h = r.headers();
    assert_eq!(h.len(), 2);
    assert!(h.contains(&("set-cookie".to_string(), "a=2; Secure".to_string())));
    assert!(h.contains(&("x-a".to_string(), "2".to_string())));
    assert!(!h.contains(&("x-a".to_string(), "1".to_string())));
    assert_eq!(r.cookies(), vec![("a".to_string(), "2".to_string())]);
    assert_eq!(r.status_code, 404);
    assert_eq!(r.url, "http://x/");
}

#[test]
fn bytes_repeated_are_identical_and_drained_once() {
    let mut r = Response::new("http://x/".to_string(), 200, vec![]);
    let mut drains = 0;
    let mut seen = Vec::new();
    for _ in 0..5 {
        match r.take_body() {
            BodyStep::Drain => {
                drains += 1;
                seen.push(r.store_body(Ok(vec![1, 2, 3])).ok().unwrap());
            }
            BodyStep::Ready(b) => seen.push(b),
            BodyStep::Consumed => panic!("consumed"),
        }
    }
    assert_eq!(drains, 1);
    assert!(seen.iter().all(|b| *b == vec![1, 2, 3]));
    assert_eq!(r.content().ok().unwrap(), vec![1, 2, 3]);
}

#[test]
fn failed_drain_leaves_body_consumed() {
    let mut r = Response::new("http://x/".to_string(), 200, vec![]);
    assert!(matches!(r.content(), Err(ResponseError::NotRead)));
    assert!(matches!(r.take_body(), BodyStep::Drain));
    assert!(matches!(r.take_body(), BodyStep::Consumed));
    assert!(matches!(r.store_body(Err("reset".to_string())), Err(ResponseError::Read(m)) if m == "reset"));
    assert!(matches!(r.take_body(), BodyStep::Consumed));
    assert!(matches!(r.content(), Err(ResponseError::Consumed)));
    assert!(matches!(r.text(), Err(ResponseError::Consumed)));
    assert!(matches!(r.json(), Err(ResponseError::Consumed)));
}

#[test]
fn text_uses_charset_from_content_type() {
    let mut r = with_body(vec![raw("content-type", "text/plain; charset=iso-8859-1")], vec![0xE9]);
    assert_eq!(r.text().ok().unwrap(), "é");
    assert_eq!(r.get_encoding(), "iso-8859-1");
}

#[test]
fn text_defaults_to_utf8() {
    let mut r = with_body(vec![raw("content-type", "text/plain")], "héllo".as_bytes().to_vec());
    assert_eq!(r.text().ok().unwrap(), "héllo");
    assert_eq!(r.get_encoding(), "utf-8");
    let mut r = with_body(vec![], vec![0x61, 0xFF]);
    assert_eq!(r.text().ok().unwrap(), "a\u{FFFD}");
}

#[test]
fn unknown_charset_falls_back_to_utf8() {
    let mut r = with_body(vec![raw("content-type", "text/plain; charset=no-such")], vec![0xC3, 0xA9]);
    assert_eq!(r.get_encoding(), "no-such");
    assert_eq!(r.text().ok().unwrap(), "é");
    assert_eq!(r.get_encoding(), "no-such");
}

#[test]
fn text_before_read_is_not_read() {
    let mut r = Response::new("http://x/".to_string(), 200, vec![]);
    assert!(matches!(r.text(), Err(ResponseError::NotRead)));
    assert!(matches!(r.json(), Err(ResponseError::NotRead)));
}

#[test]
fn json_parses_object() {
    let r = with_body(vec![], b"{\"a\":1}".to_vec());
    let v = r.json().ok().unwrap();
    let mut m = serde_json::Map::new();
    m.insert("a".to_string(), serde_json::Value::from(1));
    assert_eq!(v, serde_json::Value::Object(m));
}

#[test]
fn json_error_keeps_raw_bytes() {
    let r = with_body(vec![], b"{bad".to_vec());
    assert!(matches!(r.json(), Err(ResponseError::Decode(m)) if !m.is_empty()));
    assert_eq!(r.content().ok().unwrap(), b"{bad".to_vec());
}

#[test]
fn trimming_and_searching() {
    assert_eq!(trim_ws(" \t a b \r\n"), "a b");
    assert_eq!(trim_ws("   "), "");
    assert_eq!(find_char("ab=c", '='), 2);
    assert_eq!(find_char("abc", '='), 3);
}
