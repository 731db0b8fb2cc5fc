use browser_http::client::{
    Auth, Client, ClientConfig, FilePart, HttpMethod, RedirectPolicy, RequestBody, RequestOptions,
};

fn empty_config() -> ClientConfig {
    ClientConfig {
        auth: None,
        auth_bearer: None,
        headers: None,
        cookie_store: None,
        referer: None,
        proxy: None,
        timeout_ms: None,
        impersonate: None,
        impersonate_os: None,
        follow_redirects: None,
        max_redirects: None,
        verify: None,
        ca_cert_file: None,
        https_only: None,
        http2_only: None,
    }
}

fn no_options() -> RequestOptions {
    RequestOptions {
        params: None,
        headers: None,
        cookies: None,
        content: None,
        data: None,
        json: None,
        files: None,
        auth: None,
        auth_bearer: None,
        timeout_ms: None,
    }
}

fn pair(k: &str, v: &str) -> (String, String) {
    (k.to_string(), v.to_string())
}

#[test]
fn defaults_when_no_config() {
    let c = Client::new(None, None);
    let t = c.transport();
    assert!(t.cookie_store);
    assert!(t.referer);
    assert!(t.redirect == RedirectPolicy::Limited(20));
    assert!(!t.accept_invalid_certs);
    assert!(!t.https_only);
    assert!(!t.http2_only);
    assert_eq!(t.proxy, None);
    assert_eq!(t.timeout_ms, None);
    assert!(t.default_headers.is_empty());
    assert!(t.impersonate.is_none());
}

#[test]
fn redirects_off_and_custom_limit() {
    let mut cfg = empty_config();
    cfg.follow_redirects = Some(false);
    cfg.max_redirects = Some(5);
    assert!(Client::new(Some(cfg), None).transport().redirect == RedirectPolicy::NoFollow);
    let mut cfg = empty_config();
    cfg.max_redirects = Some(5);
    assert!(Client::new(Some(cfg), None).transport().redirect == RedirectPolicy::Limited(5));
}

#[test]
fn verify_off_accepts_invalid_certs() {
    let mut cfg = empty_config();
    cfg.verify = Some(false);
    cfg.https_only = Some(true);
    cfg.http2_only = Some(true);
    cfg.cookie_store = Some(false);
    let c = Client::new(Some(cfg), None);
    assert!(c.transport().accept_invalid_certs);
    assert!(c.transport().https_only);
    assert!(c.transport().http2_only);
    assert!(!c.transport().cookie_store);
}

#[test]
fn proxy_from_environment_only_as_fallback() {
    let c = Client::new(None, Some("http://env:8080".to_string()));
    assert_eq!(c.transport().proxy, Some("http://env:8080".to_string()));
    let mut cfg = empty_config();
    cfg.proxy = Some("http://conf:3128".to_string());
    let c = Client::new(Some(cfg), Some("http://env:8080".to_string()));
    assert_eq!(c.transport().proxy, Some("http://conf:3128".to_string()));
}

#[test]
fn impersonation_names_pass_through() {
    let mut cfg = empty_config();
    cfg.impersonate = Some("chrome_131".to_string());
    cfg.impersonate_os = Some("windows".to_string());
    let c = Client::new(Some(cfg), None);
    assert_eq!(
        c.transport().impersonate,
        Some(("chrome_131".to_string(), Some("windows".to_string())))
    );
}

#[test]
fn construction_is_deterministic() {
    let make = || {
        let mut cfg = empty_config();
        cfg.headers = Some(vec![pair("X-One", "1"), pair("bad name", "2")]);
        cfg.auth_bearer = Some("tok".to_string());
        cfg.timeout_ms = Some(30000);
        cfg.max_redirects = Some(7);
        Client::new(Some(cfg), Some("http://p:1".to_string()))
    };
    let (a, b) = (make(), make());
    assert_eq!(a.transport().default_headers, b.transport().default_headers);
    assert!(a.transport().redirect == b.transport().redirect);
    assert_eq!(a.transport().proxy, b.transport().proxy);
    assert_eq!(a.transport().timeout_ms, b.transport().timeout_ms);
    let ra = a.request(HttpMethod::GET, "http://x/".to_string(), no_options());
    let rb = b.request(HttpMethod::GET, "http://x/".to_string(), no_options());
    assert_eq!(ra.timeout_ms, rb.timeout_ms);
    assert!(matches!((ra.auth, rb.auth), (Auth::Bearer(x), Auth::Bearer(y)) if x == y));
}

#[test]
fn malformed_default_header_is_dropped() {
    let mut cfg = empty_config();
    cfg.headers = Some(vec![
        pair("X-Good", "yes"),
        pair("X-Bad", "line\nbreak"),
        pair("Bad Name", "v"),
        pair("Accept", "text/html"),
    ]);
    let c = Client::new(Some(cfg), None);
    assert_eq!(
        c.transport().default_headers,
        vec![pair("x-good", "yes"), pair("accept", "text/html")]
    );
}

#[test]
fn json_body_beats_files() {
    let c = Client::new(None, None);
    let mut o = no_options();
    o.json = Some(serde_json::from_str("{\"k\":true}").unwrap());
    o.files = Some(vec![FilePart {
        field: "f".to_string(),
        path: "a.txt".to_string(),
        bytes: vec![1, 2],
    }]);
    let r = c.request(HttpMethod::POST, "http://x/".to_string(), o);
    match r.body {
        RequestBody::Json(v) => assert_eq!(v, serde_json::from_str::<serde_json::Value>("{\"k\":true}").unwrap()),
        _ => panic!("expected a JSON body"),
    }
}

#[test]
fn body_precedence_order() {
    let c = Client::new(None, None);
    let mut o = no_options();
    o.content = Some(vec![9]);
    o.data = Some(vec![pair("a", "b")]);
    o.json = Some(serde_json::Value::Null);
    assert!(matches!(c.request(HttpMethod::PUT, "u".to_string(), o).body, RequestBody::Raw(b) if b == vec![9]));
    let mut o = no_options();
    o.data = Some(vec![pair("a", "b")]);
    o.json = Some(serde_json::Value::Null);
    assert!(matches!(c.request(HttpMethod::PUT, "u".to_string(), o).body, RequestBody::Form(d) if d == vec![pair("a", "b")]));
    let mut o = no_options();
    o.files = Some(vec![FilePart { field: "f".to_string(), path: "p".to_string(), bytes: vec![] }]);
    assert!(matches!(c.request(HttpMethod::PUT, "u".to_string(), o).body, RequestBody::Multipart(f) if f.len() == 1));
    let mut o = no_options();
    o.files = Some(vec![]);
    assert!(matches!(c.request(HttpMethod::PUT, "u".to_string(), o).body, RequestBody::Empty));
}

#[test]
fn request_basic_auth_beats_session_bearer() {
    let mut cfg = empty_config();
    cfg.auth_bearer = Some("session-token".to_string());
    let c = Client::new(Some(cfg), None);
    let mut o = no_options();
    o.auth = Some(vec!["user".to_string(), "pass".to_string()]);
    let r = c.request(HttpMethod::GET, "http://x/".to_string(), o);
    assert!(matches!(r.auth, Auth::Basic(u, Some(p)) if u == "user" && p == "pass"));
    let r = c.request(HttpMethod::GET, "http://x/".to_string(), no_options());
    assert!(matches!(r.auth, Auth::Bearer(t) if t == "session-token"));
}

#[test]
fn auth_precedence_chain() {
    let mut cfg = empty_config();
    cfg.auth = Some(vec!["su".to_string()]);
    cfg.auth_bearer = Some("st".to_string());
    let c = Client::new(Some(cfg), None);
    let mut o = no_options();
    o.auth_bearer = Some("rt".to_string());
    assert!(matches!(c.request(HttpMethod::GET, "u".to_string(), o).auth, Auth::Bearer(t) if t == "rt"));
    assert!(matches!(c.request(HttpMethod::GET, "u".to_string(), no_options()).auth, Auth::Basic(u, None) if u == "su"));
    let mut o = no_options();
    o.auth = Some(vec![]);
    assert!(matches!(c.request(HttpMethod::GET, "u".to_string(), o).auth, Auth::Basic(u, None) if u == "su"));
    let bare = Client::new(None, None);
    assert!(matches!(bare.request(HttpMethod::GET, "u".to_string(), no_options()).auth, Auth::NoAuth));
}

#[test]
fn request_timeout_overrides_for_one_call() {
    let mut cfg = empty_config();
    cfg.timeout_ms = Some(30000);
    let c = Client::new(Some(cfg), None);
    let mut o = no_options();
    o.timeout_ms = Some(2000);
    assert_eq!(c.request(HttpMethod::GET, "u".to_string(), o).timeout_ms, Some(2000));
    assert_eq!(c.request(HttpMethod::GET, "u".to_string(), no_options()).timeout_ms, Some(30000));
}

#[test]
fn query_headers_and_cookies_resolved() {
    let c = Client::new(None, None);
    let mut o = no_options();
    o.params = Some(vec![pair("q", "1")]);
    o.headers = Some(vec![pair("X-Req", "a"), pair("X-Bad", "\u{7f}")]);
    o.cookies = Some(vec![pair("sid", "42"), pair("bad", "a\nb")]);
    let r = c.request(HttpMethod::DELETE, "http://x/".to_string(), o);
    assert_eq!(r.query, Some(vec![pair("q", "1")]));
    assert_eq!(r.headers, vec![pair("x-req", "a")]);
    assert_eq!(r.cookies, vec![pair("sid", "42")]);
    assert_eq!(r.url, "http://x/");
    assert!(r.method == HttpMethod::DELETE);
    let r = c.request(HttpMethod::GET, "u".to_string(), no_options());
    assert_eq!(r.query, None);
    assert!(r.headers.is_empty());
}

#[test]
fn methods_map_to_transport_methods() {
    assert_eq!(HttpMethod::GET.to_rquest(), http::Method::GET);
    assert_eq!(HttpMethod::HEAD.to_rquest(), http::Method::HEAD);
    assert_eq!(HttpMethod::OPTIONS.to_rquest(), http::Method::OPTIONS);
    assert_eq!(HttpMethod::DELETE.to_rquest(), http::Method::DELETE);
    assert_eq!(HttpMethod::POST.to_rquest(), http::Method::POST);
    assert_eq!(HttpMethod::PUT.to_rquest(), http::Method::PUT);
    assert_eq!(HttpMethod::PATCH.to_rquest(), http::Method::PATCH);
    assert_eq!(HttpMethod::PATCH.as_str(), "PATCH");
}
