//! Session configuration and the resolution of one request against it.
use vstd::prelude::*;
use crate::headers::{
    copy_pairs, filter_headers, header_name_valid, header_value_accepts, header_value_valid,
    lemma_malformed_header_dropped, pairs_view, valid_headers,
};

verus! {

#[verifier::external_type_specification]
#[verifier::external_body]
pub struct ExMethod(http::Method);

/// The method that http::Method::from_bytes makes of a name.
pub uninterp spec fn method_of(name: Seq<char>) -> http::Method;

/// Relies on http::Method::from_bytes, which accepts each standard method name.
#[verifier::external_body]
fn method_from_name(name: &str) -> (r: Option<http::Method>)
    ensures
        r matches Some(m) ==> m == method_of(name@),
        name@ == "GET"@ || name@ == "HEAD"@ || name@ == "OPTIONS"@ || name@ == "DELETE"@
            || name@ == "POST"@ || name@ == "PUT"@ || name@ == "PATCH"@ ==> r is Some,
{
    http::Method::from_bytes(name.as_bytes()).ok()
}

/// The methods a request may use.
#[derive(Clone, Copy, PartialEq, Eq, Structural)]
pub enum HttpMethod {
    GET,
    HEAD,
    OPTIONS,
    DELETE,
    POST,
    PUT,
    PATCH,
}

impl HttpMethod {
    pub open spec fn name(self) -> Seq<char> {
        match self {
            HttpMethod::GET => "GET"@,
            HttpMethod::HEAD => "HEAD"@,
            HttpMethod::OPTIONS => "OPTIONS"@,
            HttpMethod::DELETE => "DELETE"@,
            HttpMethod::POST => "POST"@,
            HttpMethod::PUT => "PUT"@,
            HttpMethod::PATCH => "PATCH"@,
        }
    }

    /// The method's name on the wire.
    pub fn as_str(&self) -> (r: &'static str)
        ensures
            r@ == self.name(),
    {
        match self {
            HttpMethod::GET => "GET",
            HttpMethod::HEAD => "HEAD",
            HttpMethod::OPTIONS => "OPTIONS",
            HttpMethod::DELETE => "DELETE",
            HttpMethod::POST => "POST",
            HttpMethod::PUT => "PUT",
            HttpMethod::PATCH => "PATCH",
        }
    }

    /// The transport's method value of the same name.
    pub fn to_rquest(&self) -> (r: http::Method)
        ensures
            r == method_of(self.name()),
    {
        let m = method_from_name(self.as_str());
        m.unwrap()
    }
}

/// Everything a session may be configured with; every field is optional.
/// Durations are in milliseconds.
pub struct ClientConfig {
    pub auth: Option<Vec<String>>,
    pub auth_bearer: Option<String>,
    pub headers: Option<Vec<(String, String)>>,
    pub cookie_store: Option<bool>,
    pub referer: Option<bool>,
    pub proxy: Option<String>,
    pub timeout_ms: Option<u64>,
    pub impersonate: Option<String>,
    pub impersonate_os: Option<String>,
    pub follow_redirects: Option<bool>,
    pub max_redirects: Option<u32>,
    pub verify: Option<bool>,
    pub ca_cert_file: Option<String>,
    pub https_only: Option<bool>,
    pub http2_only: Option<bool>,
}

/// How redirects are followed.
#[derive(Clone, Copy, PartialEq, Eq, Structural)]
pub enum RedirectPolicy {
    /// Follow at most this many hops.
    Limited(u32),
    /// Do not follow redirects.
    NoFollow,
}

/// Redirects followed by default.
pub const DEFAULT_MAX_REDIRECTS: u32 = 20;

/// What the transport is built with; fixed for the session's lifetime.
pub struct TransportSettings {
    /// Validated default headers, names in lower case.
    pub default_headers: Vec<(String, String)>,
    pub cookie_store: bool,
    pub referer: bool,
    pub proxy: Option<String>,
    pub timeout_ms: Option<u64>,
    pub redirect: RedirectPolicy,
    pub accept_invalid_certs: bool,
    pub https_only: bool,
    pub http2_only: bool,
    /// Impersonation profile name, with the OS name where one was given.
    pub impersonate: Option<(String, Option<String>)>,
    pub ca_cert_file: Option<String>,
}

/// Basic credentials in a view: a user and perhaps a password.
pub type Credentials = (Seq<char>, Option<Seq<char>>);

pub open spec fn opt_str(o: Option<String>) -> Option<Seq<char>> {
    match o {
        Some(s) => Some(s@),
        None => None,
    }
}

/// Basic credentials from a list: its first item is the user, its second, if
/// any, the password; an empty list gives none.
pub open spec fn credentials_of(v: Option<Vec<String>>) -> Option<Credentials> {
    match v {
        Some(l) => if l@.len() == 0 {
            None
        } else {
            Some((l@[0]@, if l@.len() > 1 { Some(l@[1]@) } else { None }))
        },
        None => None,
    }
}

pub open spec fn opt_pairs(o: Option<Vec<(String, String)>>) -> Option<Seq<(Seq<char>, Seq<char>)>> {
    match o {
        Some(p) => Some(pairs_view(p@)),
        None => None,
    }
}

fn copy_str(s: &Option<String>) -> (r: Option<String>)
    ensures
        opt_str(r) == opt_str(*s),
{
    match s {
        Some(v) => Some(v.clone()),
        None => None,
    }
}

fn credentials_from(v: &Option<Vec<String>>) -> (r: Option<(String, Option<String>)>)
    ensures
        match r {
            Some((u, p)) => credentials_of(*v) == Some((u@, opt_str(p))),
            None => credentials_of(*v) is None,
        },
{
    match v {
        Some(l) => {
            if l.len() == 0 {
                None
            } else {
                let user = l[0].clone();
                let pass = if l.len() > 1 { Some(l[1].clone()) } else { None };
                Some((user, pass))
            }
        },
        None => None,
    }
}

pub open spec fn cred_view(c: Option<(String, Option<String>)>) -> Option<Credentials> {
    match c {
        Some((u, p)) => Some((u@, opt_str(p))),
        None => None,
    }
}

/// A session: its defaults for requests and the settings its transport is built with.
pub struct Client {
    auth: Option<(String, Option<String>)>,
    auth_bearer: Option<String>,
    params: Option<Vec<(String, String)>>,
    timeout_ms: Option<u64>,
    transport: TransportSettings,
}

impl Client {
    pub closed spec fn auth_view(&self) -> Option<Credentials> {
        cred_view(self.auth)
    }

    pub closed spec fn bearer_view(&self) -> Option<Seq<char>> {
        opt_str(self.auth_bearer)
    }

    pub closed spec fn params_view(&self) -> Option<Seq<(Seq<char>, Seq<char>)>> {
        opt_pairs(self.params)
    }

    pub closed spec fn timeout_view(&self) -> Option<u64> {
        self.timeout_ms
    }

    pub closed spec fn default_headers_view(&self) -> Seq<(Seq<char>, Seq<char>)> {
        pairs_view(self.transport.default_headers@)
    }

    pub closed spec fn transport_view(&self) -> TransportSettings {
        self.transport
    }

    /// Whether this session holds what construction makes of `config`, with
    /// `env_proxy` the proxy found in the environment.
    pub open spec fn built_from(&self, config: ClientConfig, env_proxy: Option<String>) -> bool {
        let t = self.transport_view();
        &&& self.auth_view() == credentials_of(config.auth)
        &&& self.bearer_view() == opt_str(config.auth_bearer)
        &&& self.params_view() is None
        &&& self.timeout_view() == config.timeout_ms
        &&& self.default_headers_view() == match config.headers {
            Some(h) => valid_headers(h@),
            None => Seq::empty(),
        }
        &&& t.cookie_store == match config.cookie_store { Some(b) => b, None => true }
        &&& t.referer == match config.referer { Some(b) => b, None => true }
        &&& opt_str(t.proxy) == match config.proxy {
            Some(p) => Some(p@),
            None => opt_str(env_proxy),
        }
        &&& t.timeout_ms == config.timeout_ms
        &&& t.redirect == if match config.follow_redirects { Some(b) => b, None => true } {
            RedirectPolicy::Limited(match config.max_redirects { Some(n) => n, None => DEFAULT_MAX_REDIRECTS })
        } else {
            RedirectPolicy::NoFollow
        }
        &&& t.accept_invalid_certs == (config.verify == Some(false))
        &&& t.https_only == (config.https_only == Some(true))
        &&& t.http2_only == (config.http2_only == Some(true))
        &&& match t.impersonate {
            Some((p, os)) => config.impersonate matches Some(q) && p@ == q@ && opt_str(os) == opt_str(config.impersonate_os),
            None => config.impersonate is None,
        }
        &&& opt_str(t.ca_cert_file) == opt_str(config.ca_cert_file)
    }

    /// Builds a session from its configuration, each missing option taking its
    /// default; `env_proxy` is the proxy named in the environment, used only when
    /// the configuration names none. Malformed default headers are dropped.
    pub fn new(config: Option<ClientConfig>, env_proxy: Option<String>) -> (r: Self)
        ensures
            match config {
                Some(c) => r.built_from(c, env_proxy),
                None => r.built_from(empty_config(), env_proxy),
            },
    {
        let config = match config {
            Some(c) => c,
            None => ClientConfig {
                auth: None,
                auth_bearer: None,
                headers: None,
                cookie_store: None,
                referer: None,
                proxy: None,
                timeout_ms: None,
                impersonate: None,
                impersonate_os: None,
                follow_redirects: None,
                max_redirects: None,
                verify: None,
                ca_cert_file: None,
                https_only: None,
                http2_only: None,
            },
        };
        let auth = credentials_from(&config.auth);
        let default_headers = match &config.headers {
            Some(h) => filter_headers(h),
            None => {
                let empty: Vec<(String, String)> = Vec::new();
                assert(pairs_view(empty@) =~= Seq::empty());
                empty
            },
        };
        let proxy = match &config.proxy {
            Some(p) => Some(p.clone()),
            None => env_proxy,
        };
        let follow = match config.follow_redirects {
            Some(b) => b,
            None => true,
        };
        let redirect = if follow {
            RedirectPolicy::Limited(
                match config.max_redirects {
                    Some(n) => n,
                    None => DEFAULT_MAX_REDIRECTS,
                },
            )
        } else {
            RedirectPolicy::NoFollow
        };
        let impersonate = match &config.impersonate {
            Some(p) => Some((p.clone(), copy_str(&config.impersonate_os))),
            None => None,
        };
        let transport = TransportSettings {
            default_headers,
            cookie_store: match config.cookie_store {
                Some(b) => b,
                None => true,
            },
            referer: match config.referer {
                Some(b) => b,
                None => true,
            },
            proxy,
            timeout_ms: config.timeout_ms,
            redirect,
            accept_invalid_certs: match config.verify {
                Some(v) => !v,
                None => false,
            },
            https_only: match config.https_only {
                Some(v) => v,
                None => false,
            },
            http2_only: match config.http2_only {
                Some(v) => v,
                None => false,
            },
            impersonate,
            ca_cert_file: copy_str(&config.ca_cert_file),
        };
        Client {
            auth,
            auth_bearer: copy_str(&config.auth_bearer),
            params: None,
            timeout_ms: config.timeout_ms,
            transport,
        }
    }

    /// The settings the transport is to be built with.
    pub fn transport(&self) -> (r: &TransportSettings)
        ensures
            *r == self.transport_view(),
    {
        &self.transport
    }
}

/// A file attachment, read into memory: its form field, its path (sent as the
/// file name) and its contents.
pub struct FilePart {
    pub field: String,
    pub path: String,
    pub bytes: Vec<u8>,
}

/// What one request asks for beyond its method and URL; every field is optional.
pub struct RequestOptions {
    pub params: Option<Vec<(String, String)>>,
    pub headers: Option<Vec<(String, String)>>,
    pub cookies: Option<Vec<(String, String)>>,
    pub content: Option<Vec<u8>>,
    pub data: Option<Vec<(String, String)>>,
    pub json: Option<serde_json::Value>,
    pub files: Option<Vec<FilePart>>,
    pub auth: Option<Vec<String>>,
    pub auth_bearer: Option<String>,
    pub timeout_ms: Option<u64>,
}

/// The one body a request carries.
pub enum RequestBody {
    Empty,
    Raw(Vec<u8>),
    Form(Vec<(String, String)>),
    Json(serde_json::Value),
    Multipart(Vec<FilePart>),
}

/// The one authentication a request carries.
pub enum Auth {
    NoAuth,
    Basic(String, Option<String>),
    Bearer(String),
}

/// An authentication in a view.
pub enum AuthChoice {
    NoAuth,
    Basic(Credentials),
    Bearer(Seq<char>),
}

impl Auth {
    pub open spec fn view(&self) -> AuthChoice {
        match self {
            Auth::NoAuth => AuthChoice::NoAuth,
            Auth::Basic(u, p) => AuthChoice::Basic((u@, opt_str(*p))),
            Auth::Bearer(t) => AuthChoice::Bearer(t@),
        }
    }
}

/// A request with every default resolved, ready for the transport.
pub struct ResolvedRequest {
    pub method: HttpMethod,
    pub url: String,
    pub query: Option<Vec<(String, String)>>,
    /// The request's own headers, validated; the transport lays them over the
    /// session's defaults.
    pub headers: Vec<(String, String)>,
    /// Cookies to put in the session's jar for the URL before sending.
    pub cookies: Vec<(String, String)>,
    pub body: RequestBody,
    pub auth: Auth,
    pub timeout_ms: Option<u64>,
}

/// The body chosen by precedence: raw bytes, then form fields, then JSON, then
/// file attachments (where there is at least one); the others are ignored.
pub open spec fn body_of(
    content: Option<Vec<u8>>,
    data: Option<Vec<(String, String)>>,
    json: Option<serde_json::Value>,
    files: Option<Vec<FilePart>>,
) -> RequestBody {
    match content {
        Some(b) => RequestBody::Raw(b),
        None => match data {
            Some(d) => RequestBody::Form(d),
            None => match json {
                Some(j) => RequestBody::Json(j),
                None => match files {
                    Some(f) => if f@.len() > 0 {
                        RequestBody::Multipart(f)
                    } else {
                        RequestBody::Empty
                    },
                    None => RequestBody::Empty,
                },
            },
        },
    }
}

/// The authentication chosen by precedence: the request's basic credentials,
/// then its bearer token, then the session's basic credentials, then its token.
pub open spec fn auth_of(
    req_basic: Option<Credentials>,
    req_bearer: Option<Seq<char>>,
    session_basic: Option<Credentials>,
    session_bearer: Option<Seq<char>>,
) -> AuthChoice {
    match req_basic {
        Some(c) => AuthChoice::Basic(c),
        None => match req_bearer {
            Some(t) => AuthChoice::Bearer(t),
            None => match session_basic {
                Some(c) => AuthChoice::Basic(c),
                None => match session_bearer {
                    Some(t) => AuthChoice::Bearer(t),
                    None => AuthChoice::NoAuth,
                },
            },
        },
    }
}

/// The cookie pairs that make a valid `name=value` header value, in order.
pub open spec fn cookie_pairs(c: Seq<(String, String)>) -> Seq<(Seq<char>, Seq<char>)>
    decreases c.len(),
{
    if c.len() == 0 {
        Seq::empty()
    } else {
        let rest = cookie_pairs(c.drop_last());
        let (k, v) = c.last();
        if header_value_valid(k@) && header_value_valid(v@) {
            rest.push((k@, v@))
        } else {
            rest
        }
    }
}

fn filter_cookies(c: &Vec<(String, String)>) -> (r: Vec<(String, String)>)
    ensures
        pairs_view(r@) == cookie_pairs(c@),
{
    let mut out: Vec<(String, String)> = Vec::new();
    let mut i: usize = 0;
    while i < c.len()
        invariant
            i <= c@.len(),
            pairs_view(out@) == cookie_pairs(c@.subrange(0, i as int)),
        decreases c@.len() - i,
    {
        let k = &c[i].0;
        let v = &c[i].1;
        proof {
            assert(c@.subrange(0, i as int + 1).drop_last() =~= c@.subrange(0, i as int));
        }
        if header_value_accepts(k.as_str()) && header_value_accepts(v.as_str()) {
            out.push((k.clone(), v.clone()));
            assert(pairs_view(out@) =~= cookie_pairs(c@.subrange(0, i as int + 1)));
        }
        i = i + 1;
    }
    assert(c@.subrange(0, c@.len() as int) =~= c@);
    out
}

impl Client {
    /// Resolves one request against the session: the request's query replaces
    /// the session's, its headers and cookies are validated entry by entry, one
    /// body and one authentication are chosen by precedence, and its timeout
    /// overrides the session's for this call only. The session is unchanged.
    pub fn request(&self, method: HttpMethod, url: String, opts: RequestOptions) -> (r: ResolvedRequest)
        ensures
            r.method == method,
            r.url@ == url@,
            opt_pairs(r.query) == match opts.params {
                Some(p) => Some(pairs_view(p@)),
                None => self.params_view(),
            },
            pairs_view(r.headers@) == match opts.headers {
                Some(h) => valid_headers(h@),
                None => Seq::empty(),
            },
            pairs_view(r.cookies@) == match opts.cookies {
                Some(c) => cookie_pairs(c@),
                None => Seq::empty(),
            },
            r.body == body_of(opts.content, opts.data, opts.json, opts.files),
            r.auth@ == auth_of(credentials_of(opts.auth), opt_str(opts.auth_bearer), self.auth_view(), self.bearer_view()),
            r.timeout_ms == match opts.timeout_ms {
                Some(t) => Some(t),
                None => self.timeout_view(),
            },
    {
        let RequestOptions { params, headers, cookies, content, data, json, files, auth, auth_bearer, timeout_ms } = opts;
        let query = match params {
            Some(p) => Some(p),
            None => match &self.params {
                Some(p) => Some(copy_pairs(p)),
                None => None,
            },
        };
        let headers = match &headers {
            Some(h) => filter_headers(h),
            None => {
                let empty: Vec<(String, String)> = Vec::new();
                assert(pairs_view(empty@) =~= Seq::empty());
                empty
            },
        };
        let cookies = match &cookies {
            Some(c) => filter_cookies(c),
            None => {
                let empty: Vec<(String, String)> = Vec::new();
                assert(pairs_view(empty@) =~= Seq::empty());
                empty
            },
        };
        let body = match content {
            Some(b) => RequestBody::Raw(b),
            None => match data {
                Some(d) => RequestBody::Form(d),
                None => match json {
                    Some(j) => RequestBody::Json(j),
                    None => match files {
                        Some(f) => if f.len() > 0 {
                            RequestBody::Multipart(f)
                        } else {
                            RequestBody::Empty
                        },
                        None => RequestBody::Empty,
                    },
                },
            },
        };
        let auth = match credentials_from(&auth) {
            Some((u, p)) => Auth::Basic(u, p),
            None => match auth_bearer {
                Some(t) => Auth::Bearer(t),
                None => match &self.auth {
                    Some((u, p)) => Auth::Basic(u.clone(), copy_str(p)),
                    None => match &self.auth_bearer {
                        Some(t) => Auth::Bearer(t.clone()),
                        None => Auth::NoAuth,
                    },
                },
            },
        };
        let timeout_ms = match timeout_ms {
            Some(t) => Some(t),
            None => self.timeout_ms,
        };
        ResolvedRequest { method, url, query, headers, cookies, body, auth, timeout_ms }
    }
}

impl Client {
    /// Whether two sessions resolve requests with the same defaults and build
    /// the same transport.
    pub open spec fn same_defaults(&self, other: &Client) -> bool {
        let (t, u) = (self.transport_view(), other.transport_view());
        &&& self.auth_view() == other.auth_view()
        &&& self.bearer_view() == other.bearer_view()
        &&& self.params_view() == other.params_view()
        &&& self.timeout_view() == other.timeout_view()
        &&& self.default_headers_view() == other.default_headers_view()
        &&& t.cookie_store == u.cookie_store
        &&& t.referer == u.referer
        &&& opt_str(t.proxy) == opt_str(u.proxy)
        &&& t.timeout_ms == u.timeout_ms
        &&& t.redirect == u.redirect
        &&& t.accept_invalid_certs == u.accept_invalid_certs
        &&& t.https_only == u.https_only
        &&& t.http2_only == u.http2_only
        &&& opt_str(t.ca_cert_file) == opt_str(u.ca_cert_file)
        &&& match (t.impersonate, u.impersonate) {
            (Some((p, os)), Some((q, os2))) => p@ == q@ && opt_str(os) == opt_str(os2),
            (None, None) => true,
            _ => false,
        }
    }
}

/// Construction is deterministic: two sessions built from the same
/// configuration and environment have the same resolved defaults.
pub proof fn lemma_construction_deterministic(config: ClientConfig, env_proxy: Option<String>, a: Client, b: Client)
    requires
        a.built_from(config, env_proxy),
        b.built_from(config, env_proxy),
    ensures
        a.same_defaults(&b),
{
}

/// A malformed default header does not stop construction, and is simply
/// absent: the session's default headers are those of the list without it.
pub proof fn lemma_malformed_default_header_absent(
    config: ClientConfig,
    env_proxy: Option<String>,
    r: Client,
    before: Seq<(String, String)>,
    bad: (String, String),
    after: Seq<(String, String)>,
)
    requires
        r.built_from(config, env_proxy),
        config.headers matches Some(h) && h@ == before.push(bad) + after,
        !(header_name_valid(bad.0@) && header_value_valid(bad.1@)),
    ensures
        r.default_headers_view() == valid_headers(before + after),
{
    lemma_malformed_header_dropped(before, bad, after);
}

/// The configuration with every option left out.
pub open spec fn empty_config() -> ClientConfig {
    ClientConfig {
        auth: None,
        auth_bearer: None,
        headers: None,
        cookie_store: None,
        referer: None,
        proxy: None,
        timeout_ms: None,
        impersonate: None,
        impersonate_os: None,
        follow_redirects: None,
        max_redirects: None,
        verify: None,
        ca_cert_file: None,
        https_only: None,
        http2_only: None,
    }
}

} // verus!
