//! A response: headers and cookies read once at construction, a body cell that
//! goes from unread to cached at most once, and the text and JSON views of the
//! cached bytes.
use vstd::prelude::*;
use crate::headers::{find_last, last_per_name, lookup, pairs_view, unique_names};
use crate::text::{parse_set_cookie, set_cookie_pair};

verus! {

#[verifier::external_type_specification]
#[verifier::external_body]
pub struct ExJsonValue(serde_json::Value);

#[verifier::external_type_specification]
#[verifier::external_body]
pub struct ExJsonError(serde_json::Error);

/// Whether serde_json accepts the bytes as one JSON document.
pub uninterp spec fn json_accepts(b: Seq<u8>) -> bool;

/// The JSON value that serde_json parses from the bytes, where it accepts them.
pub uninterp spec fn json_value_of(b: Seq<u8>) -> serde_json::Value;

/// Whether encoding_rs knows a label as the name of an encoding.
pub uninterp spec fn encoding_known(label: Seq<char>) -> bool;

/// The text that encoding_rs decodes from the bytes under a known label,
/// undecodable sequences replaced.
pub uninterp spec fn decoded_text(label: Seq<char>, b: Seq<u8>) -> Seq<char>;

/// The `charset` parameter of a media type, where it parses as one and has it.
pub uninterp spec fn mime_charset(ct: Seq<char>) -> Option<Seq<char>>;

/// Relies on serde_json::from_slice: parses the bytes as one JSON document.
#[verifier::external_body]
fn json_from_bytes(b: &[u8]) -> (r: Result<serde_json::Value, serde_json::Error>)
    ensures
        r is Ok <==> json_accepts(b@),
        r matches Ok(v) ==> v == json_value_of(b@),
{
    serde_json::from_slice(b)
}

/// Relies on the Display impl of serde_json::Error: the reason of a parse failure.
#[verifier::external_body]
fn json_error_text(e: &serde_json::Error) -> (r: String)
{
    e.to_string()
}

/// Relies on encoding_rs::Encoding::for_label: whether a label names an
/// encoding; "utf-8" does.
#[verifier::external_body]
fn label_is_known(label: &str) -> (r: bool)
    ensures
        r == encoding_known(label@),
        label@ == "utf-8"@ ==> r,
{
    encoding_rs::Encoding::for_label(label.as_bytes()).is_some()
}

/// Relies on encoding_rs::Encoding::decode: decodes the bytes under the encoding
/// that the label names, with replacement of malformed sequences.
#[verifier::external_body]
fn decode_lossy(label: &str, b: &[u8]) -> (r: String)
    requires
        encoding_known(label@),
    ensures
        r@ == decoded_text(label@, b@),
{
    encoding_rs::Encoding::for_label(label.as_bytes()).map(|e| e.decode(b).0.into_owned()).unwrap_or_default()
}

/// Relies on mime's `FromStr` for `Mime` and `Mime::get_param`: the `charset`
/// parameter of a media type.
#[verifier::external_body]
fn charset_of(ct: &str) -> (r: Option<String>)
    ensures
        r matches Some(c) ==> mime_charset(ct@) == Some(c@),
        r is None ==> mime_charset(ct@) is None,
{
    ct.parse::<mime::Mime>().ok().and_then(|m| m.get_param(mime::CHARSET).map(|c| c.as_str().to_string()))
}

/// The state of a response body.
pub enum BodyCell {
    /// The stream has not been touched.
    Unread,
    /// The stream has been handed out to be drained; its bytes are awaited.
    Draining,
    /// The stream was drained and its bytes are kept.
    Cached(Vec<u8>),
    /// The stream was taken and reading it failed: it cannot be read again.
    Failed,
}

/// What an access to the body must do next.
pub enum BodyStep {
    /// The body is cached: here is a copy.
    Ready(Vec<u8>),
    /// The caller must drain the stream and hand the result to `store_body`.
    Drain,
    /// The stream is gone and nothing was cached.
    Consumed,
}

/// Why an access to the body failed.
pub enum ResponseError {
    /// The stream was already taken, and no bytes were cached.
    Consumed,
    /// The body has not been read yet.
    NotRead,
    /// Draining the stream failed, for the given reason.
    Read(String),
    /// The bytes are not a JSON document, for the given reason.
    Decode(String),
}

pub struct Response {
    headers_map: Vec<(String, String)>,
    cookies_map: Vec<(String, String)>,
    body: BodyCell,
    encoding: Option<String>,
    pub url: String,
    pub status_code: u16,
}

/// The header entries that are text, in order of arrival.
pub open spec fn text_headers(raw: Seq<(String, Option<String>)>) -> Seq<(Seq<char>, Seq<char>)>
    decreases raw.len(),
{
    if raw.len() == 0 {
        Seq::empty()
    } else {
        let rest = text_headers(raw.drop_last());
        match raw.last().1 {
            Some(v) => rest.push((raw.last().0@, v@)),
            None => rest,
        }
    }
}

/// The cookies that the `set-cookie` entries set, in order of arrival.
pub open spec fn set_cookies(raw: Seq<(String, Option<String>)>) -> Seq<(Seq<char>, Seq<char>)>
    decreases raw.len(),
{
    if raw.len() == 0 {
        Seq::empty()
    } else {
        let rest = set_cookies(raw.drop_last());
        match raw.last().1 {
            Some(v) => if raw.last().0@ == "set-cookie"@ {
                match set_cookie_pair(v@) {
                    Some(p) => rest.push(p),
                    None => rest,
                }
            } else {
                rest
            },
            None => rest,
        }
    }
}

/// The encoding label for a header list: the `charset` of `content-type`, else UTF-8.
pub open spec fn charset_label(h: Seq<(Seq<char>, Seq<char>)>) -> Seq<char> {
    match lookup(h, "content-type"@) {
        Some(ct) => match mime_charset(ct) {
            Some(c) => c,
            None => "utf-8"@,
        },
        None => "utf-8"@,
    }
}

/// The label actually decoded with: the charset where encoding_rs knows it, else UTF-8.
pub open spec fn decode_label(h: Seq<(Seq<char>, Seq<char>)>) -> Seq<char> {
    if encoding_known(charset_label(h)) {
        charset_label(h)
    } else {
        "utf-8"@
    }
}

/// The body cell as the laws see it.
pub enum CellModel {
    Unread,
    Draining,
    Cached(Seq<u8>),
    Failed,
}

impl BodyCell {
    pub open spec fn view(&self) -> CellModel {
        match self {
            BodyCell::Unread => CellModel::Unread,
            BodyCell::Draining => CellModel::Draining,
            BodyCell::Cached(b) => CellModel::Cached(b@),
            BodyCell::Failed => CellModel::Failed,
        }
    }
}

/// The cell after an access: an unread stream is handed out to be drained,
/// any other state stays as it is.
pub open spec fn access_step(c: CellModel) -> CellModel {
    match c {
        CellModel::Unread => CellModel::Draining,
        _ => c,
    }
}

/// The cell after a drain ends, with its bytes or with a failure.
pub open spec fn drained_step(c: CellModel, got: Option<Seq<u8>>) -> CellModel {
    match c {
        CellModel::Draining => match got {
            Some(b) => CellModel::Cached(b),
            None => CellModel::Failed,
        },
        _ => c,
    }
}

/// A step of the body's life: an access, or the end of a drain with its bytes or none.
pub enum BodyEvent {
    Access,
    Drained(Option<Seq<u8>>),
}

pub open spec fn event_step(c: CellModel, e: BodyEvent) -> CellModel {
    match e {
        BodyEvent::Access => access_step(c),
        BodyEvent::Drained(got) => drained_step(c, got),
    }
}

/// The cell after a run of events.
pub open spec fn run(c: CellModel, evs: Seq<BodyEvent>) -> CellModel
    decreases evs.len(),
{
    if evs.len() == 0 {
        c
    } else {
        event_step(run(c, evs.drop_last()), evs.last())
    }
}

/// How many accesses of a run of events drained the stream.
pub open spec fn drains(c: CellModel, evs: Seq<BodyEvent>) -> nat
    decreases evs.len(),
{
    if evs.len() == 0 {
        0
    } else {
        let before = run(c, evs.drop_last());
        drains(c, evs.drop_last()) + if evs.last() is Access && before is Unread {
            1nat
        } else {
            0nat
        }
    }
}

/// Once the stream has been handed out the cell never becomes unread again.
proof fn lemma_run_not_unread(c: CellModel, evs: Seq<BodyEvent>)
    requires
        !(c is Unread),
    ensures
        !(run(c, evs) is Unread),
    decreases evs.len(),
{
    if evs.len() > 0 {
        lemma_run_not_unread(c, evs.drop_last());
    }
}

/// However many accesses a body sees, in whatever order with the ends of drains,
/// the stream is drained at most once; and never once it has been handed out.
pub proof fn lemma_drained_at_most_once(c: CellModel, evs: Seq<BodyEvent>)
    ensures
        drains(c, evs) <= 1,
        !(c is Unread) ==> drains(c, evs) == 0,
        drains(c, evs) == 1 ==> !(run(c, evs) is Unread),
    decreases evs.len(),
{
    if evs.len() > 0 {
        let init = evs.drop_last();
        lemma_drained_at_most_once(c, init);
        if c is Unread {
            if drains(c, init) == 1 {
                // the earlier drain left the cell handed out for good
            } else {
                if run(c, init) is Unread && evs.last() is Access {
                    assert(run(c, evs) is Draining);
                }
            }
        } else {
            lemma_run_not_unread(c, init);
        }
    }
}

/// A cached body stays cached with the same bytes whatever happens after, so
/// every access from then on hands out the same bytes.
pub proof fn lemma_cached_body_stable(b: Seq<u8>, evs: Seq<BodyEvent>)
    ensures
        run(CellModel::Cached(b), evs) == CellModel::Cached(b),
        drains(CellModel::Cached(b), evs) == 0,
    decreases evs.len(),
{
    if evs.len() > 0 {
        lemma_cached_body_stable(b, evs.drop_last());
    }
    lemma_drained_at_most_once(CellModel::Cached(b), evs);
}

fn copy_bytes(b: &Vec<u8>) -> (r: Vec<u8>)
    ensures
        r@ == b@,
{
    let mut out: Vec<u8> = Vec::new();
    let mut i: usize = 0;
    while i < b.len()
        invariant
            i <= b@.len(),
            out@ == b@.subrange(0, i as int),
        decreases b@.len() - i,
    {
        out.push(b[i]);
        assert(out@ =~= b@.subrange(0, i as int + 1));
        i = i + 1;
    }
    assert(b@.subrange(0, b@.len() as int) =~= b@);
    out
}

impl Response {
    /// The header entries that were text, in order of arrival; for a repeated
    /// name the last one counts.
    pub closed spec fn headers_view(&self) -> Seq<(Seq<char>, Seq<char>)> {
        pairs_view(self.headers_map@)
    }

    /// The cookies that the response set, in order of arrival; for a repeated
    /// name the last one counts.
    pub closed spec fn cookies_view(&self) -> Seq<(Seq<char>, Seq<char>)> {
        pairs_view(self.cookies_map@)
    }

    pub closed spec fn url_view(&self) -> Seq<char> {
        self.url@
    }

    pub closed spec fn status_of(&self) -> u16 {
        self.status_code
    }

    pub closed spec fn cell(&self) -> CellModel {
        self.body@
    }

    /// The encoding label that has been worked out, if any.
    pub closed spec fn encoding_memo(&self) -> Option<Seq<char>> {
        match self.encoding {
            Some(e) => Some(e@),
            None => None,
        }
    }

    /// The memoised encoding, once there, is the one the headers call for.
    pub open spec fn wf(&self) -> bool {
        self.encoding_memo() matches Some(e) ==> e == charset_label(self.headers_view())
    }

    /// Reads a response from its status, its URL and its header entries in
    /// order of arrival (a value is `None` where it is not visible ASCII text).
    /// Headers and cookies are read now; the body is left unread.
    pub fn new(url: String, status_code: u16, raw_headers: Vec<(String, Option<String>)>) -> (r: Self)
        ensures
            r.wf(),
            r.url_view() == url@,
            r.status_of() == status_code,
            r.headers_view() == text_headers(raw_headers@),
            r.cookies_view() == set_cookies(raw_headers@),
            r.cell() is Unread,
            r.encoding_memo() is None,
    {
        let mut headers_map: Vec<(String, String)> = Vec::new();
        let mut cookies_map: Vec<(String, String)> = Vec::new();
        let ghost raw = raw_headers@;
        let mut i: usize = 0;
        while i < raw_headers.len()
            invariant
                raw == raw_headers@,
                i <= raw.len(),
                pairs_view(headers_map@) == text_headers(raw.subrange(0, i as int)),
                pairs_view(cookies_map@) == set_cookies(raw.subrange(0, i as int)),
            decreases raw.len() - i,
        {
            proof {
                assert(raw.subrange(0, i as int + 1).drop_last() =~= raw.subrange(0, i as int));
            }
            let name = &raw_headers[i].0;
            match &raw_headers[i].1 {
                Some(v) => {
                    headers_map.push((name.clone(), v.clone()));
                    assert(pairs_view(headers_map@) =~= text_headers(raw.subrange(0, i as int + 1)));
                    let set_cookie = "set-cookie".to_string();
                    if *name == set_cookie {
                        match parse_set_cookie(v.as_str()) {
                            Some(p) => {
                                cookies_map.push(p);
                                assert(pairs_view(cookies_map@) =~= set_cookies(raw.subrange(0, i as int + 1)));
                            },
                            None => {},
                        }
                    }
                },
                None => {},
            }
            i = i + 1;
        }
        proof {
            assert(raw.subrange(0, raw.len() as int) =~= raw);
        }
        Response { headers_map, cookies_map, body: BodyCell::Unread, encoding: None, url, status_code }
    }

    /// The headers as a mapping: one entry per name, the last value seen for it.
    pub fn headers(&self) -> (r: Vec<(String, String)>)
        ensures
            unique_names(pairs_view(r@)),
            forall|k: Seq<char>| #[trigger] lookup(pairs_view(r@), k) == lookup(self.headers_view(), k),
    {
        last_per_name(&self.headers_map)
    }

    /// The cookies as a mapping: one entry per name, the last value set for it.
    pub fn cookies(&self) -> (r: Vec<(String, String)>)
        ensures
            unique_names(pairs_view(r@)),
            forall|k: Seq<char>| #[trigger] lookup(pairs_view(r@), k) == lookup(self.cookies_view(), k),
    {
        last_per_name(&self.cookies_map)
    }

    /// The value of a header (names in lower case), the last entry winning.
    pub fn header(&self, name: &str) -> (r: Option<String>)
        ensures
            r matches Some(v) ==> lookup(self.headers_view(), name@) == Some(v@),
            r is None ==> lookup(self.headers_view(), name@) is None,
    {
        find_last(&self.headers_map, name)
    }

    /// The value of a cookie, the last one set winning.
    pub fn cookie(&self, name: &str) -> (r: Option<String>)
        ensures
            r matches Some(v) ==> lookup(self.cookies_view(), name@) == Some(v@),
            r is None ==> lookup(self.cookies_view(), name@) is None,
    {
        find_last(&self.cookies_map, name)
    }

    /// An access to the body. A cached body is copied out and stays; an unread
    /// stream is marked handed out and the caller is told to drain it; a stream
    /// already handed out or failed is reported consumed.
    pub fn take_body(&mut self) -> (r: BodyStep)
        requires
            old(self).wf(),
        ensures
            final(self).wf(),
            final(self).cell() == access_step(old(self).cell()),
            final(self).headers_view() == old(self).headers_view(),
            final(self).cookies_view() == old(self).cookies_view(),
            final(self).encoding_memo() == old(self).encoding_memo(),
            final(self).url_view() == old(self).url_view(),
            final(self).status_of() == old(self).status_of(),
            match old(self).cell() {
                CellModel::Cached(b) => r matches BodyStep::Ready(v) && v@ == b,
                CellModel::Unread => r is Drain,
                _ => r is Consumed,
            },
    {
        match &self.body {
            BodyCell::Cached(b) => BodyStep::Ready(copy_bytes(b)),
            BodyCell::Unread => {
                self.body = BodyCell::Draining;
                BodyStep::Drain
            },
            _ => BodyStep::Consumed,
        }
    }

    /// Ends a drain: bytes read are cached and a copy returned; a read failure
    /// leaves the stream consumed.
    pub fn store_body(&mut self, drained: Result<Vec<u8>, String>) -> (r: Result<Vec<u8>, ResponseError>)
        requires
            old(self).wf(),
            old(self).cell() is Draining,
        ensures
            final(self).wf(),
            final(self).cell() == drained_step(
                old(self).cell(),
                match drained {
                    Ok(b) => Some(b@),
                    Err(_) => None,
                },
            ),
            final(self).headers_view() == old(self).headers_view(),
            final(self).cookies_view() == old(self).cookies_view(),
            final(self).encoding_memo() == old(self).encoding_memo(),
            final(self).url_view() == old(self).url_view(),
            final(self).status_of() == old(self).status_of(),
            match drained {
                Ok(b) => r matches Ok(v) && v@ == b@,
                Err(e) => r matches Err(ResponseError::Read(m)) && m@ == e@,
            },
    {
        match drained {
            Ok(b) => {
                let v = copy_bytes(&b);
                self.body = BodyCell::Cached(b);
                Ok(v)
            },
            Err(e) => {
                self.body = BodyCell::Failed;
                Err(ResponseError::Read(e))
            },
        }
    }

    /// The cached body bytes.
    pub fn content(&self) -> (r: Result<Vec<u8>, ResponseError>)
        ensures
            match self.cell() {
                CellModel::Cached(b) => r matches Ok(v) && v@ == b,
                CellModel::Unread => r matches Err(ResponseError::NotRead),
                _ => r matches Err(ResponseError::Consumed),
            },
    {
        match &self.body {
            BodyCell::Cached(b) => Ok(copy_bytes(b)),
            BodyCell::Unread => Err(ResponseError::NotRead),
            _ => Err(ResponseError::Consumed),
        }
    }

    /// The encoding named for the body: the `charset` of `content-type`, else
    /// UTF-8; worked out on the first call and remembered.
    pub fn get_encoding(&mut self) -> (r: String)
        requires
            old(self).wf(),
        ensures
            final(self).wf(),
            r@ == charset_label(old(self).headers_view()),
            final(self).encoding_memo() == Some(r@),
            final(self).cell() == old(self).cell(),
            final(self).headers_view() == old(self).headers_view(),
            final(self).cookies_view() == old(self).cookies_view(),
            final(self).url_view() == old(self).url_view(),
            final(self).status_of() == old(self).status_of(),
    {
        match &self.encoding {
            Some(e) => {
                return e.clone();
            },
            None => {},
        }
        let mut label = "utf-8".to_string();
        match self.header("content-type") {
            Some(ct) => match charset_of(ct.as_str()) {
                Some(c) => {
                    label = c;
                },
                None => {},
            },
            None => {},
        }
        self.encoding = Some(label.clone());
        label
    }

    /// The cached body decoded under the response's encoding, or under UTF-8
    /// where that encoding is unknown; malformed sequences replaced.
    pub fn text(&mut self) -> (r: Result<String, ResponseError>)
        requires
            old(self).wf(),
        ensures
            final(self).wf(),
            final(self).cell() == old(self).cell(),
            final(self).headers_view() == old(self).headers_view(),
            final(self).cookies_view() == old(self).cookies_view(),
            match old(self).cell() {
                CellModel::Cached(b) => r matches Ok(t) && t@ == decoded_text(decode_label(old(self).headers_view()), b),
                CellModel::Unread => r matches Err(ResponseError::NotRead),
                _ => r matches Err(ResponseError::Consumed),
            },
    {
        let named = self.get_encoding();
        match &self.body {
            BodyCell::Cached(b) => {
                let label = if label_is_known(named.as_str()) {
                    named
                } else {
                    let utf8 = "utf-8".to_string();
                    let utf8_known = label_is_known(utf8.as_str());
                    assert(utf8_known);
                    utf8
                };
                Ok(decode_lossy(label.as_str(), b.as_slice()))
            },
            BodyCell::Unread => Err(ResponseError::NotRead),
            _ => Err(ResponseError::Consumed),
        }
    }

    /// The cached body parsed as JSON; the body stays cached either way.
    pub fn json(&self) -> (r: Result<serde_json::Value, ResponseError>)
        ensures
            match self.cell() {
                CellModel::Cached(b) => if json_accepts(b) {
                    r == Ok::<serde_json::Value, ResponseError>(json_value_of(b))
                } else {
                    r matches Err(ResponseError::Decode(_))
                },
                CellModel::Unread => r matches Err(ResponseError::NotRead),
                _ => r matches Err(ResponseError::Consumed),
            },
    {
        match &self.body {
            BodyCell::Cached(b) => match json_from_bytes(b.as_slice()) {
                Ok(v) => Ok(v),
                Err(e) => Err(ResponseError::Decode(json_error_text(&e))),
            },
            BodyCell::Unread => Err(ResponseError::NotRead),
            _ => Err(ResponseError::Consumed),
        }
    }
}

} // verus!
