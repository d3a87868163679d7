//! The decisions of one API call or upload, as a state machine: which
//! entry point to send to next, what an answer means (retry after solving
//! the challenge, try the next entry point, or finish), and the answer
//! given when every entry point has failed. The caller sends the requests
//! and hands back what came of them.
use vstd::prelude::*;
use crate::cookie::{
    cookie_pairs, entry_of, law_merge_then_header, lemma_remember_keeps_scopes, spec_cookie_scope, merge_cookie, merged_pair, opt_view,
    remember_response_cookies, spec_cookie_header, spec_merge_cookie, spec_remember_cookies,
};
use crate::endpoint::{
    active_entry, candidate_endpoints, candidate_urls, entry_a, entry_b, is_auth_probe,
    is_endpoint_for, opt_str_view,
    spec_endpoint_origin, spec_normalize_route, ApiEndpoint, Session,
};
use crate::json::{
    array, get, json_as_bool, json_get, json_views, members_view, object, string_value, Json,
    JsonV,
};
use crate::response::{
    endpoint_attempt, is_success_response, is_unauthorized_attempt, looks_like_aes_challenge,
    message_from_value, parse_response_text, should_try_next_endpoint,
    has_unauthorized_attempt, spec_endpoint_attempt, spec_is_success_response,
    spec_looks_like_aes_challenge, spec_message_from_value, spec_response_text,
    spec_should_try_next_endpoint,
};
use crate::text::{
    ascii_lower_seq, chars_eq, chars_of, contains, contains_chars, lacks, lemma_find_first,
    lemma_occurs_char, lemma_split_first, lemma_trim_end, lemma_trimmed_fixed, occurs_at,
    starts_with, starts_with_chars, Trim,
};
use crate::hex::{is_lower_hex_char, lemma_hex_text_chars, spec_bytes_to_hex, spec_strip_pkcs7};
use crate::vmhost::{
    aes128_cbc_decrypt, aes192_cbc_decrypt, aes256_cbc_decrypt, hex_result,
    solve_vmhost_cookie, spec_extract_vmhost_params, spec_solve_vmhost_cookie,
};

verus! {

broadcast use vstd::string::group_string_axioms;

#[verifier::external_type_specification]
#[verifier::external_body]
pub struct ExMethod(reqwest::Method);

/// A character that HTTP allows in a method name (`tchar`).
pub open spec fn is_tchar(c: char) -> bool {
    ||| '0' <= c <= '9'
    ||| 'A' <= c <= 'Z'
    ||| 'a' <= c <= 'z'
    ||| c == '!' || c == '#' || c == '$' || c == '%' || c == '&' || c == '\''
    ||| c == '*' || c == '+' || c == '-' || c == '.' || c == '^' || c == '_'
    ||| c == '`' || c == '|' || c == '~'
}

/// An HTTP method name: one or more `tchar`s.
pub open spec fn is_method_token(s: Seq<char>) -> bool {
    s.len() > 0 && forall|i: int| 0 <= i < s.len() ==> is_tchar(#[trigger] s[i])
}

/// The HTTP method that the method name `method` parses to.
pub uninterp spec fn method_of(method: Seq<char>) -> reqwest::Method;

/// `reqwest::Method::from_str` (the http crate's `Method::from_bytes`).
/// Trusted: it succeeds exactly on a non-empty text of `tchar`s, and the
/// method it gives is the named result for the text (it depends on the
/// text alone). Its source matches the standard names first and checks any
/// other text byte by byte against its table of `tchar`s; a text in any
/// other character fails on a byte of 0x80 or more. It gives `Method::GET`
/// exactly for `GET`.
#[verifier::external_body]
fn parse_method(method: &str) -> (r: Option<reqwest::Method>)
    ensures
        r is Some <==> is_method_token(method@),
        r matches Some(m) ==> m == method_of(method@),
{
    method.parse::<reqwest::Method>().ok()
}

/// What the client answers for a call: a status, the JSON data and the
/// entry point that gave it (empty when none did).
pub struct ApiResponse {
    pub status: u16,
    pub data: Json,
    pub endpoint: String,
}

pub struct ResponseV {
    pub status: u16,
    pub data: JsonV,
    pub endpoint: Seq<char>,
}

pub open spec fn response_v(r: ApiResponse) -> ResponseV {
    ResponseV { status: r.status, data: r.data@, endpoint: r.endpoint@ }
}

/// The view of a response body that was read, or the error that reading
/// it gave.
pub open spec fn body_v(b: Result<String, String>) -> Result<Seq<char>, Seq<char>> {
    match b {
        Ok(x) => Ok(x@),
        Err(e) => Err(e@),
    }
}

/// The model of an endpoint: URL, site base and route.
pub struct EndpointV {
    pub url: Seq<char>,
    pub base: Seq<char>,
    pub route: Option<Seq<char>>,
}

pub open spec fn endpoint_v(e: ApiEndpoint) -> EndpointV {
    EndpointV { url: e.url@, base: e.base@, route: opt_str_view(e.route) }
}

/// The endpoint for `url` and the API path `path`.
pub open spec fn endpoint_spec(url: Seq<char>, path: Seq<char>) -> EndpointV {
    EndpointV { url, base: spec_endpoint_origin(url), route: spec_normalize_route(path) }
}

/// The endpoints tried for `path` in a session that remembers `active`.
pub open spec fn flow_endpoints(active: Option<Seq<char>>, path: Seq<char>) -> Seq<EndpointV> {
    candidate_urls(active).map_values(|u: Seq<char>| endpoint_spec(u, path))
}

/// The model of the session: the remembered site and the cookie cache.
pub struct SessionV {
    pub active: Option<Seq<char>>,
    pub cookies: Map<Seq<char>, Seq<char>>,
}

pub open spec fn session_v(s: Session) -> SessionV {
    SessionV { active: opt_str_view(s.active_base), cookies: s.cookies@ }
}

/// The model of a call in progress.
pub struct FlowV {
    pub endpoints: Seq<EndpointV>,
    pub index: int,
    pub retrying: bool,
    pub attempts: Seq<JsonV>,
    pub last_error: Option<Seq<char>>,
    /// The HTTP method text of an API call; none for an upload.
    pub method: Option<Seq<char>>,
    pub is_get: bool,
    pub solve_challenges: bool,
    pub check_auth: bool,
    pub fallback: Seq<char>,
}

/// One API call or upload in progress.
pub struct RequestFlow {
    path: String,
    method: Option<reqwest::Method>,
    method_text: Option<String>,
    is_get: bool,
    endpoints: Vec<ApiEndpoint>,
    index: usize,
    retrying: bool,
    attempts: Vec<Json>,
    last_error: Option<String>,
    solve_challenges: bool,
    check_auth: bool,
    fallback: String,
}

impl View for RequestFlow {
    type V = FlowV;

    closed spec fn view(&self) -> FlowV {
        FlowV {
            endpoints: self.endpoints@.map_values(|e: ApiEndpoint| endpoint_v(e)),
            index: self.index as int,
            retrying: self.retrying,
            attempts: json_views(self.attempts@),
            last_error: opt_str_view(self.last_error),
            method: opt_str_view(self.method_text),
            is_get: self.is_get,
            solve_challenges: self.solve_challenges,
            check_auth: self.check_auth,
            fallback: self.fallback@,
        }
    }
}

/// An API path the client accepts: it starts with `/` and holds neither
/// `://` nor `..`.
pub open spec fn spec_valid_api_path(path: Seq<char>) -> bool {
    starts_with(path, "/"@) && !contains(path, "://"@) && !contains(path, ".."@)
}

/// The call after an entry point failed with `msg`: that message is kept
/// and the next entry point is due.
pub open spec fn advance(f: FlowV, msg: Seq<char>) -> FlowV {
    FlowV { last_error: Some(msg), index: f.index + 1, retrying: false, ..f }
}

/// What one answer from the current entry point leads to.
pub struct StepV {
    pub flow: FlowV,
    pub session: SessionV,
    pub result: Option<Result<ResponseV, Seq<char>>>,
}

/// The decision on an answer from the current entry point: its
/// `Set-Cookie` values are merged; a body that could not be read ends the
/// call with that error; a challenge page (when challenges are solved and
/// this is not already the retry) is answered with its cookie and the
/// request is sent again, or the next entry point is tried when it cannot
/// be solved; otherwise the answer is recorded as an attempt and the next
/// entry point is tried when `spec_should_try_next_endpoint` says so, or
/// (on the retry) when the answer is still the challenge; else the call
/// ends with the answer, remembering the site when it reports success.
pub open spec fn spec_on_response(
    f: FlowV,
    s: SessionV,
    status: u16,
    cookies: Seq<Option<Seq<char>>>,
    body: Result<Seq<char>, Seq<char>>,
) -> StepV {
    let e = f.endpoints[f.index];
    let s1 = SessionV { cookies: spec_remember_cookies(s.cookies, e.base, cookies), ..s };
    match body {
        Err(msg) => StepV { flow: f, session: s1, result: Some(Err(msg)) },
        Ok(b) => if f.solve_challenges && !f.retrying && spec_looks_like_aes_challenge(b) {
            match spec_solve_vmhost_cookie(b) {
                Ok(cookie) => StepV {
                    flow: FlowV { retrying: true, ..f },
                    session: SessionV {
                        cookies: spec_merge_cookie(s1.cookies, e.base, cookie),
                        ..s1
                    },
                    result: None,
                },
                Err(err) => StepV { flow: advance(f, err), session: s1, result: None },
            }
        } else {
            let data = spec_response_text(b, status, e.url);
            let f1 = FlowV {
                attempts: f.attempts.push(spec_endpoint_attempt(e.url, status, data)),
                ..f
            };
            if spec_should_try_next_endpoint(status, data) || (f.retrying && json_as_bool(
                json_get(data, "challenge"@),
            ) == Some(true)) {
                StepV { flow: advance(f1, spec_message_from_value(data)), session: s1, result: None }
            } else {
                StepV {
                    flow: f1,
                    session: if spec_is_success_response(data) {
                        SessionV { active: Some(e.base), ..s1 }
                    } else {
                        s1
                    },
                    result: Some(Ok(ResponseV { status, data, endpoint: e.url })),
                }
            }
        },
    }
}

/// The answer when every entry point has failed: for the login probe with
/// an attempt answered 401, status 401 and `请先登录`; otherwise status 0,
/// the last error (or the call's fallback message) and the attempts.
pub open spec fn spec_finish(f: FlowV) -> ResponseV {
    if f.check_auth && exists|i: int|
        0 <= i < f.attempts.len() && is_unauthorized_attempt(#[trigger] f.attempts[i]) {
        ResponseV {
            status: 401,
            data: JsonV::Object(
                seq![("success"@, JsonV::Bool(false)), ("message"@, JsonV::Str("请先登录"@))],
            ),
            endpoint: Seq::empty(),
        }
    } else {
        ResponseV {
            status: 0,
            data: JsonV::Object(
                seq![
                    ("success"@, JsonV::Bool(false)),
                    ("message"@, JsonV::Str(
                        match f.last_error {
                            Some(m) => m,
                            None => f.fallback,
                        },
                    )),
                    ("attempts"@, JsonV::Array(f.attempts)),
                ],
            ),
            endpoint: Seq::empty(),
        }
    }
}

impl RequestFlow {
    #[verifier::type_invariant]
    closed spec fn inv(self) -> bool {
        &&& self.index <= self.endpoints@.len()
        &&& (self.method is Some <==> self.method_text is Some)
        &&& (self.method matches Some(m) ==> self.method_text matches Some(t) && m == method_of(
            t@,
        ))
    }

    /// A new call of `path` with the HTTP method `method` in `session`:
    /// over the candidate endpoints, solving challenges, checking the login
    /// probe, failing with `无法连接 CsAC 服务器`. A path that does not start
    /// with `/` or holds `://` or `..` is refused with `invalid api path`;
    /// then a method that is not an HTTP token with `invalid method`.
    pub fn api(session: &Session, method: &str, path: &str) -> (r: Result<RequestFlow, String>)
        ensures
            match r {
                Ok(f) => spec_valid_api_path(path@) && is_method_token(method@) && f@ == (FlowV {
                    endpoints: flow_endpoints(opt_str_view(session.active_base), path@),
                    index: 0,
                    retrying: false,
                    attempts: Seq::empty(),
                    last_error: None,
                    method: Some(method@),
                    is_get: method@ == "GET"@,
                    solve_challenges: true,
                    check_auth: spec_normalize_route(path@) == Some("user/get_info"@),
                    fallback: "无法连接 CsAC 服务器"@,
                }),
                Err(e) => if !spec_valid_api_path(path@) {
                    e@ == "invalid api path"@
                } else {
                    !is_method_token(method@) && e@ == "invalid method"@
                },
            },
    {
        let p = chars_of(path);
        if !starts_with_chars(p.as_slice(), chars_of("/").as_slice()) || contains_chars(
            p.as_slice(),
            chars_of("://").as_slice(),
        ) || contains_chars(p.as_slice(), chars_of("..").as_slice()) {
            return Err("invalid api path".to_string());
        }
        let m = match parse_method(method) {
            Some(m) => m,
            None => return Err("invalid method".to_string()),
        };
        let is_get = chars_eq(chars_of(method).as_slice(), chars_of("GET").as_slice());
        let check_auth = is_auth_probe(path);
        let f = Self::over(
            session,
            path,
            Some(m),
            Some(method.to_string()),
            is_get,
            true,
            check_auth,
            "无法连接 CsAC 服务器".to_string(),
        );
        Ok(f)
    }

    /// A new upload to `path` in `session`: over the candidate endpoints,
    /// without challenge solving or the login probe check, failing with
    /// `fallback`.
    pub fn upload(session: &Session, path: &str, fallback: &str) -> (r: RequestFlow)
        ensures
            r@ == (FlowV {
                endpoints: flow_endpoints(opt_str_view(session.active_base), path@),
                index: 0,
                retrying: false,
                attempts: Seq::empty(),
                last_error: None,
                method: None,
                is_get: false,
                solve_challenges: false,
                check_auth: false,
                fallback: fallback@,
            }),
    {
        Self::over(session, path, None, None, false, false, false, fallback.to_string())
    }

    fn over(
        session: &Session,
        path: &str,
        method: Option<reqwest::Method>,
        method_text: Option<String>,
        is_get: bool,
        solve_challenges: bool,
        check_auth: bool,
        fallback: String,
    ) -> (r: RequestFlow)
        requires
            method is Some <==> method_text is Some,
            method matches Some(m) ==> method_text matches Some(t) && m == method_of(t@),
        ensures
            r@ == (FlowV {
                endpoints: flow_endpoints(opt_str_view(session.active_base), path@),
                index: 0,
                retrying: false,
                attempts: Seq::empty(),
                last_error: None,
                method: opt_str_view(method_text),
                is_get,
                solve_challenges,
                check_auth,
                fallback: fallback@,
            }),
    {
        let endpoints = candidate_endpoints(session, path);
        let ghost urls = candidate_urls(opt_str_view(session.active_base));
        let r = RequestFlow {
            path: path.to_string(),
            method,
            method_text,
            is_get,
            endpoints,
            index: 0,
            retrying: false,
            attempts: Vec::new(),
            last_error: None,
            solve_challenges,
            check_auth,
            fallback,
        };
        assert forall|i: int| 0 <= i < r.endpoints@.len() implies endpoint_v(
            #[trigger] r.endpoints@[i],
        ) == endpoint_spec(urls[i], path@) by {
            assert(is_endpoint_for(r.endpoints@[i], urls[i], path@));
        }
        assert(r@.endpoints =~= flow_endpoints(opt_str_view(session.active_base), path@));
        assert(r@.attempts =~= Seq::<JsonV>::empty());
        r
    }

    /// The index of the entry point to send to next, while one is left.
    pub fn pending(&self) -> (r: Option<usize>)
        ensures
            r matches Some(i) ==> i == self@.index && self@.index < self@.endpoints.len(),
            r is None ==> self@.index >= self@.endpoints.len(),
    {
        if self.index < self.endpoints.len() {
            Some(self.index)
        } else {
            None
        }
    }

    /// The HTTP method of an API call, parsed from the method text it was
    /// made with; an upload has none (it is a `POST` of a form).
    pub fn method(&self) -> (r: &Option<reqwest::Method>)
        ensures
            r is Some <==> self@.method is Some,
            r matches Some(m) ==> self@.method matches Some(t) && *m == method_of(t),
    {
        proof {
            use_type_invariant(self);
        }
        &self.method
    }

    /// Whether the call is a `GET`, whose parameters go in the query.
    pub fn is_get(&self) -> (r: bool)
        ensures
            r == self@.is_get,
    {
        self.is_get
    }

    /// The endpoint at `i`.
    pub fn endpoint(&self, i: usize) -> (r: &ApiEndpoint)
        requires
            i < self@.endpoints.len(),
        ensures
            endpoint_v(*r) == self@.endpoints[i as int],
    {
        &self.endpoints[i]
    }

    /// Sending to the current entry point failed with `msg`.
    pub fn on_send_failed(&mut self, msg: String)
        requires
            old(self)@.index < old(self)@.endpoints.len(),
        ensures
            final(self)@ == advance(old(self)@, msg@),
    {
        proof {
            use_type_invariant(&*self);
        }
        assert(self.index < self.endpoints.len());
        self.last_error = Some(msg);
        self.index = self.index + 1;
        self.retrying = false;
    }

    /// Decides on an answer from the current entry point, as
    /// `spec_on_response` describes: `Some` with the call's result when it
    /// is over, `None` when it goes on (see `pending`).
    pub fn on_response(
        &mut self,
        session: &mut Session,
        status: u16,
        set_cookies: &Vec<Option<String>>,
        body: Result<String, String>,
    ) -> (r: Option<Result<ApiResponse, String>>)
        requires
            old(self)@.index < old(self)@.endpoints.len(),
        ensures
            ({
                let step = spec_on_response(
                    old(self)@,
                    session_v(*old(session)),
                    status,
                    set_cookies@.map_values(|v: Option<String>| opt_view(v)),
                    body_v(body),
                );
                &&& final(self)@ == step.flow
                &&& session_v(*final(session)) == step.session
                &&& match step.result {
                    Some(Ok(x)) => r matches Some(Ok(y)) && response_v(y) == x,
                    Some(Err(e)) => r matches Some(Err(m)) && m@ == e,
                    None => r is None,
                }
            }),
    {
        proof {
            use_type_invariant(&*self);
        }
        let ghost f = self@;
        let i = self.index;
        let base = self.endpoints[i].base.clone();
        let url = self.endpoints[i].url.clone();
        assert(f.endpoints[i as int] == endpoint_v(self.endpoints@[i as int]));
        remember_response_cookies(&mut session.cookies, base.as_str(), set_cookies);
        let b = match body {
            Ok(b) => b,
            Err(e) => return Some(Err(e)),
        };
        if self.solve_challenges && !self.retrying && looks_like_aes_challenge(b.as_str()) {
            match solve_vmhost_cookie(b.as_str()) {
                Ok(cookie) => {
                    merge_cookie(&mut session.cookies, base.as_str(), cookie.as_str());
                    self.retrying = true;
                    return None;
                },
                Err(err) => {
                    self.on_send_failed(err);
                    return None;
                },
            }
        }
        let data = parse_response_text(b.as_str(), status, url.as_str(), self.path.as_str());
        let attempt = endpoint_attempt(url.as_str(), status, &data);
        let mut attempts: Vec<Json> = Vec::new();
        std::mem::swap(&mut attempts, &mut self.attempts);
        attempts.push(attempt);
        self.attempts = attempts;
        assert(json_views(self.attempts@) =~= f.attempts.push(attempt@));
        let challenge = match get(&data, "challenge") {
            Some(Json::Bool(c)) => *c,
            _ => false,
        };
        if should_try_next_endpoint(self.path.as_str(), status, &data) || (self.retrying
            && challenge) {
            let msg = message_from_value(&data);
            self.on_send_failed(msg);
            return None;
        }
        if is_success_response(&data) {
            crate::endpoint::remember_active_base(session, base.as_str());
        }
        Some(Ok(ApiResponse { status, data, endpoint: url }))
    }

    /// The answer when every entry point has failed, as `spec_finish`
    /// describes.
    pub fn finish(self) -> (r: ApiResponse)
        requires
            self@.index >= self@.endpoints.len(),
        ensures
            response_v(r) == spec_finish(self@),
    {
        let ghost f = self@;
        if self.check_auth && has_unauthorized_attempt(self.attempts.as_slice()) {
            let mut m: Vec<(String, Json)> = Vec::new();
            m.push(("success".to_string(), Json::Bool(false)));
            m.push(("message".to_string(), string_value("请先登录")));
            assert(members_view(m@) =~= seq![
                ("success"@, JsonV::Bool(false)),
                ("message"@, JsonV::Str("请先登录"@)),
            ]);
            proof {
                if !(exists|i: int| 0 <= i < f.attempts.len() && is_unauthorized_attempt(#[trigger] f.attempts[i])) {
                    let i = choose|i: int| 0 <= i < self.attempts@.len() && is_unauthorized_attempt(#[trigger] self.attempts@[i]@);
                    assert(f.attempts[i] == self.attempts@[i]@);
                }
            }
            return ApiResponse { status: 401, data: object(m), endpoint: String::new() };
        }
        proof {
            if self.check_auth {
                assert forall|i: int| 0 <= i < f.attempts.len() implies !is_unauthorized_attempt(#[trigger] f.attempts[i]) by {
                    assert(f.attempts[i] == self.attempts@[i]@);
                }
            }
        }
        let message = match self.last_error {
            Some(m) => m,
            None => self.fallback,
        };
        let mut m: Vec<(String, Json)> = Vec::new();
        m.push(("success".to_string(), Json::Bool(false)));
        m.push(("message".to_string(), Json::Str(message)));
        m.push(("attempts".to_string(), array(self.attempts)));
        assert(members_view(m@) =~= seq![
            ("success"@, JsonV::Bool(false)),
            ("message"@, JsonV::Str(match f.last_error {
                Some(x) => x,
                None => f.fallback,
            })),
            ("attempts"@, JsonV::Array(f.attempts)),
        ]);
        ApiResponse { status: 0, data: object(m), endpoint: String::new() }
    }
}

/// Every answer that does not end a call moves it on: either to the next
/// entry point, or (once per entry point, after solving a challenge) to a
/// retry of the same one. So a call sends at most twice to each entry
/// point and then ends.
pub proof fn law_answer_moves_on(
    f: FlowV,
    s: SessionV,
    status: u16,
    cookies: Seq<Option<Seq<char>>>,
    body: Result<Seq<char>, Seq<char>>,
)
    requires
        0 <= f.index < f.endpoints.len(),
    ensures
        ({
            let step = spec_on_response(f, s, status, cookies, body);
            &&& step.flow.endpoints == f.endpoints
            &&& step.result is None ==> ((step.flow.index == f.index + 1 && !step.flow.retrying) || (
            step.flow.index == f.index && !f.retrying && step.flow.retrying))
            &&& step.result is Some ==> step.flow.index == f.index
        }),
{
}

/// A failed send also moves the call to the next entry point.
pub proof fn law_send_failure_moves_on(f: FlowV, msg: Seq<char>)
    ensures
        advance(f, msg).index == f.index + 1,
        !advance(f, msg).retrying,
        advance(f, msg).endpoints == f.endpoints,
        advance(f, msg).last_error == Some(msg),
{
}

/// Keeping the session: an answer never makes the client forget a cookie
/// scope, changes only the scope of the entry point that answered, and
/// changes the remembered site only to that entry point's site, when it
/// ends the call with an answer that reports success.
pub proof fn law_session_kept(
    f: FlowV,
    s: SessionV,
    status: u16,
    cookies: Seq<Option<Seq<char>>>,
    body: Result<Seq<char>, Seq<char>>,
)
    requires
        0 <= f.index < f.endpoints.len(),
    ensures
        ({
            let step = spec_on_response(f, s, status, cookies, body);
            let base = f.endpoints[f.index].base;
            &&& forall|k: Seq<char>|
                s.cookies.contains_key(k) ==> #[trigger] step.session.cookies.contains_key(k)
            &&& forall|k: Seq<char>|
                k != spec_cookie_scope(base) ==> (#[trigger] step.session.cookies.contains_key(k)
                    == s.cookies.contains_key(k) && entry_of(step.session.cookies, k) == entry_of(
                    s.cookies,
                    k,
                ))
            &&& (step.session.active == s.active || (step.session.active == Some(base) && (
            step.result matches Some(Ok(r)) && spec_is_success_response(r.data))))
        }),
{
    lemma_remember_keeps_scopes(s.cookies, f.endpoints[f.index].base, cookies);
}

/// The cookie text `__test=<hex>` merges as the pair (`__test`, hex).
proof fn lemma_test_cookie_pair(hx: Seq<char>)
    requires
        forall|i: int| 0 <= i < hx.len() ==> is_lower_hex_char(#[trigger] hx[i]),
    ensures
        merged_pair("__test="@ + hx) == Some(("__test"@, hx)),
        lacks("__test="@ + hx, ';'),
{
    reveal_strlit("__test=");
    reveal_strlit("__test");
    reveal_strlit("path");
    let c = "__test="@ + hx;
    assert forall|j: int| 0 <= j < 6 implies !occurs_at(c, seq!['='], j) by {
        lemma_occurs_char(c, '=', j);
    }
    lemma_occurs_char(c, '=', 6);
    lemma_find_first(c, seq!['='], 0, 6);
    assert(c.take(6) =~= "__test"@);
    assert(c.skip(7) =~= hx);
    lemma_trimmed_fixed("__test"@);
    if hx.len() > 0 {
        assert(is_lower_hex_char(hx[0]));
        assert(is_lower_hex_char(hx.last()));
    }
    lemma_trimmed_fixed(hx);
    assert(ascii_lower_seq("__test"@).len() == 6);
    assert forall|i: int| 0 <= i < c.len() implies c[i] != ';' by {
        if i >= 7 {
            assert(c[i] == hx[i - 7]);
            assert(is_lower_hex_char(hx[i - 7]));
        }
    }
}

/// Answering the challenge: when the current entry point answers with a
/// challenge page that can be solved, the same entry point is asked again,
/// and the `Cookie` header sent to it now ends with the computed `__test`
/// value.
pub proof fn law_challenge_answered_with_cookie(
    f: FlowV,
    s: SessionV,
    status: u16,
    cookies: Seq<Option<Seq<char>>>,
    b: Seq<char>,
)
    requires
        0 <= f.index < f.endpoints.len(),
        f.solve_challenges,
        !f.retrying,
        spec_looks_like_aes_challenge(b),
        spec_solve_vmhost_cookie(b) is Ok,
    ensures
        ({
            let step = spec_on_response(f, s, status, cookies, Ok(b));
            let base = f.endpoints[f.index].base;
            let c = spec_solve_vmhost_cookie(b)->Ok_0;
            &&& step.result is None
            &&& step.flow.index == f.index
            &&& step.flow.retrying
            &&& spec_cookie_header(step.session.cookies, base) is Some
            &&& exists|hx: Seq<char>|
                c == "__test="@ + hx && cookie_pairs(spec_cookie_header(step.session.cookies, base)->0).last() == ("__test"@, hx)
        }),
{
    let c = spec_solve_vmhost_cookie(b)->Ok_0;
    let params = spec_extract_vmhost_params(b)->0;
    let key = hex_result(params.0)->Ok_0;
    let iv = hex_result(params.1)->Ok_0;
    let data = hex_result(params.2)->Ok_0;
    let plain = if key.len() == 16 {
        aes128_cbc_decrypt(key, iv, data)
    } else if key.len() == 24 {
        aes192_cbc_decrypt(key, iv, data)
    } else {
        aes256_cbc_decrypt(key, iv, data)
    };
    let hx = spec_bytes_to_hex(spec_strip_pkcs7(plain));
    assert(c == "__test="@ + hx);
    lemma_hex_text_chars(spec_strip_pkcs7(plain));
    lemma_test_cookie_pair(hx);
    let base = f.endpoints[f.index].base;
    let jar1 = spec_remember_cookies(s.cookies, base, cookies);
    law_merge_then_header(jar1, base, c);
}

/// Remembering the site that answered: when a unified entry point ends a
/// call with an answer that reports success, the next call tries that same
/// entry point first.
pub proof fn law_success_tried_first(
    f: FlowV,
    s: SessionV,
    status: u16,
    cookies: Seq<Option<Seq<char>>>,
    body: Result<Seq<char>, Seq<char>>,
    next_path: Seq<char>,
)
    requires
        0 <= f.index < f.endpoints.len(),
        f.endpoints[f.index].url == entry_a() || f.endpoints[f.index].url == entry_b(),
        f.endpoints[f.index].base == spec_endpoint_origin(f.endpoints[f.index].url),
    ensures
        ({
            let step = spec_on_response(f, s, status, cookies, body);
            (step.result matches Some(Ok(r)) && spec_is_success_response(r.data))
                ==> flow_endpoints(step.session.active, next_path)[0].url == f.endpoints[f.index].url
        }),
{
    let u = f.endpoints[f.index].url;
    reveal_strlit("https://cschat.ccccocccc.cc/rpc/UniCsAC.php");
    reveal_strlit("https://csac.ccccocccc.cc/rpc/UniCsAC.php");
    reveal_strlit("https://");
    reveal_strlit("http://");
    reveal_strlit("/rpc/UniCsAC.php");
    let rest = u.skip(8);
    let host = if u == entry_a() {
        "cschat.ccccocccc.cc"@
    } else {
        "csac.ccccocccc.cc"@
    };
    reveal_strlit("cschat.ccccocccc.cc");
    reveal_strlit("csac.ccccocccc.cc");
    let tail = "rpc/UniCsAC.php"@;
    reveal_strlit("rpc/UniCsAC.php");
    assert(rest =~= host + seq!['/'] + tail);
    assert(lacks(host, '/'));
    lemma_split_first(host, tail, '/');
    assert(starts_with(u, "https://"@)) by {
        assert(u.take(8) =~= "https://"@);
    }
    let origin = spec_endpoint_origin(u);
    assert(origin =~= "https://"@ + host);
    let j = lemma_trim_end(origin, Trim::Char('/'));
    assert(origin.last() != '/');
    assert(j == origin.len());
    assert(origin.subrange(0, j) =~= origin);
    assert(active_entry(origin) =~= u);
    let step = spec_on_response(f, s, status, cookies, body);
    if step.result matches Some(Ok(r)) && spec_is_success_response(r.data) {
        assert(step.session.active == Some(origin));
        assert(candidate_urls(Some(origin))[0] == u);
    }
}

} // verus!
