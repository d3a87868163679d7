//! The unified API entry points, the order in which they are tried, and
//! the session state that remembers which site last answered.
use vstd::prelude::*;
use crate::cookie::{primary_site_base, primary_site_base_str, CookieJar};
use crate::text::{
    chars_of, concat_chars, split_char, split_chars, lemma_split_char_nonempty, starts_with,
    starts_with_chars, string_of, sub_vec, trim, trim_by, trim_chars, trim_end_by,
    trim_end_chars, trim_start_by, trim_start_chars, Trim,
};

verus! {

broadcast use vstd::string::group_string_axioms;

/// The first unified entry point.
pub open spec fn entry_a() -> Seq<char> {
    "https://cschat.ccccocccc.cc/rpc/UniCsAC.php"@
}

/// The second unified entry point.
pub open spec fn entry_b() -> Seq<char> {
    "https://csac.ccccocccc.cc/rpc/UniCsAC.php"@
}

/// The origin (`scheme://host`) of an entry point URL; the primary site
/// when the URL is neither `https://` nor `http://`.
pub open spec fn spec_endpoint_origin(url: Seq<char>) -> Seq<char> {
    if starts_with(url, "https://"@) {
        "https://"@ + split_char(url.skip(8), '/')[0]
    } else if starts_with(url, "http://"@) {
        "http://"@ + split_char(url.skip(7), '/')[0]
    } else {
        primary_site_base()
    }
}

/// The origin of `url`, as `spec_endpoint_origin` describes.
pub fn endpoint_origin(url: &str) -> (r: String)
    ensures
        r@ == spec_endpoint_origin(url@),
{
    let u = chars_of(url);
    let https = chars_of("https://");
    let http = chars_of("http://");
    proof {
        reveal_strlit("https://");
        reveal_strlit("http://");
    }
    let (scheme, rest_start) = if starts_with_chars(u.as_slice(), https.as_slice()) {
        (https, 8)
    } else if starts_with_chars(u.as_slice(), http.as_slice()) {
        (http, 7)
    } else {
        return primary_site_base_str().to_string();
    };
    let rest = sub_vec(u.as_slice(), rest_start, u.len());
    assert(rest@ =~= u@.skip(rest_start as int));
    let pieces = split_chars(rest.as_slice(), '/');
    proof {
        lemma_split_char_nonempty(rest@, '/');
    }
    let host = concat_chars(scheme.as_slice(), pieces[0].as_slice());
    string_of(host.as_slice())
}

/// The route named by an API path: trimmed, without slashes at either end;
/// `None` when nothing is left.
pub open spec fn spec_normalize_route(path: Seq<char>) -> Option<Seq<char>> {
    let route = trim_by(trim_start_by(trim(path), Trim::Char('/')), Trim::Char('/'));
    if route.len() == 0 {
        None
    } else {
        Some(route)
    }
}

/// The route for `path`, as `spec_normalize_route` describes.
pub fn normalize_route(path: &str) -> (r: Option<String>)
    ensures
        match spec_normalize_route(path@) {
            Some(x) => r matches Some(s) && s@ == x,
            None => r is None,
        },
{
    let p = chars_of(path);
    let t = trim_chars(p.as_slice(), Trim::Whitespace);
    let s = trim_start_chars(t.as_slice(), Trim::Char('/'));
    let route = trim_chars(s.as_slice(), Trim::Char('/'));
    if route.len() == 0 {
        None
    } else {
        Some(string_of(route.as_slice()))
    }
}

/// Whether `path` is the login probe `user/get_info`.
pub fn is_auth_probe(path: &str) -> (r: bool)
    ensures
        r == (spec_normalize_route(path@) == Some("user/get_info"@)),
{
    match normalize_route(path) {
        Some(route) => {
            let a = chars_of(route.as_str());
            let b = chars_of("user/get_info");
            crate::text::chars_eq(a.as_slice(), b.as_slice())
        },
        None => false,
    }
}

/// How a request's parameters are sent.
#[derive(Clone, Copy, PartialEq, Eq, Structural)]
pub enum BodyFormat {
    Form,
}

/// One place to send a request: the entry point URL, its site base, the
/// route parameter and the body format.
pub struct ApiEndpoint {
    pub url: String,
    pub base: String,
    pub route: Option<String>,
    pub body_format: BodyFormat,
}

/// `e` is the endpoint for `url` and the API path `path`.
pub open spec fn is_endpoint_for(e: ApiEndpoint, url: Seq<char>, path: Seq<char>) -> bool {
    &&& e.url@ == url
    &&& e.base@ == spec_endpoint_origin(url)
    &&& match spec_normalize_route(path) {
        Some(x) => e.route matches Some(s) && s@ == x,
        None => e.route is None,
    }
    &&& e.body_format == BodyFormat::Form
}

impl ApiEndpoint {
    /// The endpoint for the entry point `endpoint` and the API path `path`.
    pub fn new(endpoint: &str, path: &str) -> (r: ApiEndpoint)
        ensures
            is_endpoint_for(r, endpoint@, path@),
    {
        ApiEndpoint {
            url: endpoint.to_string(),
            base: endpoint_origin(endpoint),
            route: normalize_route(path),
            body_format: BodyFormat::Form,
        }
    }
}

/// Appends `endpoint` unless an endpoint with the same URL and body format
/// is already listed.
pub fn push_endpoint(endpoints: &mut Vec<ApiEndpoint>, endpoint: ApiEndpoint)
    ensures
        if exists|i: int|
            0 <= i < old(endpoints)@.len() && (#[trigger] old(endpoints)@[i]).url@ == endpoint.url@
                && old(endpoints)@[i].body_format == endpoint.body_format {
            final(endpoints)@ == old(endpoints)@
        } else {
            final(endpoints)@ == old(endpoints)@.push(endpoint)
        },
{
    let n = endpoints.len();
    for i in 0..n
        invariant
            n == endpoints@.len(),
            forall|j: int|
                0 <= j < i ==> !((#[trigger] endpoints@[j]).url@ == endpoint.url@
                    && endpoints@[j].body_format == endpoint.body_format),
    {
        if endpoints[i].url == endpoint.url && endpoints[i].body_format == endpoint.body_format {
            return ;
        }
    }
    endpoints.push(endpoint);
}

/// What the client remembers between requests: the site base that last
/// answered successfully, and the challenge cookies per site.
pub struct Session {
    pub active_base: Option<String>,
    pub cookies: CookieJar,
}

impl Session {
    /// A fresh session: no remembered site and no cookies.
    pub fn new() -> (r: Session)
        ensures
            r.active_base is None,
            r.cookies@ == Map::<Seq<char>, Seq<char>>::empty(),
    {
        Session { active_base: None, cookies: CookieJar::new() }
    }
}

/// Remembers `base` as the site that last answered successfully.
pub fn remember_active_base(session: &mut Session, base: &str)
    ensures
        final(session).active_base matches Some(b) && b@ == base@,
        final(session).cookies@ == old(session).cookies@,
{
    session.active_base = Some(base.to_string());
}

/// The entry point derived from a remembered site base.
pub open spec fn active_entry(base: Seq<char>) -> Seq<char> {
    trim_end_by(base, Trim::Char('/')) + "/rpc/UniCsAC.php"@
}

/// `list` with `u` appended unless it is already there.
pub open spec fn push_unique(list: Seq<Seq<char>>, u: Seq<char>) -> Seq<Seq<char>> {
    if list.contains(u) {
        list
    } else {
        list.push(u)
    }
}

/// The entry point URLs tried, in order: the remembered site's entry point
/// first, then the two unified entry points, each URL once.
pub open spec fn candidate_urls(active: Option<Seq<char>>) -> Seq<Seq<char>> {
    let first = match active {
        Some(b) => seq![active_entry(b)],
        None => Seq::empty(),
    };
    push_unique(push_unique(first, entry_a()), entry_b())
}

/// The endpoints to try for `path`, as `candidate_urls` orders them.
pub fn candidate_endpoints(session: &Session, path: &str) -> (r: Vec<ApiEndpoint>)
    ensures
        r@.len() == candidate_urls(opt_str_view(session.active_base)).len(),
        forall|i: int|
            0 <= i < r@.len() ==> is_endpoint_for(
                #[trigger] r@[i],
                candidate_urls(opt_str_view(session.active_base))[i],
                path@,
            ),
{
    let mut endpoints: Vec<ApiEndpoint> = Vec::new();
    let ghost mut urls: Seq<Seq<char>> = Seq::empty();
    match &session.active_base {
        Some(active) => {
            let a = chars_of(active.as_str());
            let trimmed = trim_end_chars(a.as_slice(), Trim::Char('/'));
            let suffix = chars_of("/rpc/UniCsAC.php");
            let url = string_of(concat_chars(trimmed.as_slice(), suffix.as_slice()).as_slice());
            push_endpoint(&mut endpoints, ApiEndpoint::new(url.as_str(), path));
            proof {
                urls = seq![active_entry(active@)];
            }
        },
        None => {},
    }
    assert(endpoints@.len() == urls.len());
    let ea = "https://cschat.ccccocccc.cc/rpc/UniCsAC.php";
    let eb = "https://csac.ccccocccc.cc/rpc/UniCsAC.php";
    push_listed(&mut endpoints, Ghost(urls), ea, path);
    proof {
        urls = push_unique(urls, entry_a());
    }
    push_listed(&mut endpoints, Ghost(urls), eb, path);
    endpoints
}

/// Adds the endpoint for `url` to a list built from `urls`, keeping the
/// list in step with `push_unique`.
fn push_listed(endpoints: &mut Vec<ApiEndpoint>, Ghost(urls): Ghost<Seq<Seq<char>>>, url: &str, path: &str)
    requires
        old(endpoints)@.len() == urls.len(),
        forall|i: int| 0 <= i < urls.len() ==> is_endpoint_for(#[trigger] old(endpoints)@[i], urls[i], path@),
    ensures
        final(endpoints)@.len() == push_unique(urls, url@).len(),
        forall|i: int|
            0 <= i < final(endpoints)@.len() ==> is_endpoint_for(
                #[trigger] final(endpoints)@[i],
                push_unique(urls, url@)[i],
                path@,
            ),
{
    let e = ApiEndpoint::new(url, path);
    proof {
        if urls.contains(url@) {
            let k = choose|k: int| 0 <= k < urls.len() && urls[k] == url@;
            assert(is_endpoint_for(old(endpoints)@[k], urls[k], path@));
        } else {
            assert forall|i: int| 0 <= i < old(endpoints)@.len() implies !((#[trigger] old(
                endpoints,
            )@[i]).url@ == e.url@ && old(endpoints)@[i].body_format == e.body_format) by {
                assert(is_endpoint_for(old(endpoints)@[i], urls[i], path@));
                assert(urls[i] != url@);
            }
        }
    }
    push_endpoint(endpoints, e);
}

/// The view of an optional string.
pub open spec fn opt_str_view(v: Option<String>) -> Option<Seq<char>> {
    match v {
        Some(s) => Some(s@),
        None => None,
    }
}

/// The endpoints tried for a request never repeat a URL; both unified
/// entry points are always among them; a remembered site's entry point
/// comes first; and nothing else is tried.
pub proof fn law_candidate_urls(active: Option<Seq<char>>)
    ensures
        ({
            let urls = candidate_urls(active);
            &&& forall|i: int, j: int| 0 <= i < j < urls.len() ==> urls[i] != urls[j]
            &&& urls.contains(entry_a())
            &&& urls.contains(entry_b())
            &&& (active matches Some(b) ==> urls[0] == active_entry(b))
            &&& forall|i: int|
                0 <= i < urls.len() ==> (#[trigger] urls[i] == entry_a() || urls[i] == entry_b() || (
                active matches Some(b) && urls[i] == active_entry(b)))
        }),
{
    reveal_strlit("https://cschat.ccccocccc.cc/rpc/UniCsAC.php");
    reveal_strlit("https://csac.ccccocccc.cc/rpc/UniCsAC.php");
    assert(entry_a()[10] != entry_b()[10]);
    let first = match active {
        Some(b) => seq![active_entry(b)],
        None => Seq::empty(),
    };
    let l1 = push_unique(first, entry_a());
    let l2 = push_unique(l1, entry_b());
    assert(l1.contains(entry_a())) by {
        if !first.contains(entry_a()) {
            assert(l1.last() == entry_a());
        }
    }
    assert(l2.contains(entry_a())) by {
        let k = choose|k: int| 0 <= k < l1.len() && l1[k] == entry_a();
        assert(l2[k] == entry_a());
    }
    assert(l2.contains(entry_b())) by {
        if !l1.contains(entry_b()) {
            assert(l2.last() == entry_b());
        }
    }
}

} // verus!
