//! Request headers sent with playlist, key and segment requests, and the site rules
//! that choose them.
use vstd::prelude::*;
use crate::text::{
    chars_of, clone_opt, ends_with, ends_with_chars, opt_view, push_all, starts_with,
    starts_with_chars, str_eq, string_of,
};
use crate::urls::{url_host, url_scheme, WebUrl};

verus! {

/// The browser identity used where a site gives none.
pub const BROWSER_USER_AGENT: &'static str = "Mozilla/5.0 (Macintosh; Intel Mac OS X 10_15_7) AppleWebKit/537.36 (KHTML, like Gecko) Chrome/126 Safari/537.36";

/// The headers a request carries, each optional.
#[derive(Debug)]
pub struct RequestHeaders {
    pub referer: Option<String>,
    pub origin: Option<String>,
    pub cookie: Option<String>,
    pub user_agent: Option<String>,
    pub accept: Option<String>,
    pub accept_language: Option<String>,
}

impl Clone for RequestHeaders {
    fn clone(&self) -> (r: Self)
        ensures
            r == *self,
    {
        RequestHeaders {
            referer: clone_opt(&self.referer),
            origin: clone_opt(&self.origin),
            cookie: clone_opt(&self.cookie),
            user_agent: clone_opt(&self.user_agent),
            accept: clone_opt(&self.accept),
            accept_language: clone_opt(&self.accept_language),
        }
    }
}

/// No header set.
pub open spec fn no_headers(h: RequestHeaders) -> bool {
    &&& h.referer is None
    &&& h.origin is None
    &&& h.cookie is None
    &&& h.user_agent is None
    &&& h.accept is None
    &&& h.accept_language is None
}

impl Default for RequestHeaders {
    fn default() -> (r: Self)
        ensures
            no_headers(r),
    {
        RequestHeaders {
            referer: None,
            origin: None,
            cookie: None,
            user_agent: None,
            accept: None,
            accept_language: None,
        }
    }
}

/// `a.or(b)` on optional strings.
pub open spec fn or_else(a: Option<String>, b: Option<String>) -> Option<String> {
    match a {
        Some(x) => Some(x),
        None => b,
    }
}

/// A candidate's own headers win when they name a referer or an origin; otherwise
/// each header comes from the candidate where it has one, else from the fallback.
pub open spec fn spec_merge_headers(primary: RequestHeaders, fallback: RequestHeaders) -> RequestHeaders {
    if primary.referer is Some || primary.origin is Some {
        primary
    } else {
        RequestHeaders {
            referer: or_else(primary.referer, fallback.referer),
            origin: or_else(primary.origin, fallback.origin),
            cookie: or_else(primary.cookie, fallback.cookie),
            user_agent: or_else(primary.user_agent, fallback.user_agent),
            accept: or_else(primary.accept, fallback.accept),
            accept_language: or_else(primary.accept_language, fallback.accept_language),
        }
    }
}

fn or_clone(a: &Option<String>, b: &Option<String>) -> (r: Option<String>)
    ensures
        r == or_else(*a, *b),
{
    match a {
        Some(_) => clone_opt(a),
        None => clone_opt(b),
    }
}

pub fn merge_headers(primary: &RequestHeaders, fallback: &RequestHeaders) -> (r: RequestHeaders)
    ensures
        r == spec_merge_headers(*primary, *fallback),
{
    if primary.referer.is_some() || primary.origin.is_some() {
        return primary.clone();
    }
    RequestHeaders {
        referer: or_clone(&primary.referer, &fallback.referer),
        origin: or_clone(&primary.origin, &fallback.origin),
        cookie: or_clone(&primary.cookie, &fallback.cookie),
        user_agent: or_clone(&primary.user_agent, &fallback.user_agent),
        accept: or_clone(&primary.accept, &fallback.accept),
        accept_language: or_clone(&primary.accept_language, &fallback.accept_language),
    }
}

/// ASCII letters in lower case (`str::to_ascii_lowercase`).
pub open spec fn ascii_lower(s: Seq<char>) -> Seq<char> {
    s.map_values(|c: char| if 'A' <= c && c <= 'Z' { ((c as u32) + 32) as char } else { c })
}

pub fn to_ascii_lower(s: &str) -> (r: Vec<char>)
    ensures
        r@ == ascii_lower(s@),
{
    let v = chars_of(s);
    let mut out: Vec<char> = Vec::new();
    let mut i: usize = 0;
    while i < v.len()
        invariant
            i <= v.len(),
            out@ == ascii_lower(v@.take(i as int)),
        decreases v.len() - i,
    {
        let c = v[i];
        if 'A' <= c && c <= 'Z' {
            let b = c as u8;
            assert(b as u32 == c as u32);
            out.push((b + 32) as char);
        } else {
            out.push(c);
        }
        assert(out@ =~= ascii_lower(v@.take(i + 1)));
        i = i + 1;
    }
    assert(v@.take(v.len() as int) =~= v@);
    out
}

/// Pages of the sites whose playlist tokens expire at once.
pub open spec fn spec_is_short_token_page(page_url: Seq<char>) -> bool {
    match url_host(page_url) {
        None => false,
        Some(h) => {
            let host = ascii_lower(h);
            host == "nvhai86.top"@ || host == "haouu8.top"@ || (starts_with(host, "pochu"@)
                && ends_with(host, ".top"@))
        },
    }
}

pub fn is_short_token_page(page_url: &WebUrl) -> (r: bool)
    ensures
        r == spec_is_short_token_page(page_url@),
{
    match page_url.host() {
        None => false,
        Some(h) => {
            let host = to_ascii_lower(h.as_str());
            let host_str = string_of(host.as_slice());
            str_eq(host_str.as_str(), "nvhai86.top") || str_eq(host_str.as_str(), "haouu8.top") || (
            starts_with_chars(&host, &chars_of("pochu")) && ends_with_chars(&host, &chars_of(".top")))
        },
    }
}

/// The persistent browser profile is tried first except on short-token sites.
pub fn should_try_persistent_profile(page_url: &WebUrl) -> (r: bool)
    ensures
        r == !spec_is_short_token_page(page_url@),
{
    !is_short_token_page(page_url)
}

/// On short-token sites the first captured candidate is requested at once.
pub fn should_direct_download_first_candidate(page_url: &WebUrl) -> (r: bool)
    ensures
        r == spec_is_short_token_page(page_url@),
{
    is_short_token_page(page_url)
}

/// Direct playlist links on `lldvideo.top` (and its subdomains) need the referer of the
/// site that embeds them and a browser identity; other links need no header.
pub open spec fn inferred_headers_hold(r: RequestHeaders, input: Seq<char>) -> bool {
    let lld = match url_host(input) {
        Some(h) => ascii_lower(h) == "lldvideo.top"@ || ends_with(ascii_lower(h), ".lldvideo.top"@),
        None => false,
    };
    if lld {
        &&& r.referer matches Some(v) && v@ == "https://haouu8.top/"@
        &&& r.user_agent matches Some(v) && v@ == BROWSER_USER_AGENT@
        &&& r.origin is None
        &&& r.cookie is None
        &&& r.accept is None
        &&& r.accept_language is None
    } else {
        no_headers(r)
    }
}

pub fn inferred_direct_m3u8_headers(input: &WebUrl) -> (r: RequestHeaders)
    ensures
        inferred_headers_hold(r, input@),
{
    let lld = match input.host() {
        Some(h) => {
            let host = to_ascii_lower(h.as_str());
            let host_str = string_of(host.as_slice());
            str_eq(host_str.as_str(), "lldvideo.top") || ends_with_chars(
                &host,
                &chars_of(".lldvideo.top"),
            )
        },
        None => false,
    };
    if lld {
        RequestHeaders {
            referer: Some(String::from_str("https://haouu8.top/")),
            origin: None,
            cookie: None,
            user_agent: Some(String::from_str(BROWSER_USER_AGENT)),
            accept: None,
            accept_language: None,
        }
    } else {
        RequestHeaders::default()
    }
}

/// `scheme://host` of a URL, `None` where it has no host.
pub open spec fn spec_page_origin(url: Seq<char>) -> Option<Seq<char>> {
    match url_host(url) {
        Some(h) => Some(url_scheme(url) + "://"@ + h),
        None => None,
    }
}

pub fn page_origin(url: &WebUrl) -> (r: Option<String>)
    ensures
        opt_view(r) == spec_page_origin(url@),
{
    match url.host() {
        Some(h) => {
            let mut v = chars_of(url.scheme().as_str());
            push_all(&mut v, "://");
            push_all(&mut v, h.as_str());
            Some(string_of(v.as_slice()))
        },
        None => None,
    }
}

/// The headers of requests made on behalf of a web page: the page as referer and its
/// origin.
pub fn page_request_headers(page_url: &WebUrl) -> (r: RequestHeaders)
    ensures
        r.referer matches Some(v) && v@ == page_url@,
        opt_view(r.origin) == spec_page_origin(page_url@),
        r.cookie is None,
        r.user_agent is None,
        r.accept is None,
        r.accept_language is None,
{
    RequestHeaders {
        referer: Some(String::from_str(page_url.as_str())),
        origin: page_origin(page_url),
        cookie: None,
        user_agent: None,
        accept: None,
        accept_language: None,
    }
}

/// `value` or `<无>` where it is missing.
pub open spec fn or_none_mark(v: Option<String>) -> Seq<char> {
    match v {
        Some(s) => s@,
        None => "<无>"@,
    }
}

/// `<有>` or `<无>`: whether a secret header is set, without showing it.
pub open spec fn presence_mark(v: Option<String>) -> Seq<char> {
    if v is Some {
        "<有>"@
    } else {
        "<无>"@
    }
}

/// The log line about the headers in use: none where referer, origin, cookie and user
/// agent are all missing; the cookie and user agent are only marked as present.
pub open spec fn spec_request_headers_line(h: RequestHeaders) -> Option<Seq<char>> {
    if h.referer is None && h.origin is None && h.cookie is None && h.user_agent is None {
        None
    } else {
        Some(
            "使用请求头: Referer="@ + or_none_mark(h.referer) + " Origin="@ + or_none_mark(h.origin)
                + " Cookie="@ + presence_mark(h.cookie) + " UA="@ + presence_mark(h.user_agent)
                + "\n"@,
        )
    }
}

fn push_or_none(v: &mut Vec<char>, o: &Option<String>)
    ensures
        final(v)@ == old(v)@ + or_none_mark(*o),
{
    match o {
        Some(s) => push_all(v, s.as_str()),
        None => push_all(v, "<无>"),
    }
}

fn push_presence(v: &mut Vec<char>, o: &Option<String>)
    ensures
        final(v)@ == old(v)@ + presence_mark(*o),
{
    if o.is_some() {
        push_all(v, "<有>");
    } else {
        push_all(v, "<无>");
    }
}

pub fn request_headers_line(headers: &RequestHeaders) -> (r: Option<String>)
    ensures
        opt_view(r) == spec_request_headers_line(*headers),
{
    if headers.referer.is_none() && headers.origin.is_none() && headers.cookie.is_none()
        && headers.user_agent.is_none() {
        return None;
    }
    let mut v = chars_of("使用请求头: Referer=");
    push_or_none(&mut v, &headers.referer);
    push_all(&mut v, " Origin=");
    push_or_none(&mut v, &headers.origin);
    push_all(&mut v, " Cookie=");
    push_presence(&mut v, &headers.cookie);
    push_all(&mut v, " UA=");
    push_presence(&mut v, &headers.user_agent);
    push_all(&mut v, "\n");
    Some(string_of(v.as_slice()))
}

/// The header named `name` if `value` is set.
pub open spec fn header_pair(name: Seq<char>, value: Option<String>) -> Seq<(Seq<char>, Seq<char>)> {
    match value {
        Some(v) => seq![(name, v@)],
        None => seq![],
    }
}

/// The (name, value) pairs an HTTP request is built with, in this order.
pub open spec fn spec_header_pairs(h: RequestHeaders) -> Seq<(Seq<char>, Seq<char>)> {
    header_pair("Referer"@, h.referer) + header_pair("Origin"@, h.origin) + header_pair(
        "Cookie"@,
        h.cookie,
    ) + header_pair("User-Agent"@, h.user_agent) + header_pair("Accept"@, h.accept) + header_pair(
        "Accept-Language"@,
        h.accept_language,
    )
}

/// Pairs of strings as values.
pub open spec fn pair_views(v: Seq<(String, String)>) -> Seq<(Seq<char>, Seq<char>)> {
    v.map_values(|p: (String, String)| (p.0@, p.1@))
}

fn push_pair(out: &mut Vec<(String, String)>, name: &str, value: &Option<String>)
    ensures
        pair_views(final(out)@) == pair_views(old(out)@) + header_pair(name@, *value),
{
    match value {
        Some(v) => {
            let ghost before = out@;
            out.push((String::from_str(name), v.clone()));
            assert(pair_views(out@) =~= pair_views(before) + header_pair(name@, *value));
        },
        None => {
            assert(pair_views(out@) =~= pair_views(out@) + header_pair(name@, *value));
        },
    }
}

pub fn request_header_pairs(headers: &RequestHeaders) -> (r: Vec<(String, String)>)
    ensures
        pair_views(r@) == spec_header_pairs(*headers),
{
    let mut out: Vec<(String, String)> = Vec::new();
    assert(pair_views(out@) =~= Seq::<(Seq<char>, Seq<char>)>::empty());
    push_pair(&mut out, "Referer", &headers.referer);
    push_pair(&mut out, "Origin", &headers.origin);
    push_pair(&mut out, "Cookie", &headers.cookie);
    push_pair(&mut out, "User-Agent", &headers.user_agent);
    push_pair(&mut out, "Accept", &headers.accept);
    push_pair(&mut out, "Accept-Language", &headers.accept_language);
    assert(pair_views(out@) =~= spec_header_pairs(*headers));
    out
}

} // verus!

verus! {

/// A candidate without headers of its own is requested with the fallback headers.
pub proof fn lemma_merge_without_own_headers(primary: RequestHeaders, fallback: RequestHeaders)
    requires
        no_headers(primary),
    ensures
        spec_merge_headers(primary, fallback) == fallback,
{
}

/// A candidate that names its referer or origin is requested with exactly its own
/// headers.
pub proof fn lemma_merge_keeps_own_page(primary: RequestHeaders, fallback: RequestHeaders)
    requires
        primary.referer is Some || primary.origin is Some,
    ensures
        spec_merge_headers(primary, fallback) == primary,
{
}

} // verus!
