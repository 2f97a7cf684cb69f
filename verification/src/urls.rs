//! Parsed web addresses, held by their serialization, with the operations of the
//! `url` crate that the download logic reads.
use vstd::prelude::*;
use crate::text::opt_view;

verus! {

/// The serialization (`Url::as_str`) of `url::Url::parse(input)`; `None` where it fails.
pub uninterp spec fn url_parse(input: Seq<char>) -> Option<Seq<char>>;

/// The serialization of `Url::join(reference)` on the URL serialized as `base`;
/// `None` where the join fails.
pub uninterp spec fn url_join(base: Seq<char>, reference: Seq<char>) -> Option<Seq<char>>;

/// `Url::host_str` of the URL serialized as `href`.
pub uninterp spec fn url_host(href: Seq<char>) -> Option<Seq<char>>;

/// The characters of `s` before the first `c` (all of `s` where there is none).
pub open spec fn before_char(s: Seq<char>, c: char) -> Seq<char>
    decreases s.len(),
{
    if s.len() == 0 {
        s
    } else if s[0] == c {
        seq![]
    } else {
        seq![s[0]] + before_char(s.drop_first(), c)
    }
}

/// `Url::scheme` of the URL serialized as `href`: a URL's serialization starts with its
/// scheme and a `:`, and a scheme holds no `:`.
pub open spec fn url_scheme(href: Seq<char>) -> Seq<char> {
    before_char(href, ':')
}

/// The last item of `Url::path_segments` of the URL serialized as `href`; `None` where
/// the URL cannot be a base.
pub uninterp spec fn url_last_segment(href: Seq<char>) -> Option<Seq<char>>;

/// An absolute URL, held as its serialization. Every value comes from a successful
/// parse or join of the `url` crate.
#[derive(Debug)]
pub struct WebUrl {
    href: String,
}

impl View for WebUrl {
    type V = Seq<char>;

    closed spec fn view(&self) -> Seq<char> {
        self.href@
    }
}

impl WebUrl {
    /// `url::Url::parse`, kept as the serialization.
    #[verifier::external_body]
    fn parse_href(input: &str) -> (r: Option<WebUrl>)
        ensures
            match r {
                Some(u) => url_parse(input@) == Some(u@),
                None => url_parse(input@) is None,
            },
    {
        match url::Url::parse(input) {
            Ok(u) => Some(WebUrl { href: u.as_str().to_string() }),
            Err(_) => None,
        }
    }

    /// `url::Url::join` on the parsed serialization.
    #[verifier::external_body]
    fn join_href(&self, reference: &str) -> (r: Option<WebUrl>)
        ensures
            match r {
                Some(u) => url_join(self@, reference@) == Some(u@),
                None => url_join(self@, reference@) is None,
            },
    {
        let base = match url::Url::parse(&self.href) {
            Ok(base) => base,
            Err(_) => return None,
        };
        match base.join(reference) {
            Ok(u) => Some(WebUrl { href: u.as_str().to_string() }),
            Err(_) => None,
        }
    }

    /// `url::Url::host_str` of the parsed serialization.
    #[verifier::external_body]
    fn host_of(&self) -> (r: Option<String>)
        ensures
            opt_view(r) == url_host(self@),
    {
        match url::Url::parse(&self.href) {
            Ok(u) => u.host_str().map(|h| h.to_string()),
            Err(_) => None,
        }
    }

    /// `url::Url::scheme` of the parsed serialization: the serialization up to its first
    /// `:` (the crate keeps the scheme as that prefix of the serialization).
    #[verifier::external_body]
    fn scheme_of(&self) -> (r: String)
        ensures
            r@ == url_scheme(self@),
    {
        match url::Url::parse(&self.href) {
            Ok(u) => u.scheme().to_string(),
            Err(_) => String::new(),
        }
    }

    /// The last item of `url::Url::path_segments` of the parsed serialization.
    #[verifier::external_body]
    fn last_segment_of(&self) -> (r: Option<String>)
        ensures
            opt_view(r) == url_last_segment(self@),
    {
        match url::Url::parse(&self.href) {
            Ok(u) => u.path_segments().and_then(|mut s| s.next_back()).map(|s| s.to_string()),
            Err(_) => None,
        }
    }

    /// Parses an absolute URL.
    pub fn parse(input: &str) -> (r: Option<WebUrl>)
        ensures
            match r {
                Some(u) => url_parse(input@) == Some(u@),
                None => url_parse(input@) is None,
            },
    {
        Self::parse_href(input)
    }

    /// Resolves `reference` against this URL.
    pub fn join(&self, reference: &str) -> (r: Option<WebUrl>)
        ensures
            match r {
                Some(u) => url_join(self@, reference@) == Some(u@),
                None => url_join(self@, reference@) is None,
            },
    {
        self.join_href(reference)
    }

    /// The host of this URL.
    pub fn host(&self) -> (r: Option<String>)
        ensures
            opt_view(r) == url_host(self@),
    {
        self.host_of()
    }

    /// The scheme of this URL.
    pub fn scheme(&self) -> (r: String)
        ensures
            r@ == url_scheme(self@),
    {
        self.scheme_of()
    }

    /// The last path segment of this URL.
    pub fn last_path_segment(&self) -> (r: Option<String>)
        ensures
            opt_view(r) == url_last_segment(self@),
    {
        self.last_segment_of()
    }

    /// Whether two URLs are the same (`Url::eq` compares serializations).
    pub fn same(&self, other: &WebUrl) -> (r: bool)
        ensures
            r == (self@ == other@),
    {
        crate::text::str_eq(self.href.as_str(), other.href.as_str())
    }

    /// The serialization of this URL.
    pub fn as_str(&self) -> (r: &str)
        ensures
            r@ == self@,
    {
        self.href.as_str()
    }

}

impl Clone for WebUrl {
    fn clone(&self) -> (r: Self)
        ensures
            r@ == self@,
    {
        WebUrl { href: self.href.clone() }
    }
}

} // verus!
