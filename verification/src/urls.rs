//! Absolute URLs, reduced to the parts the crawler reads.
//!
//! Parsing and reference resolution follow the URL standard and are done by
//! the `url` crate; this module holds them behind two trusted wrappers whose
//! results are named by uninterpreted spec functions of the input strings.

use vstd::prelude::*;

verus! {

/// The parts of a URL, at the specification level: its serialized string
/// form, its scheme, its host and its path segments, in that order.
pub type UrlParts = (Seq<char>, Seq<char>, Seq<char>, Seq<Seq<char>>);

/// The parts of a resolved absolute URL that the crawler reads: its
/// serialized string form, its scheme, its host (empty where the URL has
/// none) and its path segments (empty where the URL cannot be a base).
pub struct CrawlTarget {
    pub url: String,
    pub scheme: String,
    pub host: String,
    pub segments: Vec<String>,
}

impl View for CrawlTarget {
    type V = UrlParts;

    open spec fn view(&self) -> Self::V {
        (self.url@, self.scheme@, self.host@, self.segments.deep_view())
    }
}

impl DeepView for CrawlTarget {
    type V = UrlParts;

    open spec fn deep_view(&self) -> Self::V {
        self.view()
    }
}

/// What parsing an absolute URL string yields: the serialized URL, its
/// scheme, its host (empty where the URL has none) and its path segments,
/// or `None` where the string is not a parseable absolute URL.
pub uninterp spec fn url_parse_of(s: Seq<char>) -> Option<UrlParts>;

/// What resolving the reference `link` against the absolute URL `base`
/// yields, or `None` where `base` does not parse or the reference does not
/// resolve against it.
pub uninterp spec fn url_join_of(base: Seq<char>, link: Seq<char>) -> Option<UrlParts>;

/// Relies on `url::Url::parse`: the parts of an absolute URL are a function
/// of the string alone. The host part is `host_str`, or empty where the URL
/// has no host; the segments are `path_segments`, or empty where the URL
/// cannot be a base.
#[verifier::external_body]
pub(crate) fn parse_url(s: &str) -> (r: Option<CrawlTarget>)
    ensures
        match url_parse_of(s@) {
            Some(p) => r is Some && r->0@ == p,
            None => r is None,
        },
{
    let u = url::Url::parse(s).ok()?;
    let segments: Vec<String> = match u.path_segments() {
        Some(it) => it.map(|x| x.to_string()).collect(),
        None => Vec::new(),
    };
    Some(CrawlTarget {
        url: u.as_str().to_string(),
        scheme: u.scheme().to_string(),
        host: u.host_str().unwrap_or("").to_string(),
        segments,
    })
}

/// Relies on `url::Url::parse` and `url::Url::join`: resolving a reference
/// against a base URL string is a function of the two strings alone. The
/// result's parts are read as in `parse_url`.
#[verifier::external_body]
pub(crate) fn resolve_url(base: &str, link: &str) -> (r: Option<CrawlTarget>)
    ensures
        match url_join_of(base@, link@) {
            Some(p) => r is Some && r->0@ == p,
            None => r is None,
        },
{
    let u = url::Url::parse(base).ok()?.join(link).ok()?;
    let segments: Vec<String> = match u.path_segments() {
        Some(it) => it.map(|x| x.to_string()).collect(),
        None => Vec::new(),
    };
    Some(CrawlTarget {
        url: u.as_str().to_string(),
        scheme: u.scheme().to_string(),
        host: u.host_str().unwrap_or("").to_string(),
        segments,
    })
}

} // verus!
