//! Parsed absolute URLs, reduced to the parts the crawl logic reads: the
//! serialized text, the host and the path. Parsing and relative-reference
//! resolution are done by the `url` crate behind trusted wrappers; everything
//! the crawler decides from a URL is decided from these plain fields.

use vstd::prelude::*;

verus! {

/// The mathematical model of a parsed URL: its serialization, its host
/// component (absent for host-less schemes) and its path.
pub struct UrlView {
    pub text: Seq<char>,
    pub host: Option<Seq<char>>,
    pub path: Seq<char>,
}

/// An absolute URL, as the crawler sees it. Two URLs are the same page
/// exactly when their serializations are equal.
pub struct PageUrl {
    pub text: String,
    pub host: Option<String>,
    pub path: String,
}

impl View for PageUrl {
    type V = UrlView;

    open spec fn view(&self) -> UrlView {
        UrlView {
            text: self.text@,
            host: match self.host {
                Some(h) => Some(h@),
                None => None,
            },
            path: self.path@,
        }
    }
}

/// What `url::Url::parse` makes of a string: `None` where it rejects the
/// string, otherwise the parsed URL's serialization, host and path.
pub uninterp spec fn spec_parse_url(s: Seq<char>) -> Option<UrlView>;

/// What resolving the reference `rel` against the URL serialized as `base`
/// yields: `None` where the resolution fails.
pub uninterp spec fn spec_join_url(base: Seq<char>, rel: Seq<char>) -> Option<UrlView>;

/// The view of an optional URL.
pub open spec fn opt_view(r: Option<PageUrl>) -> Option<UrlView> {
    match r {
        Some(u) => Some(u@),
        None => None,
    }
}

/// Relies on `url::Url::parse`: whether a string parses, and the
/// serialization, host and path of the result, depend on the input
/// characters alone.
#[verifier::external_body]
fn parse_absolute(s: &str) -> (r: Option<PageUrl>)
    ensures
        opt_view(r) == spec_parse_url(s@),
{
    match url::Url::parse(s) {
        Ok(u) => Some(PageUrl {
            host: u.host_str().map(|h| h.to_string()),
            path: u.path().to_string(),
            text: String::from(u),
        }),
        Err(_) => None,
    }
}

/// Relies on `url::Url::join` (with `url::Url::parse` to rebuild the base
/// from its own serialization, which the `url` crate round-trips): the
/// outcome of resolving `rel` against `base` depends on the two strings
/// alone.
#[verifier::external_body]
fn join_relative(base: &PageUrl, rel: &str) -> (r: Option<PageUrl>)
    ensures
        opt_view(r) == spec_join_url(base@.text, rel@),
{
    match url::Url::parse(base.text.as_str()).ok().and_then(|b| b.join(rel).ok()) {
        Some(u) => Some(PageUrl {
            host: u.host_str().map(|h| h.to_string()),
            path: u.path().to_string(),
            text: String::from(u),
        }),
        None => None,
    }
}

impl PageUrl {
    /// Parse an absolute URL.
    pub fn parse(s: &str) -> (r: Option<PageUrl>)
        ensures
            opt_view(r) == spec_parse_url(s@),
    {
        parse_absolute(s)
    }

    /// Resolve a reference against this URL, as a page's links are resolved
    /// against the page.
    pub fn join(&self, rel: &str) -> (r: Option<PageUrl>)
        ensures
            opt_view(r) == spec_join_url(self@.text, rel@),
    {
        join_relative(self, rel)
    }

    /// The URL's serialization.
    pub fn as_str(&self) -> (r: &str)
        ensures
            r@ == self@.text,
    {
        self.text.as_str()
    }

    /// The URL's host component, if it has one.
    pub fn host_string(&self) -> (r: Option<&String>)
        ensures
            match r {
                Some(h) => self@.host == Some(h@),
                None => self@.host is None,
            },
    {
        match &self.host {
            Some(h) => Some(h),
            None => None,
        }
    }
}

impl Clone for PageUrl {
    fn clone(&self) -> (r: Self)
        ensures
            r == *self,
            r@ == self@,
    {
        PageUrl {
            text: self.text.clone(),
            host: match &self.host {
                Some(h) => Some(h.clone()),
                None => None,
            },
            path: self.path.clone(),
        }
    }
}

/// Whether `u`'s host is exactly `host`.
pub fn host_is(u: &PageUrl, host: &String) -> (r: bool)
    ensures
        r == (u@.host == Some(host@)),
{
    match &u.host {
        Some(h) => *h == *host,
        None => false,
    }
}

} // verus!
