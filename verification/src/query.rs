//! The decisions of the HTTP control surface. The handlers themselves are
//! outside the library — they parse bodies and write status codes — but what
//! they answer is decided here: whether a submitted URL names a bare domain,
//! and what a lookup of a host's visited URLs or their count returns.

use vstd::prelude::*;
use crate::urls::PageUrl;
use crate::store::VisitedStore;
use crate::store::views;

verus! {

/// The answer to a visited-URLs lookup.
pub enum UrlsReply {
    /// The submitted URL is not a bare domain (its path is not `/`, or it
    /// has no host).
    NotADomain,
    /// No crawl for that host was ever started.
    NotScraped,
    /// The URLs visited under that host.
    Urls(Vec<PageUrl>),
}

/// The answer to a visited-count lookup.
pub enum CountReply {
    NotADomain,
    NotScraped,
    Count(usize),
}

/// Whether a crawl submission is acceptable: the URL must name a bare
/// domain, that is, its path must be exactly `/`.
pub fn is_bare_domain(url: &PageUrl) -> (r: bool)
    ensures
        r == (url@.path == "/"@),
{
    let slash: String = "/".to_owned();
    url.path == slash
}

/// Answer a visited-URLs lookup: the URL must be a bare domain with a host,
/// the host must have been started, and then the host's visited URLs come
/// back.
pub fn domain_urls(store: &VisitedStore, url: &PageUrl) -> (r: UrlsReply)
    requires
        store.wf(),
    ensures
        match r {
            UrlsReply::NotADomain => url@.path != "/"@ || url@.host is None,
            UrlsReply::NotScraped => url@.path == "/"@ && url@.host is Some
                && !store@.contains_key(url@.host->0),
            UrlsReply::Urls(v) => url@.path == "/"@ && url@.host is Some && store@.contains_key(
                url@.host->0,
            ) && views(v@) == store@[url@.host->0],
        },
{
    if !is_bare_domain(url) {
        return UrlsReply::NotADomain;
    }
    match url.host_string() {
        None => UrlsReply::NotADomain,
        Some(h) => match store.snapshot(h) {
            Some(v) => UrlsReply::Urls(v),
            None => UrlsReply::NotScraped,
        },
    }
}

/// Answer a visited-count lookup, with the same preconditions answered the
/// same way.
pub fn domain_count(store: &VisitedStore, url: &PageUrl) -> (r: CountReply)
    requires
        store.wf(),
    ensures
        match r {
            CountReply::NotADomain => url@.path != "/"@ || url@.host is None,
            CountReply::NotScraped => url@.path == "/"@ && url@.host is Some
                && !store@.contains_key(url@.host->0),
            CountReply::Count(n) => url@.path == "/"@ && url@.host is Some && store@.contains_key(
                url@.host->0,
            ) && n == store@[url@.host->0].len(),
        },
{
    if !is_bare_domain(url) {
        return CountReply::NotADomain;
    }
    match url.host_string() {
        None => CountReply::NotADomain,
        Some(h) => match store.count(h) {
            Some(n) => CountReply::Count(n),
            None => CountReply::NotScraped,
        },
    }
}

} // verus!
