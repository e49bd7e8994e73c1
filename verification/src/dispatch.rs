//! The crawl dispatcher: the decision, taken once per incoming request, of
//! which URLs must now be fetched, recording them in the visited store as it
//! decides. This is the sole feedback point of the crawl loop: it scopes a
//! crawl to one host and hands out each URL of that host at most once.

use vstd::prelude::*;
use crate::urls::PageUrl;
use crate::urls::UrlView;
use crate::store::VisitedStore;
use crate::store::views;
use crate::store::has_text;
use crate::store::spec_record;

verus! {

/// A request to the crawl engine: a fresh root to crawl, or the links found
/// on a fetched page.
pub enum ScrapeRequest {
    Root(PageUrl),
    Scraped { page: PageUrl, found: Vec<PageUrl> },
}

/// The model of a request.
pub enum RequestView {
    Root(UrlView),
    Scraped { page: UrlView, found: Seq<UrlView> },
}

impl View for ScrapeRequest {
    type V = RequestView;

    open spec fn view(&self) -> RequestView {
        match self {
            ScrapeRequest::Root(u) => RequestView::Root(u@),
            ScrapeRequest::Scraped { page, found } => RequestView::Scraped {
                page: page@,
                found: views(found@),
            },
        }
    }
}

/// What the dispatcher does to the store model `m` on request `req`, and
/// which URLs it hands out to fetch. A `Root` with a known host, or any
/// request whose URL has no host, changes nothing and hands out nothing; a
/// fresh `Root` records its URL as seen at the moment its fetch is
/// scheduled, so a link cycle back to the root cannot re-fetch it.
pub open spec fn spec_dispatch(m: Map<Seq<char>, Seq<UrlView>>, req: RequestView) -> (
    Map<Seq<char>, Seq<UrlView>>,
    Seq<UrlView>,
)
{
    match req {
        RequestView::Root(u) => match u.host {
            None => (m, Seq::<UrlView>::empty()),
            Some(h) => if m.contains_key(h) {
                (m, Seq::<UrlView>::empty())
            } else {
                (m.insert(h, seq![u]), seq![u])
            },
        },
        RequestView::Scraped { page, found } => match page.host {
            None => (m, Seq::<UrlView>::empty()),
            Some(h) => {
                let r = spec_record(m[h], h, found);
                (m.insert(h, r.0), r.1)
            },
        },
    }
}

/// Whether the store can take the request: a `Scraped` result may only
/// reference a host whose crawl has been started.
pub open spec fn dispatchable(m: Map<Seq<char>, Seq<UrlView>>, req: RequestView) -> bool {
    match req {
        RequestView::Root(_) => true,
        RequestView::Scraped { page, .. } => match page.host {
            None => true,
            Some(h) => m.contains_key(h),
        },
    }
}

/// Decide which URLs must now be fetched for `request`, recording them in
/// the store. A `Scraped` request for a host that was never started is a
/// programming error and is excluded by precondition.
pub fn urls_to_scrape(request: ScrapeRequest, store: &mut VisitedStore) -> (out: Vec<PageUrl>)
    requires
        old(store).wf(),
        dispatchable(old(store)@, request@),
    ensures
        final(store).wf(),
        final(store)@ == spec_dispatch(old(store)@, request@).0,
        views(out@) == spec_dispatch(old(store)@, request@).1,
{
    match &request {
        ScrapeRequest::Root(url) => {
            match &url.host {
                None => Vec::new(),
                Some(h) => {
                    let fresh = store.register_host(h);
                    if fresh {
                        let mut v: Vec<PageUrl> = Vec::new();
                        v.push(url.clone());
                        proof {
                            assert(views(v@) =~= seq![url@]);
                            assert(!has_text(Seq::<UrlView>::empty(), url@.text));
                        }
                        let out = store.record_and_filter(h, &v);
                        proof {
                            let u = url@;
                            let rec = spec_record(Seq::<UrlView>::empty(), h@, seq![u]);
                            assert(seq![u].drop_first() =~= Seq::<UrlView>::empty());
                            assert(Seq::<UrlView>::empty().push(u) =~= seq![u]);
                            assert(spec_record(seq![u], h@, Seq::<UrlView>::empty()) == (
                                seq![u],
                                Seq::<UrlView>::empty(),
                            ));
                            assert(rec.0 =~= seq![u]);
                            assert(rec.1 =~= seq![u] + Seq::<UrlView>::empty());
                            assert(rec.1 =~= seq![u]);
                            assert(store@ =~= old(store)@.insert(h@, seq![u]));
                            assert(views(out@) == seq![u]);
                        }
                        out
                    } else {
                        Vec::new()
                    }
                },
            }
        },
        ScrapeRequest::Scraped { page, found } => {
            match &page.host {
                None => Vec::new(),
                Some(h) => store.record_and_filter(h, found),
            }
        },
    }
}

/// `urls_to_scrape` behind a total interface: refuses, instead of requiring
/// away, a `Scraped` request whose host was never started, and leaves the
/// store unchanged in that case.
pub fn try_urls_to_scrape(request: ScrapeRequest, store: &mut VisitedStore) -> (out: Option<
    Vec<PageUrl>,
>)
    requires
        old(store).wf(),
    ensures
        final(store).wf(),
        out is Some <==> dispatchable(old(store)@, request@),
        out matches Some(v) ==> final(store)@ == spec_dispatch(old(store)@, request@).0
            && views(v@) == spec_dispatch(old(store)@, request@).1,
        out is None ==> final(store)@ == old(store)@,
{
    let ok = match &request {
        ScrapeRequest::Root(_) => true,
        ScrapeRequest::Scraped { page, .. } => match &page.host {
            None => true,
            Some(h) => store.contains_host(h),
        },
    };
    if ok {
        Some(urls_to_scrape(request, store))
    } else {
        None
    }
}

/// Submitting the same root twice schedules its fetch exactly once: if the
/// host was new, the first submission hands out exactly the root; the second
/// submission hands out nothing and changes nothing.
pub proof fn lemma_root_idempotent(m: Map<Seq<char>, Seq<UrlView>>, u: UrlView)
    requires
        u.host is Some,
    ensures
        ({
            let first = spec_dispatch(m, RequestView::Root(u));
            let second = spec_dispatch(first.0, RequestView::Root(u));
            &&& !m.contains_key(u.host->0) ==> first.1 == seq![u]
            &&& second.0 == first.0
            &&& second.1 == Seq::<UrlView>::empty()
        }),
{
    let h = u.host->0;
    let first = spec_dispatch(m, RequestView::Root(u));
    assert(first.0.contains_key(h));
}

/// Recording keeps every serialization that was already seen.
pub proof fn lemma_record_monotonic(
    seen: Seq<UrlView>,
    h: Seq<char>,
    cands: Seq<UrlView>,
    t: Seq<char>,
)
    requires
        has_text(seen, t),
    ensures
        has_text(spec_record(seen, h, cands).0, t),
    decreases cands.len(),
{
    if cands.len() == 0 {
    } else {
        let u = cands[0];
        if u.host == Some(h) && !has_text(seen, u.text) {
            let i = choose|i: int| 0 <= i < seen.len() && seen[i].text == t;
            assert(seen.push(u)[i].text == t);
            lemma_record_monotonic(seen.push(u), h, cands.drop_first(), t);
        } else {
            lemma_record_monotonic(seen, h, cands.drop_first(), t);
        }
    }
}

/// No dispatched request ever shrinks a host's seen set: a started host
/// stays started, and whatever serialization was seen under it stays seen.
/// Chained over the requests between two recording calls, this discharges
/// the premise of `lemma_no_refetch`.
pub proof fn lemma_dispatch_monotonic(
    m: Map<Seq<char>, Seq<UrlView>>,
    req: RequestView,
    h: Seq<char>,
    t: Seq<char>,
)
    requires
        m.contains_key(h),
        has_text(m[h], t),
    ensures
        spec_dispatch(m, req).0.contains_key(h),
        has_text(spec_dispatch(m, req).0[h], t),
{
    match req {
        RequestView::Root(_) => {},
        RequestView::Scraped { page, found } => {
            match page.host {
                None => {},
                Some(hh) => {
                    if hh == h {
                        lemma_record_monotonic(m[h], h, found, t);
                    }
                },
            }
        },
    }
}

/// Whatever a recording call hands out as new was not seen before the call,
/// is seen after it, and belongs to the host.
pub proof fn lemma_record_fresh_only(
    seen: Seq<UrlView>,
    h: Seq<char>,
    cands: Seq<UrlView>,
    u: UrlView,
)
    requires
        spec_record(seen, h, cands).1.contains(u),
    ensures
        !has_text(seen, u.text),
        has_text(spec_record(seen, h, cands).0, u.text),
        u.host == Some(h),
    decreases cands.len(),
{
    let r = spec_record(seen, h, cands);
    if cands.len() == 0 {
        assert(false);
    } else {
        let u0 = cands[0];
        let rest = cands.drop_first();
        if u0.host == Some(h) && !has_text(seen, u0.text) {
            let r2 = spec_record(seen.push(u0), h, rest);
            assert(r.1 == seq![u0] + r2.1);
            let i = choose|i: int| 0 <= i < r.1.len() && r.1[i] == u;
            if i == 0 {
                assert(u == u0);
                assert(seen.push(u0)[seen.len() as int].text == u.text);
                lemma_record_monotonic(seen.push(u0), h, rest, u.text);
            } else {
                assert(r2.1[i - 1] == u);
                assert(r2.1.contains(u));
                lemma_record_fresh_only(seen.push(u0), h, rest, u);
                if has_text(seen, u.text) {
                    let j = choose|j: int| 0 <= j < seen.len() && seen[j].text == u.text;
                    assert(seen.push(u0)[j].text == u.text);
                    assert(false);
                }
            }
        } else {
            lemma_record_fresh_only(seen, h, rest, u);
        }
    }
}

/// Within a host, no URL is handed out as new twice across the store's
/// lifetime: once one recording call returns `u`, any later call — with the
/// seen set grown arbitrarily in between, as it only ever grows — cannot
/// return `u` again. With the links of a page graph fed back as `Scraped`
/// requests this bounds fetch generation: a cycle of pages cannot be fetched
/// forever.
pub proof fn lemma_no_refetch(
    seen1: Seq<UrlView>,
    c1: Seq<UrlView>,
    seen2: Seq<UrlView>,
    c2: Seq<UrlView>,
    h: Seq<char>,
    u: UrlView,
)
    requires
        spec_record(seen1, h, c1).1.contains(u),
        forall|t: Seq<char>| has_text(spec_record(seen1, h, c1).0, t) ==> #[trigger] has_text(
            seen2,
            t,
        ),
    ensures
        !spec_record(seen2, h, c2).1.contains(u),
{
    lemma_record_fresh_only(seen1, h, c1, u);
    assert(has_text(seen2, u.text));
    if spec_record(seen2, h, c2).1.contains(u) {
        lemma_record_fresh_only(seen2, h, c2, u);
        assert(false);
    }
}

} // verus!
