//! The fetch pipeline's state and decisions. The loop itself — receive a
//! request, start fetches, feed each outcome back — runs outside the
//! library, because fetching is network I/O; every decision it takes is a
//! method here: what to fetch next, whether another fetch may start under
//! the global admission limit, and what a finished fetch feeds back. In
//! every reachable state, no more fetches are in flight than the limit
//! allows, and every URL waiting to be fetched belongs to a host whose
//! crawl has been started.

use vstd::prelude::*;
use crate::urls::PageUrl;
use crate::urls::UrlView;
use crate::store::VisitedStore;
use crate::store::views;
use crate::dispatch::ScrapeRequest;
use crate::dispatch::RequestView;
use crate::dispatch::spec_dispatch;
use crate::dispatch::dispatchable;
use crate::dispatch::try_urls_to_scrape;
use crate::dispatch::lemma_record_fresh_only;

verus! {

/// Admission control for fetches: at most `limit` fetches in flight at any
/// moment, across all hosts combined. This is the crawler's only
/// backpressure mechanism.
pub struct FetchGate {
    in_flight: usize,
    limit: usize,
}

impl FetchGate {
    /// How many fetches are in flight.
    pub closed spec fn spec_in_flight(&self) -> nat {
        self.in_flight as nat
    }

    /// The admission limit.
    pub closed spec fn spec_limit(&self) -> nat {
        self.limit as nat
    }

    /// The bound that holds in every reachable state: never more fetches in
    /// flight than the limit allows.
    pub open spec fn wf(&self) -> bool {
        self.spec_in_flight() <= self.spec_limit()
    }

    /// A gate with no fetch in flight.
    pub fn new(limit: usize) -> (g: FetchGate)
        ensures
            g.wf(),
            g.spec_limit() == limit,
            g.spec_in_flight() == 0,
    {
        FetchGate { in_flight: 0, limit }
    }

    /// Admit one more fetch if the limit leaves room; admission succeeds
    /// exactly when fewer fetches are in flight than the limit.
    pub fn try_admit(&mut self) -> (ok: bool)
        requires
            old(self).wf(),
        ensures
            final(self).wf(),
            final(self).spec_limit() == old(self).spec_limit(),
            ok == (old(self).spec_in_flight() < old(self).spec_limit()),
            ok ==> final(self).spec_in_flight() == old(self).spec_in_flight() + 1,
            !ok ==> final(self).spec_in_flight() == old(self).spec_in_flight(),
    {
        if self.in_flight < self.limit {
            self.in_flight = self.in_flight + 1;
            true
        } else {
            false
        }
    }

    /// A fetch finished, with or without success: its slot frees up.
    pub fn release(&mut self)
        requires
            old(self).wf(),
            old(self).spec_in_flight() > 0,
        ensures
            final(self).wf(),
            final(self).spec_limit() == old(self).spec_limit(),
            final(self).spec_in_flight() == old(self).spec_in_flight() - 1,
    {
        self.in_flight = self.in_flight - 1;
    }

    /// How many fetches are in flight.
    pub fn in_flight(&self) -> (n: usize)
        ensures
            n == self.spec_in_flight(),
    {
        self.in_flight
    }
}

/// The pipeline state between events: the visited store, the admission
/// gate, and the URLs dispatched but whose fetch has not started yet.
pub struct Pipeline {
    pub store: VisitedStore,
    pub gate: FetchGate,
    pub pending: Vec<PageUrl>,
}

impl Pipeline {
    /// Every pending URL names a host whose crawl has been started: the
    /// reason a `Scraped` result can never reference an unknown host.
    pub open spec fn pending_registered(&self) -> bool {
        forall|k: int|
            0 <= k < self.pending@.len() ==> (#[trigger] self.pending@[k])@.host is Some
                && self.store@.contains_key(self.pending@[k]@.host->0)
    }

    pub open spec fn wf(&self) -> bool {
        &&& self.store.wf()
        &&& self.gate.wf()
        &&& self.pending_registered()
    }

    /// A pipeline that has crawled nothing, bounded to `limit` concurrent
    /// fetches.
    pub fn new(limit: usize) -> (p: Pipeline)
        ensures
            p.wf(),
            p.store@ == Map::<Seq<char>, Seq<UrlView>>::empty(),
            p.pending@.len() == 0,
            p.gate.spec_limit() == limit,
            p.gate.spec_in_flight() == 0,
    {
        Pipeline { store: VisitedStore::new(), gate: FetchGate::new(limit), pending: Vec::new() }
    }

    /// Take one incoming request: dispatch it against the store and queue
    /// whatever must now be fetched. A `Scraped` request for a host never
    /// started is refused whole and changes nothing.
    pub fn on_request(&mut self, request: ScrapeRequest) -> (accepted: bool)
        requires
            old(self).wf(),
        ensures
            final(self).wf(),
            final(self).gate == old(self).gate,
            accepted == dispatchable(old(self).store@, request@),
            accepted ==> final(self).store@ == spec_dispatch(old(self).store@, request@).0
                && views(final(self).pending@) == views(old(self).pending@) + spec_dispatch(
                old(self).store@,
                request@,
            ).1,
            !accepted ==> final(self).store@ == old(self).store@ && final(self).pending@ == old(self).pending@,
    {
        let ghost m0 = self.store@;
        let ghost rv = request@;
        match try_urls_to_scrape(request, &mut self.store) {
            Some(out) => {
                proof {
                    let r = spec_dispatch(m0, rv);
                    assert forall|k: int| 0 <= k < out@.len() implies (#[trigger] out@[k])@.host
                        is Some && self.store@.contains_key(out@[k]@.host->0) by {
                        let uv = out@[k]@;
                        assert(views(out@)[k] == uv);
                        match rv {
                            RequestView::Root(u) => {
                                assert(r.1[k] == uv);
                            },
                            RequestView::Scraped { page, found } => {
                                match page.host {
                                    None => {
                                        assert(r.1.len() == 0);
                                    },
                                    Some(h) => {
                                        assert(r.1[k] == uv);
                                        assert(r.1.contains(uv));
                                        lemma_record_fresh_only(m0[h], h, found, uv);
                                        assert(self.store@.contains_key(h));
                                    },
                                }
                            },
                        }
                    }
                    assert forall|hh: Seq<char>| m0.contains_key(hh) implies #[trigger] self.store@.contains_key(hh) by {
                        match rv {
                            RequestView::Root(_) => {},
                            RequestView::Scraped { .. } => {},
                        }
                    }
                }
                let ghost pending0 = self.pending@;
                let ghost outv = out@;
                let mut out = out;
                self.pending.append(&mut out);
                proof {
                    assert(views(self.pending@) =~= views(pending0) + views(outv));
                    assert forall|k: int| 0 <= k < self.pending@.len() implies (#[trigger] self.pending@[k])@.host is Some && self.store@.contains_key(
                        self.pending@[k]@.host->0,
                    ) by {
                        if k < pending0.len() {
                            assert(self.pending@[k]@ == pending0[k]@);
                        }
                    }
                }
                true
            },
            None => false,
        }
    }

    /// Pop the first queued URL when fewer fetches are in flight than the
    /// limit allows; otherwise nothing happens.
    pub fn next_fetch(&mut self) -> (r: Option<PageUrl>)
        requires
            old(self).wf(),
        ensures
            final(self).wf(),
            final(self).store@ == old(self).store@,
            final(self).gate.spec_limit() == old(self).gate.spec_limit(),
            match r {
                Some(u) => old(self).pending@.len() > 0 && u@ == old(self).pending@[0]@ && final(self).pending@ == old(self).pending@.drop_first() && old(self).gate.spec_in_flight()
                    < old(self).gate.spec_limit() && final(self).gate.spec_in_flight() == old(self).gate.spec_in_flight() + 1,
                None => final(self).pending@ == old(self).pending@ && final(self).gate == old(self).gate && (old(self).pending@.len() == 0 || old(self).gate.spec_in_flight()
                    == old(self).gate.spec_limit()),
            },
    {
        if self.pending.len() == 0 {
            return None;
        }
        if self.gate.try_admit() {
            let u = self.pending.remove(0);
            proof {
                assert(self.pending@ =~= old(self).pending@.drop_first());
                assert forall|k: int| 0 <= k < self.pending@.len() implies (#[trigger] self.pending@[k])@.host is Some && self.store@.contains_key(
                    self.pending@[k]@.host->0,
                ) by {
                    assert(self.pending@[k] == old(self).pending@[k + 1]);
                }
            }
            Some(u)
        } else {
            None
        }
    }

    /// A fetch finished: free its slot and, on success, hand back the
    /// `Scraped` request that feeds the found links into the loop. A failed
    /// fetch — any network error, bad status or unreadable body — frees the
    /// slot and feeds back nothing: one lost page never stops the crawl.
    pub fn fetch_done(&mut self, page: PageUrl, found: Option<Vec<PageUrl>>) -> (feedback: Option<
        ScrapeRequest,
    >)
        requires
            old(self).wf(),
            old(self).gate.spec_in_flight() > 0,
        ensures
            final(self).wf(),
            final(self).store@ == old(self).store@,
            final(self).pending@ == old(self).pending@,
            final(self).gate.spec_limit() == old(self).gate.spec_limit(),
            final(self).gate.spec_in_flight() == old(self).gate.spec_in_flight() - 1,
            match found {
                Some(links) => feedback == Some(
                    ScrapeRequest::Scraped { page: page, found: links },
                ),
                None => feedback is None,
            },
    {
        self.gate.release();
        match found {
            Some(links) => Some(ScrapeRequest::Scraped { page, found: links }),
            None => None,
        }
    }
}

} // verus!
