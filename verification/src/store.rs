//! The visited store: for every host whose crawl has been started, the URLs
//! already seen under that host. Its model is a map from host to the sequence
//! of seen URLs, in the order they were recorded; a host key exists exactly
//! when a crawl for that host has been started.

use vstd::prelude::*;
use crate::urls::PageUrl;
use crate::urls::UrlView;

verus! {

/// The views of a sequence of URLs.
pub open spec fn views(s: Seq<PageUrl>) -> Seq<UrlView> {
    s.map_values(|u: PageUrl| u@)
}

/// Whether some URL in `seen` has serialization `t`.
pub open spec fn has_text(seen: Seq<UrlView>, t: Seq<char>) -> bool {
    exists|i: int| 0 <= i < seen.len() && seen[i].text == t
}

/// What recording `cands` under `host` does to the seen sequence `seen`:
/// the first component is the seen sequence afterwards, the second the
/// subsequence of `cands` that is same-host and newly seen, in order.
/// A candidate is recorded exactly when it is kept.
pub open spec fn spec_record(seen: Seq<UrlView>, host: Seq<char>, cands: Seq<UrlView>) -> (
    Seq<UrlView>,
    Seq<UrlView>,
)
    decreases cands.len(),
{
    if cands.len() == 0 {
        (seen, Seq::<UrlView>::empty())
    } else {
        let u = cands[0];
        if u.host == Some(host) && !has_text(seen, u.text) {
            let r = spec_record(seen.push(u), host, cands.drop_first());
            (r.0, seq![u] + r.1)
        } else {
            spec_record(seen, host, cands.drop_first())
        }
    }
}

struct HostEntry {
    host: String,
    urls: Vec<PageUrl>,
}

/// Per-host set of URLs already seen. A host entry exists exactly when a
/// crawl for that host has been started.
pub struct VisitedStore {
    entries: Vec<HostEntry>,
}

spec fn entry_wf(e: HostEntry) -> bool {
    &&& forall|k: int| 0 <= k < e.urls@.len() ==> (#[trigger] e.urls@[k])@.host == Some(e.host@)
    &&& forall|k: int, l: int|
        0 <= k < l < e.urls@.len() ==> e.urls@[k]@.text != e.urls@[l]@.text
}

spec fn host_index(s: Seq<HostEntry>, h: Seq<char>) -> int {
    choose|i: int| 0 <= i < s.len() && s[i].host@ == h
}

impl View for VisitedStore {
    type V = Map<Seq<char>, Seq<UrlView>>;

    closed spec fn view(&self) -> Map<Seq<char>, Seq<UrlView>> {
        Map::new(
            |h: Seq<char>|
                exists|i: int| 0 <= i < self.entries@.len() && (#[trigger] self.entries@[i]).host@ == h,
            |h: Seq<char>| views(self.entries@[host_index(self.entries@, h)].urls@),
        )
    }
}

impl VisitedStore {
    /// Hosts are pairwise distinct; under each host, every URL's host is that
    /// host, and the serializations are pairwise distinct.
    pub closed spec fn wf(&self) -> bool {
        &&& forall|i: int, j: int|
            0 <= i < j < self.entries@.len() ==> self.entries@[i].host@ != self.entries@[j].host@
        &&& forall|i: int| 0 <= i < self.entries@.len() ==> entry_wf(#[trigger] self.entries@[i])
    }

    /// The store a process starts with: nothing has been crawled.
    pub fn new() -> (s: VisitedStore)
        ensures
            s.wf(),
            s@ == Map::<Seq<char>, Seq<UrlView>>::empty(),
    {
        let s = VisitedStore { entries: Vec::new() };
        proof {
            assert(s@ =~= Map::<Seq<char>, Seq<UrlView>>::empty());
        }
        s
    }

    fn find_host(&self, host: &String) -> (r: Option<usize>)
        requires
            self.wf(),
        ensures
            match r {
                Some(idx) => idx < self.entries@.len() && self.entries@[idx as int].host@
                    == host@ && self@.contains_key(host@),
                None => !self@.contains_key(host@),
            },
    {
        let n = self.entries.len();
        for i in 0..n
            invariant
                n == self.entries@.len(),
                forall|j: int| 0 <= j < i ==> (#[trigger] self.entries@[j]).host@ != host@,
        {
            if self.entries[i].host == *host {
                return Some(i);
            }
        }
        None
    }

    /// Start a crawl for `host` if none has been started: returns whether the
    /// host was new, and gives a new host an empty entry.
    pub fn register_host(&mut self, host: &String) -> (fresh: bool)
        requires
            old(self).wf(),
        ensures
            final(self).wf(),
            fresh == !old(self)@.contains_key(host@),
            fresh ==> final(self)@ == old(self)@.insert(host@, Seq::<UrlView>::empty()),
            !fresh ==> final(self)@ == old(self)@,
    {
        match self.find_host(host) {
            Some(_) => false,
            None => {
                let ghost pre = self.entries@;
                self.entries.push(HostEntry { host: host.clone(), urls: Vec::new() });
                proof {
                    let m0 = old(self)@;
                    let m1 = m0.insert(host@, Seq::<UrlView>::empty());
                    assert forall|h: Seq<char>| #[trigger] self@.dom().contains(h)
                        == m1.dom().contains(h) by {
                        if h == host@ {
                            assert(self.entries@[pre.len() as int].host@ == h);
                            assert(self@.contains_key(h));
                        } else {
                            if self@.contains_key(h) {
                                let i = host_index(self.entries@, h);
                                assert(0 <= i < pre.len());
                                assert(pre[i].host@ == h);
                                assert(m0.contains_key(h));
                            }
                            if m0.contains_key(h) {
                                let i0 = host_index(pre, h);
                                assert(self.entries@[i0].host@ == h);
                                assert(self@.contains_key(h));
                            }
                        }
                    }
                    assert forall|h: Seq<char>| #[trigger] self@.dom().contains(h) implies self@[h]
                        == m1[h] by {
                        if h == host@ {
                            let i = host_index(self.entries@, h);
                            assert(self.entries@[pre.len() as int].host@ == h);
                            assert(i == pre.len() as int);
                            assert(views(self.entries@[i].urls@) =~= Seq::<UrlView>::empty());
                        } else {
                            let i = host_index(self.entries@, h);
                            assert(0 <= i < pre.len());
                            assert(pre[i].host@ == h);
                            assert(m0.contains_key(h));
                            let i0 = host_index(pre, h);
                            assert(i0 == i);
                        }
                    }
                    assert(self@ =~= m1);
                }
                true
            },
        }
    }

    /// Whether a crawl for `host` has been started.
    pub fn contains_host(&self, host: &String) -> (r: bool)
        requires
            self.wf(),
        ensures
            r == self@.contains_key(host@),
    {
        self.find_host(host).is_some()
    }

    /// Record the same-host candidates under `host` and hand back those that
    /// had not been seen before, in the order they came. Cross-host
    /// candidates are neither recorded nor returned. `host` must have been
    /// registered.
    #[verifier::loop_isolation(false)]
    pub fn record_and_filter(&mut self, host: &String, candidates: &Vec<PageUrl>) -> (fresh: Vec<
        PageUrl,
    >)
        requires
            old(self).wf(),
            old(self)@.contains_key(host@),
        ensures
            final(self).wf(),
            views(fresh@) == spec_record(old(self)@[host@], host@, views(candidates@)).1,
            final(self)@ == old(self)@.insert(
                host@,
                spec_record(old(self)@[host@], host@, views(candidates@)).0,
            ),
    {
        let idx = match self.find_host(host) {
            Some(i) => i,
            None => {
                proof {
                    assert(false);
                }
                0
            },
        };
        let ghost pre = self.entries@;
        let ghost h = host@;
        let ghost cs = views(candidates@);
        proof {
            let i0 = host_index(pre, h);
            assert(pre[i0].host@ == h && pre[idx as int].host@ == h);
            assert(i0 == idx as int);
            assert(old(self)@[h] == views(pre[idx as int].urls@));
            assert(entry_wf(pre[idx as int]));
        }
        let ghost seen0 = views(pre[idx as int].urls@);
        let mut urls = clone_urls(&self.entries[idx].urls);
        let mut fresh: Vec<PageUrl> = Vec::new();
        let n = candidates.len();
        proof {
            assert(cs.skip(0) =~= cs);
            assert(views(fresh@) + spec_record(views(urls@), h, cs).1 =~= spec_record(
                views(urls@),
                h,
                cs,
            ).1);
            let e = pre[idx as int];
            assert(views(urls@) == views(e.urls@));
            assert(views(urls@).len() == urls@.len());
            assert(views(e.urls@).len() == e.urls@.len());
            assert(urls@.len() == e.urls@.len());
            assert forall|k: int| 0 <= k < urls@.len() implies (#[trigger] urls@[k])@.host == Some(
                h,
            ) by {
                assert(views(urls@)[k] == urls@[k]@);
                assert(views(e.urls@)[k] == e.urls@[k]@);
                assert(e.urls@[k]@.host == Some(e.host@));
            }
            assert forall|k: int, l: int| 0 <= k < l < urls@.len() implies urls@[k]@.text
                != urls@[l]@.text by {
                assert(views(urls@)[k] == urls@[k]@);
                assert(views(urls@)[l] == urls@[l]@);
                assert(views(e.urls@)[k] == e.urls@[k]@);
                assert(views(e.urls@)[l] == e.urls@[l]@);
            }
        }
        for c in 0..n
            invariant
                n == candidates@.len(),
                cs == views(candidates@),
                spec_record(seen0, h, cs).0 == spec_record(views(urls@), h, cs.skip(c as int)).0,
                spec_record(seen0, h, cs).1 == views(fresh@) + spec_record(
                    views(urls@),
                    h,
                    cs.skip(c as int),
                ).1,
                forall|k: int|
                    0 <= k < urls@.len() ==> (#[trigger] urls@[k])@.host == Some(h),
                forall|k: int, l: int|
                    0 <= k < l < urls@.len() ==> urls@[k]@.text != urls@[l]@.text,
        {
            let u = &candidates[c];
            let ghost uv = candidates@[c as int]@;
            proof {
                assert(cs[c as int] == uv);
                assert(cs.skip(c as int)[0] == uv);
                assert(cs.skip(c as int).drop_first() =~= cs.skip(c as int + 1));
            }
            let same = crate::urls::host_is(u, host);
            let dup = contains_text(&urls, &u.text);
            let ghost urls_pre = urls@;
            let ghost fresh_pre = fresh@;
            if same && !dup {
                urls.push(u.clone());
                fresh.push(u.clone());
                proof {
                    assert(uv.host == Some(h));
                    assert(!has_text(views(urls_pre), uv.text));
                    assert(cs.skip(c as int).len() > 0);
                    assert(views(urls@) =~= views(urls_pre).push(uv));
                    assert(views(fresh@) =~= views(fresh_pre).push(uv));
                    assert forall|k: int, l: int| 0 <= k < l < urls@.len() implies urls@[k]@.text
                        != urls@[l]@.text by {
                        if l == urls@.len() - 1 {
                            assert(views(urls_pre)[k] == urls_pre[k]@);
                            assert(urls@[l]@ == uv);
                        }
                    }
                    assert(spec_record(views(urls_pre), h, cs.skip(c as int)).0 == spec_record(
                        views(urls_pre).push(uv),
                        h,
                        cs.skip(c as int + 1),
                    ).0);
                    assert(spec_record(views(urls_pre), h, cs.skip(c as int)).1 == seq![uv]
                        + spec_record(views(urls_pre).push(uv), h, cs.skip(c as int + 1)).1);
                    assert(views(fresh_pre) + (seq![uv] + spec_record(
                        views(urls@),
                        h,
                        cs.skip(c as int + 1),
                    ).1) =~= views(fresh@) + spec_record(views(urls@), h, cs.skip(c as int + 1)).1);
                }
            } else {
                proof {
                    if same {
                        assert(has_text(views(urls_pre), uv.text));
                    }
                    assert(spec_record(views(urls_pre), h, cs.skip(c as int)) == spec_record(
                        views(urls_pre),
                        h,
                        cs.skip(c as int + 1),
                    ));
                }
            }
        }
        proof {
            assert(cs.skip(n as int) =~= Seq::<UrlView>::empty());
            assert(spec_record(seen0, h, cs).0 == views(urls@));
            assert(spec_record(seen0, h, cs).1 =~= views(fresh@));
        }
        let new_entry = HostEntry { host: host.clone(), urls };
        self.entries[idx] = new_entry;
        proof {
            let m1 = old(self)@.insert(h, spec_record(seen0, h, cs).0);
            assert(self.entries@ =~= pre.update(idx as int, self.entries@[idx as int]));
            assert forall|hh: Seq<char>| #[trigger] self@.dom().contains(hh)
                == m1.dom().contains(hh) by {
                if hh == h {
                    assert(self.entries@[idx as int].host@ == hh);
                    assert(self@.contains_key(hh));
                } else {
                    if self@.contains_key(hh) {
                        let i = host_index(self.entries@, hh);
                        assert(self.entries@[i].host@ == hh);
                        assert(i != idx as int);
                        assert(pre[i].host@ == hh);
                        assert(old(self)@.contains_key(hh));
                    }
                    if old(self)@.contains_key(hh) {
                        let i0 = host_index(pre, hh);
                        assert(pre[i0].host@ == hh);
                        assert(i0 != idx as int);
                        assert(self.entries@[i0].host@ == hh);
                        assert(self@.contains_key(hh));
                    }
                }
            }
            assert forall|hh: Seq<char>| #[trigger] self@.dom().contains(hh) implies self@[hh]
                == m1[hh] by {
                let i = host_index(self.entries@, hh);
                assert(0 <= i < self.entries@.len() && self.entries@[i].host@ == hh);
                if hh == h {
                    assert(i == idx as int);
                } else {
                    assert(i != idx as int);
                    assert(pre[i].host@ == hh);
                    let i0 = host_index(pre, hh);
                    assert(i0 == i);
                }
            }
            assert(self@ =~= m1);
        }
        fresh
    }

    /// The URLs seen under `host`, in the order they were recorded, or
    /// nothing if no crawl for `host` was ever started.
    pub fn snapshot(&self, host: &String) -> (r: Option<Vec<PageUrl>>)
        requires
            self.wf(),
        ensures
            match r {
                Some(v) => self@.contains_key(host@) && views(v@) == self@[host@],
                None => !self@.contains_key(host@),
            },
    {
        match self.find_host(host) {
            Some(idx) => {
                proof {
                    let i0 = host_index(self.entries@, host@);
                    assert(self.entries@[i0].host@ == host@);
                    assert(i0 == idx as int);
                }
                Some(clone_urls(&self.entries[idx].urls))
            },
            None => None,
        }
    }

    /// How many URLs have been seen under `host`, or nothing if no crawl for
    /// `host` was ever started.
    pub fn count(&self, host: &String) -> (r: Option<usize>)
        requires
            self.wf(),
        ensures
            match r {
                Some(k) => self@.contains_key(host@) && k == self@[host@].len(),
                None => !self@.contains_key(host@),
            },
    {
        match self.find_host(host) {
            Some(idx) => {
                proof {
                    let i0 = host_index(self.entries@, host@);
                    assert(self.entries@[i0].host@ == host@);
                    assert(i0 == idx as int);
                }
                Some(self.entries[idx].urls.len())
            },
            None => None,
        }
    }
}

fn contains_text(urls: &Vec<PageUrl>, t: &String) -> (r: bool)
    ensures
        r == has_text(views(urls@), t@),
{
    let n = urls.len();
    for i in 0..n
        invariant
            n == urls@.len(),
            forall|j: int| 0 <= j < i ==> (#[trigger] urls@[j])@.text != t@,
    {
        if urls[i].text == *t {
            proof {
                assert(views(urls@)[i as int].text == t@);
            }
            return true;
        }
    }
    proof {
        assert forall|j: int| 0 <= j < views(urls@).len() implies (#[trigger] views(
            urls@,
        )[j]).text != t@ by {
            assert(urls@[j]@.text != t@);
        }
    }
    false
}

fn clone_urls(urls: &Vec<PageUrl>) -> (r: Vec<PageUrl>)
    ensures
        views(r@) == views(urls@),
{
    let n = urls.len();
    let mut r: Vec<PageUrl> = Vec::new();
    for i in 0..n
        invariant
            n == urls@.len(),
            r@.len() == i,
            forall|j: int| 0 <= j < i ==> (#[trigger] r@[j])@ == urls@[j]@,
    {
        r.push(urls[i].clone());
    }
    proof {
        assert(views(r@) =~= views(urls@));
    }
    r
}

} // verus!
