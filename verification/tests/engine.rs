use crawler::urls::PageUrl;
use crawler::store::VisitedStore;
use crawler::dispatch::ScrapeRequest;
use crawler::dispatch::urls_to_scrape;
use crawler::dispatch::try_urls_to_scrape;
use crawler::query::UrlsReply;
use crawler::query::CountReply;
use crawler::query::domain_urls;
use crawler::query::domain_count;
use crawler::query::is_bare_domain;
use crawler::pipeline::Pipeline;

fn url(s: &str) -> PageUrl {
    PageUrl::parse(s).expect("test URL must parse")
}

fn texts(urls: &[PageUrl]) -> Vec<String> {
    urls.iter().map(|u| u.as_str().to_string()).collect()
}

#[test]
fn root_registration_is_idempotent() {
    let mut store = VisitedStore::new();
    let first = urls_to_scrape(ScrapeRequest::Root(url("https://example.com/")), &mut store);
    assert_eq!(texts(&first), vec!["https://example.com/".to_string()]);
    let second = urls_to_scrape(ScrapeRequest::Root(url("https://example.com/")), &mut store);
    assert!(second.is_empty());
}

#[test]
fn hostless_root_is_dropped() {
    let mut store = VisitedStore::new();
    let out = urls_to_scrape(ScrapeRequest::Root(url("data:text/plain,hi")), &mut store);
    assert!(out.is_empty());
    assert_eq!(store.count(&"example.com".to_string()), None);
}

#[test]
fn scraped_links_are_host_scoped() {
    let mut store = VisitedStore::new();
    urls_to_scrape(ScrapeRequest::Root(url("https://a.com/")), &mut store);
    let out = urls_to_scrape(
        ScrapeRequest::Scraped {
            page: url("https://a.com/x"),
            found: vec![url("https://a.com/y"), url("https://b.com/z")],
        },
        &mut store,
    );
    assert_eq!(texts(&out), vec!["https://a.com/y".to_string()]);
    assert_eq!(store.count(&"b.com".to_string()), None);
}

#[test]
fn link_cycle_stops_after_each_page_once() {
    let mut store = VisitedStore::new();
    let a = "https://a.com/";
    let b = "https://a.com/b";
    let first = urls_to_scrape(ScrapeRequest::Root(url(a)), &mut store);
    assert_eq!(texts(&first), vec![a.to_string()]);
    let from_a = urls_to_scrape(
        ScrapeRequest::Scraped { page: url(a), found: vec![url(b)] },
        &mut store,
    );
    assert_eq!(texts(&from_a), vec![b.to_string()]);
    let from_b = urls_to_scrape(
        ScrapeRequest::Scraped { page: url(b), found: vec![url(a)] },
        &mut store,
    );
    assert!(from_b.is_empty());
    let again = urls_to_scrape(
        ScrapeRequest::Scraped { page: url(a), found: vec![url(b)] },
        &mut store,
    );
    assert!(again.is_empty());
}

#[test]
fn duplicate_candidates_in_one_batch_come_back_once() {
    let mut store = VisitedStore::new();
    urls_to_scrape(ScrapeRequest::Root(url("https://a.com/")), &mut store);
    let out = urls_to_scrape(
        ScrapeRequest::Scraped {
            page: url("https://a.com/"),
            found: vec![url("https://a.com/y"), url("https://a.com/y")],
        },
        &mut store,
    );
    assert_eq!(texts(&out), vec!["https://a.com/y".to_string()]);
}

#[test]
fn scraped_for_unknown_host_is_refused() {
    let mut store = VisitedStore::new();
    let out = try_urls_to_scrape(
        ScrapeRequest::Scraped { page: url("https://never.com/x"), found: vec![] },
        &mut store,
    );
    assert!(out.is_none());
    assert_eq!(store.count(&"never.com".to_string()), None);
}

#[test]
fn unregistered_host_query_is_not_found() {
    let mut store = VisitedStore::new();
    urls_to_scrape(ScrapeRequest::Root(url("https://a.com/")), &mut store);
    match domain_urls(&store, &url("https://b.com/")) {
        UrlsReply::NotScraped => {}
        _ => panic!("a host never submitted as root must be reported as not scraped"),
    }
    match domain_count(&store, &url("https://b.com/")) {
        CountReply::NotScraped => {}
        _ => panic!("a host never submitted as root must be reported as not scraped"),
    }
}

#[test]
fn non_bare_domain_is_rejected() {
    assert!(is_bare_domain(&url("https://a.com/")));
    assert!(!is_bare_domain(&url("https://a.com/sub")));
    let store = VisitedStore::new();
    match domain_urls(&store, &url("https://a.com/sub")) {
        UrlsReply::NotADomain => {}
        _ => panic!("a sub-path URL is not a domain"),
    }
    match domain_count(&store, &url("https://a.com/sub")) {
        CountReply::NotADomain => {}
        _ => panic!("a sub-path URL is not a domain"),
    }
}

#[test]
fn snapshot_lists_exactly_the_recorded_urls() {
    let mut store = VisitedStore::new();
    urls_to_scrape(ScrapeRequest::Root(url("https://a.com/")), &mut store);
    urls_to_scrape(
        ScrapeRequest::Scraped {
            page: url("https://a.com/"),
            found: vec![url("https://a.com/y"), url("https://a.com/z")],
        },
        &mut store,
    );
    let snap = store.snapshot(&"a.com".to_string()).expect("host was started");
    assert_eq!(
        texts(&snap),
        vec![
            "https://a.com/".to_string(),
            "https://a.com/y".to_string(),
            "https://a.com/z".to_string(),
        ]
    );
    assert!(store.snapshot(&"b.com".to_string()).is_none());
}

#[test]
fn in_flight_fetches_never_exceed_the_limit() {
    let mut p = Pipeline::new(3);
    assert!(p.on_request(ScrapeRequest::Root(url("https://a.com/"))));
    let root = p.next_fetch().expect("the fresh root must be fetched");
    assert_eq!(root.as_str(), "https://a.com/");
    assert!(p.gate.in_flight() <= 3);
    let links: Vec<PageUrl> =
        (0..10).map(|i| url(&format!("https://a.com/p{}", i))).collect();
    let feedback = p.fetch_done(root, Some(links)).expect("a successful fetch feeds back");
    assert!(p.on_request(feedback));

    let mut started = Vec::new();
    while let Some(u) = p.next_fetch() {
        started.push(u);
        assert!(p.gate.in_flight() <= 3);
    }
    assert_eq!(started.len(), 3);
    assert_eq!(p.gate.in_flight(), 3);
    assert!(p.next_fetch().is_none());

    let mut done = 3;
    let first = started.remove(0);
    assert!(p.fetch_done(first, None).is_none());
    let mut fetched = done;
    while let Some(u) = p.next_fetch() {
        fetched += 1;
        assert!(p.gate.in_flight() <= 3);
        assert!(p.fetch_done(u, None).is_none());
    }
    for u in started {
        assert!(p.fetch_done(u, None).is_none());
        while let Some(v) = p.next_fetch() {
            fetched += 1;
            assert!(p.gate.in_flight() <= 3);
            assert!(p.fetch_done(v, None).is_none());
        }
    }
    done = fetched;
    // the root and all ten links each got fetched exactly once
    assert_eq!(done + 1, 11);
}

#[test]
fn end_to_end_single_page_crawl() {
    let mut p = Pipeline::new(500);
    assert!(p.on_request(ScrapeRequest::Root(url("https://example.com/"))));
    assert_eq!(p.store.count(&"example.com".to_string()), Some(1));

    let page = p.next_fetch().expect("root fetch must start");
    assert_eq!(page.as_str(), "https://example.com/");

    let html = b"<html><body>\
        <a href=\"https://example.com/one\">1</a>\
        <a href=\"/two\">2</a>\
        <a href=\"three\">3</a>\
        <a href=\"https://other.com/\">x</a>\
        </body></html>";
    let found = crawler::extract::find_anchor_links(&page, html);
    assert_eq!(found.len(), 4);

    let feedback = p.fetch_done(page, Some(found)).expect("success feeds back");
    assert!(p.on_request(feedback));

    assert_eq!(p.store.count(&"example.com".to_string()), Some(4));
    let snap = p.store.snapshot(&"example.com".to_string()).expect("started");
    assert_eq!(
        texts(&snap),
        vec![
            "https://example.com/".to_string(),
            "https://example.com/one".to_string(),
            "https://example.com/two".to_string(),
            "https://example.com/three".to_string(),
        ]
    );
    assert_eq!(p.store.count(&"other.com".to_string()), None);
    match domain_urls(&p.store, &url("https://other.com/")) {
        UrlsReply::NotScraped => {}
        _ => panic!("the cross-host link's domain was never started"),
    }

    // the three same-host pages get fetched, find nothing new, and the
    // crawl quiesces
    let mut rest = Vec::new();
    while let Some(u) = p.next_fetch() {
        rest.push(u.as_str().to_string());
        let fb = p.fetch_done(u, Some(Vec::new())).expect("success feeds back");
        assert!(p.on_request(fb));
    }
    assert_eq!(
        rest,
        vec![
            "https://example.com/one".to_string(),
            "https://example.com/two".to_string(),
            "https://example.com/three".to_string(),
        ]
    );
    assert!(p.next_fetch().is_none());
    assert_eq!(p.gate.in_flight(), 0);
    assert_eq!(p.store.count(&"example.com".to_string()), Some(4));
}
