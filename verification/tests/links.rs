use crawler::urls::PageUrl;
use crawler::extract::find_anchor_links;
use crawler::extract::resolve_href;

fn url(s: &str) -> PageUrl {
    PageUrl::parse(s).expect("test URL must parse")
}

fn texts(urls: &[PageUrl]) -> Vec<String> {
    urls.iter().map(|u| u.as_str().to_string()).collect()
}

#[test]
fn parse_exposes_host_and_path() {
    let u = url("https://www.rust-lang.org/learn");
    assert_eq!(u.as_str(), "https://www.rust-lang.org/learn");
    assert_eq!(u.host_string().map(|h| h.as_str()), Some("www.rust-lang.org"));
    assert!(PageUrl::parse("not a url").is_none());
    assert!(PageUrl::parse("/relative/only").is_none());
}

#[test]
fn relative_href_resolves_against_the_base() {
    let base = url("https://x.com/");
    let resolved = resolve_href(&base, &"/foo".to_string()).expect("must resolve");
    assert_eq!(resolved.as_str(), "https://x.com/foo");
}

#[test]
fn unresolvable_href_yields_no_entry() {
    let base = url("https://x.com/");
    assert!(resolve_href(&base, &"http://[bad".to_string()).is_none());
    let html = b"<a href=\"http://[bad\">broken</a><a href=\"/foo\">ok</a>";
    let links = find_anchor_links(&base, html);
    assert_eq!(texts(&links), vec!["https://x.com/foo".to_string()]);
}

#[test]
fn anchors_come_in_document_order_without_dedup() {
    let base = url("https://x.com/");
    let html = b"<html><body>\
        <div><a href=\"/a\">a</a><p><a href=\"/b\">b</a></p></div>\
        <a href=\"/a\">again</a>\
        <a>no href</a>\
        </body></html>";
    let links = find_anchor_links(&base, html);
    assert_eq!(
        texts(&links),
        vec![
            "https://x.com/a".to_string(),
            "https://x.com/b".to_string(),
            "https://x.com/a".to_string(),
        ]
    );
}

#[test]
fn absolute_href_wins_over_joining() {
    let base = url("https://x.com/");
    let html = b"<a href=\"https://elsewhere.org/p\">p</a>";
    let links = find_anchor_links(&base, html);
    assert_eq!(texts(&links), vec!["https://elsewhere.org/p".to_string()]);
}

#[test]
fn markup_without_anchors_yields_nothing() {
    let base = url("https://x.com/");
    assert!(find_anchor_links(&base, b"").is_empty());
    assert!(find_anchor_links(&base, b"plain text, no markup at all").is_empty());
    assert!(find_anchor_links(&base, &[0xff, 0xfe, 0x00, 0x9c]).is_empty());
}
