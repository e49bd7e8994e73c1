//! The link extraction policy: which URLs a page references. The HTML
//! parser is an outside collaborator; it hands the library the element tree
//! flattened into depth-first document order, and the policy over that tree
//! — every anchor element's first `href`, parsed as absolute or resolved
//! against the page — is decided and verified here.

use vstd::prelude::*;
use crate::urls::PageUrl;
use crate::urls::UrlView;
use crate::urls::opt_view;
use crate::urls::spec_parse_url;
use crate::urls::spec_join_url;
use crate::store::views;
use html5ever::parse_document;
use html5ever::tendril::TendrilSink;
use markup5ever_rcdom::NodeData;
use markup5ever_rcdom::RcDom;

verus! {

/// One attribute of an element.
pub struct HtmlAttr {
    pub name: String,
    pub value: String,
}

/// The model of an attribute.
pub struct AttrView {
    pub name: Seq<char>,
    pub value: Seq<char>,
}

impl View for HtmlAttr {
    type V = AttrView;

    open spec fn view(&self) -> AttrView {
        AttrView { name: self.name@, value: self.value@ }
    }
}

/// One node of the parsed document: its tag name and attributes if it is an
/// element, no tag otherwise.
pub struct HtmlNode {
    pub tag: Option<String>,
    pub attrs: Vec<HtmlAttr>,
}

/// The model of a node.
pub struct NodeView {
    pub tag: Option<Seq<char>>,
    pub attrs: Seq<AttrView>,
}

impl View for HtmlNode {
    type V = NodeView;

    open spec fn view(&self) -> NodeView {
        NodeView {
            tag: match self.tag {
                Some(t) => Some(t@),
                None => None,
            },
            attrs: attr_views(self.attrs@),
        }
    }
}

/// The views of a sequence of attributes.
pub open spec fn attr_views(s: Seq<HtmlAttr>) -> Seq<AttrView> {
    s.map_values(|a: HtmlAttr| a@)
}

/// The views of a sequence of nodes.
pub open spec fn node_views(s: Seq<HtmlNode>) -> Seq<NodeView> {
    s.map_values(|n: HtmlNode| n@)
}

/// The document tree that html5ever builds from the bytes, flattened into
/// depth-first document order.
pub uninterp spec fn dom_nodes(markup: Seq<u8>) -> Seq<NodeView>;

/// Relies on html5ever's document parser with markup5ever_rcdom's tree: the
/// tree built from the bytes depends on the bytes alone (unparseable input
/// yields whatever recovery tree the parser builds, never a failure). The
/// body only flattens that tree depth-first, one record per node, keeping
/// each element's tag name and attributes. The tree's root stays alive for
/// the whole walk, so no node's children are dropped out from under it.
#[verifier::external_body]
fn parse_nodes(markup: &[u8]) -> (r: Vec<HtmlNode>)
    ensures
        node_views(r@) == dom_nodes(markup@),
{
    let dom = parse_document(RcDom::default(), Default::default()).from_utf8().one(markup);
    let mut r = Vec::new();
    let mut stack = vec![dom.document.clone()];
    while let Some(n) = stack.pop() {
        stack.extend(n.children.borrow().iter().rev().cloned());
        r.push(match &n.data {
            NodeData::Element { name, attrs, .. } => HtmlNode { tag: Some(name.local.to_string()), attrs: attrs.borrow().iter().map(|a| HtmlAttr { name: a.name.local.to_string(), value: a.value.to_string() }).collect() },
            _ => HtmlNode { tag: None, attrs: vec![] },
        });
    }
    r
}

/// The value of the first `href` attribute, if any.
pub open spec fn spec_first_href(attrs: Seq<AttrView>) -> Option<Seq<char>>
    decreases attrs.len(),
{
    if attrs.len() == 0 {
        None
    } else if attrs[0].name == "href"@ {
        Some(attrs[0].value)
    } else {
        spec_first_href(attrs.drop_first())
    }
}

/// How one href resolves against the page URL: taken as an absolute URL if
/// it parses as one, else resolved relative to the page; a reference that
/// does neither resolves to nothing.
pub open spec fn spec_resolve(base: UrlView, href: Seq<char>) -> Option<UrlView> {
    match spec_parse_url(href) {
        Some(u) => Some(u),
        None => spec_join_url(base.text, href),
    }
}

/// The links of a node sequence, in document order: for every anchor
/// element carrying an `href`, the resolution of that href, where it
/// resolves to something.
pub open spec fn spec_links(base: UrlView, nodes: Seq<NodeView>) -> Seq<UrlView>
    decreases nodes.len(),
{
    if nodes.len() == 0 {
        Seq::<UrlView>::empty()
    } else {
        let head = if nodes[0].tag == Some("a"@) {
            match spec_first_href(nodes[0].attrs) {
                Some(hr) => match spec_resolve(base, hr) {
                    Some(u) => seq![u],
                    None => Seq::<UrlView>::empty(),
                },
                None => Seq::<UrlView>::empty(),
            }
        } else {
            Seq::<UrlView>::empty()
        };
        head + spec_links(base, nodes.drop_first())
    }
}

/// Resolve one href against the page URL.
pub fn resolve_href(base: &PageUrl, href: &String) -> (r: Option<PageUrl>)
    ensures
        opt_view(r) == spec_resolve(base@, href@),
{
    match PageUrl::parse(href.as_str()) {
        Some(u) => Some(u),
        None => base.join(href.as_str()),
    }
}

#[verifier::loop_isolation(false)]
fn first_href(attrs: &Vec<HtmlAttr>) -> (r: Option<String>)
    ensures
        match r {
            Some(s) => spec_first_href(attr_views(attrs@)) == Some(s@),
            None => spec_first_href(attr_views(attrs@)) is None,
        },
{
    let key: String = "href".to_owned();
    proof {
        assert(attr_views(attrs@).skip(0) =~= attr_views(attrs@));
    }
    let n = attrs.len();
    for i in 0..n
        invariant
            spec_first_href(attr_views(attrs@)) == spec_first_href(
                attr_views(attrs@).skip(i as int),
            ),
    {
        proof {
            assert(attr_views(attrs@).skip(i as int)[0] == attrs@[i as int]@);
            assert(attr_views(attrs@).skip(i as int).drop_first() =~= attr_views(attrs@).skip(
                i as int + 1,
            ));
        }
        if attrs[i].name == key {
            return Some(attrs[i].value.clone());
        }
    }
    None
}

/// The ordered links of a page: for every anchor element in the markup, in
/// document order, its first `href` resolved against the page's own URL.
/// Unparseable hrefs contribute nothing; nothing is deduplicated here —
/// that is the visited store's job.
#[verifier::loop_isolation(false)]
pub fn find_anchor_links(this: &PageUrl, html: &[u8]) -> (r: Vec<PageUrl>)
    ensures
        views(r@) == spec_links(this@, dom_nodes(html@)),
{
    let nodes = parse_nodes(html);
    let ghost nvs = node_views(nodes@);
    let a_tag: String = "a".to_owned();
    let mut r: Vec<PageUrl> = Vec::new();
    proof {
        assert(nvs.skip(0) =~= nvs);
        assert(views(r@) + spec_links(this@, nvs) =~= spec_links(this@, nvs));
    }
    let n = nodes.len();
    for i in 0..n
        invariant
            spec_links(this@, nvs) == views(r@) + spec_links(this@, nvs.skip(i as int)),
    {
        proof {
            assert(nvs.skip(i as int)[0] == nodes@[i as int]@);
            assert(nvs.skip(i as int).drop_first() =~= nvs.skip(i as int + 1));
        }
        let node = &nodes[i];
        let ghost r_pre = r@;
        let mut added = false;
        match &node.tag {
            Some(tag) => {
                if *tag == a_tag {
                    match first_href(&node.attrs) {
                        Some(href) => {
                            match resolve_href(this, &href) {
                                Some(u) => {
                                    let ghost uv = u@;
                                    r.push(u);
                                    added = true;
                                    proof {
                                        assert(views(r@) =~= views(r_pre).push(uv));
                                        assert(views(r_pre).push(uv) + spec_links(
                                            this@,
                                            nvs.skip(i as int + 1),
                                        ) =~= views(r_pre) + (seq![uv] + spec_links(
                                            this@,
                                            nvs.skip(i as int + 1),
                                        )));
                                    }
                                },
                                None => {},
                            }
                        },
                        None => {},
                    }
                }
            },
            None => {},
        }
        proof {
            if !added {
                assert(r@ == r_pre);
                assert(Seq::<UrlView>::empty() + spec_links(this@, nvs.skip(i as int + 1)) =~=
                spec_links(this@, nvs.skip(i as int + 1)));
            }
        }
    }
    proof {
        assert(nvs.skip(n as int) =~= Seq::<NodeView>::empty());
        assert(views(r@) + Seq::<UrlView>::empty() =~= views(r@));
    }
    r
}

} // verus!
