//! Finds the links on an HTML page.
use std::sync::Arc;

use vstd::prelude::*;

use crate::link_type_checker::uri_protocol_of;
use crate::link_type_checker::uri_scope_of;
use crate::link_type_checker::LinkTypeChecker;
use crate::responses::link::Link;
use crate::responses::link::LinkView;
use crate::responses::response_timings::utc_now_micros;
use crate::text::chars_of;
use crate::text::trim;
use crate::text::trimmed;

verus! {

/// An element of a parsed HTML document: its attributes (name, value) in
/// the order the parser keeps them, and its debug rendering `<name k="v" …>`.
#[derive(Debug, Clone)]
pub struct HtmlElement {
    pub attrs: Vec<(String, String)>,
    pub source_tag: String,
}

/// The mathematical value of an HTML element.
pub struct HtmlElementView {
    pub attrs: Seq<(Seq<char>, Seq<char>)>,
    pub source_tag: Seq<char>,
}

impl View for HtmlElement {
    type V = HtmlElementView;

    open spec fn view(&self) -> HtmlElementView {
        HtmlElementView {
            attrs: self.attrs@.map_values(|a: (String, String)| (a.0@, a.1@)),
            source_tag: self.source_tag@,
        }
    }
}

/// The elements as mathematical values.
pub open spec fn elements_view(v: Seq<HtmlElement>) -> Seq<HtmlElementView> {
    v.map_values(|e: HtmlElement| e@)
}

/// The elements, in the order of the nodes of the tree `scraper::Html::parse_document`
/// builds from `body`.
pub uninterp spec fn html_elements(body: Seq<char>) -> Seq<HtmlElementView>;

/// Parses `body` with `scraper::Html::parse_document` and lists the element
/// nodes of its tree in the tree's node order (`tree.values()`), each with its `attrs()` and its
/// `Debug` text. HTML parsing is deterministic, so the list is a function of
/// the body; what it holds is left to `scraper`.
#[verifier::external_body]
pub(crate) fn parse_html_elements(body: &str) -> (r: Vec<HtmlElement>)
    ensures
        elements_view(r@) == html_elements(body@),
{
    let dom = scraper::Html::parse_document(body);
    let mut out = Vec::new();
    for node in dom.tree.values() {
        if let Some(el) = node.as_element() {
            let attrs = el.attrs().map(|(k, v)| (k.to_string(), v.to_string())).collect();
            out.push(HtmlElement { attrs, source_tag: format!("{:?}", el) });
        }
    }
    out
}

/// An attribute that holds a link: `href`, `src` or `data-src`.
pub open spec fn is_link_attribute(name: Seq<char>) -> bool {
    name == "href"@ || name == "src"@ || name == "data-src"@
}

/// The position of the first link attribute among `attrs` (or its length).
pub open spec fn first_link_attribute(attrs: Seq<(Seq<char>, Seq<char>)>) -> int
    decreases attrs.len(),
{
    if attrs.len() == 0 {
        0
    } else if is_link_attribute(attrs[0].0) {
        0
    } else {
        1 + first_link_attribute(attrs.drop_first())
    }
}

/// The link an element holds: its first link attribute's value, trimmed,
/// classified by the untrimmed value.
pub open spec fn link_of_element(
    domain: Seq<char>,
    protocol: Seq<char>,
    host: Seq<char>,
    e: HtmlElementView,
) -> Option<LinkView> {
    let i = first_link_attribute(e.attrs);
    if 0 <= i < e.attrs.len() {
        let value = e.attrs[i].1;
        Some(
            LinkView {
                uri: trim(value),
                scope: uri_scope_of(domain, host, value),
                protocol: uri_protocol_of(protocol, value),
                source_tag: Some(e.source_tag),
            },
        )
    } else {
        None
    }
}

/// An element's link comes from its first attribute named `href`, `src` or
/// `data-src`, whichever of the three it is: the link's uri is that
/// attribute's value, trimmed, and the link is classified by the value. An
/// element with none of the three holds no link.
pub proof fn law_link_attributes_are_href_src_and_data_src(
    domain: Seq<char>,
    protocol: Seq<char>,
    host: Seq<char>,
    e: HtmlElementView,
)
    ensures
        forall|k: int|
            0 <= k < e.attrs.len() && (e.attrs[k].0 == "href"@ || e.attrs[k].0 == "src"@ || e.attrs[k].0
                == "data-src"@) && (forall|j: int|
                0 <= j < k ==> !(#[trigger] e.attrs[j].0 == "href"@ || e.attrs[j].0 == "src"@
                    || e.attrs[j].0 == "data-src"@)) ==> link_of_element(domain, protocol, host, e)
                == Some(
                LinkView {
                    uri: trim(e.attrs[k].1),
                    scope: uri_scope_of(domain, host, e.attrs[k].1),
                    protocol: uri_protocol_of(protocol, e.attrs[k].1),
                    source_tag: Some(e.source_tag),
                },
            ),
        (forall|j: int|
            0 <= j < e.attrs.len() ==> !(#[trigger] e.attrs[j].0 == "href"@ || e.attrs[j].0 == "src"@
                || e.attrs[j].0 == "data-src"@)) ==> link_of_element(domain, protocol, host, e) is None,
{
    assert forall|k: int|
        0 <= k < e.attrs.len() && (e.attrs[k].0 == "href"@ || e.attrs[k].0 == "src"@ || e.attrs[k].0
            == "data-src"@) && (forall|j: int|
            0 <= j < k ==> !(#[trigger] e.attrs[j].0 == "href"@ || e.attrs[j].0 == "src"@
                || e.attrs[j].0 == "data-src"@)) implies first_link_attribute(e.attrs) == k by {
        lemma_first_link_attribute_at(e.attrs, k);
    }
    if forall|j: int|
        0 <= j < e.attrs.len() ==> !(#[trigger] e.attrs[j].0 == "href"@ || e.attrs[j].0 == "src"@
            || e.attrs[j].0 == "data-src"@) {
        lemma_no_link_attribute(e.attrs);
    }
}

/// The first link attribute is at `k` when `k` is one and none comes before it.
proof fn lemma_first_link_attribute_at(attrs: Seq<(Seq<char>, Seq<char>)>, k: int)
    requires
        0 <= k < attrs.len(),
        attrs[k].0 == "href"@ || attrs[k].0 == "src"@ || attrs[k].0 == "data-src"@,
        forall|j: int|
            0 <= j < k ==> !(#[trigger] attrs[j].0 == "href"@ || attrs[j].0 == "src"@ || attrs[j].0
                == "data-src"@),
    ensures
        first_link_attribute(attrs) == k,
    decreases k,
{
    if k > 0 {
        let rest = attrs.drop_first();
        assert forall|j: int| 0 <= j < k - 1 implies !(#[trigger] rest[j].0 == "href"@ || rest[j].0
            == "src"@ || rest[j].0 == "data-src"@) by {
            assert(rest[j] == attrs[j + 1]);
        }
        assert(rest[k - 1] == attrs[k]);
        assert(!(attrs[0].0 == "href"@ || attrs[0].0 == "src"@ || attrs[0].0 == "data-src"@));
        lemma_first_link_attribute_at(rest, k - 1);
    }
}

/// Without a link attribute the first one is past the end.
proof fn lemma_no_link_attribute(attrs: Seq<(Seq<char>, Seq<char>)>)
    requires
        forall|j: int|
            0 <= j < attrs.len() ==> !(#[trigger] attrs[j].0 == "href"@ || attrs[j].0 == "src"@
                || attrs[j].0 == "data-src"@),
    ensures
        first_link_attribute(attrs) >= attrs.len(),
    decreases attrs.len(),
{
    if attrs.len() > 0 {
        let rest = attrs.drop_first();
        assert forall|j: int| 0 <= j < rest.len() implies !(#[trigger] rest[j].0 == "href"@ || rest[j].0
            == "src"@ || rest[j].0 == "data-src"@) by {
            assert(rest[j] == attrs[j + 1]);
        }
        assert(!(attrs[0].0 == "href"@ || attrs[0].0 == "src"@ || attrs[0].0 == "data-src"@));
        lemma_no_link_attribute(rest);
    }
}

/// The links of the elements that hold one, in the order they are listed.
pub open spec fn links_of_elements(
    domain: Seq<char>,
    protocol: Seq<char>,
    host: Seq<char>,
    es: Seq<HtmlElementView>,
) -> Seq<LinkView>
    decreases es.len(),
{
    if es.len() == 0 {
        Seq::empty()
    } else {
        let prev = links_of_elements(domain, protocol, host, es.drop_last());
        match link_of_element(domain, protocol, host, es.last()) {
            Some(l) => prev.push(l),
            None => prev,
        }
    }
}

/// `a` comes no later than `b` in the order of Rust's `str` comparison:
/// lexicographic by code point (UTF-8 preserves that order).
pub open spec fn text_le(a: Seq<char>, b: Seq<char>) -> bool
    decreases a.len(),
{
    if a.len() == 0 {
        true
    } else if b.len() == 0 {
        false
    } else if a[0] != b[0] {
        (a[0] as u32) < (b[0] as u32)
    } else {
        text_le(a.drop_first(), b.drop_first())
    }
}

/// `x` put into `sorted` after every link whose uri is not greater than its own.
pub open spec fn insert_by_uri(sorted: Seq<LinkView>, x: LinkView) -> Seq<LinkView>
    decreases sorted.len(),
{
    if sorted.len() == 0 {
        seq![x]
    } else if text_le(sorted.last().uri, x.uri) {
        sorted.push(x)
    } else {
        insert_by_uri(sorted.drop_last(), x).push(sorted.last())
    }
}

/// The links in ascending order of their uri, links with equal uris in their
/// given order (what the stable `sort_by` on `uri.cmp` gives).
pub open spec fn sort_by_uri(s: Seq<LinkView>) -> Seq<LinkView>
    decreases s.len(),
{
    if s.len() == 0 {
        s
    } else {
        insert_by_uri(sort_by_uri(s.drop_last()), s.last())
    }
}

/// `text_le` relates any two texts one way or the other.
pub proof fn lemma_text_le_total(a: Seq<char>, b: Seq<char>)
    ensures
        text_le(a, b) || text_le(b, a),
    decreases a.len(),
{
    if a.len() > 0 && b.len() > 0 {
        if a[0] == b[0] {
            lemma_text_le_total(a.drop_first(), b.drop_first());
        } else {
            vstd::utf8::char_u32_cast(a[0], a[0] as u32);
            vstd::utf8::char_u32_cast(b[0], b[0] as u32);
        }
    }
}

/// `text_le` is transitive.
pub proof fn lemma_text_le_transitive(a: Seq<char>, b: Seq<char>, c: Seq<char>)
    requires
        text_le(a, b),
        text_le(b, c),
    ensures
        text_le(a, c),
    decreases a.len(),
{
    if a.len() > 0 && b.len() > 0 && c.len() > 0 && a[0] == b[0] && b[0] == c[0] {
        lemma_text_le_transitive(a.drop_first(), b.drop_first(), c.drop_first());
    }
}

/// Texts ordered both ways are equal.
pub proof fn lemma_text_le_antisymmetric(a: Seq<char>, b: Seq<char>)
    requires
        text_le(a, b),
        text_le(b, a),
    ensures
        a == b,
    decreases a.len(),
{
    if a.len() > 0 && b.len() > 0 {
        lemma_text_le_antisymmetric(a.drop_first(), b.drop_first());
        assert(a =~= seq![a[0]] + a.drop_first());
        assert(b =~= seq![b[0]] + b.drop_first());
    }
}

/// The links are in ascending order of their uri.
pub open spec fn sorted_by_uri(s: Seq<LinkView>) -> bool {
    forall|i: int, j: int| 0 <= i < j < s.len() ==> text_le(#[trigger] s[i].uri, #[trigger] s[j].uri)
}

/// Inserting a link keeps the links it is inserted into, and adds only it.
pub proof fn lemma_insert_by_uri_elements(s: Seq<LinkView>, x: LinkView)
    ensures
        insert_by_uri(s, x).len() == s.len() + 1,
        forall|k: int|
            0 <= k < insert_by_uri(s, x).len() ==> (#[trigger] insert_by_uri(s, x)[k] == x
                || s.contains(insert_by_uri(s, x)[k])),
    decreases s.len(),
{
    if s.len() > 0 && !text_le(s.last().uri, x.uri) {
        lemma_insert_by_uri_elements(s.drop_last(), x);
        let t = insert_by_uri(s.drop_last(), x);
        assert forall|k: int| 0 <= k < insert_by_uri(s, x).len() implies (#[trigger] insert_by_uri(
            s,
            x,
        )[k] == x || s.contains(insert_by_uri(s, x)[k])) by {
            if k < t.len() {
                if t[k] != x {
                    let j = choose|j: int| 0 <= j < s.drop_last().len() && s.drop_last()[j] == t[k];
                    assert(s[j] == t[k]);
                }
            } else {
                assert(s[s.len() - 1] == insert_by_uri(s, x)[k]);
            }
        }
    } else if s.len() > 0 {
        assert forall|k: int| 0 <= k < insert_by_uri(s, x).len() implies (#[trigger] insert_by_uri(
            s,
            x,
        )[k] == x || s.contains(insert_by_uri(s, x)[k])) by {
            if k < s.len() {
                assert(s[k] == insert_by_uri(s, x)[k]);
            }
        }
    }
}

/// Inserting a link into sorted links keeps them sorted.
pub proof fn lemma_insert_by_uri_sorted(s: Seq<LinkView>, x: LinkView)
    requires
        sorted_by_uri(s),
    ensures
        sorted_by_uri(insert_by_uri(s, x)),
    decreases s.len(),
{
    if s.len() == 0 {
    } else if text_le(s.last().uri, x.uri) {
        let r = s.push(x);
        assert forall|i: int, j: int| 0 <= i < j < r.len() implies text_le(
            #[trigger] r[i].uri,
            #[trigger] r[j].uri,
        ) by {
            if j == s.len() {
                if i < s.len() - 1 {
                    lemma_text_le_transitive(s[i].uri, s.last().uri, x.uri);
                }
            }
        }
    } else {
        let d = s.drop_last();
        lemma_insert_by_uri_sorted(d, x);
        lemma_insert_by_uri_elements(d, x);
        lemma_text_le_total(s.last().uri, x.uri);
        let t = insert_by_uri(d, x);
        let r = t.push(s.last());
        assert forall|i: int, j: int| 0 <= i < j < r.len() implies text_le(
            #[trigger] r[i].uri,
            #[trigger] r[j].uri,
        ) by {
            if j == t.len() {
                assert(t[i] == x || d.contains(t[i]));
                if t[i] != x {
                    let k = choose|k: int| 0 <= k < d.len() && d[k] == t[i];
                    assert(s[k] == t[i]);
                }
            } else {
                assert(r[i] == t[i] && r[j] == t[j]);
            }
        }
    }
}

/// Inserting a link keeps every link it is inserted into, and the link.
pub proof fn lemma_insert_by_uri_keeps(s: Seq<LinkView>, x: LinkView)
    ensures
        insert_by_uri(s, x).contains(x),
        forall|j: int| 0 <= j < s.len() ==> insert_by_uri(s, x).contains(#[trigger] s[j]),
    decreases s.len(),
{
    if s.len() == 0 {
        assert(insert_by_uri(s, x)[0] == x);
    } else if text_le(s.last().uri, x.uri) {
        let r = s.push(x);
        assert(r[s.len() as int] == x);
        assert forall|j: int| 0 <= j < s.len() implies r.contains(#[trigger] s[j]) by {
            assert(r[j] == s[j]);
        }
    } else {
        let d = s.drop_last();
        lemma_insert_by_uri_keeps(d, x);
        let t = insert_by_uri(d, x);
        let r = t.push(s.last());
        let i = choose|i: int| 0 <= i < t.len() && t[i] == x;
        assert(r[i] == x);
        assert forall|j: int| 0 <= j < s.len() implies r.contains(#[trigger] s[j]) by {
            if j < s.len() - 1 {
                assert(d[j] == s[j]);
                let k = choose|k: int| 0 <= k < t.len() && t[k] == d[j];
                assert(r[k] == s[j]);
            } else {
                assert(r[t.len() as int] == s[j]);
            }
        }
    }
}

/// Sorting keeps every link.
pub proof fn lemma_sort_by_uri_keeps(s: Seq<LinkView>)
    ensures
        forall|j: int| 0 <= j < s.len() ==> sort_by_uri(s).contains(#[trigger] s[j]),
    decreases s.len(),
{
    if s.len() > 0 {
        let d = s.drop_last();
        lemma_sort_by_uri_keeps(d);
        let sd = sort_by_uri(d);
        lemma_insert_by_uri_keeps(sd, s.last());
        assert forall|j: int| 0 <= j < s.len() implies sort_by_uri(s).contains(#[trigger] s[j]) by {
            if j < s.len() - 1 {
                assert(d[j] == s[j]);
                let k = choose|k: int| 0 <= k < sd.len() && sd[k] == d[j];
                assert(sd.contains(sd[k]));
                assert(insert_by_uri(sd, s.last()).contains(sd[k]));
            }
        }
    }
}

/// Sorting by uri gives sorted links.
pub proof fn lemma_sort_by_uri_sorted(s: Seq<LinkView>)
    ensures
        sorted_by_uri(sort_by_uri(s)),
    decreases s.len(),
{
    if s.len() > 0 {
        lemma_sort_by_uri_sorted(s.drop_last());
        lemma_insert_by_uri_sorted(sort_by_uri(s.drop_last()), s.last());
    }
}

/// The links as mathematical values.
pub open spec fn links_view(v: Seq<Link>) -> Seq<LinkView> {
    v.map_values(|l: Link| l@)
}

/// The links found on a page and when parsing finished (microseconds since
/// the Unix epoch).
#[derive(Debug)]
pub struct UriResult {
    pub parse_complete_time: i64,
    pub links: Vec<Link>,
}

/// Something that finds the links on a page.
pub trait DomParser {
    /// The links in `body`, a page reached by `parent_protocol` on `source_domain`.
    fn get_links(&self, parent_protocol: &str, source_domain: &str, body: &String) -> Option<
        UriResult,
    >;
}

/// Finds links with `scraper` and classifies them with a link checker.
pub struct DomParserService {
    link_type_checker: Arc<LinkTypeChecker>,
}

impl DomParserService {
    /// The host the service's link checker was made for.
    pub closed spec fn domain(&self) -> Seq<char> {
        self.link_type_checker.domain()
    }

    /// A parser classifying links with `link_type_checker`.
    pub fn new(link_type_checker: Arc<LinkTypeChecker>) -> (r: DomParserService)
        ensures
            r.domain() == link_type_checker.domain(),
    {
        DomParserService { link_type_checker }
    }

    /// The links of the given elements, in their order, each with its trimmed
    /// value, scope, protocol and source tag.
    pub fn extract_links(&self, parent_protocol: &str, host: &str, elements: &Vec<HtmlElement>) -> (r:
        Vec<Link>)
        ensures
            links_view(r@) == links_of_elements(
                self.domain(),
                parent_protocol@,
                host@,
                elements_view(elements@),
            ),
    {
        let checker: &LinkTypeChecker = &self.link_type_checker;
        let mut out: Vec<Link> = Vec::new();
        let mut i: usize = 0;
        assert(elements_view(elements@).take(0) =~= Seq::<HtmlElementView>::empty());
        while i < elements.len()
            invariant
                i <= elements.len(),
                checker.domain() == self.domain(),
                links_view(out@) == links_of_elements(
                    self.domain(),
                    parent_protocol@,
                    host@,
                    elements_view(elements@).take(i as int),
                ),
            decreases elements.len() - i,
        {
            let e = &elements[i];
            let ghost ev = elements_view(elements@).take(i + 1);
            assert(ev.drop_last() =~= elements_view(elements@).take(i as int));
            assert(ev.last() == e@);
            let k = first_link_attribute_exec(&e.attrs);
            if k < e.attrs.len() {
                let value = e.attrs[k].1.as_str();
                let link = Link {
                    uri: trimmed(value),
                    scope: checker.get_uri_scope(host, value),
                    protocol: checker.get_uri_protocol(parent_protocol, value),
                    source_tag: Some(e.source_tag.clone()),
                };
                let ghost before = out@;
                out.push(link);
                assert(links_view(out@) =~= links_view(before).push(link@));
            }
            i = i + 1;
        }
        assert(elements_view(elements@).take(i as int) =~= elements_view(elements@));
        out
    }
}

impl DomParser for DomParserService {
    /// The links in `body`, sorted by uri, with the time parsing finished.
    fn get_links(&self, parent_protocol: &str, source_domain: &str, body: &String) -> (r: Option<
        UriResult,
    >)
        ensures
            r is Some,
            links_view(r->0.links@) == sort_by_uri(
                links_of_elements(
                    self.domain(),
                    parent_protocol@,
                    source_domain@,
                    html_elements(body@),
                ),
            ),
    {
        Some(self.links_of_page(parent_protocol, source_domain, body))
    }
}

impl DomParserService {
    /// The links in `body`, a page reached by `parent_protocol` on
    /// `source_domain`, sorted by uri, with the time parsing finished.
    pub fn links_of_page(&self, parent_protocol: &str, source_domain: &str, body: &String) -> (r:
        UriResult)
        ensures
            links_view(r.links@) == sort_by_uri(
                links_of_elements(
                    self.domain(),
                    parent_protocol@,
                    source_domain@,
                    html_elements(body@),
                ),
            ),
    {
        let elements = parse_html_elements(body.as_str());
        let links = self.extract_links(parent_protocol, source_domain, &elements);
        let sorted = sort_links_by_uri(links);
        let parse_complete_time = utc_now_micros();
        UriResult { links: sorted, parse_complete_time }
    }
}

fn first_link_attribute_exec(attrs: &Vec<(String, String)>) -> (r: usize)
    ensures
        r as int == first_link_attribute(attrs@.map_values(|a: (String, String)| (a.0@, a.1@))),
        r <= attrs.len(),
{
    let ghost av = attrs@.map_values(|a: (String, String)| (a.0@, a.1@));
    let mut i: usize = 0;
    assert(av.skip(0) =~= av);
    while i < attrs.len()
        invariant
            i <= attrs.len(),
            av == attrs@.map_values(|a: (String, String)| (a.0@, a.1@)),
            first_link_attribute(av) == i + first_link_attribute(av.skip(i as int)),
        decreases attrs.len() - i,
    {
        let name = attrs[i].0.as_str();
        assert(av.skip(i as int)[0] == av[i as int]);
        if crate::text::str_eq(name, "href") || crate::text::str_eq(name, "src")
            || crate::text::str_eq(name, "data-src") {
            return i;
        }
        assert(av.skip(i as int).drop_first() =~= av.skip(i + 1));
        i = i + 1;
    }
    assert(av.skip(i as int).len() == 0);
    i
}

/// `a` comes no later than `b` in Rust's `str` order.
pub fn text_le_exec(a: &String, b: &String) -> (r: bool)
    ensures
        r == text_le(a@, b@),
{
    let x = chars_of(a.as_str());
    let y = chars_of(b.as_str());
    let mut i: usize = 0;
    assert(x@.skip(0) =~= x@);
    assert(y@.skip(0) =~= y@);
    while i < x.len() && i < y.len() && x[i] == y[i]
        invariant
            i <= x.len(),
            i <= y.len(),
            text_le(x@, y@) == text_le(x@.skip(i as int), y@.skip(i as int)),
        decreases x.len() - i,
    {
        assert(x@.skip(i as int).drop_first() =~= x@.skip(i + 1));
        assert(y@.skip(i as int).drop_first() =~= y@.skip(i + 1));
        i = i + 1;
    }
    if i == x.len() {
        true
    } else if i == y.len() {
        false
    } else {
        (x[i] as u32) < (y[i] as u32)
    }
}

/// Inserting `x` after position `j` equals `insert_by_uri` when every link
/// from `j` on has a greater uri and the one before `j` does not.
proof fn lemma_insert_position(s: Seq<LinkView>, x: LinkView, j: int)
    requires
        0 <= j <= s.len(),
        forall|k: int| j <= k < s.len() ==> !text_le(#[trigger] s[k].uri, x.uri),
        j > 0 ==> text_le(s[j - 1].uri, x.uri),
    ensures
        insert_by_uri(s, x) == s.take(j).push(x) + s.skip(j),
    decreases s.len(),
{
    if s.len() == 0 {
        assert(s.take(j).push(x) + s.skip(j) =~= seq![x]);
    } else if j == s.len() {
        assert(s.take(j) =~= s);
        assert(s.skip(j) =~= Seq::<LinkView>::empty());
        assert(s.take(j).push(x) + s.skip(j) =~= s.push(x));
    } else {
        assert(!text_le(s[s.len() - 1].uri, x.uri));
        let t = s.drop_last();
        lemma_insert_position(t, x, j);
        assert(t.take(j) =~= s.take(j));
        assert(s.skip(j) =~= t.skip(j).push(s.last()));
        assert((t.take(j).push(x) + t.skip(j)).push(s.last()) =~= s.take(j).push(x) + s.skip(j));
    }
}

/// The links in ascending order of their uri, links with equal uris kept in order.
pub fn sort_links_by_uri(links: Vec<Link>) -> (r: Vec<Link>)
    ensures
        links_view(r@) == sort_by_uri(links_view(links@)),
{
    let mut out: Vec<Link> = Vec::new();
    let mut i: usize = 0;
    assert(links_view(links@).take(0) =~= Seq::<LinkView>::empty());
    while i < links.len()
        invariant
            i <= links.len(),
            links_view(out@) == sort_by_uri(links_view(links@).take(i as int)),
        decreases links.len() - i,
    {
        let x = links[i].duplicate();
        let mut j: usize = out.len();
        while j > 0 && !text_le_exec(&out[j - 1].uri, &x.uri)
            invariant
                j <= out.len(),
                forall|k: int| j <= k < out.len() ==> !text_le(#[trigger] out@[k]@.uri, x@.uri),
            decreases j,
        {
            j = j - 1;
        }
        let ghost before = links_view(out@);
        proof {
            lemma_insert_position(before, x@, j as int);
            assert(links_view(links@).take(i + 1).drop_last() =~= links_view(links@).take(i as int));
        }
        out.insert(j, x);
        assert(links_view(out@) =~= before.take(j as int).push(x@) + before.skip(j as int));
        i = i + 1;
    }
    assert(links_view(links@).take(i as int) =~= links_view(links@));
    out
}

} // verus!
