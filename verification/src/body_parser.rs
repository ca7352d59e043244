//! The plain reading of a page body: the `href` values of its elements, sorted.
use vstd::prelude::*;

use crate::dom_parser::html_elements;
use crate::dom_parser::links_view;
use crate::dom_parser::parse_html_elements;
use crate::dom_parser::sort_by_uri;
use crate::dom_parser::sort_links_by_uri;
use crate::dom_parser::HtmlElement;
use crate::dom_parser::HtmlElementView;
use crate::responses::link::Link;
use crate::responses::link::LinkView;

verus! {

/// The value of an element's first attribute, when that attribute is `href`.
pub open spec fn first_href(e: HtmlElementView) -> Option<Seq<char>> {
    if e.attrs.len() > 0 && e.attrs[0].0 == "href"@ {
        Some(e.attrs[0].1)
    } else {
        None
    }
}

/// The `href` values of the elements whose first attribute is `href`, in
/// the order the elements are given in.
pub open spec fn first_hrefs(es: Seq<HtmlElementView>) -> Seq<Seq<char>>
    decreases es.len(),
{
    if es.len() == 0 {
        Seq::empty()
    } else {
        let prev = first_hrefs(es.drop_last());
        match first_href(es.last()) {
            Some(h) => prev.push(h),
            None => prev,
        }
    }
}

/// A text as a link to it, with nothing else known of it.
pub open spec fn bare_link(t: Seq<char>) -> LinkView {
    LinkView { uri: t, scope: None, protocol: None, source_tag: None }
}

/// The texts in ascending `str` order.
pub open spec fn sorted_texts(s: Seq<Seq<char>>) -> Seq<Seq<char>> {
    sort_by_uri(s.map_values(|t: Seq<char>| bare_link(t))).map_values(|l: LinkView| l.uri)
}

/// The `href` values of the elements whose first attribute is `href`, in
/// the order the elements are given in.
pub fn extract_links(elements: &Vec<HtmlElement>) -> (r: Vec<String>)
    ensures
        r@.map_values(|s: String| s@) == first_hrefs(elements@.map_values(|e: HtmlElement| e@)),
{
    let ghost ev = elements@.map_values(|e: HtmlElement| e@);
    let mut out: Vec<String> = Vec::new();
    let mut i: usize = 0;
    while i < elements.len()
        invariant
            i <= elements.len(),
            ev == elements@.map_values(|e: HtmlElement| e@),
            out@.map_values(|s: String| s@) == first_hrefs(ev.take(i as int)),
        decreases elements.len() - i,
    {
        let e = &elements[i];
        proof {
            assert(ev.take(i + 1).drop_last() == ev.take(i as int));
            assert(ev.take(i + 1).last() == e@);
        }
        if e.attrs.len() > 0 && crate::text::str_eq(e.attrs[0].0.as_str(), "href") {
            let ghost before = out@.map_values(|s: String| s@);
            out.push(e.attrs[0].1.clone());
            assert(out@.map_values(|s: String| s@) == before.push(e.attrs@[0].1@));
        }
        i = i + 1;
    }
    assert(ev.take(i as int) == ev);
    out
}

/// The `href` values of `body`'s elements whose first attribute is `href`,
/// in ascending `str` order.
pub fn parse_body(body: &str) -> (r: Vec<String>)
    ensures
        r@.map_values(|s: String| s@) == sorted_texts(first_hrefs(html_elements(body@))),
{
    let elements = parse_html_elements(body);
    assert(elements@.map_values(|e: HtmlElement| e@) == html_elements(body@));
    let hrefs = extract_links(&elements);
    let ghost hv = hrefs@.map_values(|s: String| s@);
    let mut links: Vec<Link> = Vec::new();
    let mut i: usize = 0;
    while i < hrefs.len()
        invariant
            i <= hrefs.len(),
            hv == hrefs@.map_values(|s: String| s@),
            links_view(links@) == hv.take(i as int).map_values(|t: Seq<char>| bare_link(t)),
        decreases hrefs.len() - i,
    {
        let ghost before = links_view(links@);
        links.push(Link { uri: hrefs[i].clone(), scope: None, protocol: None, source_tag: None });
        assert(links_view(links@) == before.push(bare_link(hv[i as int])));
        assert(hv.take(i + 1).map_values(|t: Seq<char>| bare_link(t)) == hv.take(i as int).map_values(
            |t: Seq<char>| bare_link(t),
        ).push(bare_link(hv[i as int])));
        i = i + 1;
    }
    assert(hv.take(i as int) == hv);
    let sorted = sort_links_by_uri(links);
    let ghost sv = links_view(sorted@);
    let mut out: Vec<String> = Vec::new();
    let mut k: usize = 0;
    while k < sorted.len()
        invariant
            k <= sorted.len(),
            sv == links_view(sorted@),
            out@.map_values(|s: String| s@) == sv.take(k as int).map_values(|l: LinkView| l.uri),
        decreases sorted.len() - k,
    {
        let ghost before = out@.map_values(|s: String| s@);
        out.push(sorted[k].uri.clone());
        assert(out@.map_values(|s: String| s@) == before.push(sv[k as int].uri));
        assert(sv.take(k + 1).map_values(|l: LinkView| l.uri) == sv.take(k as int).map_values(
            |l: LinkView| l.uri,
        ).push(sv[k as int].uri));
        k = k + 1;
    }
    assert(sv.take(k as int) == sv);
    out
}

} // verus!
