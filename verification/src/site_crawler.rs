//! A recursive crawl of one site: every page found is loaded in turn, depth first,
//! and the pages form a tree.
use vstd::prelude::*;

use crate::dom_parser::links_view;
use crate::dom_parser::sort_by_uri;
use crate::dom_parser::sort_links_by_uri;
use crate::dom_parser::lemma_sort_by_uri_keeps;
use crate::dom_parser::lemma_insert_by_uri_elements;
use crate::dom_parser::lemma_sort_by_uri_sorted;
use crate::dom_parser::lemma_text_le_antisymmetric;
use crate::dom_parser::lemma_text_le_total;
use crate::dom_parser::sorted_by_uri;
use crate::dom_parser::text_le;
use crate::link_type_checker::uri_scope_of;
use crate::link_type_checker::LinkTypeChecker;
use crate::page_loader::page_loader_service::dedup_by_uri;
use crate::page_loader::page_loader_service::dedup_links_by_uri;
use crate::page_loader::page_loader_service::is_followed_scope;
use crate::page_loader::page_crawl_command::contains_string;
use crate::page_loader::task_context::strings_view;
use crate::responses::link::Link;
use crate::responses::link::LinkView;
use crate::text::chars_of;
use crate::text::string_of;

pub mod page;
pub mod fetch;
pub mod crawl;

verus! {

/// The settings of a site crawl.
#[derive(Clone, Debug)]
pub struct RunConfig {
    pub url: String,
    pub ignore_redirects: bool,
    pub maximum_redirects: u8,
    pub maximum_depth: u8,
    pub ignore_robots_txt: bool,
    pub keep_html_in_memory: bool,
    pub user_agent: String,
}

impl RunConfig {
    /// A crawl of `url` with the defaults: follow up to 10 redirects, descend to
    /// depth 16, obey robots.txt, drop the HTML, agent `tarantula`.
    pub fn new(url: String) -> (r: RunConfig)
        ensures
            r.url == url,
            !r.ignore_redirects,
            r.maximum_redirects == 10,
            r.maximum_depth == 16,
            !r.ignore_robots_txt,
            !r.keep_html_in_memory,
            r.user_agent@ == "tarantula"@,
    {
        RunConfig {
            url,
            ignore_redirects: false,
            maximum_redirects: 10,
            maximum_depth: 16,
            ignore_robots_txt: false,
            keep_html_in_memory: false,
            user_agent: string_of(&chars_of("tarantula")),
        }
    }
}

/// Whether a link found on a page of `domain` belongs to the site: the root,
/// the same domain or another subdomain.
pub open spec fn on_site(domain: Seq<char>) -> spec_fn(LinkView) -> bool {
    |l: LinkView| is_followed_scope(uri_scope_of(domain, domain, l.uri))
}

/// The links of the site among `links`: sorted by uri, repeats of a uri
/// dropped, those off the site dropped.
pub open spec fn same_domain_links(domain: Seq<char>, links: Seq<LinkView>) -> Seq<LinkView> {
    dedup_by_uri(sort_by_uri(links)).filter(on_site(domain))
}

/// The links are in strictly ascending order of their uri: no uri occurs twice.
pub open spec fn strictly_sorted_by_uri(s: Seq<LinkView>) -> bool {
    forall|i: int, j: int|
        0 <= i < j < s.len() ==> text_le(#[trigger] s[i].uri, #[trigger] s[j].uri) && s[i].uri
            != s[j].uri
}

/// Dropping repeated neighbours keeps only links that were there.
proof fn lemma_dedup_by_uri_elements(s: Seq<LinkView>)
    ensures
        forall|k: int| 0 <= k < dedup_by_uri(s).len() ==> s.contains(#[trigger] dedup_by_uri(s)[k]),
        s.len() > 0 ==> dedup_by_uri(s).len() > 0,
    decreases s.len(),
{
    if s.len() > 1 {
        let d = s.drop_last();
        lemma_dedup_by_uri_elements(d);
        let p = dedup_by_uri(d);
        assert forall|k: int| 0 <= k < dedup_by_uri(s).len() implies s.contains(
            #[trigger] dedup_by_uri(s)[k],
        ) by {
            if k < p.len() {
                let j = choose|j: int| 0 <= j < d.len() && d[j] == p[k];
                assert(s[j] == p[k]);
            } else {
                assert(s[s.len() - 1] == dedup_by_uri(s)[k]);
            }
        }
    } else if s.len() == 1 {
        assert(s[0] == dedup_by_uri(s)[0]);
    }
}

/// Dropping repeated neighbours of sorted links leaves no uri twice.
proof fn lemma_dedup_of_sorted_is_strict(s: Seq<LinkView>)
    requires
        sorted_by_uri(s),
    ensures
        strictly_sorted_by_uri(dedup_by_uri(s)),
    decreases s.len(),
{
    if s.len() > 1 {
        let d = s.drop_last();
        assert(sorted_by_uri(d)) by {
            assert forall|i: int, j: int| 0 <= i < j < d.len() implies text_le(
                #[trigger] d[i].uri,
                #[trigger] d[j].uri,
            ) by {
                assert(d[i] == s[i] && d[j] == s[j]);
            }
        }
        lemma_dedup_of_sorted_is_strict(d);
        lemma_dedup_by_uri_elements(d);
        let p = dedup_by_uri(d);
        let prev = s[s.len() - 2];
        let last = s.last();
        if last.uri != prev.uri {
            let r = p.push(last);
            assert forall|i: int, j: int| 0 <= i < j < r.len() implies text_le(
                #[trigger] r[i].uri,
                #[trigger] r[j].uri,
            ) && r[i].uri != r[j].uri by {
                if j == p.len() {
                    let k = choose|k: int| 0 <= k < d.len() && d[k] == p[i];
                    assert(s[k] == p[i]);
                    assert(text_le(s[k].uri, last.uri));
                    if k < s.len() - 2 {
                        assert(text_le(s[k].uri, prev.uri));
                    } else {
                        lemma_text_le_total(prev.uri, prev.uri);
                    }
                    assert(text_le(p[i].uri, prev.uri));
                    if p[i].uri == last.uri {
                        assert(text_le(prev.uri, last.uri));
                        lemma_text_le_antisymmetric(prev.uri, last.uri);
                    }
                } else {
                    assert(r[i] == p[i] && r[j] == p[j]);
                }
            }
        }
    }
}

/// Dropping repeated neighbours keeps a link with each uri.
proof fn lemma_dedup_by_uri_keeps_uris(s: Seq<LinkView>)
    ensures
        forall|j: int|
            0 <= j < s.len() ==> exists|k: int|
                0 <= k < dedup_by_uri(s).len() && dedup_by_uri(s)[k].uri == (#[trigger] s[j]).uri,
    decreases s.len(),
{
    if s.len() == 1 {
        assert forall|j: int| 0 <= j < s.len() implies exists|k: int|
            0 <= k < dedup_by_uri(s).len() && dedup_by_uri(s)[k].uri == (#[trigger] s[j]).uri by {
            assert(dedup_by_uri(s)[0] == s[0]);
        }
    } else if s.len() > 1 {
        let d = s.drop_last();
        lemma_dedup_by_uri_keeps_uris(d);
        let p = dedup_by_uri(d);
        let r = dedup_by_uri(s);
        assert forall|k: int| 0 <= k < p.len() implies #[trigger] r[k] == p[k] by {}
        assert forall|j: int| 0 <= j < s.len() implies exists|k: int|
            0 <= k < r.len() && r[k].uri == (#[trigger] s[j]).uri by {
            if j < s.len() - 1 {
                assert(d[j] == s[j]);
                let k = choose|k: int| 0 <= k < p.len() && p[k].uri == d[j].uri;
                assert(r[k] == p[k]);
            } else if s.last().uri == s[s.len() - 2].uri {
                assert(d[s.len() - 2] == s[s.len() - 2]);
                let k = choose|k: int| 0 <= k < p.len() && p[k].uri == d[s.len() - 2].uri;
                assert(r[k] == p[k]);
            } else {
                assert(r[p.len() as int] == s[j]);
            }
        }
    }
}

/// Keeping some of strictly sorted links keeps them strictly sorted.
proof fn lemma_filter_of_strict_is_strict(s: Seq<LinkView>, pred: spec_fn(LinkView) -> bool)
    requires
        strictly_sorted_by_uri(s),
    ensures
        strictly_sorted_by_uri(s.filter(pred)),
    decreases s.len(),
{
    if s.len() > 0 {
        let d = s.drop_last();
        assert(strictly_sorted_by_uri(d)) by {
            assert forall|i: int, j: int| 0 <= i < j < d.len() implies text_le(
                #[trigger] d[i].uri,
                #[trigger] d[j].uri,
            ) && d[i].uri != d[j].uri by {
                assert(d[i] == s[i] && d[j] == s[j]);
            }
        }
        lemma_filter_of_strict_is_strict(d, pred);
        assert(s == d.push(s.last()));
        d.lemma_filter_push(s.last(), pred);
        let f = d.filter(pred);
        if pred(s.last()) {
            let r = f.push(s.last());
            assert forall|i: int, j: int| 0 <= i < j < r.len() implies text_le(
                #[trigger] r[i].uri,
                #[trigger] r[j].uri,
            ) && r[i].uri != r[j].uri by {
                if j == f.len() {
                    assert(f.contains(f[i]));
                    d.lemma_filter_contains_rev(pred, f[i]);
                    let k = choose|k: int| 0 <= k < d.len() && d[k] == f[i];
                    assert(s[k] == f[i]);
                } else {
                    assert(r[i] == f[i] && r[j] == f[j]);
                }
            }
        }
    } else {
        reveal(Seq::filter);
    }
}

/// The site's links among any links come in strictly ascending order of their
/// uri, so each uri once; every one of them belongs to the site; and every
/// link of the site is among them by its uri.
pub proof fn law_same_domain_links_unique_and_on_site(domain: Seq<char>, links: Seq<LinkView>)
    ensures
        strictly_sorted_by_uri(same_domain_links(domain, links)),
        forall|j: int|
            0 <= j < links.len() && is_followed_scope(
                uri_scope_of(domain, domain, (#[trigger] links[j]).uri),
            ) ==> exists|k: int|
                0 <= k < same_domain_links(domain, links).len() && same_domain_links(domain, links)[k].uri
                    == links[j].uri,
        forall|k: int|
            0 <= k < same_domain_links(domain, links).len() ==> is_followed_scope(
                uri_scope_of(domain, domain, (#[trigger] same_domain_links(domain, links)[k]).uri),
            ),
{
    broadcast use vstd::seq_lib::group_filter_ensures;

    lemma_sort_by_uri_sorted(links);
    lemma_dedup_of_sorted_is_strict(sort_by_uri(links));
    lemma_filter_of_strict_is_strict(dedup_by_uri(sort_by_uri(links)), on_site(domain));
    assert forall|k: int| 0 <= k < same_domain_links(domain, links).len() implies is_followed_scope(
        uri_scope_of(domain, domain, (#[trigger] same_domain_links(domain, links)[k]).uri),
    ) by {
        assert(on_site(domain)(same_domain_links(domain, links)[k]));
    }
    let sorted = sort_by_uri(links);
    let unique = dedup_by_uri(sorted);
    let result = same_domain_links(domain, links);
    lemma_sort_by_uri_keeps(links);
    lemma_dedup_by_uri_keeps_uris(sorted);
    assert forall|j: int|
        0 <= j < links.len() && is_followed_scope(
            uri_scope_of(domain, domain, (#[trigger] links[j]).uri),
        ) implies exists|k: int| 0 <= k < result.len() && result[k].uri == links[j].uri by {
        assert(sorted.contains(links[j]));
        let a = choose|a: int| 0 <= a < sorted.len() && sorted[a] == links[j];
        let b = choose|b: int| 0 <= b < unique.len() && unique[b].uri == sorted[a].uri;
        assert(on_site(domain)(unique[b]));
        unique.lemma_filter_contains(on_site(domain), b);
        let k = choose|k: int| 0 <= k < result.len() && result[k] == unique[b];
        assert(result[k].uri == links[j].uri);
    }
}

/// Sorting by uri adds no link: every sorted link is one of the input.
proof fn lemma_sort_by_uri_elements(s: Seq<LinkView>)
    ensures
        forall|k: int| 0 <= k < sort_by_uri(s).len() ==> s.contains(#[trigger] sort_by_uri(s)[k]),
    decreases s.len(),
{
    if s.len() > 0 {
        let d = s.drop_last();
        lemma_sort_by_uri_elements(d);
        lemma_insert_by_uri_elements(sort_by_uri(d), s.last());
        assert forall|k: int| 0 <= k < sort_by_uri(s).len() implies s.contains(#[trigger] sort_by_uri(s)[k]) by {
            let x = sort_by_uri(s)[k];
            if x == s.last() {
                assert(s[s.len() - 1] == x);
            } else {
                let i = choose|i: int| 0 <= i < sort_by_uri(d).len() && sort_by_uri(d)[i] == x;
                let j = choose|j: int| 0 <= j < d.len() && d[j] == sort_by_uri(d)[i];
                assert(s[j] == x);
            }
        }
    }
}

/// Every link the site's links are made of is one of the given links: nothing
/// is made up, only kept.
pub proof fn law_same_domain_links_are_copies(domain: Seq<char>, links: Seq<LinkView>)
    ensures
        forall|k: int|
            0 <= k < same_domain_links(domain, links).len() ==> links.contains(
                #[trigger] same_domain_links(domain, links)[k],
            ),
{
    broadcast use vstd::seq_lib::group_filter_ensures;

    let sorted = sort_by_uri(links);
    let unique = dedup_by_uri(sorted);
    let result = same_domain_links(domain, links);
    lemma_sort_by_uri_elements(links);
    lemma_dedup_by_uri_elements(sorted);
    assert forall|k: int| 0 <= k < result.len() implies links.contains(#[trigger] result[k]) by {
        assert(result.contains(result[k]));
        unique.lemma_filter_contains_rev(on_site(domain), result[k]);
        let b = choose|b: int| 0 <= b < unique.len() && unique[b] == result[k];
        assert(sorted.contains(unique[b]));
        let a = choose|a: int| 0 <= a < sorted.len() && sorted[a] == unique[b];
        assert(links.contains(sorted[a]));
    }
}

/// Whether a link is not yet known.
pub open spec fn unknown_to(known: Seq<Seq<char>>) -> spec_fn(LinkView) -> bool {
    |l: LinkView| !known.contains(l.uri)
}

/// The links of `links` found on a page of `source_domain` that belong to the
/// site, sorted by uri, each uri once.
pub fn get_same_domain_links(source_domain: &str, links: &Vec<Link>) -> (r: Vec<Link>)
    ensures
        links_view(r@) == same_domain_links(source_domain@, links_view(links@)),
{
    let mut cloned: Vec<Link> = Vec::new();
    let mut k: usize = 0;
    while k < links.len()
        invariant
            k <= links.len(),
            links_view(cloned@) == links_view(links@).take(k as int),
        decreases links.len() - k,
    {
        cloned.push(links[k].duplicate());
        assert(links_view(links@).take(k + 1) == links_view(links@).take(k as int).push(
            links@[k as int]@,
        ));
        k = k + 1;
    }
    assert(links_view(links@).take(k as int) == links_view(links@));
    let sorted = sort_links_by_uri(cloned);
    let unique = dedup_links_by_uri(&sorted);
    let checker = LinkTypeChecker::new(source_domain);
    let ghost u = links_view(unique@);
    let ghost p = on_site(source_domain@);
    let mut out: Vec<Link> = Vec::new();
    let mut i: usize = 0;
    while i < unique.len()
        invariant
            i <= unique.len(),
            u == links_view(unique@),
            p == on_site(source_domain@),
            checker.domain() == source_domain@,
            links_view(out@) == u.take(i as int).filter(p),
        decreases unique.len() - i,
    {
        let l = &unique[i];
        proof {
            assert(u.take(i + 1) == u.take(i as int).push(l@));
            u.take(i as int).lemma_filter_push(l@, p);
        }
        let scope = checker.get_uri_scope(source_domain, l.uri.as_str());
        let followed = match scope {
            Some(s) => match s {
                crate::responses::uri_scope::UriScope::Root => true,
                crate::responses::uri_scope::UriScope::SameDomain => true,
                crate::responses::uri_scope::UriScope::DifferentSubDomain => true,
                _ => false,
            },
            None => false,
        };
        assert(followed == p(l@));
        if followed {
            let ghost before = links_view(out@);
            out.push(l.duplicate());
            assert(links_view(out@) == before.push(l@));
        }
        i = i + 1;
    }
    assert(u.take(i as int) == u);
    out
}

/// The links of `input` whose uri is not among `known_links`, in order.
pub fn filter_links_to_visit(input: Vec<Link>, known_links: &Vec<String>) -> (r: Vec<Link>)
    ensures
        links_view(r@) == links_view(input@).filter(unknown_to(strings_view(known_links@))),
{
    let ghost v = links_view(input@);
    let ghost p = unknown_to(strings_view(known_links@));
    let mut out: Vec<Link> = Vec::new();
    let mut i: usize = 0;
    while i < input.len()
        invariant
            i <= input.len(),
            v == links_view(input@),
            p == unknown_to(strings_view(known_links@)),
            links_view(out@) == v.take(i as int).filter(p),
        decreases input.len() - i,
    {
        let l = &input[i];
        proof {
            assert(v.take(i + 1) == v.take(i as int).push(l@));
            v.take(i as int).lemma_filter_push(l@, p);
        }
        if !contains_string(known_links, &l.uri) {
            let ghost before = links_view(out@);
            out.push(l.duplicate());
            assert(links_view(out@) == before.push(l@));
        }
        i = i + 1;
    }
    assert(v.take(i as int) == v);
    out
}

/// No link that `filter_links_to_visit` keeps is known, and every link that is
/// not known is kept.
pub proof fn law_filtered_links_are_unknown(links: Seq<LinkView>, known: Seq<Seq<char>>)
    ensures
        forall|k: int|
            0 <= k < links.filter(unknown_to(known)).len() ==> !known.contains(
                #[trigger] links.filter(unknown_to(known))[k].uri,
            ),
        forall|l: LinkView|
            links.contains(l) && !known.contains(l.uri) ==> #[trigger] links.filter(
                unknown_to(known),
            ).contains(l),
{
    broadcast use vstd::seq_lib::group_filter_ensures;

    assert forall|l: LinkView| links.contains(l) && !known.contains(l.uri) implies #[trigger] links.filter(
        unknown_to(known),
    ).contains(l) by {
        let i = choose|i: int| 0 <= i < links.len() && links[i] == l;
        assert(unknown_to(known)(links[i]));
    }
}

} // verus!
