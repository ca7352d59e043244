//! A page of a site crawl: its link, its response and the pages found on it.
use vstd::prelude::*;

use crate::dom_parser::links_view;
use crate::responses::headers::Headers;
use crate::responses::link::Link;
use crate::responses::link::LinkView;
use crate::responses::response_timings::utc_now_micros;
use crate::uri_parse::parse_uri;
use crate::uri_parse::parsed_uri;
use crate::uri_service::opt_string_view;

verus! {

/// When the steps of loading a page happened, in microseconds since the Unix epoch.
#[derive(Debug, Clone)]
pub struct PageTimings {
    pub overall_start_time: i64,
    pub head_request_start_time: Option<i64>,
    pub head_request_complete_time: Option<i64>,
    pub get_request_start_time: Option<i64>,
    pub get_request_complete_time: Option<i64>,
    pub parse_complete_time: Option<i64>,
    pub overall_complete_time: Option<i64>,
    pub children_compete_time: Option<i64>,
}

impl PageTimings {
    /// Timings of a page whose loading starts now.
    pub fn new() -> (r: PageTimings)
        ensures
            r.head_request_start_time is None,
            r.head_request_complete_time is None,
            r.get_request_start_time is None,
            r.get_request_complete_time is None,
            r.parse_complete_time is None,
            r.overall_complete_time is None,
            r.children_compete_time is None,
    {
        PageTimings {
            overall_start_time: utc_now_micros(),
            head_request_start_time: None,
            head_request_complete_time: None,
            get_request_start_time: None,
            get_request_complete_time: None,
            parse_complete_time: None,
            overall_complete_time: None,
            children_compete_time: None,
        }
    }
}

/// The status line and headers of a page's response.
#[derive(Debug, Clone)]
pub struct PageResponse {
    pub status: u16,
    /// The HTTP version, as `hyper` prints it (`HTTP/1.1`).
    pub version: String,
    pub headers: Headers,
}

/// A page of the crawl and the pages found on it.
#[derive(Debug)]
pub struct Page {
    pub link: Link,
    pub response_timings: PageTimings,
    pub descendants: Option<Vec<Page>>,
    pub parent_uri: Option<String>,
    pub page_response: Option<PageResponse>,
    pub body: Option<String>,
}

/// An ASCII decimal digit.
pub open spec fn is_digit(c: char) -> bool {
    '0' <= c && c <= '9'
}

/// The value of a string of decimal digits.
pub open spec fn digits_value(s: Seq<char>) -> nat
    decreases s.len(),
{
    if s.len() == 0 {
        0
    } else {
        digits_value(s.drop_last()) * 10 + ((s.last() as u32) - ('0' as u32)) as nat
    }
}

/// The text after an optional leading `+`.
pub open spec fn unsigned_part(s: Seq<char>) -> Seq<char> {
    if s.len() > 0 && s[0] == '+' {
        s.drop_first()
    } else {
        s
    }
}

/// Every character is a decimal digit.
pub open spec fn all_digits(d: Seq<char>) -> bool {
    forall|i: int| 0 <= i < d.len() ==> is_digit(#[trigger] d[i])
}

/// What `str::parse::<usize>` gives: an optional `+` followed by at least one
/// decimal digit, whose value fits in a `usize`.
pub open spec fn parsed_usize(s: Seq<char>) -> Option<nat> {
    let d = unsigned_part(s);
    if d.len() > 0 && all_digits(d) && digits_value(d) <= usize::MAX {
        Some(digits_value(d))
    } else {
        None
    }
}

/// The status line and headers of a recorded response as values.
pub struct ResponseView {
    pub status: u16,
    pub version: Seq<char>,
    pub headers: Map<Seq<char>, Seq<char>>,
}

/// A page as a value, apart from its timings: its link, the page it was found
/// on, its recorded response and body, and the pages found on it.
pub struct PageView {
    pub link: LinkView,
    pub parent_uri: Option<Seq<char>>,
    pub response: Option<ResponseView>,
    pub body: Option<Seq<char>>,
    pub descendants: Option<Seq<PageView>>,
}

/// A recorded response as a value.
pub open spec fn response_view(r: Option<PageResponse>) -> Option<ResponseView> {
    match r {
        Some(x) => Some(ResponseView { status: x.status, version: x.version@, headers: x.headers@ }),
        None => None,
    }
}

/// The value of a page and, recursively, of the pages found on it.
pub open spec fn page_view(p: Page) -> PageView
    decreases p,
{
    PageView {
        link: p.link@,
        parent_uri: opt_string_view(p.parent_uri),
        response: response_view(p.page_response),
        body: p.body_of(),
        descendants: match p.descendants {
            Some(d) => Some(
                Seq::new(
                    d@.len(),
                    |i: int|
                        {
                            if 0 <= i < d@.len() {
                                proof {
                                    assert(decreases_to!(p => d@[i]));
                                }
                                page_view(d@[i])
                            } else {
                                arbitrary()
                            }
                        },
                ),
            ),
            None => None,
        },
    }
}

/// Every page of the tree has a known url.
pub open spec fn tree_known(p: PageView, known: Seq<Seq<char>>) -> bool
    decreases p,
{
    &&& known.contains(p.link.uri)
    &&& match p.descendants {
        Some(d) => forall|i: int|
            0 <= i < d.len() ==> {
                proof {
                    assert(decreases_to!(p => d[i]));
                }
                tree_known(#[trigger] d[i], known)
            },
        None => true,
    }
}

/// A tree whose urls are known stays so as more urls become known.
pub proof fn lemma_tree_known_grows(p: PageView, k0: Seq<Seq<char>>, k1: Seq<Seq<char>>)
    requires
        tree_known(p, k0),
        forall|s: Seq<char>| k0.contains(s) ==> #[trigger] k1.contains(s),
    ensures
        tree_known(p, k1),
    decreases p,
{
    match p.descendants {
        Some(d) => {
            assert forall|i: int| 0 <= i < d.len() implies tree_known(#[trigger] d[i], k1) by {
                assert(decreases_to!(p => d[i]));
                lemma_tree_known_grows(d[i], k0, k1);
            }
        },
        None => {},
    }
}

/// A known tree with a known page found on it is known.
pub proof fn lemma_tree_known_with_descendant(p: PageView, c: PageView, known: Seq<Seq<char>>)
    requires
        tree_known(p, known),
        tree_known(c, known),
    ensures
        tree_known(with_descendant(p, c), known),
{
    let q = with_descendant(p, c);
    let d = descendants_or_empty(p).push(c);
    assert forall|i: int| 0 <= i < d.len() implies tree_known(#[trigger] d[i], known) by {
        if i < d.len() - 1 {
            assert(d[i] == descendants_or_empty(p)[i]);
        }
    }
}

/// The values of pages.
pub open spec fn pages_view(s: Seq<Page>) -> Seq<PageView> {
    Seq::new(s.len(), |i: int| page_view(s[i]))
}

/// The pages found on a page, or none.
pub open spec fn descendants_or_empty(p: PageView) -> Seq<PageView> {
    match p.descendants {
        Some(d) => d,
        None => Seq::empty(),
    }
}

/// A page with one more page found on it, after those found before.
pub open spec fn with_descendant(p: PageView, c: PageView) -> PageView {
    PageView {
        link: p.link,
        parent_uri: p.parent_uri,
        response: p.response,
        body: p.body,
        descendants: Some(descendants_or_empty(p).push(c)),
    }
}

/// What the value of a page is made of.
pub proof fn lemma_page_view_parts(p: Page)
    ensures
        page_view(p).link == p.link@,
        page_view(p).parent_uri == opt_string_view(p.parent_uri),
        page_view(p).response == response_view(p.page_response),
        page_view(p).body == p.body_of(),
        page_view(p).descendants == match p.descendants {
            Some(d) => Some(pages_view(d@)),
            None => None,
        },
{
    match p.descendants {
        Some(d) => {
            assert(page_view(p).descendants->0 =~= pages_view(d@));
        },
        None => {},
    }
}

/// Pages that differ at most in their timings have the same value.
pub proof fn lemma_page_view_same(p: Page, q: Page)
    requires
        q.link == p.link,
        q.parent_uri == p.parent_uri,
        q.page_response == p.page_response,
        q.body == p.body,
        q.descendants == p.descendants,
    ensures
        page_view(q) == page_view(p),
{
    lemma_page_view_parts(p);
    lemma_page_view_parts(q);
}

/// A page whose descendants gained `c` at the end has the value of the page
/// with `c`'s value found on it.
pub proof fn lemma_page_view_pushed(p: Page, q: Page, c: Page)
    requires
        q.link == p.link,
        q.parent_uri == p.parent_uri,
        q.page_response == p.page_response,
        q.body == p.body,
        q.descendants matches Some(d) && d@ == match p.descendants {
            Some(d0) => d0@,
            None => Seq::<Page>::empty(),
        }.push(c),
    ensures
        page_view(q) == with_descendant(page_view(p), page_view(c)),
{
    lemma_page_view_parts(p);
    lemma_page_view_parts(q);
    let d = q.descendants->0@;
    let d0 = match p.descendants {
        Some(x) => x@,
        None => Seq::<Page>::empty(),
    };
    assert(pages_view(d) =~= pages_view(d0).push(page_view(c)));
    assert(descendants_or_empty(page_view(p)) =~= pages_view(d0));
}

/// The links of the pages.
pub open spec fn page_links(pages: Seq<Page>) -> Seq<LinkView> {
    pages.map_values(|p: Page| p.link@)
}

/// Parses a decimal `usize` as `str::parse` does.
pub fn parse_usize(s: &str) -> (r: Option<usize>)
    ensures
        match r {
            Some(v) => parsed_usize(s@) == Some(v as nat),
            None => parsed_usize(s@) is None,
        },
{
    let c = crate::text::chars_of(s);
    let start: usize = if c.len() > 0 && c[0] == '+' {
        1
    } else {
        0
    };
    let ghost d = if c@.len() > 0 && c@[0] == '+' {
        c@.drop_first()
    } else {
        c@
    };
    assert(d == c@.skip(start as int));
    if start >= c.len() {
        return None;
    }
    let mut value: usize = 0;
    let mut i: usize = start;
    while i < c.len()
        invariant
            start <= i <= c.len(),
            d == c@.skip(start as int),
            c@ == s@,
            d == unsigned_part(s@),
            forall|k: int| 0 <= k < i - start ==> is_digit(#[trigger] d[k]),
            value as nat == digits_value(d.take(i - start)),
        decreases c.len() - i,
    {
        let ch = c[i];
        assert(d[i - start] == ch);
        if !('0' <= ch && ch <= '9') {
            assert(!is_digit(d[i - start]));
            assert(d.len() == c@.len() - start);
            assert(!all_digits(d));
            return None;
        }
        let digit: usize = ((ch as u32) - ('0' as u32)) as usize;
        assert(d.take(i - start + 1).drop_last() == d.take(i - start));
        assert(digits_value(d.take(i - start + 1)) == digits_value(d.take(i - start)) * 10 + digit);
        if value > (usize::MAX - digit) / 10 {
            proof {
                lemma_digits_value_prefix(d, i - start + 1);
                assert(value * 10 + digit > usize::MAX) by (nonlinear_arith)
                    requires
                        value > (usize::MAX - digit) / 10,
                        digit <= 9,
                ;
            }
            return None;
        }
        assert(value * 10 + digit <= usize::MAX) by (nonlinear_arith)
            requires
                value <= (usize::MAX - digit) / 10,
                digit <= 9,
        ;
        value = value * 10 + digit;
        i = i + 1;
    }
    assert(d.take(i - start) == d);
    Some(value)
}

/// The value of a digit string is at least that of each of its prefixes.
proof fn lemma_digits_value_prefix(d: Seq<char>, n: int)
    requires
        0 <= n <= d.len(),
    ensures
        digits_value(d.take(n)) <= digits_value(d),
    decreases d.len() - n,
{
    if n < d.len() {
        lemma_digits_value_prefix(d.drop_last(), n);
        assert(d.drop_last().take(n) == d.take(n));
        assert(d == d.take(d.len() as int));
    } else {
        assert(d.take(n) == d);
    }
}

impl Page {
    /// The page's body, once read and until it is dropped.
    pub open spec fn body_of(&self) -> Option<Seq<char>> {
        match self.body {
            Some(b) => Some(b@),
            None => None,
        }
    }

    /// A page for `link` that has not been loaded and has no parent.
    pub fn new(link: Link) -> (r: Page)
        ensures
            r.link@ == link@,
            r.descendants is None,
            r.parent_uri is None,
            r.page_response is None,
            r.body_of() is None,
            r.response_timings.overall_complete_time is None,
            r.response_timings.children_compete_time is None,
    {
        Page {
            link,
            page_response: None,
            response_timings: PageTimings::new(),
            parent_uri: None,
            descendants: None,
            body: None,
        }
    }

    /// A page for `link` found on the page at `parent_uri`.
    pub fn new_with_parent(link: Link, parent_uri: String) -> (r: Page)
        ensures
            r.link@ == link@,
            r.descendants is None,
            r.parent_uri == Some(parent_uri),
            r.page_response is None,
            r.body_of() is None,
            r.response_timings.overall_complete_time is None,
            r.response_timings.children_compete_time is None,
    {
        let mut page = Page::new(link);
        page.parent_uri = Some(parent_uri);
        page
    }

    /// Records a response: its status line and headers, and its body.
    pub fn set_response(&mut self, status: u16, version: String, headers: Headers, body: String)
        ensures
            final(self).page_response is Some,
            final(self).page_response->0.status == status,
            final(self).page_response->0.version == version,
            final(self).page_response->0.headers@ == headers@,
            final(self).body_of() == Some(body@),
            final(self).link == old(self).link,
            final(self).descendants == old(self).descendants,
            final(self).parent_uri == old(self).parent_uri,
            final(self).response_timings == old(self).response_timings,
    {
        self.page_response = Some(PageResponse { status, version, headers });
        self.body = Some(body);
    }

    /// The page's body, if it has been read and not dropped.
    pub fn get_body(&self) -> (r: &Option<String>)
        ensures
            match *r {
                Some(b) => self.body_of() == Some(b@),
                None => self.body_of() is None,
            },
    {
        &self.body
    }

    /// The `content-length` header's value, where the page has a response, the
    /// header and a decimal value that fits in a `usize`.
    pub fn try_content_length(&self) -> (r: Option<usize>)
        ensures
            match r {
                Some(v) => self.page_response is Some && self.page_response->0.headers@.contains_key(
                    "content-length"@,
                ) && parsed_usize(self.page_response->0.headers@["content-length"@]) == Some(
                    v as nat,
                ),
                None => !(self.page_response is Some && self.page_response->0.headers@.contains_key(
                    "content-length"@,
                ) && parsed_usize(self.page_response->0.headers@["content-length"@]) is Some),
            },
    {
        match &self.page_response {
            Some(response) => match response.headers.get("content-length") {
                Some(value) => parse_usize(value.as_str()),
                None => None,
            },
            None => None,
        }
    }

    /// The `content-length` header's value.
    pub fn get_content_length(&self) -> (r: usize)
        requires
            self.page_response is Some,
            self.page_response->0.headers@.contains_key("content-length"@),
            parsed_usize(self.page_response->0.headers@["content-length"@]) is Some,
        ensures
            parsed_usize(self.page_response->0.headers@["content-length"@]) == Some(r as nat),
    {
        match self.try_content_length() {
            Some(v) => v,
            None => {
                assert(false);
                0
            },
        }
    }

    /// The `content-type` header's value, where the page has a response with one.
    pub fn get_content_type(&self) -> (r: Option<String>)
        ensures
            match r {
                Some(v) => self.page_response is Some && self.page_response->0.headers@.contains_key(
                    "content-type"@,
                ) && v@ == self.page_response->0.headers@["content-type"@],
                None => !(self.page_response is Some && self.page_response->0.headers@.contains_key(
                    "content-type"@,
                )),
            },
    {
        match &self.page_response {
            Some(response) => response.headers.get("content-type"),
            None => None,
        }
    }

    /// The response's status, where the page has a response.
    pub fn get_status_code(&self) -> (r: Option<u16>)
        ensures
            match self.page_response {
                Some(p) => r == Some(p.status),
                None => r is None,
            },
    {
        match &self.page_response {
            Some(response) => Some(response.status),
            None => None,
        }
    }

    /// The links of the pages found on this page, in order.
    pub fn get_links(&self) -> (r: Vec<Link>)
        ensures
            match self.descendants {
                Some(pages) => links_view(r@) == page_links(pages@),
                None => r@.len() == 0,
            },
    {
        match &self.descendants {
            Some(pages) => {
                let mut out: Vec<Link> = Vec::new();
                let mut i: usize = 0;
                while i < pages.len()
                    invariant
                        i <= pages.len(),
                        links_view(out@) == page_links(pages@.take(i as int)),
                    decreases pages.len() - i,
                {
                    let ghost before = links_view(out@);
                    out.push(pages[i].link.duplicate());
                    assert(pages@.take(i + 1) == pages@.take(i as int).push(pages@[i as int]));
                    assert(links_view(out@) == before.push(pages@[i as int].link@));
                    assert(page_links(pages@.take(i + 1)) == page_links(pages@.take(i as int)).push(
                        pages@[i as int].link@,
                    ));
                    i = i + 1;
                }
                assert(pages@.take(i as int) == pages@);
                out
            },
            None => Vec::new(),
        }
    }

    /// The scheme of the page's url.
    pub fn get_protocol(&self) -> (r: String)
        requires
            parsed_uri(self.link.uri@) is Some,
            parsed_uri(self.link.uri@)->0.scheme is Some,
        ensures
            r@ == parsed_uri(self.link.uri@)->0.scheme->0,
    {
        match parse_uri(self.link.uri.as_str()) {
            Some(p) => match p.scheme {
                Some(s) => s,
                None => {
                    assert(false);
                    String::new()
                },
            },
            None => {
                assert(false);
                String::new()
            },
        }
    }

    /// The page's url as `hyper` normalises it.
    pub fn get_uri(&self) -> (r: String)
        requires
            parsed_uri(self.link.uri@) is Some,
        ensures
            r@ == parsed_uri(self.link.uri@)->0.text,
    {
        match parse_uri(self.link.uri.as_str()) {
            Some(p) => p.text,
            None => {
                assert(false);
                String::new()
            },
        }
    }

    /// The scheme of the page's url, or `None` where the url does not parse or
    /// has no scheme.
    pub fn try_get_protocol(&self) -> (r: Option<String>)
        ensures
            r is Some <==> (parsed_uri(self.link.uri@) is Some && parsed_uri(self.link.uri@)->0.scheme is Some),
            r is Some ==> r->0@ == parsed_uri(self.link.uri@)->0.scheme->0,
    {
        match parse_uri(self.link.uri.as_str()) {
            Some(p) => if p.scheme.is_some() {
                Some(self.get_protocol())
            } else {
                None
            },
            None => None,
        }
    }

    /// The page's url as `hyper` normalises it, or `None` where it does not parse.
    pub fn try_get_uri(&self) -> (r: Option<String>)
        ensures
            r is Some <==> parsed_uri(self.link.uri@) is Some,
            r is Some ==> r->0@ == parsed_uri(self.link.uri@)->0.text,
    {
        if parse_uri(self.link.uri.as_str()).is_some() {
            Some(self.get_uri())
        } else {
            None
        }
    }

    /// Drops the body that was read.
    pub fn reset_body(&mut self)
        requires
            old(self).body_of() is Some,
        ensures
            final(self).body_of() is None,
            final(self).link == old(self).link,
            final(self).descendants == old(self).descendants,
            final(self).parent_uri == old(self).parent_uri,
            final(self).page_response == old(self).page_response,
            final(self).response_timings == old(self).response_timings,
    {
        self.body = None;
    }
}

} // verus!
