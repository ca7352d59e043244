//! The site crawl as a machine: it says which request to make next and takes
//! in what the request gave, building the tree of pages depth first.
use std::sync::Arc;

use vstd::prelude::*;

use crate::dom_parser::DomParserService;
use crate::link_type_checker::LinkTypeChecker;
use crate::page_loader::task_context::strings_view;
use crate::responses::headers::Headers;
use crate::responses::link::Link;
use crate::responses::response_timings::utc_now_micros;
use crate::site_crawler::fetch::head_request_target;
use crate::site_crawler::fetch::head_request_url;
use crate::site_crawler::fetch::head_verdict;
use crate::site_crawler::fetch::page_verdict;
use crate::site_crawler::fetch::site_full_url;
use crate::site_crawler::fetch::site_url;
use crate::site_crawler::fetch::HeadVerdict;
use crate::site_crawler::fetch::head_verdict_of;
use crate::site_crawler::fetch::is_html_download;
use crate::site_crawler::same_domain_links;
use crate::site_crawler::unknown_to;
use crate::dom_parser::html_elements;
use crate::dom_parser::links_of_elements;
use crate::dom_parser::links_view;
use crate::dom_parser::sort_by_uri;
use crate::link_type_checker::uri_protocol_of;
use crate::link_type_checker::protocol_name;
use crate::responses::link::LinkView;
use crate::text::trim;
use crate::uri_parse::parsed_uri;
use crate::text::chars_of;
use crate::site_crawler::filter_links_to_visit;
use crate::site_crawler::get_same_domain_links;
use crate::page_loader::page_crawl_command::contains_string;
use crate::site_crawler::page::page_links;
use crate::site_crawler::page::Page;
use crate::site_crawler::page::PageTimings;
use crate::site_crawler::page::PageView;
use crate::site_crawler::page::ResponseView;
use crate::site_crawler::page::page_view;
use crate::site_crawler::page::pages_view;
use crate::site_crawler::page::with_descendant;
use crate::site_crawler::page::tree_known;
use crate::site_crawler::page::lemma_tree_known_grows;
use crate::site_crawler::page::lemma_tree_known_with_descendant;
use crate::site_crawler::page::lemma_page_view_parts;
use crate::site_crawler::page::lemma_page_view_same;
use crate::site_crawler::page::lemma_page_view_pushed;
use crate::site_crawler::RunConfig;
use crate::uri_parse::parse_uri;
use crate::uri_service::opt_string_view;

verus! {

/// A page to crawl and where it is crawled from.
pub struct LoadPageArguments {
    pub page: Page,
    pub protocol: String,
    pub host: String,
    pub same_domain_only: bool,
    pub depth: u8,
}

/// A page being crawled: its arguments, the links found on it that are to be
/// crawled, and how many of them have been started.
pub struct CrawlFrame {
    pub args: LoadPageArguments,
    pub pending: Vec<Link>,
    pub next: usize,
}

/// What the crawl waits for.
pub enum Waiting {
    /// Whether robots.txt allows loading this url.
    Robots { url: String },
    /// The responses for the page at this url.
    Page { url: String },
    /// Nothing: the crawl is finished.
    Done,
}

/// What the caller is to do next.
pub enum CrawlAction {
    /// Ask robots.txt whether `user_agent` may load `url`, and report `RobotsChecked`.
    CheckRobots { user_agent: String, url: String },
    /// Load the page: send HEAD to `url` following redirects (see `fetch_head_step`),
    /// then, where `head_verdict` says so, GET the final url; report `PageFetched`.
    FetchPage { url: String, ignore_redirects: bool, maximum_redirects: u8, parent_uri: Option<String> },
    /// The crawl is over; this is the tree of pages.
    Finished { page: Page },
}

/// A response as the caller received it.
pub struct FetchedResponse {
    pub status: u16,
    pub version: String,
    /// Header names in lower case.
    pub headers: Headers,
    pub body: String,
}

/// What the caller reports.
pub enum CrawlEvent {
    RobotsChecked { allowed: bool },
    /// The HEAD response (after redirects) and, where the page was to be
    /// downloaded, the GET response or `None` when that request failed; with
    /// the times of the requests.
    PageFetched { timings: PageTimings, head: FetchedResponse, get: Option<FetchedResponse> },
}

/// Why a crawl stops without a result.
#[derive(PartialEq, Eq, Structural, Clone, Copy, Debug)]
pub enum CrawlError {
    /// The start url does not parse or has no host.
    InvalidStartUrl,
    /// The start url's protocol is not known.
    UnknownProtocol,
    /// A page's url forms no full url.
    InvalidPageUrl,
    /// The event does not answer what the crawl waits for.
    UnexpectedEvent,
}

/// The url a page is loaded from: its link's full url on the crawled host.
pub open spec fn item_url(args: LoadPageArguments) -> Option<Seq<char>> {
    site_url(args.protocol@, args.page.link.uri@, args.host@, opt_string_view(args.page.parent_uri))
}

/// A frame is consistent: no more links started than found, and a page with
/// links to crawl has a list of descendants.
pub open spec fn frame_wf(f: CrawlFrame) -> bool {
    &&& f.next <= f.pending@.len()
    &&& f.pending@.len() > 0 ==> f.args.page.descendants is Some
}

/// The pages found on a frame's page so far are the pages of its first links,
/// in order: as many as were started, less the one still in progress where
/// `in_progress`; a page without descendants has no links to crawl.
pub open spec fn children_match(f: CrawlFrame, in_progress: bool) -> bool {
    match f.args.page.descendants {
        Some(d) => {
            let done = if in_progress {
                f.next - 1
            } else {
                f.next as int
            };
            &&& d@.len() == done
            &&& page_links(d@) == links_view(f.pending@).take(done)
        },
        None => f.pending@.len() == 0,
    }
}

/// The invariant on the frames of a crawl: they are consistent, the i-th is
/// at depth i + 1 within the maximum depth, every frame but the current one is
/// crawling the links of its page (and has started one of them, whose page is
/// the frame above it), the crawl waits for nothing exactly when no page is
/// being crawled, and every page being crawled is known.
#[verifier::opaque]
pub open spec fn frames_ok(frames: Seq<CrawlFrame>, maximum_depth: u8, done: bool, known: Seq<Seq<char>>) -> bool {
    &&& forall|i: int| 0 <= i < frames.len() ==> frame_wf(#[trigger] frames[i])
    &&& forall|i: int| 0 <= i < frames.len() ==> (#[trigger] frames[i]).args.depth == i + 1
    &&& forall|i: int| 0 <= i < frames.len() ==> (#[trigger] frames[i]).args.depth <= maximum_depth
    &&& forall|i: int|
        0 <= i < frames.len() - 1 ==> (#[trigger] frames[i]).pending@.len() > 0 && frames[i].next >= 1
    &&& forall|i: int|
        1 <= i < frames.len() ==> (#[trigger] frames[i]).args.page.link@ == frames[i
            - 1].pending@[frames[i - 1].next - 1]@
    &&& (done <==> frames.len() == 0)
    &&& forall|i: int| 0 <= i < frames.len() ==> known.contains((#[trigger] frames[i]).args.page.link.uri@)
}

/// Every frame's page has as descendants the pages of its first links, in
/// order; a frame below the current one (or the current one, where
/// `current_in_progress`) has one more link started whose page is not done.
#[verifier::opaque]
pub open spec fn children_ok(frames: Seq<CrawlFrame>, current_in_progress: bool) -> bool {
    forall|i: int|
        0 <= i < frames.len() ==> children_match(
            #[trigger] frames[i],
            i < frames.len() - 1 || current_in_progress,
        )
}

/// The urls of the crawl's pages are known: every page of every frame's tree,
/// and every link a frame is to crawl.
#[verifier::opaque]
pub open spec fn frames_known(frames: Seq<CrawlFrame>, known: Seq<Seq<char>>) -> bool {
    &&& forall|i: int| 0 <= i < frames.len() ==> tree_known(page_view((#[trigger] frames[i]).args.page), known)
    &&& forall|i: int, k: int|
        0 <= i < frames.len() && 0 <= k < frames[i].pending@.len() ==> known.contains(
            (#[trigger] frames[i].pending@[k]).uri@,
        )
}

/// What `frames_known` says of one frame.
pub open spec fn frame_known(f: CrawlFrame, known: Seq<Seq<char>>) -> bool {
    &&& tree_known(page_view(f.args.page), known)
    &&& forall|k: int| 0 <= k < f.pending@.len() ==> known.contains((#[trigger] f.pending@[k]).uri@)
}

/// Frames whose urls are known, each as `frame_known` says.
proof fn lemma_frames_known_each(frames: Seq<CrawlFrame>, known: Seq<Seq<char>>)
    ensures
        frames_known(frames, known) <==> forall|i: int| 0 <= i < frames.len() ==> frame_known(#[trigger] frames[i], known),
{
    reveal(frames_known);
    if forall|i: int| 0 <= i < frames.len() ==> frame_known(#[trigger] frames[i], known) {
        assert forall|i: int, k: int|
            0 <= i < frames.len() && 0 <= k < frames[i].pending@.len() implies known.contains(
            (#[trigger] frames[i].pending@[k]).uri@,
        ) by {
            assert(frame_known(frames[i], known));
        }
    }
    if frames_known(frames, known) {
        assert forall|i: int| 0 <= i < frames.len() implies frame_known(#[trigger] frames[i], known) by {
            assert forall|k: int| 0 <= k < frames[i].pending@.len() implies known.contains(
                (#[trigger] frames[i].pending@[k]).uri@,
            ) by {}
        }
    }
}

/// A known frame stays known as more urls become known.
proof fn lemma_frame_known_grows(f: CrawlFrame, k0: Seq<Seq<char>>, k1: Seq<Seq<char>>)
    requires
        frame_known(f, k0),
        known_grows(k0, k1),
    ensures
        frame_known(f, k1),
{
    lemma_tree_known_grows(page_view(f.args.page), k0, k1);
    assert forall|k: int| 0 <= k < f.pending@.len() implies k1.contains((#[trigger] f.pending@[k]).uri@) by {
        assert(k0.contains(f.pending@[k].uri@));
    }
}

/// Known frames with the current one replaced by (or followed by) a known frame
/// are known, also once more urls are known.
proof fn lemma_frames_known_change(
    f0: Seq<CrawlFrame>,
    keep: int,
    t: CrawlFrame,
    k0: Seq<Seq<char>>,
    k1: Seq<Seq<char>>,
)
    requires
        frames_known(f0, k0),
        0 <= keep <= f0.len(),
        known_grows(k0, k1),
        frame_known(t, k1),
    ensures
        frames_known(f0.take(keep).push(t), k1),
        frames_known(f0.take(keep), k1),
{
    lemma_frames_known_each(f0, k0);
    let f1 = f0.take(keep).push(t);
    assert forall|i: int| 0 <= i < f1.len() implies frame_known(#[trigger] f1[i], k1) by {
        if i < keep {
            assert(f1[i] == f0[i]);
            assert(frame_known(f0[i], k0));
            lemma_frame_known_grows(f0[i], k0, k1);
        }
    }
    lemma_frames_known_each(f1, k1);
    let f2 = f0.take(keep);
    assert forall|i: int| 0 <= i < f2.len() implies frame_known(#[trigger] f2[i], k1) by {
        assert(f2[i] == f0[i]);
        assert(frame_known(f0[i], k0));
        lemma_frame_known_grows(f0[i], k0, k1);
    }
    lemma_frames_known_each(f2, k1);
}

/// What `frames_known` says of the current frame and the one below it.
proof fn lemma_frames_known_top(frames: Seq<CrawlFrame>, known: Seq<Seq<char>>)
    requires
        frames_known(frames, known),
    ensures
        frames.len() > 0 ==> frame_known(frames.last(), known),
        frames.len() >= 2 ==> frame_known(frames[frames.len() - 2], known),
        frames_known(Seq::empty(), known),
{
    lemma_frames_known_each(frames, known);
    lemma_frames_known_each(Seq::empty(), known);
    if frames.len() > 0 {
        assert(frame_known(frames[frames.len() - 1], known));
    }
}

/// Replacing the current frame by one for the same page at the same depth
/// keeps the invariant on the frames.
proof fn lemma_frames_ok_replace_top(
    f0: Seq<CrawlFrame>,
    t: CrawlFrame,
    maximum_depth: u8,
    known0: Seq<Seq<char>>,
    known1: Seq<Seq<char>>,
)
    requires
        frames_ok(f0, maximum_depth, false, known0),
        f0.len() > 0,
        t.args.depth == f0.last().args.depth,
        t.args.page.link == f0.last().args.page.link,
        frame_wf(t),
        known_grows(known0, known1),
    ensures
        frames_ok(f0.drop_last().push(t), maximum_depth, false, known1),
{
    reveal(frames_ok);
    let f1 = f0.drop_last().push(t);
    assert forall|i: int| 0 <= i < f1.len() implies (#[trigger] f1[i]).args.depth == f0[i].args.depth
        && f1[i].args.page.link == f0[i].args.page.link by {}
    assert forall|i: int| 0 <= i < f1.len() implies known1.contains((#[trigger] f1[i]).args.page.link.uri@) by {
        assert(known0.contains(f0[i].args.page.link.uri@));
    }
    assert forall|i: int| 0 <= i < f1.len() implies frame_wf(#[trigger] f1[i]) by {
        if i < f1.len() - 1 {
            assert(f1[i] == f0[i]);
        }
    }
    assert forall|i: int| 0 <= i < f1.len() - 1 implies (#[trigger] f1[i]).pending@.len() > 0 && f1[i].next
        >= 1 by {
        assert(f1[i] == f0[i]);
    }
    assert forall|i: int| 1 <= i < f1.len() implies (#[trigger] f1[i]).args.page.link@ == f1[i
        - 1].pending@[f1[i - 1].next - 1]@ by {
        assert(f1[i - 1] == f0[i - 1]);
    }
}

/// Dropping the current frame leaves the invariant on the frames below it.
proof fn lemma_frames_ok_drop_top(f0: Seq<CrawlFrame>, maximum_depth: u8, known: Seq<Seq<char>>)
    requires
        frames_ok(f0, maximum_depth, false, known),
        f0.len() >= 2,
    ensures
        frames_ok(f0.drop_last(), maximum_depth, false, known),
{
    reveal(frames_ok);
    let f1 = f0.drop_last();
    assert forall|i: int| 0 <= i < f1.len() implies #[trigger] f1[i] == f0[i] by {}
}

/// Replacing the current frame keeps the descendants of the frames below it.
proof fn lemma_children_ok_replace_top(f0: Seq<CrawlFrame>, t: CrawlFrame, in0: bool, in1: bool)
    requires
        children_ok(f0, in0),
        f0.len() > 0,
        children_match(t, in1),
    ensures
        children_ok(f0.drop_last().push(t), in1),
{
    reveal(children_ok);
    let f1 = f0.drop_last().push(t);
    assert forall|i: int| 0 <= i < f1.len() implies children_match(
        #[trigger] f1[i],
        i < f1.len() - 1 || in1,
    ) by {
        if i < f1.len() - 1 {
            assert(f1[i] == f0[i]);
        }
    }
}

/// Dropping the current frame leaves the frame below it with one link in progress.
proof fn lemma_children_ok_drop_top(f0: Seq<CrawlFrame>, in0: bool)
    requires
        children_ok(f0, in0),
        f0.len() >= 2,
    ensures
        children_ok(f0.drop_last(), true),
{
    reveal(children_ok);
    let f1 = f0.drop_last();
    assert forall|i: int| 0 <= i < f1.len() implies children_match(#[trigger] f1[i], true) by {
        assert(f1[i] == f0[i]);
    }
}

/// What the invariant on the frames says of the current frame and the one below it.
proof fn lemma_frames_ok_top(frames: Seq<CrawlFrame>, maximum_depth: u8, done: bool, known: Seq<Seq<char>>)
    requires
        frames_ok(frames, maximum_depth, done, known),
    ensures
        done <==> frames.len() == 0,
        frames.len() > 0 ==> frame_wf(frames.last()),
        frames.len() > 0 ==> frames.last().args.depth == frames.len(),
        frames.len() > 0 ==> frames.last().args.depth <= maximum_depth,
        frames.len() > 0 ==> known.contains(frames.last().args.page.link.uri@),
        frames.len() >= 2 ==> frames[frames.len() - 2].pending@.len() > 0 && frames[frames.len()
            - 2].next >= 1 && frame_wf(frames[frames.len() - 2]),
        frames.len() >= 2 ==> frames.last().args.page.link@ == frames[frames.len()
            - 2].pending@[frames[frames.len() - 2].next - 1]@,
{
    reveal(frames_ok);
    if frames.len() > 0 {
        assert(frame_wf(frames[frames.len() - 1]));
        assert(frames[frames.len() - 1].args.depth == frames.len());
        assert(known.contains(frames[frames.len() - 1].args.page.link.uri@));
    }
    if frames.len() >= 2 {
        assert(frame_wf(frames[frames.len() - 2]));
        assert(frames[frames.len() - 1].args.page.link@ == frames[frames.len()
            - 2].pending@[frames[frames.len() - 2].next - 1]@);
    }
}

/// What the invariant on the descendants says of the current frame.
proof fn lemma_children_ok_top(frames: Seq<CrawlFrame>, current_in_progress: bool)
    requires
        children_ok(frames, current_in_progress),
        frames.len() > 0,
    ensures
        children_match(frames.last(), current_in_progress),
        frames.len() >= 2 ==> children_match(frames[frames.len() - 2], true),
{
    reveal(children_ok);
    assert(children_match(frames[frames.len() - 1], current_in_progress));
    if frames.len() >= 2 {
        assert(children_match(frames[frames.len() - 2], true));
    }
}

/// A crawl that has pages in progress can have one more: the invariants hold
/// with the new frame on top.
proof fn lemma_frames_ok_push(
    f0: Seq<CrawlFrame>,
    t: CrawlFrame,
    maximum_depth: u8,
    known0: Seq<Seq<char>>,
    known1: Seq<Seq<char>>,
)
    requires
        frames_ok(f0, maximum_depth, f0.len() == 0, known0),
        children_ok(f0, true),
        f0.len() > 0 ==> f0.last().pending@.len() > 0 && f0.last().next >= 1,
        f0.len() > 0 ==> t.args.page.link@ == f0.last().pending@[f0.last().next - 1]@,
        t.args.depth == f0.len() + 1,
        t.args.depth <= maximum_depth,
        frame_wf(t),
        children_match(t, false),
        known_grows(known0, known1),
        known1.contains(t.args.page.link.uri@),
    ensures
        frames_ok(f0.push(t), maximum_depth, false, known1),
        children_ok(f0.push(t), false),
{
    reveal(frames_ok);
    reveal(children_ok);
    let f1 = f0.push(t);
    assert forall|i: int| 0 <= i < f1.len() implies known1.contains((#[trigger] f1[i]).args.page.link.uri@) by {
        if i < f0.len() {
            assert(known0.contains(f0[i].args.page.link.uri@));
        }
    }
    assert forall|i: int| 0 <= i < f1.len() implies children_match(
        #[trigger] f1[i],
        i < f1.len() - 1 || false,
    ) by {
        if i < f0.len() {
            assert(f1[i] == f0[i]);
            assert(children_match(f0[i], true));
        }
    }
    assert forall|i: int| 0 <= i < f1.len() - 1 implies (#[trigger] f1[i]).pending@.len() > 0 && f1[i].next
        >= 1 by {
        assert(f1[i] == f0[i]);
    }
}

/// A crawl without pages in progress satisfies the invariants.
proof fn lemma_no_frames_ok(maximum_depth: u8, known: Seq<Seq<char>>)
    ensures
        frames_ok(Seq::empty(), maximum_depth, true, known),
        children_ok(Seq::empty(), false),
        children_ok(Seq::empty(), true),
{
    reveal(frames_ok);
    reveal(children_ok);
}

/// The work left in the frames: one for each frame and each link not started.
pub open spec fn work_left(frames: Seq<CrawlFrame>) -> nat
    decreases frames.len(),
{
    if frames.len() == 0 {
        0
    } else {
        work_left(frames.drop_last()) + (frames.last().pending@.len() - frames.last().next) as nat + 1
    }
}

/// Every url known before is known after.
pub open spec fn known_grows(before: Seq<Seq<char>>, after: Seq<Seq<char>>) -> bool {
    forall|s: Seq<char>| before.contains(s) ==> #[trigger] after.contains(s)
}

/// The value of header `name`, if set.
pub open spec fn header_value(headers: Map<Seq<char>, Seq<char>>, name: Seq<char>) -> Option<Seq<char>> {
    if headers.contains_key(name) {
        Some(headers[name])
    } else {
        None
    }
}

/// The body of a page that loaded as HTML: the HEAD response called for a
/// download, the GET request answered, and its content type contains `text/html`.
pub open spec fn loaded_body(head: FetchedResponse, get: Option<FetchedResponse>) -> Option<Seq<char>> {
    match head_verdict_of(head.status, header_value(head.headers@, "content-type"@)) {
        HeadVerdict::Download => match get {
            Some(g) => if is_html_download(header_value(g.headers@, "content-type"@)) {
                Some(g.body@)
            } else {
                None
            },
            None => None,
        },
        _ => None,
    }
}

/// The links found in `body`, a page of `host` reached by `protocol`: sorted by
/// uri, and, where only the same domain is crawled, reduced to the site's links.
pub open spec fn found_links(protocol: Seq<char>, host: Seq<char>, body: Seq<char>, same_domain_only: bool) -> Seq<
    LinkView,
> {
    let all = sort_by_uri(links_of_elements(host, protocol, host, html_elements(body)));
    if same_domain_only {
        same_domain_links(host, all)
    } else {
        all
    }
}

/// The links to crawl from a fetched page: those found in its HTML body that
/// are not known; none where it did not load as HTML or its body is empty.
pub open spec fn links_to_visit(
    protocol: Seq<char>,
    host: Seq<char>,
    same_domain_only: bool,
    known: Seq<Seq<char>>,
    head: FetchedResponse,
    get: Option<FetchedResponse>,
) -> Seq<LinkView> {
    match loaded_body(head, get) {
        Some(b) => if b.len() == 0 {
            Seq::empty()
        } else {
            found_links(protocol, host, b, same_domain_only).filter(unknown_to(known))
        },
        None => Seq::empty(),
    }
}

/// A page's crawl arguments as values.
pub struct ArgsView {
    pub page: PageView,
    pub protocol: Seq<char>,
    pub host: Seq<char>,
    pub same_domain_only: bool,
    pub depth: u8,
}

/// A frame as values: the page's arguments, the links to crawl from it and how
/// many of them have been started.
pub struct FrameView {
    pub args: ArgsView,
    pub pending: Seq<LinkView>,
    pub next: int,
}

/// The value of a page's crawl arguments.
pub open spec fn args_view(a: LoadPageArguments) -> ArgsView {
    ArgsView {
        page: page_view(a.page),
        protocol: a.protocol@,
        host: a.host@,
        same_domain_only: a.same_domain_only,
        depth: a.depth,
    }
}

/// The value of a frame.
pub open spec fn frame_view(f: CrawlFrame) -> FrameView {
    FrameView { args: args_view(f.args), pending: links_view(f.pending@), next: f.next as int }
}

/// The values of frames.
pub open spec fn frames_view(fs: Seq<CrawlFrame>) -> Seq<FrameView> {
    fs.map_values(|f: CrawlFrame| frame_view(f))
}

/// The url a page is loaded from (see `item_url`).
pub open spec fn item_url_of(a: ArgsView) -> Option<Seq<char>> {
    site_url(a.protocol, a.page.link.uri, a.host, a.page.parent_uri)
}

/// Starting the crawl of a page fails: its url forms no full url or, where
/// robots.txt is not asked first, the url of its HEAD request cannot be formed.
pub open spec fn begin_fails(a: ArgsView, ignore_robots_txt: bool) -> bool {
    match item_url_of(a) {
        None => true,
        Some(u) => ignore_robots_txt && head_request_url(a.protocol, u, a.host, a.page.parent_uri) is None,
    }
}

/// A page for `link` found on the page at `parent`, not loaded.
pub open spec fn unvisited_page(link: LinkView, parent: Seq<char>) -> PageView {
    PageView { link, parent_uri: Some(parent), response: None, body: None, descendants: None }
}

/// A frame whose page is `page`.
pub open spec fn with_page(f: FrameView, page: PageView) -> FrameView {
    FrameView {
        args: ArgsView {
            page,
            protocol: f.args.protocol,
            host: f.args.host,
            same_domain_only: f.args.same_domain_only,
            depth: f.args.depth,
        },
        pending: f.pending,
        next: f.next,
    }
}

/// A frame whose page's links to crawl are `links`, none started: a page with
/// links to crawl gets an empty list of descendants.
pub open spec fn with_links(f: FrameView, links: Seq<LinkView>) -> FrameView {
    let page = if links.len() > 0 {
        PageView {
            link: f.args.page.link,
            parent_uri: f.args.page.parent_uri,
            response: f.args.page.response,
            body: f.args.page.body,
            descendants: Some(Seq::empty()),
        }
    } else {
        f.args.page
    };
    FrameView { args: with_page(f, page).args, pending: links, next: 0 }
}

/// The work left in frames: one for each frame and each link not started.
pub open spec fn remaining(fs: Seq<FrameView>) -> nat
    decreases fs.len(),
{
    if fs.len() == 0 {
        0
    } else {
        remaining(fs.drop_last()) + (if 0 <= fs.last().next < fs.last().pending.len() {
            (fs.last().pending.len() - fs.last().next) as nat
        } else {
            0
        }) + 1
    }
}

/// Where the crawl goes next from its frames.
pub enum Settled {
    /// The page of `args` is started, with `frames` below it.
    Begin { frames: Seq<FrameView>, args: ArgsView },
    /// The crawl is over with this tree of pages.
    Finished { page: PageView },
    /// There is no page to go on from.
    Empty,
}

/// How the crawl goes on from its frames: the current page's next link is
/// taken; beyond the maximum depth its page joins the descendants unvisited,
/// otherwise that page is started one level deeper. A page whose links are all
/// done is complete: it joins the descendants of the page it was found on, and
/// the complete start page ends the crawl.
pub open spec fn settle(fs: Seq<FrameView>, maximum_depth: u8) -> Settled
    decreases remaining(fs),
{
    if fs.len() == 0 {
        Settled::Empty
    } else {
        let top = fs.last();
        let rest = fs.drop_last();
        if 0 <= top.next < top.pending.len() {
            let child = unvisited_page(top.pending[top.next], top.args.page.link.uri);
            let started = FrameView { args: top.args, pending: top.pending, next: top.next + 1 };
            if top.args.depth >= maximum_depth {
                let leafed = with_page(started, with_descendant(top.args.page, child));
                proof {
                    assert(rest.push(leafed).drop_last() =~= rest);
                }
                settle(rest.push(leafed), maximum_depth)
            } else {
                Settled::Begin {
                    frames: rest.push(started),
                    args: ArgsView {
                        page: child,
                        protocol: top.args.protocol,
                        host: top.args.host,
                        same_domain_only: top.args.same_domain_only,
                        depth: (top.args.depth + 1) as u8,
                    },
                }
            }
        } else if fs.len() == 1 {
            Settled::Finished { page: top.args.page }
        } else {
            let parent = rest.last();
            let joined = with_page(parent, with_descendant(parent.args.page, top.args.page));
            proof {
                let shorter = rest.drop_last().push(joined);
                assert(shorter.drop_last() =~= rest.drop_last());
                assert(shorter.last() == joined);
                assert(remaining(shorter) == remaining(rest.drop_last()) + (if 0 <= parent.next
                    < parent.pending.len() {
                    (parent.pending.len() - parent.next) as nat
                } else {
                    0
                }) + 1);
                assert(remaining(rest) == remaining(rest.drop_last()) + (if 0 <= parent.next
                    < parent.pending.len() {
                    (parent.pending.len() - parent.next) as nat
                } else {
                    0
                }) + 1);
            }
            settle(rest.drop_last().push(joined), maximum_depth)
        }
    }
}

/// The crawl `crawl` and the result `r` are where `s` says the crawl goes: the
/// finished tree of pages, or the started page with the frames below it, and
/// `InvalidPageUrl` exactly where starting that page fails.
pub open spec fn ends_as(crawl: SiteCrawl, r: Result<CrawlAction, CrawlError>, s: Settled) -> bool {
    match s {
        Settled::Finished { page } => {
            &&& r matches Ok(CrawlAction::Finished { page: p }) && page_view(p) == page
            &&& crawl.frames@.len() == 0
        },
        Settled::Begin { frames, args } => {
            &&& crawl.frames@.len() > 0
            &&& frames_view(crawl.frames@.drop_last()) == frames
            &&& args_view(crawl.frames@.last().args) == args
            &&& (r matches Err(CrawlError::InvalidPageUrl) <==> begin_fails(args, crawl.run_config.ignore_robots_txt))
        },
        Settled::Empty => false,
    }
}

/// The response as recorded on a page.
pub open spec fn fetched_view(f: FetchedResponse) -> ResponseView {
    ResponseView { status: f.status, version: f.version@, headers: f.headers@ }
}

/// A page with `response` and `body` recorded.
pub open spec fn with_response(p: PageView, response: ResponseView, body: Option<Seq<char>>) -> PageView {
    PageView {
        link: p.link,
        parent_uri: p.parent_uri,
        response: Some(response),
        body,
        descendants: p.descendants,
    }
}

/// A page after its fetch: a failed HEAD status records the HEAD response; a
/// download records the GET response, whose body is dropped once its links
/// are read (an HTML page with a body) unless HTML is kept; otherwise the page
/// is as it was.
pub open spec fn recorded(p: PageView, head: FetchedResponse, get: Option<FetchedResponse>, keep_html: bool) -> PageView {
    match head_verdict_of(head.status, header_value(head.headers@, "content-type"@)) {
        HeadVerdict::Failed => with_response(p, fetched_view(head), Some(head.body@)),
        HeadVerdict::NotHtml => p,
        HeadVerdict::Download => match get {
            Some(g) => if is_html_download(header_value(g.headers@, "content-type"@)) && g.body@.len() > 0
                && !keep_html {
                with_response(p, fetched_view(g), None)
            } else {
                with_response(p, fetched_view(g), Some(g.body@))
            },
            None => p,
        },
    }
}

/// The start page of a crawl of `run_config.url`: the trimmed url, not loaded,
/// at depth 1 on the url's host, by its protocol, keeping to its domain.
pub open spec fn start_args(run_config: RunConfig) -> ArgsView {
    ArgsView {
        page: PageView {
            link: LinkView { uri: trim(run_config.url@), scope: None, protocol: None, source_tag: None },
            parent_uri: None,
            response: None,
            body: None,
            descendants: None,
        },
        protocol: protocol_name(uri_protocol_of(""@, run_config.url@)->0),
        host: parsed_uri(trim(run_config.url@))->0.host->0,
        same_domain_only: true,
        depth: 1,
    }
}

/// The state of a site crawl.
pub struct SiteCrawl {
    pub run_config: RunConfig,
    /// The urls of the pages crawled or about to be crawled.
    pub known: Vec<String>,
    /// The pages being crawled, from the start page down to the current one.
    pub frames: Vec<CrawlFrame>,
    pub waiting: Waiting,
}

/// Adds `s` to the known urls unless it is there.
fn insert_known(known: &mut Vec<String>, s: String)
    ensures
        strings_view(final(known)@) == if strings_view(old(known)@).contains(s@) {
            strings_view(old(known)@)
        } else {
            strings_view(old(known)@).push(s@)
        },
        known_grows(strings_view(old(known)@), strings_view(final(known)@)),
        strings_view(final(known)@).contains(s@),
{
    if !contains_string(known, &s) {
        let ghost before = strings_view(known@);
        let ghost x = s@;
        known.push(s);
        assert(strings_view(known@) == before.push(x));
        assert forall|t: Seq<char>| before.contains(t) implies #[trigger] before.push(x).contains(t) by {
            let j = choose|j: int| 0 <= j < before.len() && before[j] == t;
            assert(before.push(x)[j] == t);
        }
        assert(before.push(x)[before.len() as int] == x);
    }
}

impl SiteCrawl {
    /// The crawl's invariant on its frames (see `frames_ok`).
    pub open spec fn frames_wf(&self) -> bool {
        frames_ok(
            self.frames@,
            self.run_config.maximum_depth,
            self.waiting is Done,
            strings_view(self.known@),
        )
    }

    /// The descendants of the frames' pages so far (see `children_ok`).
    pub open spec fn children_wf(&self, current_in_progress: bool) -> bool {
        children_ok(self.frames@, current_in_progress)
    }

    /// The crawl's invariant.
    pub open spec fn well_formed(&self) -> bool {
        self.frames_wf() && self.children_wf(false) && frames_known(self.frames@, strings_view(self.known@))
    }

    /// What the crawl waits for belongs to the current page: a page whose
    /// links are not yet known, loaded from its full url.
    pub open spec fn waits_consistently(&self) -> bool {
        match self.waiting {
            Waiting::Robots { url } => {
                &&& self.frames@.len() > 0
                &&& item_url(self.frames@.last().args) == Some(url@)
                &&& self.frames@.last().pending@.len() == 0
                &&& self.frames@.last().next == 0
                &&& self.frames@.last().args.page.descendants is None
            },
            Waiting::Page { url } => {
                &&& self.frames@.len() > 0
                &&& item_url(self.frames@.last().args) == Some(url@)
                &&& self.frames@.last().pending@.len() == 0
                &&& self.frames@.last().next == 0
                &&& self.frames@.last().args.page.descendants is None
            },
            Waiting::Done => true,
        }
    }

    /// The state after an action: the action matches what the crawl waits for.
    pub open spec fn answers(&self, action: CrawlAction) -> bool {
        match action {
            CrawlAction::CheckRobots { user_agent, url } => {
                &&& self.waiting matches Waiting::Robots { url: u } && u@ == url@
                &&& user_agent@ == self.run_config.user_agent@
                &&& item_url(self.frames@.last().args) == Some(url@)
            },
            CrawlAction::FetchPage { url, ignore_redirects, maximum_redirects, parent_uri } => {
                &&& self.waiting is Page
                &&& ignore_redirects == self.run_config.ignore_redirects
                &&& maximum_redirects == self.run_config.maximum_redirects
                &&& parent_uri == self.frames@.last().args.page.parent_uri
                &&& head_request_url(
                    self.frames@.last().args.protocol@,
                    self.waiting->Page_url@,
                    self.frames@.last().args.host@,
                    opt_string_view(parent_uri),
                ) == Some(url@)
            },
            CrawlAction::Finished { .. } => self.waiting is Done,
        }
    }

    /// Starts the crawl of a page whose depth is within the maximum: its url
    /// becomes known, and robots.txt is asked unless it is ignored.
    fn begin(&mut self, args: LoadPageArguments) -> (r: Result<CrawlAction, CrawlError>)
        requires
            old(self).frames_wf(),
            old(self).children_wf(true),
            frames_known(old(self).frames@, strings_view(old(self).known@)),
            old(self).waiting !is Done || old(self).frames@.len() == 0,
            args.depth == old(self).frames@.len() + 1,
            args.depth <= old(self).run_config.maximum_depth,
            old(self).frames@.len() > 0 ==> old(self).frames@.last().pending@.len() > 0,
            old(self).frames@.len() > 0 ==> old(self).frames@.last().next >= 1,
            old(self).frames@.len() > 0 ==> args.page.link@ == old(self).frames@.last().pending@[old(
                self,
            ).frames@.last().next - 1]@,
            args.page.descendants is None,
        ensures
            final(self).run_config == old(self).run_config,
            known_grows(strings_view(old(self).known@), strings_view(final(self).known@)),
            r is Ok ==> final(self).well_formed(),
            r is Ok ==> final(self).waits_consistently(),
            r is Ok ==> final(self).answers(r->Ok_0),
            r is Ok ==> final(self).waiting !is Done,
            final(self).frames@.len() == old(self).frames@.len() + 1,
            final(self).frames@.drop_last() == old(self).frames@,
            final(self).frames@.last().args == args,
            r is Ok && !old(self).run_config.ignore_robots_txt ==> r->Ok_0 is CheckRobots,
            r is Err ==> r->Err_0 == CrawlError::InvalidPageUrl,
            r is Err <==> begin_fails(args_view(args), old(self).run_config.ignore_robots_txt),
    {
        let ghost f0 = self.frames@;
        let ghost k0 = strings_view(self.known@);
        proof {
            lemma_frames_ok_top(f0, self.run_config.maximum_depth, self.waiting is Done, k0);
            lemma_page_view_parts(args.page);
        }
        insert_known(&mut self.known, args.page.link.uri.clone());
        let item_found = site_full_url(
            args.protocol.as_str(),
            args.page.link.uri.as_str(),
            args.host.as_str(),
            &args.page.parent_uri,
        );
        let frame = CrawlFrame { args, pending: Vec::new(), next: 0 };
        let ghost t = frame;
        self.frames.push(frame);
        let item = match item_found {
            Some(u) => u,
            None => {
                return Err(CrawlError::InvalidPageUrl);
            },
        };
        proof {
            lemma_frames_ok_push(f0, t, self.run_config.maximum_depth, k0, strings_view(self.known@));
            lemma_page_view_parts(t.args.page);
            assert(frame_known(t, strings_view(self.known@)));
            lemma_frames_known_change(f0, f0.len() as int, t, k0, strings_view(self.known@));
            assert(f0.take(f0.len() as int) =~= f0);
        }
        if !self.run_config.ignore_robots_txt {
            self.waiting = Waiting::Robots { url: item.clone() };
            Ok(CrawlAction::CheckRobots { user_agent: self.run_config.user_agent.clone(), url: item })
        } else {
            self.fetch_action(item)
        }
    }

    /// The request for the current page, whose url is `item`.
    fn fetch_action(&mut self, item: String) -> (r: Result<CrawlAction, CrawlError>)
        requires
            old(self).frames@.len() > 0,
            item_url(old(self).frames@.last().args) == Some(item@),
        ensures
            final(self).run_config == old(self).run_config,
            final(self).known == old(self).known,
            final(self).frames == old(self).frames,
            r is Ok ==> final(self).answers(r->Ok_0),
            r is Ok ==> (final(self).waiting matches Waiting::Page { url } && url@ == item@),
            r is Err ==> r->Err_0 == CrawlError::InvalidPageUrl,
            r is Err <==> head_request_url(
                old(self).frames@.last().args.protocol@,
                item@,
                old(self).frames@.last().args.host@,
                opt_string_view(old(self).frames@.last().args.page.parent_uri),
            ) is None,
    {
        let last = self.frames.len() - 1;
        let target = head_request_target(
            self.frames[last].args.protocol.as_str(),
            item.as_str(),
            self.frames[last].args.host.as_str(),
            &self.frames[last].args.page.parent_uri,
        );
        match target {
            Some(url) => {
                self.waiting = Waiting::Page { url: item };
                Ok(
                    CrawlAction::FetchPage {
                        url,
                        ignore_redirects: self.run_config.ignore_redirects,
                        maximum_redirects: self.run_config.maximum_redirects,
                        parent_uri: self.frames[last].args.page.parent_uri.clone(),
                    },
                )
            },
            None => Err(CrawlError::InvalidPageUrl),
        }
    }

    /// Goes on with the links of the current page: the next one's page is
    /// started (or kept unvisited where it lies beyond the maximum depth); once
    /// all are done the page is complete and joins the descendants of the page
    /// it was found on; the crawl ends when the start page is complete.
    fn descend(&mut self) -> (r: Result<CrawlAction, CrawlError>)
        requires
            old(self).well_formed(),
            old(self).frames@.len() > 0,
        ensures
            final(self).run_config == old(self).run_config,
            known_grows(strings_view(old(self).known@), strings_view(final(self).known@)),
            r is Ok ==> final(self).well_formed(),
            r is Ok ==> final(self).waits_consistently(),
            r is Ok ==> final(self).answers(r->Ok_0),
            r is Ok && !old(self).run_config.ignore_robots_txt ==> r->Ok_0 !is FetchPage,
            r is Err ==> r->Err_0 == CrawlError::InvalidPageUrl,
            ends_as(*final(self), r, settle(frames_view(old(self).frames@), old(self).run_config.maximum_depth)),
            r matches Ok(CrawlAction::Finished { page }) ==> tree_known(page_view(page), strings_view(final(self).known@)),
            r matches Ok(CrawlAction::Finished { page }) ==> page.response_timings.children_compete_time is Some,
    {
        let ghost known0 = strings_view(self.known@);
        let ghost maximum_depth = self.run_config.maximum_depth;
        let ghost target = settle(frames_view(self.frames@), maximum_depth);
        loop
            invariant
                self.well_formed(),
                self.frames@.len() > 0,
                self.run_config == old(self).run_config,
                maximum_depth == self.run_config.maximum_depth,
                known0 == strings_view(old(self).known@),
                known_grows(known0, strings_view(self.known@)),
                target == settle(frames_view(old(self).frames@), maximum_depth),
                settle(frames_view(self.frames@), maximum_depth) == target,
            decreases work_left(self.frames@),
        {
            let ghost frames0 = self.frames@;
            let ghost fv0 = frames_view(frames0);
            let ghost k0 = strings_view(self.known@);
            let mut top = match self.frames.pop() {
                Some(f) => f,
                None => {
                    assert(false);
                    return Err(CrawlError::UnexpectedEvent);
                },
            };
            let ghost top0 = top;
            assert(self.frames@ == frames0.drop_last());
            assert(top == frames0.last());
            assert(fv0.last() == frame_view(top0));
            assert(frames_view(frames0.drop_last()) =~= fv0.drop_last());
            proof {
                lemma_frames_ok_top(frames0, maximum_depth, self.waiting is Done, k0);
                lemma_children_ok_top(frames0, false);
                lemma_frames_known_top(frames0, k0);
                assert(frames0.take(frames0.len() - 1) =~= frames0.drop_last());
            }
            if top.next < top.pending.len() {
                let ghost lv = links_view(top.pending@);
                let ghost next0 = top.next as int;
                let link = top.pending[top.next].duplicate();
                top.next = top.next + 1;
                let child = Page::new_with_parent(link, top.args.page.link.uri.clone());
                let ghost child_g = child;
                let ghost child_link = child.link@;
                assert(child_link == lv[next0]);
                assert(lv.take(next0 + 1) == lv.take(next0).push(lv[next0]));
                proof {
                    lemma_page_view_parts(child_g);
                    assert(page_view(child_g) == unvisited_page(lv[next0], top0.args.page.link.uri@));
                }
                if top.args.depth >= self.run_config.maximum_depth {
                    let mut d = match top.args.page.descendants.take() {
                        Some(v) => v,
                        None => Vec::new(),
                    };
                    let ghost d0 = d@;
                    d.push(child);
                    assert(d@ == d0.push(d@.last()));
                    assert(page_links(d@) == page_links(d0).push(child_link));
                    top.args.page.descendants = Some(d);
                    proof {
                        lemma_page_view_pushed(top0.args.page, top.args.page, child_g);
                        assert(k0.contains(top0.pending@[next0].uri@));
                        lemma_tree_known_with_descendant(page_view(top0.args.page), page_view(child_g), k0);
                        assert(frame_known(top, k0));
                        lemma_frames_known_change(frames0, frames0.len() - 1, top, k0, k0);
                        lemma_frames_ok_replace_top(frames0, top, maximum_depth, k0, k0);
                        lemma_children_ok_replace_top(frames0, top, false, false);
                    }
                    self.frames.push(top);
                    proof {
                        assert(frames_view(self.frames@) =~= fv0.drop_last().push(frame_view(top)));
                        assert(self.frames@.drop_last() == frames0.drop_last());
                        assert(work_left(self.frames@) == work_left(frames0.drop_last()) + (
                        top.pending@.len() - top.next) as nat + 1);
                        assert(work_left(frames0) == work_left(frames0.drop_last()) + (
                        top.pending@.len() - (top.next - 1)) as nat + 1);
                    }
                } else {
                    let args = LoadPageArguments {
                        page: child,
                        protocol: top.args.protocol.clone(),
                        host: top.args.host.clone(),
                        same_domain_only: top.args.same_domain_only,
                        depth: top.args.depth + 1,
                    };
                    proof {
                        assert(frame_known(top, k0));
                        lemma_frames_known_change(frames0, frames0.len() - 1, top, k0, k0);
                        lemma_frames_ok_replace_top(frames0, top, maximum_depth, k0, k0);
                        lemma_children_ok_replace_top(frames0, top, false, true);
                    }
                    self.frames.push(top);
                    let ghost frames1 = self.frames@;
                    assert(frames_view(frames1) =~= fv0.drop_last().push(frame_view(top)));
                    let ghost known1 = strings_view(self.known@);
                    let r = self.begin(args);
                    assert(known_grows(known0, strings_view(self.known@))) by {
                        assert forall|t: Seq<char>| known0.contains(t) implies #[trigger] strings_view(
                            self.known@,
                        ).contains(t) by {
                            assert(known1.contains(t));
                        }
                    }
                    return r;
                }
            } else {
                top.args.page.response_timings.children_compete_time = Some(utc_now_micros());
                proof {
                    lemma_page_view_same(top0.args.page, top.args.page);
                }
                if self.frames.len() == 0 {
                    self.waiting = Waiting::Done;
                    proof {
                        lemma_no_frames_ok(maximum_depth, strings_view(self.known@));
                        assert(self.frames@ =~= Seq::<CrawlFrame>::empty());
                    }
                    return Ok(CrawlAction::Finished { page: top.args.page });
                }
                let ghost frames1 = self.frames@;
                proof {
                    lemma_frames_ok_drop_top(frames0, maximum_depth, k0);
                    lemma_children_ok_drop_top(frames0, false);
                }
                let mut parent = match self.frames.pop() {
                    Some(f) => f,
                    None => {
                        assert(false);
                        return Err(CrawlError::UnexpectedEvent);
                    },
                };
                let ghost parent0 = parent;
                assert(parent == frames1.last());
                assert(parent == frames0[frames0.len() - 2]);
                assert(fv0.drop_last().last() == frame_view(parent0));
                let ghost plv = links_view(parent.pending@);
                let ghost pnext = parent.next as int;
                assert(plv.take(pnext) == plv.take(pnext - 1).push(plv[pnext - 1]));
                let mut d = match parent.args.page.descendants.take() {
                    Some(v) => v,
                    None => Vec::new(),
                };
                let ghost d0 = d@;
                let ghost page_link = top.args.page.link@;
                let ghost done_page = top.args.page;
                d.push(top.args.page);
                assert(d@ == d0.push(d@.last()));
                assert(page_links(d@) == page_links(d0).push(page_link));
                parent.args.page.descendants = Some(d);
                proof {
                    lemma_page_view_pushed(parent0.args.page, parent.args.page, done_page);
                    lemma_tree_known_with_descendant(page_view(parent0.args.page), page_view(done_page), k0);
                    assert(frame_known(parent, k0));
                    lemma_frames_known_change(frames0, frames0.len() - 2, parent, k0, k0);
                    assert(frames0.take(frames0.len() - 2) =~= frames1.drop_last());
                    lemma_frames_ok_replace_top(frames1, parent, maximum_depth, k0, k0);
                    lemma_children_ok_replace_top(frames1, parent, true, false);
                }
                self.frames.push(parent);
                proof {
                    assert(frames_view(self.frames@) =~= fv0.drop_last().drop_last().push(frame_view(parent)));
                    assert(self.frames@.drop_last() == frames1.drop_last());
                    assert(frames1.drop_last() == frames0.drop_last().drop_last());
                    assert(work_left(self.frames@) == work_left(frames1.drop_last()) + (
                    parent.pending@.len() - parent.next) as nat + 1);
                    assert(work_left(frames1) == work_left(frames1.drop_last()) + (
                    parent.pending@.len() - parent.next) as nat + 1);
                }
            }
        }
    }

    /// Takes in the links to crawl from the current page: they become known,
    /// and the page's descendants are started on.
    fn after_links(&mut self, links: Vec<Link>) -> (r: Result<CrawlAction, CrawlError>)
        requires
            old(self).well_formed(),
            old(self).frames@.len() > 0,
            old(self).frames@.last().pending@.len() == 0,
            old(self).frames@.last().next == 0,
            old(self).frames@.last().args.page.descendants is None,
        ensures
            final(self).run_config == old(self).run_config,
            known_grows(strings_view(old(self).known@), strings_view(final(self).known@)),
            r is Ok ==> final(self).well_formed(),
            r is Ok ==> final(self).waits_consistently(),
            r is Ok ==> final(self).answers(r->Ok_0),
            r is Ok && !old(self).run_config.ignore_robots_txt ==> r->Ok_0 !is FetchPage,
            r is Err ==> r->Err_0 == CrawlError::InvalidPageUrl,
            forall|k: int|
                0 <= k < links@.len() ==> strings_view(final(self).known@).contains(
                    (#[trigger] links@[k]).uri@,
                ),
            ends_as(
                *final(self),
                r,
                settle(
                    frames_view(old(self).frames@).drop_last().push(
                        with_links(frame_view(old(self).frames@.last()), links_view(links@)),
                    ),
                    old(self).run_config.maximum_depth,
                ),
            ),
            r matches Ok(CrawlAction::Finished { page }) ==> tree_known(page_view(page), strings_view(final(self).known@)),
            r matches Ok(CrawlAction::Finished { page }) ==> page.response_timings.children_compete_time is Some,
    {
        let ghost known0 = strings_view(self.known@);
        let ghost frames0 = self.frames@;
        let mut i: usize = 0;
        while i < links.len()
            invariant
                i <= links.len(),
                self.frames@ == frames0,
                self.run_config == old(self).run_config,
                self.waiting == old(self).waiting,
                known0 == strings_view(old(self).known@),
                known_grows(known0, strings_view(self.known@)),
                forall|k: int| 0 <= k < i ==> strings_view(self.known@).contains((#[trigger] links@[k]).uri@),
            decreases links.len() - i,
        {
            let ghost k1 = strings_view(self.known@);
            insert_known(&mut self.known, links[i].uri.clone());
            assert(known_grows(known0, strings_view(self.known@))) by {
                assert forall|t: Seq<char>| known0.contains(t) implies #[trigger] strings_view(
                    self.known@,
                ).contains(t) by {
                    assert(k1.contains(t));
                }
            }
            assert forall|k: int| 0 <= k < i + 1 implies strings_view(self.known@).contains(
                (#[trigger] links@[k]).uri@,
            ) by {
                if k < i {
                    assert(k1.contains(links@[k].uri@));
                }
            }
            i = i + 1;
        }
        let ghost lv = links@;
        let ghost maximum_depth = self.run_config.maximum_depth;
        proof {
            lemma_frames_ok_top(frames0, maximum_depth, self.waiting is Done, known0);
        }
        let mut top = match self.frames.pop() {
            Some(f) => f,
            None => {
                assert(false);
                return Err(CrawlError::UnexpectedEvent);
            },
        };
        let ghost top0 = top;
        if links.len() > 0 {
            top.args.page.descendants = Some(Vec::new());
        }
        top.pending = links;
        top.next = 0;
        proof {
            lemma_page_view_parts(top0.args.page);
            lemma_page_view_parts(top.args.page);
            if lv.len() > 0 {
                assert(pages_view(top.args.page.descendants->0@) =~= Seq::<PageView>::empty());
            }
            assert(frame_view(top) == with_links(frame_view(top0), links_view(lv)));
            assert(top0 == frames0.last());
        }
        proof {
            lemma_frames_known_top(frames0, known0);
            lemma_frame_known_grows(top0, known0, strings_view(self.known@));
            assert(tree_known(page_view(top.args.page), strings_view(self.known@)));
            assert forall|k: int| 0 <= k < top.pending@.len() implies strings_view(self.known@).contains(
                (#[trigger] top.pending@[k]).uri@,
            ) by {
                assert(top.pending@[k] == lv[k]);
            }
            assert(frame_known(top, strings_view(self.known@)));
            lemma_frames_known_change(frames0, frames0.len() - 1, top, known0, strings_view(self.known@));
            assert(frames0.take(frames0.len() - 1) =~= frames0.drop_last());
            assert(links_view(top.pending@).take(0) == Seq::<LinkView>::empty());
            assert(page_links(Seq::<Page>::empty()) == Seq::<LinkView>::empty());
            lemma_frames_ok_replace_top(frames0, top, maximum_depth, known0, strings_view(self.known@));
            lemma_children_ok_replace_top(frames0, top, false, false);
        }
        self.frames.push(top);
        assert(frames_view(self.frames@) =~= frames_view(frames0).drop_last().push(frame_view(top)));
        let ghost known1 = strings_view(self.known@);
        let r = self.descend();
        assert(known_grows(known0, strings_view(self.known@))) by {
            assert forall|t: Seq<char>| known0.contains(t) implies #[trigger] strings_view(
                self.known@,
            ).contains(t) by {
                assert(known1.contains(t));
            }
        }
        assert forall|k: int| 0 <= k < lv.len() implies strings_view(self.known@).contains(
            (#[trigger] lv[k]).uri@,
        ) by {
            assert(known1.contains(lv[k].uri@));
        }
        r
    }

    /// Records the responses of a fetch on `page` and returns the links to
    /// crawl from it: the times of the requests are taken over; a failed HEAD
    /// status records the HEAD response, a download records the GET response;
    /// a page that loaded as HTML has its links read (and its body dropped
    /// unless HTML is kept).
    pub fn links_of_fetched(
        &self,
        page: &mut Page,
        protocol: &String,
        host: &String,
        same_domain_only: bool,
        timings: PageTimings,
        head: FetchedResponse,
        get: Option<FetchedResponse>,
    ) -> (r: Vec<Link>)
        ensures
            links_view(r@) == links_to_visit(
                protocol@,
                host@,
                same_domain_only,
                strings_view(self.known@),
                head,
                get,
            ),
            final(page).link == old(page).link,
            final(page).parent_uri == old(page).parent_uri,
            final(page).descendants == old(page).descendants,
            page_view(*final(page)) == recorded(page_view(*old(page)), head, get, self.run_config.keep_html_in_memory),
            final(page).response_timings.overall_start_time == timings.overall_start_time,
            final(page).response_timings.head_request_start_time == timings.head_request_start_time,
            final(page).response_timings.head_request_complete_time == timings.head_request_complete_time,
            final(page).response_timings.get_request_start_time == timings.get_request_start_time,
            final(page).response_timings.get_request_complete_time == timings.get_request_complete_time,
    {
        let ghost head0 = head;
        let ghost get0 = get;
        let ghost page0 = *page;
        proof {
            lemma_page_view_parts(page0);
        }
        page.response_timings.overall_start_time = timings.overall_start_time;
        page.response_timings.head_request_start_time = timings.head_request_start_time;
        page.response_timings.head_request_complete_time = timings.head_request_complete_time;
        page.response_timings.get_request_start_time = timings.get_request_start_time;
        page.response_timings.get_request_complete_time = timings.get_request_complete_time;
        let head_type = head.headers.get("content-type");
        let verdict = head_verdict(head.status, &head_type);
        let loaded = match verdict {
            HeadVerdict::Failed => {
                page.set_response(head.status, head.version, head.headers, head.body);
                false
            },
            HeadVerdict::NotHtml => false,
            HeadVerdict::Download => match get {
                Some(g) => {
                    let get_type = g.headers.get("content-type");
                    page.set_response(g.status, g.version, g.headers, g.body);
                    page_verdict(&get_type)
                },
                None => false,
            },
        };
        proof {
            lemma_page_view_parts(*page);
        }
        if !loaded {
            return Vec::new();
        }
        let body: String = match page.get_body() {
            Some(b) => b.clone(),
            None => {
                assert(false);
                return Vec::new();
            },
        };
        assert(loaded_body(head0, get0) == Some(body@));
        page.response_timings.overall_complete_time = Some(utc_now_micros());
        if chars_of(body.as_str()).len() == 0 {
            return Vec::new();
        }
        let parser = DomParserService::new(Arc::new(LinkTypeChecker::new(host.as_str())));
        let uri_result = parser.links_of_page(protocol.as_str(), host.as_str(), &body);
        page.response_timings.parse_complete_time = Some(uri_result.parse_complete_time);
        let result = if same_domain_only {
            get_same_domain_links(host.as_str(), &uri_result.links)
        } else {
            uri_result.links
        };
        let links = filter_links_to_visit(result, &self.known);
        if !self.run_config.keep_html_in_memory {
            page.reset_body();
        }
        proof {
            lemma_page_view_parts(*page);
        }
        links
    }

    /// The crawl's next action after an event; `UnexpectedEvent` where the event
    /// does not answer what the crawl waits for.
    pub fn handle_event(&mut self, event: CrawlEvent) -> (r: Result<CrawlAction, CrawlError>)
        requires
            old(self).well_formed(),
            old(self).waits_consistently(),
        ensures
            final(self).run_config == old(self).run_config,
            known_grows(strings_view(old(self).known@), strings_view(final(self).known@)),
            r is Ok ==> final(self).well_formed(),
            r is Ok ==> final(self).waits_consistently(),
            r is Ok ==> final(self).answers(r->Ok_0),
            r matches Ok(CrawlAction::Finished { page }) ==> tree_known(page_view(page), strings_view(final(self).known@)),
            r matches Ok(CrawlAction::Finished { page }) ==> page.response_timings.children_compete_time is Some,
            r matches Err(CrawlError::UnexpectedEvent) <==> !((old(self).waiting is Robots
                && event is RobotsChecked) || (old(self).waiting is Page && event is PageFetched)),
            r is Err ==> (r->Err_0 == CrawlError::UnexpectedEvent || r->Err_0
                == CrawlError::InvalidPageUrl),
            (!old(self).run_config.ignore_robots_txt && (r matches Ok(CrawlAction::FetchPage { .. })))
                ==> (event matches CrawlEvent::RobotsChecked { allowed } && allowed),
            (old(self).waiting is Robots && (event matches CrawlEvent::RobotsChecked { allowed }
                && allowed)) ==> (final(self).frames == old(self).frames && (r is Ok ==> r->Ok_0
                is FetchPage)),
            (old(self).waiting is Robots && (event matches CrawlEvent::RobotsChecked { allowed }
                && allowed)) ==> (r matches Err(CrawlError::InvalidPageUrl) <==> head_request_url(
                old(self).frames@.last().args.protocol@,
                old(self).waiting->Robots_url@,
                old(self).frames@.last().args.host@,
                opt_string_view(old(self).frames@.last().args.page.parent_uri),
            ) is None),
            (old(self).waiting is Robots && (event matches CrawlEvent::RobotsChecked { allowed }
                && !allowed)) ==> ends_as(
                *final(self),
                r,
                settle(
                    frames_view(old(self).frames@).drop_last().push(
                        with_links(frame_view(old(self).frames@.last()), Seq::empty()),
                    ),
                    old(self).run_config.maximum_depth,
                ),
            ),
            old(self).waiting is Page ==> (event matches CrawlEvent::PageFetched { head, get, .. } ==> {
                let top = frame_view(old(self).frames@.last());
                let found = links_to_visit(
                    top.args.protocol,
                    top.args.host,
                    top.args.same_domain_only,
                    strings_view(old(self).known@),
                    head,
                    get,
                );
                let fetched = with_page(
                    top,
                    recorded(top.args.page, head, get, old(self).run_config.keep_html_in_memory),
                );
                ends_as(
                    *final(self),
                    r,
                    settle(
                        frames_view(old(self).frames@).drop_last().push(with_links(fetched, found)),
                        old(self).run_config.maximum_depth,
                    ),
                )
            }),
            old(self).waiting is Page ==> (event matches CrawlEvent::PageFetched { head, get, .. } ==> {
                let top = old(self).frames@.last().args;
                let found = links_to_visit(
                    top.protocol@,
                    top.host@,
                    top.same_domain_only,
                    strings_view(old(self).known@),
                    head,
                    get,
                );
                forall|k: int|
                    0 <= k < found.len() ==> strings_view(final(self).known@).contains(
                        (#[trigger] found[k]).uri,
                    )
            }),
    {
        let ghost known0 = strings_view(self.known@);
        match event {
            CrawlEvent::RobotsChecked { allowed } => {
                let url = match &self.waiting {
                    Waiting::Robots { url } => url.clone(),
                    _ => {
                        return Err(CrawlError::UnexpectedEvent);
                    },
                };
                if allowed {
                    self.fetch_action(url)
                } else {
                    let none: Vec<Link> = Vec::new();
                    assert(links_view(none@) =~= Seq::<LinkView>::empty());
                    self.after_links(none)
                }
            },
            CrawlEvent::PageFetched { timings, head, get } => {
                match &self.waiting {
                    Waiting::Page { .. } => {},
                    _ => {
                        return Err(CrawlError::UnexpectedEvent);
                    },
                }
                let ghost frames0 = self.frames@;
                let ghost k0 = strings_view(self.known@);
                proof {
                    lemma_frames_ok_top(frames0, self.run_config.maximum_depth, self.waiting is Done, k0);
                    lemma_children_ok_top(frames0, false);
                }
                let mut top = match self.frames.pop() {
                    Some(f) => f,
                    None => {
                        assert(false);
                        return Err(CrawlError::UnexpectedEvent);
                    },
                };
                let ghost top0 = top;
                let links = self.links_of_fetched(
                    &mut top.args.page,
                    &top.args.protocol,
                    &top.args.host,
                    top.args.same_domain_only,
                    timings,
                    head,
                    get,
                );
                proof {
                    lemma_frames_known_top(frames0, k0);
                    assert(page_view(top.args.page).link == page_view(top0.args.page).link);
                    assert(page_view(top.args.page).descendants == page_view(top0.args.page).descendants);
                    assert(tree_known(page_view(top.args.page), k0));
                    assert(frame_known(top, k0));
                    lemma_frames_known_change(frames0, frames0.len() - 1, top, k0, k0);
                    assert(frames0.take(frames0.len() - 1) =~= frames0.drop_last());
                    lemma_frames_ok_replace_top(frames0, top, self.run_config.maximum_depth, k0, k0);
                    lemma_children_ok_replace_top(frames0, top, false, false);
                }
                self.frames.push(top);
                assert(frame_view(top) == with_page(
                    frame_view(top0),
                    recorded(page_view(top0.args.page), head, get, self.run_config.keep_html_in_memory),
                ));
                assert(top0 == frames0.last());
                assert(frames_view(self.frames@) =~= frames_view(frames0).drop_last().push(frame_view(top)));
                let ghost found = links_view(links@);
                let ghost before = self.frames@;
                assert(frames_view(before).drop_last() =~= frames_view(frames0).drop_last());
                assert(before.last() == top);
                assert(found == links_to_visit(
                    frame_view(top0).args.protocol,
                    frame_view(top0).args.host,
                    frame_view(top0).args.same_domain_only,
                    strings_view(old(self).known@),
                    head,
                    get,
                ));
                let r = self.after_links(links);
                assert forall|k: int| 0 <= k < found.len() implies strings_view(self.known@).contains(
                    (#[trigger] found[k]).uri,
                ) by {
                    assert(found[k].uri == links@[k].uri@);
                }
                r
            },
        }
    }

    /// Starts a crawl of `run_config.url`: the start page is at depth 1 and
    /// only links of its domain are followed. `InvalidStartUrl` where the url
    /// (as given or trimmed) does not parse or has no host, `UnknownProtocol`
    /// where it names no known protocol.
    pub fn start(run_config: RunConfig) -> (r: Result<(SiteCrawl, CrawlAction), CrawlError>)
        ensures
            r matches Err(CrawlError::InvalidStartUrl) <==> !(parsed_uri(run_config.url@) is Some
                && parsed_uri(run_config.url@)->0.host is Some && parsed_uri(trim(run_config.url@))
                is Some && parsed_uri(trim(run_config.url@))->0.host is Some),
            r matches Err(CrawlError::UnknownProtocol) <==> (parsed_uri(run_config.url@) is Some
                && parsed_uri(run_config.url@)->0.host is Some && parsed_uri(trim(run_config.url@))
                is Some && parsed_uri(trim(run_config.url@))->0.host is Some && uri_protocol_of(
                ""@,
                run_config.url@,
            ) is None),
            r matches Err(CrawlError::InvalidPageUrl) <==> (parsed_uri(run_config.url@) is Some
                && parsed_uri(run_config.url@)->0.host is Some && parsed_uri(trim(run_config.url@))
                is Some && parsed_uri(trim(run_config.url@))->0.host is Some && uri_protocol_of(
                ""@,
                run_config.url@,
            ) is Some && run_config.maximum_depth > 0 && begin_fails(
                start_args(run_config),
                run_config.ignore_robots_txt,
            )),
            r is Ok && run_config.maximum_depth == 0 ==> (r->Ok_0.1 matches CrawlAction::Finished { page }
                && page_view(page) == start_args(run_config).page),
            r is Ok && run_config.maximum_depth > 0 ==> args_view(r->Ok_0.0.frames@[0].args) == start_args(
                run_config,
            ),
            r matches Err(CrawlError::UnexpectedEvent) ==> false,
            r is Ok ==> r->Ok_0.0.well_formed(),
            r is Ok ==> r->Ok_0.0.waits_consistently(),
            r is Ok ==> r->Ok_0.0.answers(r->Ok_0.1),
            r is Ok ==> r->Ok_0.0.run_config == run_config,
            r is Ok && run_config.maximum_depth == 0 ==> r->Ok_0.1 is Finished,
            r is Ok && !run_config.ignore_robots_txt ==> r->Ok_0.1 !is FetchPage,
            r is Ok && run_config.maximum_depth > 0 ==> (r->Ok_0.0.frames@.len() == 1
                && r->Ok_0.0.frames@[0].args.page.link.uri@ == trim(run_config.url@)
                && r->Ok_0.0.frames@[0].args.host@ == parsed_uri(trim(run_config.url@))->0.host->0
                && r->Ok_0.0.frames@[0].args.protocol@ == protocol_name(
                uri_protocol_of(""@, run_config.url@)->0,
            ) && r->Ok_0.0.frames@[0].args.same_domain_only),
    {
        match parse_uri(run_config.url.as_str()) {
            Some(p) => if p.host.is_none() {
                return Err(CrawlError::InvalidStartUrl);
            },
            None => {
                return Err(CrawlError::InvalidStartUrl);
            },
        }
        let page = Page::new(Link::from_str(run_config.url.as_str()));
        proof {
            lemma_page_view_parts(page);
        }
        let host = match parse_uri(page.link.uri.as_str()) {
            Some(p) => match p.host {
                Some(h) => h,
                None => {
                    return Err(CrawlError::InvalidStartUrl);
                },
            },
            None => {
                return Err(CrawlError::InvalidStartUrl);
            },
        };
        let checker = LinkTypeChecker::new(host.as_str());
        let protocol = match checker.get_uri_protocol("", run_config.url.as_str()) {
            Some(p) => p,
            None => {
                return Err(CrawlError::UnknownProtocol);
            },
        };
        let protocol_str = LinkTypeChecker::get_uri_protocol_as_str(&protocol);
        let args = LoadPageArguments {
            page,
            protocol: crate::text::string_of(&chars_of(protocol_str)),
            host,
            same_domain_only: true,
            depth: 1,
        };
        let mut crawl = SiteCrawl {
            run_config,
            known: Vec::new(),
            frames: Vec::new(),
            waiting: Waiting::Done,
        };
        proof {
            lemma_no_frames_ok(crawl.run_config.maximum_depth, strings_view(crawl.known@));
            lemma_frames_known_each(crawl.frames@, strings_view(crawl.known@));
        }
        if crawl.run_config.maximum_depth < 1 {
            return Ok((crawl, CrawlAction::Finished { page: args.page }));
        }
        let ghost args0 = args;
        match crawl.begin(args) {
            Ok(action) => {
                assert(crawl.frames@.drop_last().len() == 0);
                assert(crawl.frames@[0] == crawl.frames@.last());
                assert(crawl.frames@[0].args == args0);
                Ok((crawl, action))
            },
            Err(e) => Err(e),
        }
    }
}

/// The crawl loads no page deeper than the maximum depth: whenever it asks
/// for a page to be loaded, the page's depth is within the maximum.
pub proof fn law_loaded_pages_within_maximum_depth(crawl: SiteCrawl, action: CrawlAction)
    requires
        crawl.well_formed(),
        crawl.answers(action),
        action is FetchPage || action is CheckRobots,
    ensures
        crawl.frames@.len() > 0,
        crawl.frames@.last().args.depth <= crawl.run_config.maximum_depth,
{
    lemma_frames_ok_top(
        crawl.frames@,
        crawl.run_config.maximum_depth,
        crawl.waiting is Done,
        strings_view(crawl.known@),
    );
}

/// At every step of a crawl, the descendants of each page being crawled are
/// the pages of the first links found on it, in the order of the links: the
/// tree of pages follows the links.
pub proof fn law_descendants_follow_the_links(crawl: SiteCrawl)
    requires
        crawl.well_formed(),
    ensures
        forall|i: int|
            0 <= i < crawl.frames@.len() ==> match (#[trigger] crawl.frames@[i]).args.page.descendants {
                Some(d) => d@.len() <= crawl.frames@[i].pending@.len() && page_links(d@)
                    == links_view(crawl.frames@[i].pending@).take(d@.len() as int),
                None => crawl.frames@[i].pending@.len() == 0,
            },
{
    reveal(children_ok);
    reveal(frames_ok);
    assert forall|i: int| 0 <= i < crawl.frames@.len() implies match (#[trigger] crawl.frames@[i]).args.page.descendants {
        Some(d) => d@.len() <= crawl.frames@[i].pending@.len() && page_links(d@) == links_view(
            crawl.frames@[i].pending@,
        ).take(d@.len() as int),
        None => crawl.frames@[i].pending@.len() == 0,
    } by {
        assert(children_match(crawl.frames@[i], i < crawl.frames@.len() - 1 || false));
        assert(frame_wf(crawl.frames@[i]));
    }
}

} // verus!
