//! Crawling one page: whether to load it, and what to report about it.
use vstd::prelude::*;

use crate::dom_parser::links_of_elements;
use crate::dom_parser::links_view;
use crate::dom_parser::html_elements;
use crate::dom_parser::sort_by_uri;
use crate::dom_parser::DomParserService;
use crate::page_loader::http_utils::is_success;
use crate::page_loader::page_request::protocol_and_host_of;
use crate::page_loader::page_request::PageRequest;
use crate::page_loader::task_context::strings_view;
use crate::page_loader::task_context::DefaultTaskContext;
use crate::page_loader::task_context::KnownLinks;
use crate::page_loader::robots_service::RobotsTxt;
use crate::responses::crawl_status::CrawlStatus;
use crate::responses::get_response::GetResponse;
use crate::responses::head_response::final_uri_of;
use crate::responses::head_response::HeadResponse;
use crate::responses::headers::Headers;
use crate::responses::link::Link;
use crate::responses::page_response::PageResponse;
use crate::responses::response_timings::utc_now_micros;
use crate::responses::status_code::StatusCode;
use crate::text::chars_of;
use crate::text::contains;
use crate::text::contains_seq;

verus! {

/// Whether a page may be crawled, and if not, why.
#[derive(Debug, PartialEq, Eq, Structural, Clone, Copy)]
pub enum Crawlability {
    AlreadyKnown,
    AlreadyTasked,
    Crawlable,
    RestrictedByRobotsTxt,
    MaxDepthReached,
}

/// The crawlability of `url` at `current_depth`: too deep (when a maximum is
/// set), already crawled, already handed out, forbidden by robots.txt, or
/// crawlable, checked in that order.
pub open spec fn crawlability_of(
    current_depth: u16,
    maximum_depth: u16,
    url: Seq<char>,
    crawled: Seq<Seq<char>>,
    tasked: Seq<Seq<char>>,
    allowed_by_robots: bool,
) -> Crawlability {
    if maximum_depth > 0 && current_depth >= maximum_depth {
        Crawlability::MaxDepthReached
    } else if crawled.contains(url) {
        Crawlability::AlreadyKnown
    } else if tasked.contains(url) {
        Crawlability::AlreadyTasked
    } else if !allowed_by_robots {
        Crawlability::RestrictedByRobotsTxt
    } else {
        Crawlability::Crawlable
    }
}

/// The headers say the content is HTML: `content-type` holds `text/html`.
pub open spec fn is_html_spec(headers: Map<Seq<char>, Seq<char>>) -> bool {
    headers.contains_key("content-type"@) && contains_seq(headers["content-type"@], "text/html"@)
}

/// A page is downloaded when it is HTML and its HEAD succeeded or was
/// served from a CloudFront cache.
pub open spec fn should_download_spec(headers: Map<Seq<char>, Seq<char>>, code: u16) -> bool {
    (is_success(code) || (headers.contains_key("x-cache"@) && contains_seq(
        headers["x-cache"@],
        "cloudfront"@,
    ))) && is_html_spec(headers)
}

/// A crawlable page is within the maximum depth (where one is set), neither
/// crawled nor handed out, and allowed by robots.txt.
pub proof fn law_crawlable_only_when_new_and_allowed(
    current_depth: u16,
    maximum_depth: u16,
    url: Seq<char>,
    crawled: Seq<Seq<char>>,
    tasked: Seq<Seq<char>>,
    allowed_by_robots: bool,
)
    requires
        crawlability_of(current_depth, maximum_depth, url, crawled, tasked, allowed_by_robots)
            == Crawlability::Crawlable,
    ensures
        maximum_depth == 0 || current_depth < maximum_depth,
        !crawled.contains(url),
        !tasked.contains(url),
        allowed_by_robots,
{
}

/// A url that has been handed out (as `crawl_start` does when it asks for the
/// HEAD request) is never crawlable again in its task, whatever else holds.
pub proof fn law_handed_out_url_is_not_crawled_again(
    current_depth: u16,
    maximum_depth: u16,
    url: Seq<char>,
    crawled: Seq<Seq<char>>,
    tasked: Seq<Seq<char>>,
    allowed_by_robots: bool,
)
    requires
        tasked.contains(url),
    ensures
        crawlability_of(current_depth, maximum_depth, url, crawled, tasked, allowed_by_robots)
            != Crawlability::Crawlable,
{
}

/// A page is only downloaded when its headers say it is HTML.
pub proof fn law_download_only_html(headers: Map<Seq<char>, Seq<char>>, code: u16)
    requires
        should_download_spec(headers, code),
    ensures
        is_html_spec(headers),
{
}

/// What starting a crawl leads to.
pub enum CrawlStart {
    /// The url is already known or handed out: nothing is reported.
    Skip,
    /// The page is not loaded; this is reported about it.
    Report(PageResponse),
    /// The page is loaded: its HEAD request comes next.
    FetchHeader {
        url: String,
        ignore_redirects: bool,
        maximum_redirects: u8,
        page_response: PageResponse,
    },
}

/// What a HEAD response leads to.
pub enum HeadOutcome {
    /// Nothing more is loaded; this is reported.
    Finished(PageResponse),
    /// The page at `url` is downloaded next.
    Download { url: String, page_response: PageResponse },
}

/// The strings as character sequences, for a vector.
pub open spec fn vec_strings_view(v: &Vec<String>) -> Seq<Seq<char>> {
    strings_view(v@)
}

/// The crawl of one page at some depth of a task.
pub struct PageCrawlCommand {
    pub request_object: PageRequest,
    pub current_depth: u16,
    pub uuid: u128,
}

/// A fresh random identifier: `uuid::Uuid::new_v4()` as a number. It is random,
/// so nothing is stated of it.
#[verifier::external_body]
fn new_uuid() -> u128 {
    uuid::Uuid::new_v4().as_u128()
}

impl PageCrawlCommand {
    /// A crawl of `url` (reached through the link text `raw_url`) at `current_depth`,
    /// with a fresh identifier.
    pub fn new(url: String, raw_url: String, current_depth: u16) -> (r: PageCrawlCommand)
        ensures
            r.request_object.url@ == url@,
            r.request_object.raw_url@ == raw_url@,
            r.request_object.last_crawled_timestamp is None,
            r.current_depth == current_depth,
    {
        PageCrawlCommand {
            request_object: PageRequest::new(url, raw_url, None),
            current_depth,
            uuid: new_uuid(),
        }
    }

    /// The crawl's identifier.
    pub fn get_uuid_clone(&self) -> (r: u128)
        ensures
            r == self.uuid,
    {
        self.uuid
    }

    /// The url to crawl.
    pub fn get_url_clone(&self) -> (r: String)
        ensures
            r@ == self.request_object.url@,
    {
        self.request_object.url.clone()
    }

    /// The depth of the page in its task.
    pub fn get_current_depth(&self) -> (r: u16)
        ensures
            r == self.current_depth,
    {
        self.current_depth
    }

    /// Whether the page may be crawled within `task_context`.
    pub fn verify_crawlability(&self, task_context: &mut DefaultTaskContext) -> (r: Crawlability)
        ensures
            r == crawlability_of(
                self.current_depth,
                old(task_context).task_config.maximum_depth,
                self.request_object.url@,
                vec_strings_view(&old(task_context).all_crawled_links),
                vec_strings_view(&old(task_context).all_tasked_links),
                old(task_context).robots_service.allows(self.request_object.url@),
            ),
            final(task_context).task_config == old(task_context).task_config,
            final(task_context).all_crawled_links == old(task_context).all_crawled_links,
            final(task_context).all_tasked_links == old(task_context).all_tasked_links,
            final(task_context).uuid == old(task_context).uuid,
            final(task_context).robots_service.bodies() == old(task_context).robots_service.bodies(),
            final(task_context).robots_service.user_agent == old(
                task_context,
            ).robots_service.user_agent,
            final(task_context).robots_service.disallow_all == old(
                task_context,
            ).robots_service.disallow_all,
            final(task_context).robots_service.allow_all == old(task_context).robots_service.allow_all,
            final(task_context).uri_service == old(task_context).uri_service,
            final(task_context).dom_parser == old(task_context).dom_parser,
            final(task_context).last_command_received == old(task_context).last_command_received,
    {
        let url = &self.request_object.url;
        let maximum_depth = task_context.task_config.maximum_depth;
        if maximum_depth > 0 && self.current_depth >= maximum_depth {
            return Crawlability::MaxDepthReached;
        }
        if contains_string(&task_context.all_crawled_links, url) {
            return Crawlability::AlreadyKnown;
        }
        if contains_string(&task_context.all_tasked_links, url) {
            return Crawlability::AlreadyTasked;
        }
        if !task_context.can_access(url.as_str()) {
            return Crawlability::RestrictedByRobotsTxt;
        }
        Crawlability::Crawlable
    }

    /// Starts the crawl: skips a known or handed-out url, reports a page that is
    /// too deep or forbidden (with its status and end time), and otherwise hands
    /// the url out and asks for its HEAD request with the task's redirect settings.
    pub fn crawl_start(&self, task_context: &mut DefaultTaskContext, task_context_uuid: u128) -> (r:
        CrawlStart)
        ensures
            ({
                let c = crawlability_of(
                    self.current_depth,
                    old(task_context).task_config.maximum_depth,
                    self.request_object.url@,
                    vec_strings_view(&old(task_context).all_crawled_links),
                    vec_strings_view(&old(task_context).all_tasked_links),
                    old(task_context).robots_service.allows(self.request_object.url@),
                );
                match r {
                    CrawlStart::Skip => (c == Crawlability::AlreadyKnown || c
                        == Crawlability::AlreadyTasked) && final(task_context).all_tasked_links
                        == old(task_context).all_tasked_links,
                    CrawlStart::Report(response) => {
                        &&& (c == Crawlability::RestrictedByRobotsTxt ==> response.crawl_status
                            == Some(CrawlStatus::RestrictedByRobotsTxt))
                        &&& (c == Crawlability::MaxDepthReached ==> response.crawl_status == Some(
                            CrawlStatus::MaximumCrawlDepthReached,
                        ))
                        &&& (c == Crawlability::RestrictedByRobotsTxt || c
                            == Crawlability::MaxDepthReached)
                        &&& response.original_requested_url@ == self.request_object.url@
                        &&& response.original_requested_url_raw@ == self.request_object.raw_url@
                        &&& response.uuid == task_context_uuid
                        &&& response.head is None
                        &&& response.get is None
                        &&& response.links is None
                        &&& response.response_timings.start_time is Some
                        &&& response.response_timings.end_time is Some
                        &&& final(task_context).all_tasked_links == old(
                            task_context,
                        ).all_tasked_links
                    },
                    CrawlStart::FetchHeader {
                        url,
                        ignore_redirects,
                        maximum_redirects,
                        page_response,
                    } => {
                        &&& c == Crawlability::Crawlable
                        &&& url@ == self.request_object.url@
                        &&& ignore_redirects == old(task_context).task_config.ignore_redirects
                        &&& maximum_redirects == old(task_context).task_config.maximum_redirects
                        &&& page_response.original_requested_url@ == self.request_object.url@
                        &&& page_response.original_requested_url_raw@
                            == self.request_object.raw_url@
                        &&& page_response.uuid == task_context_uuid
                        &&& page_response.crawl_status is None
                        &&& page_response.head is None
                        &&& page_response.get is None
                        &&& page_response.response_timings.start_time is Some
                        &&& page_response.response_timings.end_time is None
                        &&& final(task_context).all_tasked_links@ == old(
                            task_context,
                        ).all_tasked_links@.push(final(task_context).all_tasked_links@.last())
                        &&& final(task_context).all_tasked_links@.last()@
                            == self.request_object.url@
                    },
                }
            }),
            final(task_context).task_config == old(task_context).task_config,
            final(task_context).all_crawled_links == old(task_context).all_crawled_links,
            final(task_context).uuid == old(task_context).uuid,
            final(task_context).uri_service == old(task_context).uri_service,
            final(task_context).dom_parser == old(task_context).dom_parser,
    {
        let status: CrawlStatus;
        match self.verify_crawlability(task_context) {
            Crawlability::AlreadyKnown | Crawlability::AlreadyTasked => {
                return CrawlStart::Skip;
            },
            Crawlability::Crawlable => {
                let url = self.request_object.url.clone();
                task_context.add_tasked_link(url.clone());
                let page_response = PageResponse::new(
                    url.clone(),
                    self.request_object.raw_url.clone(),
                    task_context_uuid,
                );
                return CrawlStart::FetchHeader {
                    url,
                    ignore_redirects: task_context.task_config.ignore_redirects,
                    maximum_redirects: task_context.task_config.maximum_redirects,
                    page_response,
                };
            },
            Crawlability::RestrictedByRobotsTxt => {
                status = CrawlStatus::RestrictedByRobotsTxt;
            },
            Crawlability::MaxDepthReached => {
                status = CrawlStatus::MaximumCrawlDepthReached;
            },
        }
        let mut response = PageResponse::new(
            self.request_object.url.clone(),
            self.request_object.raw_url.clone(),
            task_context_uuid,
        );
        response.crawl_status = Some(status);
        response.response_timings.end_time = Some(utc_now_micros());
        CrawlStart::Report(response)
    }

    /// Takes in the HEAD response (or why it failed): records the final url
    /// and the head; a failure becomes a connection error; a page that is
    /// HTML and succeeded (or came from CloudFront) is downloaded next from
    /// its final url, anything else is finished.
    pub fn consume_fetch_header_response(
        &self,
        page_response: PageResponse,
        fetch_header_response: Result<HeadResponse, String>,
    ) -> (r: HeadOutcome)
        requires
            fetch_header_response is Ok ==> 100 <= fetch_header_response->Ok_0.http_response_code.code
                <= 999,
        ensures
            match fetch_header_response {
                Ok(head) => {
                    let final_uri = final_uri_of(head.requested_url@, head.redirects@);
                    let download = should_download_spec(
                        head.headers@,
                        head.http_response_code.code,
                    );
                    match r {
                        HeadOutcome::Download { url, page_response: p } => {
                            &&& download
                            &&& url@ == final_uri
                            &&& p.final_url_after_redirects is Some
                            &&& p.final_url_after_redirects->0@ == final_uri
                            &&& p.head == Some(head)
                            &&& p.original_requested_url == page_response.original_requested_url
                            &&& p.crawl_status == page_response.crawl_status
                            &&& p.get == page_response.get
                            &&& p.links == page_response.links
                            &&& p.uuid == page_response.uuid
                            &&& p.response_timings == page_response.response_timings
                        },
                        HeadOutcome::Finished(p) => {
                            &&& !download
                            &&& p.final_url_after_redirects is Some
                            &&& p.final_url_after_redirects->0@ == final_uri
                            &&& p.head == Some(head)
                            &&& p.get == page_response.get
                            &&& p.original_requested_url == page_response.original_requested_url
                            &&& p.crawl_status == page_response.crawl_status
                            &&& p.links == page_response.links
                            &&& p.uuid == page_response.uuid
                            &&& p.response_timings.start_time == page_response.response_timings.start_time
                            &&& p.response_timings.end_time is Some
                        },
                    }
                },
                Err(message) => match r {
                    HeadOutcome::Finished(p) => {
                        &&& p.crawl_status == Some(CrawlStatus::ConnectionError(message))
                        &&& p.head == page_response.head
                        &&& p.get == page_response.get
                        &&& p.original_requested_url == page_response.original_requested_url
                        &&& p.uuid == page_response.uuid
                        &&& p.response_timings.start_time == page_response.response_timings.start_time
                        &&& p.response_timings.end_time is Some
                    },
                    _ => false,
                },
            },
    {
        let mut page_response = page_response;
        match fetch_header_response {
            Ok(head) => {
                let final_uri = head.get_final_uri();
                page_response.final_url_after_redirects = Some(final_uri.clone());
                let should_download = self.should_download_page(
                    &head.headers,
                    &head.http_response_code,
                );
                page_response.head = Some(head);
                if !should_download {
                    page_response.response_timings.end_time = Some(utc_now_micros());
                    return HeadOutcome::Finished(page_response);
                }
                HeadOutcome::Download { url: final_uri, page_response }
            },
            Err(message) => {
                page_response.crawl_status = Some(CrawlStatus::ConnectionError(message));
                page_response.response_timings.end_time = Some(utc_now_micros());
                HeadOutcome::Finished(page_response)
            },
        }
    }

    /// Takes in the downloaded page: records it, and when it is HTML, the
    /// links on it (classified against the page's own scheme and host).
    pub fn consume_page_download_response(
        &self,
        dom_parser: &DomParserService,
        page_response: PageResponse,
        download_result: GetResponse,
    ) -> (r: PageResponse)
        requires
            is_html_spec(download_result.headers@) ==> protocol_and_host_of(
                self.request_object.url@,
            ) is Some,
        ensures
            r.get == Some(download_result),
            r.head == page_response.head,
            r.final_url_after_redirects == page_response.final_url_after_redirects,
            r.original_requested_url == page_response.original_requested_url,
            r.crawl_status == page_response.crawl_status,
            r.response_timings.end_time is Some,
            is_html_spec(download_result.headers@) ==> {
                let ph = protocol_and_host_of(self.request_object.url@)->0;
                match download_result.body {
                    Some(body) => r.links is Some && links_view(r.links->0@) == sort_by_uri(
                        links_of_elements(dom_parser.domain(), ph.0, ph.1, html_elements(body@)),
                    ),
                    None => r.links is None,
                }
            },
            !is_html_spec(download_result.headers@) ==> r.links == page_response.links,
    {
        let mut page_response = page_response;
        if self.is_html(&download_result.headers) {
            let protocol = self.request_object.get_protocol();
            let host = self.request_object.get_host();
            page_response.links = Self::extract_links(
                protocol,
                host,
                download_result.body.as_ref(),
                dom_parser,
            );
        }
        page_response.get = Some(download_result);
        page_response.response_timings.end_time = Some(utc_now_micros());
        page_response
    }

    /// Like `consume_page_download_response`, or `None` where the downloaded
    /// page is HTML but its url has no scheme or host to classify links against.
    pub fn try_consume_page_download_response(
        &self,
        dom_parser: &DomParserService,
        page_response: PageResponse,
        download_result: GetResponse,
    ) -> (r: Option<PageResponse>)
        ensures
            r is None <==> (is_html_spec(download_result.headers@) && protocol_and_host_of(
                self.request_object.url@,
            ) is None),
            r is Some ==> r->0.get == Some(download_result),
    {
        if self.is_html(&download_result.headers) && self.request_object.try_protocol_and_host().is_none() {
            return None;
        }
        Some(self.consume_page_download_response(dom_parser, page_response, download_result))
    }

    /// A page is downloaded when it is HTML and its HEAD succeeded or was
    /// served from a CloudFront cache.
    pub fn should_download_page(&self, headers: &Headers, status_code: &StatusCode) -> (r: bool)
        requires
            100 <= status_code.code <= 999,
        ensures
            r == should_download_spec(headers@, status_code.code),
    {
        let success = 200 <= status_code.code && status_code.code <= 299;
        let cloudfront = match headers.get("x-cache") {
            Some(v) => contains(&chars_of(v.as_str()), &chars_of("cloudfront")),
            None => false,
        };
        (success || cloudfront) && self.is_html(headers)
    }

    /// The headers say the content is HTML.
    pub fn is_html(&self, headers: &Headers) -> (r: bool)
        ensures
            r == is_html_spec(headers@),
    {
        match headers.get("content-type") {
            Some(v) => contains(&chars_of(v.as_str()), &chars_of("text/html")),
            None => false,
        }
    }

    /// The links in `body` (none without a body), found by `dom_parser` for a
    /// page reached by `protocol` on `host`.
    pub fn extract_links(
        protocol: String,
        host: String,
        body: Option<&String>,
        dom_parser: &DomParserService,
    ) -> (r: Option<Vec<Link>>)
        ensures
            match body {
                Some(b) => r is Some && links_view(r->0@) == sort_by_uri(
                    links_of_elements(dom_parser.domain(), protocol@, host@, html_elements(b@)),
                ),
                None => r is None,
            },
    {
        match body {
            Some(body_content) => {
                let result = dom_parser.links_of_page(protocol.as_str(), host.as_str(), body_content);
                Some(result.links)
            },
            None => None,
        }
    }
}

/// `s` is one of `v`.
pub fn contains_string(v: &Vec<String>, s: &String) -> (r: bool)
    ensures
        r == strings_view(v@).contains(s@),
{
    let mut i: usize = 0;
    while i < v.len()
        invariant
            i <= v.len(),
            forall|j: int| 0 <= j < i ==> v@[j]@ != s@,
        decreases v.len() - i,
    {
        if crate::text::str_eq(v[i].as_str(), s.as_str()) {
            assert(strings_view(v@)[i as int] == s@);
            return true;
        }
        i = i + 1;
    }
    assert forall|j: int| 0 <= j < strings_view(v@).len() implies strings_view(v@)[j] != s@ by {
        assert(strings_view(v@)[j] == v@[j]@);
    }
    false
}

} // verus!
