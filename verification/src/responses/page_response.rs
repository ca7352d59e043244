use vstd::prelude::*;

use crate::responses::crawl_status::CrawlStatus;
use crate::responses::get_response::GetResponse;
use crate::responses::head_response::HeadResponse;
use crate::responses::link::Link;
use crate::responses::redirect::prefixed;
use crate::responses::response_timings::ResponseTimings;

verus! {

/// Everything reported about one crawled page.
#[derive(Debug, Clone)]
pub struct PageResponse {
    pub original_requested_url: String,
    pub original_requested_url_raw: String,
    pub final_url_after_redirects: Option<String>,
    pub head: Option<HeadResponse>,
    pub get: Option<GetResponse>,
    pub links: Option<Vec<Link>>,
    pub response_timings: ResponseTimings,
    pub crawl_status: Option<CrawlStatus>,
    /// The crawl task's identifier (a UUID as a 128-bit number).
    pub uuid: u128,
}

impl PageResponse {
    /// A response for a page of which nothing is known yet, timed from now.
    pub fn new(original_requested_url: String, original_requested_url_raw: String, uuid: u128) -> (r:
        PageResponse)
        ensures
            r.original_requested_url@ == original_requested_url@,
            r.original_requested_url_raw@ == original_requested_url_raw@,
            r.final_url_after_redirects is None,
            r.head is None,
            r.get is None,
            r.links is None,
            r.crawl_status is None,
            r.uuid == uuid,
            r.response_timings.name@ == "PageResponse."@ + original_requested_url@,
            r.response_timings.start_time is Some,
            r.response_timings.end_time is None,
    {
        let name = prefixed("PageResponse.", original_requested_url.as_str());
        PageResponse {
            original_requested_url,
            original_requested_url_raw,
            final_url_after_redirects: None,
            head: None,
            get: None,
            links: None,
            response_timings: ResponseTimings::new(name),
            crawl_status: None,
            uuid,
        }
    }
}

} // verus!
