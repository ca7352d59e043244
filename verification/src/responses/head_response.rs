use vstd::prelude::*;

use crate::responses::headers::Headers;
use crate::responses::redirect::prefixed;
use crate::responses::redirect::Redirect;
use crate::responses::response_timings::ResponseTimings;
use crate::responses::status_code::StatusCode;

verus! {

/// The outcome of a HEAD request, with the redirects followed to get it.
#[derive(Debug, Clone)]
pub struct HeadResponse {
    pub requested_url: String,
    pub redirects: Vec<Redirect>,
    pub http_response_code: StatusCode,
    pub headers: Headers,
    pub response_timings: ResponseTimings,
}

/// The url a HEAD request ended on: the last redirect's destination, or the
/// requested url when nothing redirected.
pub open spec fn final_uri_of(requested_url: Seq<char>, redirects: Seq<Redirect>) -> Seq<char> {
    if redirects.len() == 0 {
        requested_url
    } else {
        redirects.last().destination@
    }
}

impl HeadResponse {
    /// A response without redirects or headers, timed from now.
    pub fn new(requested_url: String, http_response_code: StatusCode) -> (r: HeadResponse)
        ensures
            r.requested_url@ == requested_url@,
            r.redirects@.len() == 0,
            r.http_response_code == http_response_code,
            r.headers@ == Map::<Seq<char>, Seq<char>>::empty(),
            r.response_timings.name@ == "HEADResponse."@ + requested_url@,
            r.response_timings.start_time is Some,
            r.response_timings.end_time is None,
    {
        let name = prefixed("HEADResponse.", requested_url.as_str());
        HeadResponse {
            requested_url,
            redirects: Vec::new(),
            http_response_code,
            headers: Headers::new(),
            response_timings: ResponseTimings::new(name),
        }
    }

    /// The url the request ended on after following its redirects.
    pub fn get_final_uri(&self) -> (r: String)
        ensures
            r@ == final_uri_of(self.requested_url@, self.redirects@),
    {
        if self.redirects.len() == 0 {
            return self.requested_url.clone();
        }
        self.redirects[self.redirects.len() - 1].destination.clone()
    }
}

} // verus!
