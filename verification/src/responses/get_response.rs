use vstd::prelude::*;

use crate::responses::headers::Headers;
use crate::responses::redirect::prefixed;
use crate::responses::response_timings::ResponseTimings;
use crate::responses::status_code::StatusCode;

verus! {

/// The outcome of a GET request.
#[derive(Debug, Clone)]
pub struct GetResponse {
    pub requested_url: String,
    pub http_response_code: StatusCode,
    pub headers: Headers,
    pub body: Option<String>,
    pub response_timings: ResponseTimings,
}

impl GetResponse {
    /// A response without headers or body, timed from now.
    pub fn new(requested_url: String, http_response_code: StatusCode) -> (r: GetResponse)
        ensures
            r.requested_url@ == requested_url@,
            r.http_response_code == http_response_code,
            r.headers@ == Map::<Seq<char>, Seq<char>>::empty(),
            r.body is None,
            r.response_timings.name@ == "GETResponse."@ + requested_url@,
            r.response_timings.start_time is Some,
            r.response_timings.end_time is None,
    {
        let name = prefixed("GETResponse.", requested_url.as_str());
        GetResponse {
            requested_url,
            http_response_code,
            headers: Headers::new(),
            body: None,
            response_timings: ResponseTimings::new(name),
        }
    }
}

} // verus!
