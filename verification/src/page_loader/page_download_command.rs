//! The GET request of a page.
use vstd::prelude::*;

use crate::page_loader::http_utils::map_status_code;
use crate::page_loader::http_utils::status_label;
use crate::responses::get_response::GetResponse;
use crate::responses::headers::Headers;
use crate::responses::response_timings::utc_now_micros;
use crate::responses::response_timings::ResponseTimings;

verus! {

/// The GET request of a page: what its answer is recorded as. The caller
/// sends the request and reads the body.
pub struct DefaultPageDownloadCommand {}

impl DefaultPageDownloadCommand {
    /// The response of a GET request for `uri`, started at `start_time`, that
    /// answered `status` with `headers` (names in lower case) and `body`: timed
    /// under the url's name, ending now.
    pub fn download_response(uri: String, status: u16, headers: Headers, body: String, start_time: i64) -> (r:
        GetResponse)
        requires
            100 <= status <= 999,
        ensures
            r.requested_url@ == uri@,
            r.http_response_code.code == status,
            r.http_response_code.label@ == status_label(status),
            r.headers@ == headers@,
            r.body is Some,
            r.body->0@ == body@,
            r.response_timings.name@ == uri@,
            r.response_timings.start_time == Some(start_time),
            r.response_timings.end_time is Some,
    {
        let http_response_code = map_status_code(status);
        let end_time = utc_now_micros();
        let name = uri.clone();
        GetResponse {
            requested_url: uri,
            http_response_code,
            headers,
            body: Some(body),
            response_timings: ResponseTimings::from(name, start_time, end_time),
        }
    }
}

} // verus!
