use vstd::prelude::*;

use crate::responses::headers::Headers;
use crate::responses::response_timings::ResponseTimings;
use crate::responses::status_code::StatusCode;
use crate::text::chars_of;
use crate::text::concat;
use crate::text::string_of;

verus! {

/// One hop of a redirect chain.
#[derive(Debug, Clone)]
pub struct Redirect {
    pub source: String,
    pub destination: String,
    pub http_response_code: StatusCode,
    pub headers: Headers,
    pub response_timings: ResponseTimings,
}

/// `prefix` followed by `s`, as a new string.
pub fn prefixed(prefix: &str, s: &str) -> (r: String)
    ensures
        r@ == prefix@ + s@,
{
    let a = chars_of(prefix);
    let b = chars_of(s);
    string_of(&concat(&a, &b))
}

impl Redirect {
    /// A redirect from `source` to `destination` with status 200 "OK", no
    /// headers and timings named `Redirects.<source>`.
    pub fn from(source: String, destination: String) -> (r: Redirect)
        ensures
            r.source@ == source@,
            r.destination@ == destination@,
            r.http_response_code.code == 200,
            r.http_response_code.label@ == "OK"@,
            r.headers@ == Map::<Seq<char>, Seq<char>>::empty(),
            r.response_timings.name@ == "Redirects."@ + source@,
            r.response_timings.start_time is Some,
            r.response_timings.end_time is None,
    {
        let name = prefixed("Redirects.", source.as_str());
        let label = string_of(&chars_of("OK"));
        Redirect {
            source,
            destination,
            http_response_code: StatusCode { code: 200, label },
            headers: Headers::new(),
            response_timings: ResponseTimings::new(name),
        }
    }
}

} // verus!
