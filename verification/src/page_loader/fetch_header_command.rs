//! The HEAD request of a page, following redirects.
use vstd::prelude::*;

use crate::page_loader::http_utils::canonical_reason;
use crate::page_loader::http_utils::canonical_reason_of;
use crate::page_loader::http_utils::is_redirection;
use crate::page_loader::http_utils::map_status_code;
use crate::page_loader::http_utils::status_label;
use crate::page_loader::page_request::protocol_and_host_of;
use crate::responses::head_response::HeadResponse;
use crate::responses::headers::Headers;
use crate::responses::redirect::prefixed;
use crate::responses::redirect::Redirect;
use crate::responses::response_timings::utc_now_micros;
use crate::responses::response_timings::ResponseTimings;
use crate::responses::status_code::StatusCode;
use crate::uri_parse::parse_uri;
use crate::uri_service::full_url_plan;
use crate::uri_service::url_from_plan;
use crate::uri_service::UriService;

verus! {

/// What a HEAD request answered: its status and its headers (names in lower case).
pub struct HeadObservation {
    pub status: u16,
    pub headers: Headers,
}

/// What to do after a HEAD request.
pub enum HeadStep {
    /// Request the last redirect's destination next, with this redirect chain.
    FollowRedirect { redirects: Vec<Redirect> },
    /// The request is answered.
    Done(HeadResponse),
}

/// The url a HEAD request goes to: the last redirect's destination, or the
/// requested url.
pub open spec fn current_url(url: Seq<char>, redirects: Option<Seq<Redirect>>) -> Seq<char> {
    match redirects {
        Some(r) => if r.len() > 0 {
            r.last().destination@
        } else {
            url
        },
        None => url,
    }
}

/// The number of redirects followed so far, as the `u8` it is counted in.
pub open spec fn redirect_count(redirects: Option<Seq<Redirect>>) -> int {
    match redirects {
        Some(r) => (r.len() % 256) as int,
        None => 0,
    }
}

/// A redirect is followed: redirects are not ignored, fewer than the maximum
/// were followed, the status is 3xx and a `location` header is present.
pub open spec fn follows_redirect(
    ignore_redirects: bool,
    maximum_redirects: u8,
    redirects: Option<Seq<Redirect>>,
    status: u16,
    headers: Map<Seq<char>, Seq<char>>,
) -> bool {
    !ignore_redirects && redirect_count(redirects) < maximum_redirects && is_redirection(status)
        && headers.contains_key("location"@)
}

/// A redirect can be recorded: the current url has a scheme and a host, the
/// `location` forms a full url, and the status has a reason phrase.
pub open spec fn redirect_recordable(
    domain: Seq<char>,
    uri: Seq<char>,
    status: u16,
    location: Seq<char>,
) -> bool {
    &&& protocol_and_host_of(uri) is Some
    &&& url_from_plan(
        full_url_plan(
            domain,
            (protocol_and_host_of(uri)->0).0,
            location,
            (protocol_and_host_of(uri)->0).1,
            Some(uri),
        ),
    ) is Some
    &&& canonical_reason_of(status) is Some
}

/// A redirect chain for `url` is linked: the first redirect starts at `url`
/// and each later one where the one before it led.
pub open spec fn chain_linked(url: Seq<char>, rs: Seq<Redirect>) -> bool {
    &&& rs.len() > 0 ==> rs[0].source@ == url
    &&& forall|i: int| 1 <= i < rs.len() ==> (#[trigger] rs[i]).source@ == rs[i - 1].destination@
}

/// Following a redirect keeps the chain linked: the new redirect starts at the
/// url the HEAD request went to.
pub proof fn law_followed_redirects_stay_linked(url: Seq<char>, rs: Seq<Redirect>, next: Seq<Redirect>)
    requires
        chain_linked(url, rs),
        next.len() == rs.len() + 1,
        forall|i: int| 0 <= i < rs.len() ==> #[trigger] next[i] == rs[i],
        next.last().source@ == current_url(url, Some(rs)),
    ensures
        chain_linked(url, next),
{
    assert forall|i: int| 1 <= i < next.len() implies (#[trigger] next[i]).source@ == next[i
        - 1].destination@ by {
        if i < rs.len() {
            assert(next[i] == rs[i]);
            assert(next[i - 1] == rs[i - 1]);
        } else {
            assert(next[i - 1] == rs[i - 1]);
        }
    }
    if rs.len() > 0 {
        assert(next[0] == rs[0]);
    }
}

/// A redirect is only followed while fewer than the maximum have been: the
/// chain never grows beyond the maximum.
pub proof fn law_redirect_chain_bounded(
    ignore_redirects: bool,
    maximum_redirects: u8,
    rs: Seq<Redirect>,
    status: u16,
    headers: Map<Seq<char>, Seq<char>>,
)
    requires
        follows_redirect(ignore_redirects, maximum_redirects, Some(rs), status, headers),
        rs.len() < 256,
    ensures
        rs.len() + 1 <= maximum_redirects,
{
}

/// Every 3xx status with a `location` is followed, and nothing else is: a
/// redirect is taken exactly when redirects are not ignored, fewer than the
/// maximum were taken, the status lies in 300..=399 and a location is given.
pub proof fn law_every_3xx_with_location_is_followed(
    ignore_redirects: bool,
    maximum_redirects: u8,
    redirects: Option<Seq<Redirect>>,
    status: u16,
    headers: Map<Seq<char>, Seq<char>>,
)
    ensures
        follows_redirect(ignore_redirects, maximum_redirects, redirects, status, headers) <==> (
        !ignore_redirects && redirect_count(redirects) < maximum_redirects && 300 <= status <= 399
            && headers.contains_key("location"@)),
{
}

/// What holds of the redirects after every step of a HEAD run for `url`: the
/// chain is linked, no longer than the maximum, and empty where redirects are
/// ignored.
pub open spec fn redirect_run_ok(url: Seq<char>, ignore_redirects: bool, maximum_redirects: u8, rs: Seq<Redirect>) -> bool {
    &&& chain_linked(url, rs)
    &&& rs.len() <= maximum_redirects
    &&& ignore_redirects ==> rs.len() == 0
}

/// A whole run of HEAD requests keeps its redirects in order: it starts with
/// none, and each followed redirect (one more hop from the url last asked,
/// taken only where `follows_redirect` holds) keeps the chain linked, within the
/// maximum, and empty where redirects are ignored.
pub proof fn law_redirect_run(
    url: Seq<char>,
    ignore_redirects: bool,
    maximum_redirects: u8,
    rs: Seq<Redirect>,
    status: u16,
    headers: Map<Seq<char>, Seq<char>>,
    next: Seq<Redirect>,
)
    requires
        redirect_run_ok(url, ignore_redirects, maximum_redirects, rs),
        follows_redirect(ignore_redirects, maximum_redirects, Some(rs), status, headers),
        next.len() == rs.len() + 1,
        forall|i: int| 0 <= i < rs.len() ==> #[trigger] next[i] == rs[i],
        next.last().source@ == current_url(url, Some(rs)),
    ensures
        redirect_run_ok(url, ignore_redirects, maximum_redirects, Seq::empty()),
        redirect_run_ok(url, ignore_redirects, maximum_redirects, next),
{
    law_followed_redirects_stay_linked(url, rs, next);
    law_redirect_chain_bounded(ignore_redirects, maximum_redirects, rs, status, headers);
}

/// The HEAD request of a page: the decisions between the requests, which the
/// caller sends.
pub struct DefaultFetchHeaderCommand {}

impl DefaultFetchHeaderCommand {
    /// The redirects with one more hop appended: from the current url to the full
    /// url of its `location`, with the response's status, reason and headers.
    pub fn append_redirect(
        uri_service: &UriService,
        redirects: Option<Vec<Redirect>>,
        uri: String,
        status: u16,
        headers: &Headers,
        location: &str,
        redirect_start_time: i64,
    ) -> (r: Vec<Redirect>)
        requires
            100 <= status <= 999,
            redirect_recordable(uri_service.domain(), uri@, status, location@),
        ensures
            r@.len() == match redirects {
                Some(v) => v@.len() + 1,
                None => 1,
            },
            forall|i: int|
                0 <= i < r@.len() - 1 ==> #[trigger] r@[i] == match redirects {
                    Some(v) => v@[i],
                    None => r@[i],
                },
            r@.last().source@ == uri@,
            r@.last().destination@ == url_from_plan(
                full_url_plan(
                    uri_service.domain(),
                    (protocol_and_host_of(uri@)->0).0,
                    location@,
                    (protocol_and_host_of(uri@)->0).1,
                    Some(uri@),
                ),
            )->0,
            r@.last().http_response_code.code == status,
            r@.last().http_response_code.label@ == canonical_reason_of(status)->0,
            r@.last().headers@ == headers@,
            r@.last().response_timings.name@ == "Redirect."@ + uri@,
            r@.last().response_timings.start_time == Some(redirect_start_time),
            r@.last().response_timings.end_time is Some,
    {
        let parsed = parse_uri(uri.as_str());
        let (scheme, host) = match parsed {
            Some(p) => match (p.scheme, p.host) {
                (Some(s), Some(h)) => (s, h),
                _ => {
                    assert(false);
                    (String::new(), String::new())
                },
            },
            None => {
                assert(false);
                (String::new(), String::new())
            },
        };
        let adjusted = uri_service.form_full_url(
            scheme.as_str(),
            location,
            host.as_str(),
            &Some(uri.clone()),
        );
        let label = match canonical_reason(status) {
            Some(l) => l,
            None => {
                assert(false);
                String::new()
            },
        };
        let end_time = utc_now_micros();
        let name = prefixed("Redirect.", uri.as_str());
        let redirect = Redirect {
            source: uri,
            destination: adjusted,
            http_response_code: StatusCode { code: status, label },
            headers: headers.duplicate(),
            response_timings: ResponseTimings::from(name, redirect_start_time, end_time),
        };
        let mut redirects_for_next: Vec<Redirect> = match redirects {
            Some(v) => v,
            None => Vec::new(),
        };
        redirects_for_next.push(redirect);
        redirects_for_next
    }

    /// The step after a HEAD request for `url` (already `redirects` deep) that
    /// answered `response`, started at `start_time`; `None` where a redirect
    /// cannot be recorded (the current url lacks a scheme or host, the location
    /// forms no url, or the status has no reason phrase).
    pub fn fetch_header_step(
        url: &String,
        ignore_redirects: bool,
        maximum_redirects: u8,
        uri_service: &UriService,
        redirects: Option<Vec<Redirect>>,
        response: HeadObservation,
        start_time: i64,
    ) -> (r: Option<HeadStep>)
        requires
            100 <= response.status <= 999,
        ensures
            ({
                let rs = match redirects {
                    Some(v) => Some(v@),
                    None => None,
                };
                let uri = current_url(url@, rs);
                if follows_redirect(
                    ignore_redirects,
                    maximum_redirects,
                    rs,
                    response.status,
                    response.headers@,
                ) {
                    if redirect_recordable(
                        uri_service.domain(),
                        uri,
                        response.status,
                        response.headers@["location"@],
                    ) {
                        match r {
                            Some(HeadStep::FollowRedirect { redirects: next }) => {
                                &&& next@.len() == match rs {
                                    Some(v) => v.len() + 1,
                                    None => 1,
                                }
                                &&& forall|i: int|
                                    0 <= i < next@.len() - 1 ==> #[trigger] next@[i] == rs->0[i]
                                &&& next@.last().source@ == uri
                                &&& next@.last().destination@ == url_from_plan(
                                    full_url_plan(
                                        uri_service.domain(),
                                        (protocol_and_host_of(uri)->0).0,
                                        response.headers@["location"@],
                                        (protocol_and_host_of(uri)->0).1,
                                        Some(uri),
                                    ),
                                )->0
                                &&& next@.last().http_response_code.code == response.status
                                &&& next@.last().http_response_code.label@ == canonical_reason_of(
                                    response.status,
                                )->0
                                &&& next@.last().headers@ == response.headers@
                                &&& next@.last().response_timings.name@ == "Redirect."@ + uri
                                &&& next@.last().response_timings.start_time == Some(start_time)
                                &&& next@.last().response_timings.end_time is Some
                            },
                            _ => false,
                        }
                    } else {
                        r is None
                    }
                } else {
                    match r {
                        Some(HeadStep::Done(head)) => {
                            &&& head.requested_url@ == uri
                            &&& head.redirects@ == match rs {
                                Some(v) => v,
                                None => Seq::empty(),
                            }
                            &&& head.http_response_code.code == response.status
                            &&& head.http_response_code.label@ == status_label(response.status)
                            &&& head.headers@ == response.headers@
                            &&& head.response_timings.name@ == "HeadResponse."@ + uri
                            &&& head.response_timings.start_time == Some(start_time)
                            &&& head.response_timings.end_time is Some
                        },
                        _ => false,
                    }
                }
            }),
    {
        let uri: String = match &redirects {
            Some(v) => if v.len() > 0 {
                v[v.len() - 1].destination.clone()
            } else {
                url.clone()
            },
            None => url.clone(),
        };
        let num_redirects: u8 = match &redirects {
            Some(v) => (v.len() % 256) as u8,
            None => 0,
        };
        let can_process_redirects = !ignore_redirects && num_redirects < maximum_redirects && 300
            <= response.status && response.status <= 399;
        if can_process_redirects {
            match response.headers.get("location") {
                Some(location) => {
                    let recordable = match parse_uri(uri.as_str()) {
                        Some(p) => match (p.scheme, p.host) {
                            (Some(s), Some(h)) => uri_service.try_form_full_url(
                                s.as_str(),
                                location.as_str(),
                                h.as_str(),
                                &Some(uri.clone()),
                            ).is_some() && canonical_reason(response.status).is_some(),
                            _ => false,
                        },
                        None => false,
                    };
                    if !recordable {
                        return None;
                    }
                    let next = DefaultFetchHeaderCommand::append_redirect(
                        uri_service,
                        redirects,
                        uri,
                        response.status,
                        &response.headers,
                        location.as_str(),
                        start_time,
                    );
                    return Some(HeadStep::FollowRedirect { redirects: next });
                },
                None => {},
            }
        }
        let end_time = utc_now_micros();
        let name = prefixed("HeadResponse.", uri.as_str());
        let redirects_result: Vec<Redirect> = match redirects {
            Some(v) => v,
            None => Vec::new(),
        };
        Some(
            HeadStep::Done(
                HeadResponse {
                    redirects: redirects_result,
                    http_response_code: map_status_code(response.status),
                    headers: response.headers,
                    requested_url: uri,
                    response_timings: ResponseTimings::from(name, start_time, end_time),
                },
            ),
        )
    }
}

} // verus!
