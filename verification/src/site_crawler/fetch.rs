//! The decisions of loading one page of a site crawl: where to send the HEAD
//! request, which redirects to follow, whether to download, whether the
//! download is HTML.
use std::sync::Arc;

use vstd::prelude::*;

use crate::link_type_checker::LinkTypeChecker;
use crate::page_loader::http_utils::is_redirection;
use crate::page_loader::http_utils::is_success;
use crate::text::chars_of;
use crate::text::contains;
use crate::text::contains_seq;
use crate::text::has_prefix;
use crate::text::starts_with;
use crate::uri_parse::parse_uri;
use crate::uri_parse::parsed_uri;
use crate::uri_service::full_url_plan;
use crate::uri_service::opt_string_view;
use crate::uri_service::url_from_plan;
use crate::uri_service::UriService;

verus! {

/// The full url of `uri` found on a page of `host` reached by `protocol`,
/// links classified against `host` itself.
pub open spec fn site_url(protocol: Seq<char>, uri: Seq<char>, host: Seq<char>, parent: Option<Seq<char>>) -> Option<
    Seq<char>,
> {
    url_from_plan(full_url_plan(host, protocol, uri, host, parent))
}

/// The full url of `uri` found on a page of `host` reached by `protocol`, with
/// `parent_uri` the page's own url; `None` where no url can be formed.
pub fn site_full_url(protocol: &str, uri: &str, host: &str, parent_uri: &Option<String>) -> (r: Option<
    String,
>)
    ensures
        opt_string_view(r) == site_url(protocol@, uri@, host@, opt_string_view(*parent_uri)),
{
    let service = UriService::new(Arc::new(LinkTypeChecker::new(host)));
    service.try_form_full_url(protocol, uri, host, parent_uri)
}

/// Where the HEAD request of a page goes: the full url of the path of its url.
pub open spec fn head_request_url(protocol: Seq<char>, item_uri: Seq<char>, host: Seq<char>, parent: Option<
    Seq<char>,
>) -> Option<Seq<char>> {
    match parsed_uri(item_uri) {
        Some(p) => site_url(protocol, p.path, host, parent),
        None => None,
    }
}

/// The url the HEAD request of the page at `item_uri` goes to; `None` where
/// `item_uri` does not parse or its path forms no url.
pub fn head_request_target(protocol: &str, item_uri: &str, host: &str, parent_uri: &Option<String>) -> (r:
    Option<String>)
    ensures
        opt_string_view(r) == head_request_url(protocol@, item_uri@, host@, opt_string_view(*parent_uri)),
{
    match parse_uri(item_uri) {
        Some(p) => site_full_url(protocol, p.path.as_str(), host, parent_uri),
        None => None,
    }
}

/// What follows a HEAD request.
pub enum HeadNext {
    /// Send the HEAD request to this url, one redirect further.
    Follow { uri: String },
    /// The HEAD response is the page's.
    Done,
}

/// A redirect is followed: redirects are not ignored, fewer than the maximum
/// were followed, the status is 3xx and the response names a location.
pub open spec fn follows_site_redirect(
    ignore_redirects: bool,
    current_redirect: u8,
    maximum_redirects: u8,
    status: u16,
    location: Option<Seq<char>>,
) -> bool {
    !ignore_redirects && current_redirect < maximum_redirects && is_redirection(status) && location is Some
}

/// Where a redirect from `uri` to `location` leads: the full url of the
/// location on `uri`'s host, reached by `uri`'s scheme.
pub open spec fn redirect_target(uri: Seq<char>, location: Seq<char>, parent: Option<Seq<char>>) -> Option<
    Seq<char>,
> {
    match parsed_uri(uri) {
        Some(p) => match (p.scheme, p.host) {
            (Some(s), Some(h)) => site_url(s, location, h, parent),
            _ => None,
        },
        None => None,
    }
}

/// The step after the HEAD request to `uri` (the `current_redirect`-th) that
/// answered `status` with the `location` header: follow the redirect, or stop.
/// `None` where a redirect should be followed but `uri` lacks a scheme or host
/// or the location forms no url.
pub fn fetch_head_step(
    uri: &str,
    ignore_redirects: bool,
    current_redirect: u8,
    maximum_redirects: u8,
    status: u16,
    location: &Option<String>,
    parent_uri: &Option<String>,
) -> (r: Option<HeadNext>)
    ensures
        follows_site_redirect(
            ignore_redirects,
            current_redirect,
            maximum_redirects,
            status,
            opt_string_view(*location),
        ) ==> match redirect_target(uri@, location->0@, opt_string_view(*parent_uri)) {
            Some(t) => r matches Some(HeadNext::Follow { uri: next }) && next@ == t,
            None => r is None,
        },
        !follows_site_redirect(
            ignore_redirects,
            current_redirect,
            maximum_redirects,
            status,
            opt_string_view(*location),
        ) ==> r matches Some(HeadNext::Done),
{
    if ignore_redirects || !(current_redirect < maximum_redirects) || !(300 <= status && status <= 399) {
        return Some(HeadNext::Done);
    }
    match location {
        Some(loc) => match parse_uri(uri) {
            Some(p) => match (p.scheme, p.host) {
                (Some(s), Some(h)) => match site_full_url(s.as_str(), loc.as_str(), h.as_str(), parent_uri) {
                    Some(t) => Some(HeadNext::Follow { uri: t }),
                    None => None,
                },
                _ => None,
            },
            None => None,
        },
        None => Some(HeadNext::Done),
    }
}

/// What the HEAD response of a page decides.
#[derive(PartialEq, Eq, Structural, Clone, Copy, Debug)]
pub enum HeadVerdict {
    /// The status is not a success: the load fails with the HEAD response recorded.
    Failed,
    /// The content type is not HTML: the load fails.
    NotHtml,
    /// The page is downloaded.
    Download,
}

/// The verdict on a HEAD response: a status outside 2xx fails; a content type
/// that does not start with `text/html` is skipped; else the page is downloaded.
pub open spec fn head_verdict_of(status: u16, content_type: Option<Seq<char>>) -> HeadVerdict {
    if !is_success(status) {
        HeadVerdict::Failed
    } else {
        match content_type {
            Some(ct) => if has_prefix(ct, "text/html"@) {
                HeadVerdict::Download
            } else {
                HeadVerdict::NotHtml
            },
            None => HeadVerdict::Download,
        }
    }
}

/// The verdict on the HEAD response with `status` and `content_type`.
pub fn head_verdict(status: u16, content_type: &Option<String>) -> (r: HeadVerdict)
    ensures
        r == head_verdict_of(status, opt_string_view(*content_type)),
{
    if !(200 <= status && status <= 299) {
        return HeadVerdict::Failed;
    }
    match content_type {
        Some(ct) => if starts_with(&chars_of(ct.as_str()), &chars_of("text/html")) {
            HeadVerdict::Download
        } else {
            HeadVerdict::NotHtml
        },
        None => HeadVerdict::Download,
    }
}

/// A downloaded page counts as loaded when its content type contains `text/html`.
pub open spec fn is_html_download(content_type: Option<Seq<char>>) -> bool {
    match content_type {
        Some(ct) => contains_seq(ct, "text/html"@),
        None => false,
    }
}

/// Whether a download with `content_type` is an HTML page.
pub fn page_verdict(content_type: &Option<String>) -> (r: bool)
    ensures
        r == is_html_download(opt_string_view(*content_type)),
{
    match content_type {
        Some(ct) => contains(&chars_of(ct.as_str()), &chars_of("text/html")),
        None => false,
    }
}

/// What a HEAD response means for reading a page's text.
#[derive(PartialEq, Eq, Structural, Clone, Copy, Debug)]
pub enum TextFetchVerdict {
    /// The page has no text to read: the status is not a success, or the
    /// content is not HTML. The text is empty.
    NoText,
    /// The response names no content type: an error.
    MissingContentType,
    /// The page is downloaded and its body is the text.
    Download,
}

/// The verdict for reading a page's text: a status outside 2xx gives no text,
/// a missing content type is an error, a content type without `text/html`
/// gives no text; else the page is downloaded.
pub open spec fn text_fetch_verdict_of(status: u16, content_type: Option<Seq<char>>) -> TextFetchVerdict {
    if !is_success(status) {
        TextFetchVerdict::NoText
    } else {
        match content_type {
            None => TextFetchVerdict::MissingContentType,
            Some(ct) => if contains_seq(ct, "text/html"@) {
                TextFetchVerdict::Download
            } else {
                TextFetchVerdict::NoText
            },
        }
    }
}

/// The verdict for reading the text of a page whose HEAD request answered
/// `status` with `content_type`.
pub fn text_fetch_verdict(status: u16, content_type: &Option<String>) -> (r: TextFetchVerdict)
    ensures
        r == text_fetch_verdict_of(status, opt_string_view(*content_type)),
{
    if !(200 <= status && status <= 299) {
        return TextFetchVerdict::NoText;
    }
    match content_type {
        None => TextFetchVerdict::MissingContentType,
        Some(ct) => if contains(&chars_of(ct.as_str()), &chars_of("text/html")) {
            TextFetchVerdict::Download
        } else {
            TextFetchVerdict::NoText
        },
    }
}

/// What a HEAD response means for loading a page into its record.
#[derive(PartialEq, Eq, Structural, Clone, Copy, Debug)]
pub enum PageFetchVerdict {
    /// The status is not a success: the HEAD response is recorded, and the load fails.
    Failed,
    /// The content is not HTML: the load fails.
    NotHtml,
    /// The page is downloaded and its response recorded.
    Download,
    /// No content type is named: nothing more is loaded, and the load succeeds.
    Unknown,
}

/// The verdict for loading a page: a status outside 2xx fails; a content type
/// without `text/html` fails; with one the page is downloaded; without a
/// content type nothing more is done.
pub open spec fn page_fetch_verdict_of(status: u16, content_type: Option<Seq<char>>) -> PageFetchVerdict {
    if !is_success(status) {
        PageFetchVerdict::Failed
    } else {
        match content_type {
            None => PageFetchVerdict::Unknown,
            Some(ct) => if contains_seq(ct, "text/html"@) {
                PageFetchVerdict::Download
            } else {
                PageFetchVerdict::NotHtml
            },
        }
    }
}

/// The verdict for loading a page whose HEAD request answered `status` with
/// `content_type`.
pub fn page_fetch_verdict(status: u16, content_type: &Option<String>) -> (r: PageFetchVerdict)
    ensures
        r == page_fetch_verdict_of(status, opt_string_view(*content_type)),
{
    if !(200 <= status && status <= 299) {
        return PageFetchVerdict::Failed;
    }
    match content_type {
        None => PageFetchVerdict::Unknown,
        Some(ct) => if contains(&chars_of(ct.as_str()), &chars_of("text/html")) {
            PageFetchVerdict::Download
        } else {
            PageFetchVerdict::NotHtml
        },
    }
}

} // verus!
