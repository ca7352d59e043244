//! HTTP details: status codes, headers, user agents and rate limiting.
use std::collections::HashMap;

use vstd::prelude::*;

use crate::responses::headers::pairs_to_map;
use crate::responses::headers::Headers;
use crate::responses::status_code::StatusCode;
use crate::text::chars_of;
use crate::text::concat;
use crate::text::string_of;

verus! {

/// The reason phrase `hyper::StatusCode::canonical_reason` gives for a status
/// code (a code in 100..=999), if the code has one.
pub uninterp spec fn canonical_reason_of(code: u16) -> Option<Seq<char>>;

/// `hyper::StatusCode::from_u16(code)` (which accepts exactly 100..=999) and
/// its `canonical_reason()`: the registered reason phrase of the code, if any,
/// a function of the code alone.
#[verifier::external_body]
pub(crate) fn canonical_reason(code: u16) -> (r: Option<String>)
    requires
        100 <= code <= 999,
    ensures
        match r {
            Some(s) => canonical_reason_of(code) == Some(s@),
            None => canonical_reason_of(code) is None,
        },
{
    hyper::StatusCode::from_u16(code).unwrap().canonical_reason().map(String::from)
}

/// A status in 200..=299 (`is_success`).
pub open spec fn is_success(code: u16) -> bool {
    200 <= code <= 299
}

/// A status in 300..=399 (`is_redirection`).
pub open spec fn is_redirection(code: u16) -> bool {
    300 <= code <= 399
}

/// The labels of the unofficial Cloudflare status codes.
pub open spec fn unofficial_status_label(code: u16) -> Option<Seq<char>> {
    if code == 520 {
        Some("[CLOUDFLARE] Web Server Returned an Unknown Error"@)
    } else if code == 521 {
        Some("[CLOUDFLARE] Web Server Is Down"@)
    } else if code == 522 {
        Some("[CLOUDFLARE] Connection Timed Out"@)
    } else if code == 523 {
        Some("[CLOUDFLARE] Origin Is Unreachable"@)
    } else if code == 524 {
        Some("[CLOUDFLARE] A Timeout Occurred"@)
    } else if code == 525 {
        Some("[CLOUDFLARE] SSL Handshake Failed"@)
    } else if code == 526 {
        Some("[CLOUDFLARE] Invalid SSL Certificate"@)
    } else if code == 527 {
        Some("[CLOUDFLARE] Railgun Error"@)
    } else {
        None
    }
}

/// The label of a status code: its registered reason phrase, else its
/// Cloudflare label, else `Unknown Status Code`.
pub open spec fn status_label(code: u16) -> Seq<char> {
    match canonical_reason_of(code) {
        Some(reason) => reason,
        None => match unofficial_status_label(code) {
            Some(label) => label,
            None => "Unknown Status Code"@,
        },
    }
}

/// The table of unofficial (Cloudflare) status codes and their labels.
pub fn build_status_codes() -> (r: HashMap<u16, &'static str>)
    ensures
        forall|code: u16|
            #![trigger r@.contains_key(code)]
            r@.contains_key(code) <==> unofficial_status_label(code) is Some,
        forall|code: u16|
            #![trigger r@[code]]
            r@.contains_key(code) ==> r@[code]@ == unofficial_status_label(code)->0,
{
    let mut status_codes: HashMap<u16, &'static str> = HashMap::new();
    status_codes.insert(520u16, "[CLOUDFLARE] Web Server Returned an Unknown Error");
    status_codes.insert(521u16, "[CLOUDFLARE] Web Server Is Down");
    status_codes.insert(522u16, "[CLOUDFLARE] Connection Timed Out");
    status_codes.insert(523u16, "[CLOUDFLARE] Origin Is Unreachable");
    status_codes.insert(524u16, "[CLOUDFLARE] A Timeout Occurred");
    status_codes.insert(525u16, "[CLOUDFLARE] SSL Handshake Failed");
    status_codes.insert(526u16, "[CLOUDFLARE] Invalid SSL Certificate");
    status_codes.insert(527u16, "[CLOUDFLARE] Railgun Error");
    status_codes
}

/// A status code with its label: the registered reason phrase, else the
/// Cloudflare label, else `Unknown Status Code`.
pub fn map_status_code(code: u16) -> (r: StatusCode)
    requires
        100 <= code <= 999,
    ensures
        r.code == code,
        r.label@ == status_label(code),
{
    let unofficial_codes = build_status_codes();
    let label: String = match canonical_reason(code) {
        Some(reason) => reason,
        None => match unofficial_codes.get(&code) {
            Some(label) => string_of(&chars_of(*label)),
            None => string_of(&chars_of("Unknown Status Code")),
        },
    };
    StatusCode { code, label }
}

/// An ASCII upper-case letter mapped to lower case; any other character kept.
pub open spec fn ascii_lower(c: char) -> char {
    if 'A' <= c && c <= 'Z' {
        ((c as u32) + 32) as char
    } else {
        c
    }
}

/// `s` with its ASCII letters in lower case (header names are ASCII).
pub open spec fn ascii_lowercase(s: Seq<char>) -> Seq<char> {
    s.map_values(|c: char| ascii_lower(c))
}

fn ascii_lowercase_exec(s: &str) -> (r: String)
    ensures
        r@ == ascii_lowercase(s@),
{
    let v = chars_of(s);
    let mut out: Vec<char> = Vec::new();
    let mut i: usize = 0;
    while i < v.len()
        invariant
            i <= v.len(),
            out@ == ascii_lowercase(v@.take(i as int)),
        decreases v.len() - i,
    {
        let c = v[i];
        let l = if 'A' <= c && c <= 'Z' {
            ((c as u8) + 32) as char
        } else {
            c
        };
        out.push(l);
        i = i + 1;
        assert(out@ =~= ascii_lowercase(v@.take(i as int)));
    }
    assert(v@.take(i as int) =~= v@);
    string_of(&out)
}

/// The pairs with their names in lower case.
pub open spec fn lowercase_names(pairs: Seq<(Seq<char>, Seq<char>)>) -> Seq<(Seq<char>, Seq<char>)> {
    pairs.map_values(|p: (Seq<char>, Seq<char>)| (ascii_lowercase(p.0), p.1))
}

/// The response headers as a map from lower-cased name to value; for a
/// repeated name the last value wins.
pub fn response_headers_to_map(headers: &Vec<(String, String)>) -> (r: Headers)
    ensures
        r@ == pairs_to_map(
            lowercase_names(headers@.map_values(|p: (String, String)| (p.0@, p.1@))),
        ),
{
    let ghost pv = lowercase_names(headers@.map_values(|p: (String, String)| (p.0@, p.1@)));
    let mut map = Headers::new();
    let mut i: usize = 0;
    assert(pv.take(0) =~= Seq::<(Seq<char>, Seq<char>)>::empty());
    while i < headers.len()
        invariant
            i <= headers.len(),
            pv == lowercase_names(headers@.map_values(|p: (String, String)| (p.0@, p.1@))),
            map@ == pairs_to_map(pv.take(i as int)),
        decreases headers.len() - i,
    {
        let name = ascii_lowercase_exec(headers[i].0.as_str());
        let value = headers[i].1.clone();
        map.insert(name, value);
        assert(pv.take(i + 1).drop_last() =~= pv.take(i as int));
        i = i + 1;
    }
    assert(pv.take(i as int) =~= pv);
    map
}

/// The user agent sent with a request: the configured agent, followed by
/// ` +<url>` when a robots.txt info url is configured.
pub open spec fn user_agent_text(user_agent: Seq<char>, robots_txt_info_url: Option<Seq<char>>) -> Seq<
    char,
> {
    match robots_txt_info_url {
        Some(url) => user_agent + " +"@ + url,
        None => user_agent,
    }
}

/// The user agent sent with a request.
pub fn user_agent_string(user_agent: &str, robots_txt_info_url: &Option<String>) -> (r: String)
    ensures
        r@ == user_agent_text(
            user_agent@,
            match robots_txt_info_url {
                Some(u) => Some(u@),
                None => None,
            },
        ),
{
    let agent = chars_of(user_agent);
    match robots_txt_info_url {
        Some(url) => string_of(&concat(&concat(&agent, &chars_of(" +")), &chars_of(url.as_str()))),
        None => string_of(&agent),
    }
}

/// A request must still wait: no more than `rate_limiting_ms` milliseconds
/// have passed since the last request.
pub fn is_blocked(elapsed_ms: u128, rate_limiting_ms: usize) -> (r: bool)
    ensures
        r == (elapsed_ms <= rate_limiting_ms),
{
    elapsed_ms <= rate_limiting_ms as u128
}

} // verus!
