//! A request to load one page.
use vstd::prelude::*;

use crate::uri_parse::parse_uri;
use crate::uri_parse::parsed_uri;

verus! {

/// A page to load: the full url, the link text it came from, and when it was
/// last crawled (microseconds since the Unix epoch).
#[derive(Clone, Debug)]
pub struct PageRequest {
    pub url: String,
    pub raw_url: String,
    pub last_crawled_timestamp: Option<i64>,
}

/// The scheme and host `hyper` finds in `url`, when it parses and has both.
pub open spec fn protocol_and_host_of(url: Seq<char>) -> Option<(Seq<char>, Seq<char>)> {
    match parsed_uri(url) {
        Some(p) => match (p.scheme, p.host) {
            (Some(s), Some(h)) => Some((s, h)),
            _ => None,
        },
        None => None,
    }
}

impl PageRequest {
    /// A request for `url`, reached through the link text `raw_url`.
    pub fn new(url: String, raw_url: String, last_crawled_timestamp: Option<i64>) -> (r:
        PageRequest)
        ensures
            r.url@ == url@,
            r.raw_url@ == raw_url@,
            r.last_crawled_timestamp == last_crawled_timestamp,
    {
        PageRequest { url, raw_url, last_crawled_timestamp }
    }

    /// The url as `hyper` normalises it.
    pub fn get_uri(&self) -> (r: String)
        requires
            parsed_uri(self.url@) is Some,
        ensures
            r@ == parsed_uri(self.url@)->0.text,
    {
        match parse_uri(self.url.as_str()) {
            Some(p) => p.text,
            None => String::new(),
        }
    }

    /// The url as `hyper` normalises it, or `None` when it does not parse.
    pub fn try_get_uri(&self) -> (r: Option<String>)
        ensures
            match r {
                Some(u) => parsed_uri(self.url@) is Some && u@ == parsed_uri(self.url@)->0.text,
                None => parsed_uri(self.url@) is None,
            },
    {
        if parse_uri(self.url.as_str()).is_some() {
            Some(self.get_uri())
        } else {
            None
        }
    }

    /// The url's scheme.
    pub fn get_protocol(&self) -> (r: String)
        requires
            parsed_uri(self.url@) is Some,
            parsed_uri(self.url@)->0.scheme is Some,
        ensures
            r@ == parsed_uri(self.url@)->0.scheme->0,
    {
        match parse_uri(self.url.as_str()) {
            Some(p) => match p.scheme {
                Some(s) => s,
                None => String::new(),
            },
            None => String::new(),
        }
    }

    /// The url's host.
    pub fn get_host(&self) -> (r: String)
        requires
            parsed_uri(self.url@) is Some,
            parsed_uri(self.url@)->0.host is Some,
        ensures
            r@ == parsed_uri(self.url@)->0.host->0,
    {
        match parse_uri(self.url.as_str()) {
            Some(p) => match p.host {
                Some(h) => h,
                None => String::new(),
            },
            None => String::new(),
        }
    }

    /// The url's scheme and host, or `None` when it lacks either.
    pub fn try_protocol_and_host(&self) -> (r: Option<(String, String)>)
        ensures
            match r {
                Some(ph) => protocol_and_host_of(self.url@) == Some((ph.0@, ph.1@)),
                None => protocol_and_host_of(self.url@) is None,
            },
    {
        match parse_uri(self.url.as_str()) {
            Some(p) => {
                if p.scheme.is_some() && p.host.is_some() {
                    Some((self.get_protocol(), self.get_host()))
                } else {
                    None
                }
            },
            None => None,
        }
    }
}

} // verus!
