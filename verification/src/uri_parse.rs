//! Parsing URIs with `hyper`.
use vstd::prelude::*;

verus! {

/// What the library reads of a parsed URI: its normalised text, its path and,
/// when present, its scheme and host.
#[derive(Debug, Clone)]
pub struct ParsedUri {
    pub text: String,
    pub scheme: Option<String>,
    pub host: Option<String>,
    pub path: String,
}

/// The mathematical value of a parsed URI.
pub struct ParsedUriView {
    pub text: Seq<char>,
    pub scheme: Option<Seq<char>>,
    pub host: Option<Seq<char>>,
    pub path: Seq<char>,
}

/// An optional string as an optional character sequence.
pub open spec fn opt_view(s: Option<String>) -> Option<Seq<char>> {
    match s {
        Some(x) => Some(x@),
        None => None,
    }
}

impl View for ParsedUri {
    type V = ParsedUriView;

    open spec fn view(&self) -> ParsedUriView {
        ParsedUriView {
            text: self.text@,
            scheme: opt_view(self.scheme),
            host: opt_view(self.host),
            path: self.path@,
        }
    }
}

/// An optional parsed URI as an optional mathematical value.
pub open spec fn opt_parsed_view(p: Option<ParsedUri>) -> Option<ParsedUriView> {
    match p {
        Some(x) => Some(x@),
        None => None,
    }
}

/// What `hyper::Uri`'s `FromStr` makes of a text: `None` when it rejects the
/// text, else the URI's `Display` text, `scheme_str`, `host` and `path`.
pub uninterp spec fn parsed_uri(s: Seq<char>) -> Option<ParsedUriView>;

/// Parses `s` with `<hyper::Uri as FromStr>::from_str` and reads the result's
/// `to_string()`, `scheme_str()`, `host()` and `path()`. The parse is a function of the
/// text alone; what it accepts and how it normalises is left to `hyper`.
#[verifier::external_body]
pub(crate) fn parse_uri(s: &str) -> (r: Option<ParsedUri>)
    ensures
        opt_parsed_view(r) == parsed_uri(s@),
{
    match s.parse::<hyper::Uri>() {
        Ok(u) => Some(
            ParsedUri {
                text: u.to_string(),
                scheme: u.scheme_str().map(String::from),
                host: u.host().map(String::from),
                path: u.path().to_string(),
            },
        ),
        Err(_) => None,
    }
}

} // verus!
