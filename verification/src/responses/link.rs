use vstd::prelude::*;

use crate::responses::uri_protocol::UriProtocol;
use crate::responses::uri_scope::UriScope;
use crate::text::trim;
use crate::text::trimmed;

verus! {

/// A link found on a page.
#[derive(Debug, Clone)]
pub struct Link {
    pub uri: String,
    pub scope: Option<UriScope>,
    pub protocol: Option<UriProtocol>,
    pub source_tag: Option<String>,
}

/// The mathematical value of a link.
pub struct LinkView {
    pub uri: Seq<char>,
    pub scope: Option<UriScope>,
    pub protocol: Option<UriProtocol>,
    pub source_tag: Option<Seq<char>>,
}

impl View for Link {
    type V = LinkView;

    open spec fn view(&self) -> LinkView {
        LinkView {
            uri: self.uri@,
            scope: self.scope,
            protocol: self.protocol,
            source_tag: match self.source_tag {
                Some(t) => Some(t@),
                None => None,
            },
        }
    }
}

impl Link {
    /// A link to the trimmed text, with nothing else known of it.
    pub fn from_str(s: &str) -> (r: Link)
        ensures
            r@ == (LinkView { uri: trim(s@), scope: None, protocol: None, source_tag: None }),
    {
        Link { uri: trimmed(s), scope: None, protocol: None, source_tag: None }
    }

    /// A link to the trimmed text with the given scope.
    pub fn from_str_with_scope(s: &str, scope: Option<UriScope>) -> (r: Link)
        ensures
            r@ == (LinkView { uri: trim(s@), scope, protocol: None, source_tag: None }),
    {
        Link { uri: trimmed(s), scope, protocol: None, source_tag: None }
    }

    /// A copy of this link.
    pub fn duplicate(&self) -> (r: Link)
        ensures
            r@ == self@,
    {
        Link {
            uri: self.uri.clone(),
            scope: self.scope,
            protocol: self.protocol,
            source_tag: match &self.source_tag {
                Some(t) => Some(t.clone()),
                None => None,
            },
        }
    }
}

impl PartialEq for Link {
    /// Two links are equal when they point to the same text.
    fn eq(&self, other: &Self) -> (r: bool) {
        self.uri == other.uri
    }
}

impl vstd::std_specs::cmp::PartialEqSpecImpl for Link {
    open spec fn obeys_eq_spec() -> bool {
        true
    }

    open spec fn eq_spec(&self, other: &Self) -> bool {
        self.uri@ == other.uri@
    }
}

} // verus!
