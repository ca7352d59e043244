use vstd::prelude::*;

verus! {

/// The protocol a link is reached by.
#[derive(Debug, Clone, Copy, PartialEq, Eq, Structural)]
pub enum UriProtocol {
    /// `http://example.com/bar`
    HTTP,
    /// `https://example.com/bar`
    HTTPS,
    /// `//example.com/bar`
    IMPLICIT,
}

} // verus!
