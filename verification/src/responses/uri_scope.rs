use vstd::prelude::*;

verus! {

/// Where a link points, relative to the host a crawl started on.
#[derive(Debug, Clone, Copy, PartialEq, Eq, Structural)]
pub enum UriScope {
    /// `/` or the host itself
    Root,
    /// `example.com/deeplink`, `deeplink`, `/deeplink`
    SameDomain,
    /// `diffsub.example.com/deeplink`
    DifferentSubDomain,
    /// `https://www.end-of-the-internet.com/`
    External,
    /// `#somewhere`
    Anchor,
    /// `mailto:foo.bar@example.com`
    Mailto,
    /// `data:image/png;base64,...`
    EmbeddedImage,
    /// `javascript:function foo(){}`
    Code,
    /// `somespecial:anycode`
    UnknownPrefix,
}

} // verus!
