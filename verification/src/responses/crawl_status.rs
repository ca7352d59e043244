use vstd::prelude::*;

verus! {

/// Why a page was reported without being loaded.
#[derive(Debug, Clone, PartialEq, Eq)]
pub enum CrawlStatus {
    /// The page could not be reached; the message says why.
    ConnectionError(String),
    /// robots.txt forbids the page.
    RestrictedByRobotsTxt,
    /// The page lies deeper than the configured maximum depth.
    MaximumCrawlDepthReached,
}

/// The mathematical value of a crawl status.
pub enum CrawlStatusView {
    ConnectionError(Seq<char>),
    RestrictedByRobotsTxt,
    MaximumCrawlDepthReached,
}

impl View for CrawlStatus {
    type V = CrawlStatusView;

    open spec fn view(&self) -> CrawlStatusView {
        match self {
            CrawlStatus::ConnectionError(m) => CrawlStatusView::ConnectionError(m@),
            CrawlStatus::RestrictedByRobotsTxt => CrawlStatusView::RestrictedByRobotsTxt,
            CrawlStatus::MaximumCrawlDepthReached => CrawlStatusView::MaximumCrawlDepthReached,
        }
    }
}

} // verus!
