use vstd::prelude::*;

verus! {

/// Sent to the callback once a crawl task has finished.
#[derive(Debug, Clone)]
pub struct CompleteResponse {
    /// The task's identifier (a UUID as a 128-bit number).
    pub uuid: u128,
}

} // verus!
