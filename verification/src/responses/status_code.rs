use vstd::prelude::*;

verus! {

/// An HTTP status code with its reason phrase.
#[derive(Debug, Clone)]
pub struct StatusCode {
    pub code: u16,
    pub label: String,
}

impl StatusCode {
    /// A copy with the same code and label.
    pub fn duplicate(&self) -> (r: StatusCode)
        ensures
            r.code == self.code,
            r.label@ == self.label@,
    {
        StatusCode { code: self.code, label: self.label.clone() }
    }
}

} // verus!
