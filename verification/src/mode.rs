use vstd::prelude::*;

verus! {

/// How a fetch may proceed: from local stores, from the server, and whether
/// the caller wants the fetched values reported back.
#[derive(Clone, Copy, Debug, PartialEq, Eq, Structural)]
pub struct FetchMode {
    pub local: bool,
    pub remote: bool,
    pub ignore_result: bool,
}

impl FetchMode {
    /// Local stores only, the server is not contacted.
    pub open spec fn is_local_spec(self) -> bool {
        self.local && !self.remote
    }

    /// The server only, local stores are skipped.
    pub open spec fn is_remote_spec(self) -> bool {
        self.remote && !self.local
    }

    pub fn is_local(&self) -> (r: bool)
        ensures
            r == self.is_local_spec(),
    {
        self.local && !self.remote
    }

    pub fn is_remote(&self) -> (r: bool)
        ensures
            r == self.is_remote_spec(),
    {
        self.remote && !self.local
    }

    /// The caller does not want the fetched values.
    pub fn ignore_result(&self) -> (r: bool)
        ensures
            r == self.ignore_result,
    {
        self.ignore_result
    }
}

} // verus!
