//! The feed record kept by the registration interface.

use vstd::prelude::*;

verus! {

/// A registered feed: the record the registration interface stores and
/// returns.  The identifier is assigned at registration and never reused;
/// `frequency` is the polling interval in seconds and is always positive.
#[derive(Clone, Debug, PartialEq)]
pub struct Feed {
    pub id: u32,
    pub name: String,
    pub url: String,
    pub frequency: u32,
}

impl Feed {
    /// A feed is well formed when its polling interval is positive: a job
    /// can only poll on a positive cadence.
    pub open spec fn wf(self) -> bool {
        self.frequency > 0
    }
}

} // verus!
