//! The compute half of the fetch routine.
//!
//! One fetch cycle retrieves a binary transit-telemetry payload over the
//! network, decodes it with the externally defined schema, and counts the
//! decoded entities that carry a trip update.  Retrieval and decoding are
//! I/O against external collaborators and live with the caller; this module
//! holds the feed descriptor the routine works from and the counting step,
//! which is pure and verified.

use vstd::prelude::*;

verus! {

/// A feed as the fetch routine sees it: where to fetch, how often, and
/// with which request headers.
#[derive(Clone, Debug, PartialEq)]
pub struct Feed {
    pub id: usize,
    pub name: String,
    pub url: String,
    pub frequency: u64,
    pub headers: Vec<(String, String)>,
}

impl Feed {
    /// A feed is well formed when its polling interval is positive.
    pub open spec fn wf(self) -> bool {
        self.frequency > 0
    }
}

/// One entity of a decoded transit message, reduced to the one fact the
/// fetch routine consumes: whether the entity carries a trip update.
#[derive(Clone, Copy, Debug, PartialEq, Eq, Structural)]
pub struct FeedEntity {
    pub has_trip_update: bool,
}

/// How many entities of the sequence carry a trip update.
pub open spec fn spec_trip_updates(s: Seq<FeedEntity>) -> nat
    decreases s.len(),
{
    if s.len() == 0 {
        0
    } else {
        spec_trip_updates(s.drop_last()) + if s.last().has_trip_update {
            1nat
        } else {
            0nat
        }
    }
}

/// Count the decoded entities that carry a trip update: the figure one
/// fetch cycle reports.
pub fn count_trip_updates(entities: &Vec<FeedEntity>) -> (n: usize)
    ensures
        n == spec_trip_updates(entities@),
{
    let mut n: usize = 0;
    let mut i: usize = 0;
    while i < entities.len()
        invariant
            i <= entities@.len(),
            n <= i,
            n == spec_trip_updates(entities@.subrange(0, i as int)),
        decreases entities@.len() - i,
    {
        if entities[i].has_trip_update {
            n = n + 1;
        }
        proof {
            assert(entities@.subrange(0, i + 1).drop_last() =~= entities@.subrange(0, i as int));
            assert(entities@.subrange(0, i + 1).last() == entities@[i as int]);
        }
        i = i + 1;
    }
    proof {
        assert(entities@.subrange(0, entities@.len() as int) =~= entities@);
    }
    n
}

} // verus!
