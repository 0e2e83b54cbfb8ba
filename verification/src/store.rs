//! The feed store behind the registration interface.
//!
//! Registration assigns each new feed the next identifier, keeps the feed in
//! a collection keyed by that identifier, and hands the record back to the
//! caller.  Identifiers count up from one and are never reused, so no two
//! stored feeds ever share one.

use vstd::prelude::*;
use crate::feed::Feed;

verus! {

/// The collection of registered feeds, plus the identifier the next
/// registration will receive.
pub struct FeedStore {
    pub next_id: u32,
    pub feeds: Vec<Feed>,
}

impl FeedStore {
    /// Whether a feed with identifier `id` is stored.
    pub open spec fn contains_id(self, id: u32) -> bool {
        exists|i: int| 0 <= i < self.feeds@.len() && self.feeds@[i].id == id
    }

    /// The store's invariant: every stored identifier is below `next_id`
    /// (so a fresh registration can never collide), no two stored feeds
    /// share an identifier, and every stored feed is well formed.
    pub open spec fn wf(self) -> bool {
        &&& self.next_id >= 1
        &&& forall|i: int|
            0 <= i < self.feeds@.len() ==> (#[trigger] self.feeds@[i]).id < self.next_id
                && self.feeds@[i].wf()
        &&& forall|i: int, j: int|
            0 <= i < j < self.feeds@.len() ==> (#[trigger] self.feeds@[i]).id != (
            #[trigger] self.feeds@[j]).id
    }

    /// An empty store; the first registered feed gets identifier 1.
    pub fn new() -> (s: FeedStore)
        ensures
            s.wf(),
            s.feeds@.len() == 0,
            s.next_id == 1,
    {
        FeedStore { next_id: 1, feeds: Vec::new() }
    }

    /// Register a feed: assign it the next identifier, store it, and return
    /// the stored record.
    pub fn register(&mut self, name: String, url: String, frequency: u32) -> (feed: Feed)
        requires
            old(self).wf(),
            old(self).next_id < u32::MAX,
            frequency > 0,
        ensures
            final(self).wf(),
            feed == (Feed { id: old(self).next_id, name, url, frequency }),
            !old(self).contains_id(feed.id),
            final(self).feeds@ == old(self).feeds@.push(feed),
            final(self).contains_id(feed.id),
            final(self).next_id == old(self).next_id + 1,
    {
        let id = self.next_id;
        let name_back = name.clone();
        let url_back = url.clone();
        let feed = Feed { id, name, url, frequency };
        self.feeds.push(feed);
        self.next_id = self.next_id + 1;
        let out = Feed { id, name: name_back, url: url_back, frequency };
        proof {
            let n = old(self).feeds@.len() as int;
            assert forall|i: int, j: int| 0 <= i < j < self.feeds@.len() implies (
            #[trigger] self.feeds@[i]).id != (#[trigger] self.feeds@[j]).id by {
                if j == n {
                    assert(old(self).feeds@[i].id < old(self).next_id);
                }
            }
            assert(self.feeds@[n].id == id);
        }
        out
    }

    /// Look a feed up by identifier: the stored record when the identifier
    /// is known, nothing when it is not.
    pub fn get(&self, id: u32) -> (r: Option<&Feed>)
        requires
            self.wf(),
        ensures
            r is Some <==> self.contains_id(id),
            r matches Some(f) ==> f.id == id && exists|i: int|
                0 <= i < self.feeds@.len() && self.feeds@[i] == *f,
    {
        let mut i: usize = 0;
        while i < self.feeds.len()
            invariant
                i <= self.feeds@.len(),
                forall|k: int| 0 <= k < i ==> (#[trigger] self.feeds@[k]).id != id,
            decreases self.feeds@.len() - i,
        {
            if self.feeds[i].id == id {
                return Some(&self.feeds[i]);
            }
            i = i + 1;
        }
        None
    }
}

} // verus!
