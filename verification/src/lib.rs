//! A feed-polling task scheduler.
//!
//! External data feeds are registered with a URL and a polling interval;
//! each registered feed is polled by its own job runner until the feed is
//! removed.  The heart of the crate is the job registry and its lifecycle
//! protocol: creating a runner when a feed appears, replacing it when the
//! feed's configuration changes, and stopping it when the feed is deleted,
//! with at most one live runner per feed identifier at any time.

pub mod feed;
pub mod fetcher;
pub mod mockito;
pub mod scheduler;
pub mod store;
