//! Engine that keeps a client-side cache of asynchronously fetched values
//! synchronized with their source.
//!
//! Each cached value is a [`query::Query`]: a per-key record holding the
//! current [`state::QueryState`], the configured staleness, cache and refetch
//! windows, and the count of attached consumers. The [`cache::QueryCache`]
//! owns all records and drives the lifecycle: deduplicated fetches, timer
//! (re)arming and reference-counted eviction. The surrounding host supplies
//! what the engine deliberately leaves outside: the clock, the timers it is
//! told to arm or cancel, and the asynchronous execution of the fetches it
//! decides to start.

pub mod cache;
pub mod laws;
pub mod query;
pub mod state;
pub mod time_util;
