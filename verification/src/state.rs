//! The per-key state machine: where a cached value is in its life, from never
//! fetched to settled, with the two in-flight stages in between.

use vstd::prelude::*;

verus! {

/// Lifecycle stage of one cached value.
///
/// At most one fetch is ever in flight per key: the Executor consults the
/// current stage before starting and does nothing when it is already
/// [`QueryState::Loading`] or [`QueryState::Fetching`].
pub enum QueryState<V> {
    /// Never fetched.
    Created,
    /// First fetch in flight; no prior value exists.
    Loading,
    /// Refetch in flight; the prior value is retained and still readable.
    Fetching(V),
    /// Settled value together with the instant it was produced.
    Loaded(V, u64),
    /// Prior value marked untrustworthy by an external signal; it must be
    /// refetched before being relied on.
    Invalid(V),
}

impl<V> QueryState<V> {
    /// Instant of the last completed fetch, known only once settled.
    pub open spec fn spec_updated_at(self) -> Option<u64> {
        match self {
            QueryState::Loaded(_, t) => Some(t),
            _ => None,
        }
    }

    /// A fetch is currently in flight for this value.
    pub open spec fn is_in_flight(self) -> bool {
        self is Loading || self is Fetching
    }

    /// The value a consumer may read right now, if any.
    pub open spec fn spec_value(self) -> Option<V> {
        match self {
            QueryState::Fetching(v) => Some(v),
            QueryState::Loaded(v, _) => Some(v),
            QueryState::Invalid(v) => Some(v),
            _ => None,
        }
    }

    /// Instant of the last completed fetch, if any.
    pub fn updated_at(&self) -> (r: Option<u64>)
        ensures
            r == self.spec_updated_at(),
    {
        match self {
            QueryState::Loaded(_, t) => Some(*t),
            _ => None,
        }
    }

    /// Whether a fetch is currently in flight.
    pub fn in_flight(&self) -> (r: bool)
        ensures
            r == self.is_in_flight(),
    {
        match self {
            QueryState::Loading => true,
            QueryState::Fetching(_) => true,
            _ => false,
        }
    }
}

} // verus!
