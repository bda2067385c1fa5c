//! The per-key cache record and the synchronization steps that run on it:
//! the Executor (deduplicated fetch trigger), the staleness and invalidation
//! monitors, and the two schedulers that keep the interval-refetch and
//! eviction timers armed from the most recent update.
//!
//! Timers are modelled as data: a record holds at most one armed timer per
//! concern, each an absolute deadline the host scheduler is asked to fire at.
//! Every re-arming step returns the previously armed timer so the host can
//! cancel it — arming and cancelling are always paired.

use vstd::prelude::*;

use crate::state::QueryState;
use crate::time_util::deadline_of;
use crate::time_util::maybe_time_until_stale;
use crate::time_util::remaining_at;

verus! {

/// A timer armed with the host scheduler: the absolute instant it fires at.
#[derive(Clone, Copy, PartialEq, Eq, Structural, Debug)]
pub struct Timer {
    pub deadline: u64,
}

/// What one synchronization pass asks of the host: whether a fetch must be
/// started, and which previously armed timers must be cancelled.
#[derive(Clone, Copy, PartialEq, Eq, Structural, Debug)]
pub struct SyncOutcome {
    /// The Executor started a fetch; the host must run the fetch function
    /// and later deliver the result.
    pub started: bool,
    /// Previously armed interval-refetch timer, now superseded.
    pub cancelled_refetch: Option<Timer>,
    /// Previously armed eviction timer, now superseded.
    pub cancelled_evict: Option<Timer>,
}

/// One cached entry: identity, lifecycle state, configured windows, the
/// observer count that gates eviction, and the timers currently armed for it.
pub struct Query<V> {
    /// Immutable identity within the cache.
    pub key: u64,
    /// Current stage of the per-key state machine.
    pub state: QueryState<V>,
    /// Window after the last update in which the data counts as fresh;
    /// absent means the data never goes stale by time.
    pub stale_after: Option<u64>,
    /// Window after the last update that an unobserved entry survives before
    /// eviction. Absent means the entry is never evicted by time: it stays
    /// cached even once unobserved, a deliberate choice over evicting such
    /// entries at once.
    pub cache_for: Option<u64>,
    /// Cadence, measured from the last update, at which a refetch is
    /// triggered; absent means no periodic refetch.
    pub refetch_every: Option<u64>,
    /// Number of consumers currently attached.
    pub observers: u64,
    /// Armed interval-refetch timer, if any.
    pub refetch_timer: Option<Timer>,
    /// Armed eviction timer, if any.
    pub evict_timer: Option<Timer>,
    /// An eviction attempt fired while consumers were still attached; it is
    /// deferred until the last consumer detaches, unless a new update cancels
    /// it first.
    pub eviction_pending: bool,
}

impl<V> Query<V> {
    /// A fresh, never-fetched record for `key`: no observers, no timers.
    pub fn new(key: u64, stale_after: Option<u64>, cache_for: Option<u64>, refetch_every: Option<
        u64,
    >) -> (q: Query<V>)
        ensures
            q == (Query {
                key,
                state: QueryState::<V>::Created,
                stale_after,
                cache_for,
                refetch_every,
                observers: 0u64,
                refetch_timer: None::<Timer>,
                evict_timer: None::<Timer>,
                eviction_pending: false,
            }),
    {
        Query {
            key,
            state: QueryState::Created,
            stale_after,
            cache_for,
            refetch_every,
            observers: 0,
            refetch_timer: None,
            evict_timer: None,
            eviction_pending: false,
        }
    }

    /// The settled data has outlived its staleness window at `now`.
    pub open spec fn is_stale_at(self, now: u64) -> bool {
        match (self.state.spec_updated_at(), self.stale_after) {
            (Some(u), Some(w)) => remaining_at(u, w, now) == 0,
            _ => false,
        }
    }

    /// Timer the Interval Refetch Scheduler arms for this record: present
    /// exactly when both an update instant and a cadence exist.
    pub open spec fn spec_refetch_timer(self) -> Option<Timer> {
        match (self.state.spec_updated_at(), self.refetch_every) {
            (Some(u), Some(w)) => Some(Timer { deadline: deadline_of(u, w) }),
            _ => None,
        }
    }

    /// Timer the Eviction Scheduler arms for this record: present exactly
    /// when both an update instant and a cache window exist.
    pub open spec fn spec_evict_timer(self) -> Option<Timer> {
        match (self.state.spec_updated_at(), self.cache_for) {
            (Some(u), Some(w)) => Some(Timer { deadline: deadline_of(u, w) }),
            _ => None,
        }
    }

    /// Executor outcome: the record after one trigger, and whether a fetch
    /// starts. A trigger is a no-op while suppressed or while a fetch is
    /// already in flight; otherwise the state machine advances to its
    /// in-flight stage, keeping the prior value where one exists.
    pub open spec fn spec_execute(self, suppressed: bool) -> (Query<V>, bool) {
        if suppressed || self.state.is_in_flight() {
            (self, false)
        } else {
            match self.state {
                QueryState::Created => (Query { state: QueryState::Loading, ..self }, true),
                QueryState::Loaded(v, _) => (Query { state: QueryState::Fetching(v), ..self }, true),
                QueryState::Invalid(v) => (Query { state: QueryState::Fetching(v), ..self }, true),
                _ => (self, false),
            }
        }
    }

    /// Record after a fetch resolves with `value` at `now`: resolution always
    /// writes the settled state, superseding any intervening invalidation.
    pub open spec fn spec_fetch_resolved(self, value: V, now: u64) -> Query<V> {
        Query { state: QueryState::Loaded(value, now), ..self }
    }

    /// Record after an external invalidation signal: a settled value is
    /// marked untrustworthy; every other stage is left as it is (there is
    /// nothing to preserve before the first load, and an in-flight fetch
    /// supersedes the signal on resolution).
    pub open spec fn spec_invalidate(self) -> Query<V> {
        match self.state {
            QueryState::Loaded(v, _) => Query { state: QueryState::Invalid(v), ..self },
            _ => self,
        }
    }

    /// Record after the Interval Refetch Scheduler re-arms its slot.
    pub open spec fn spec_sync_refetch(self) -> Query<V> {
        Query { refetch_timer: self.spec_refetch_timer(), ..self }
    }

    /// Record after the Eviction Scheduler re-arms its slot; a deferred
    /// eviction from a superseded deadline is cancelled.
    pub open spec fn spec_sync_eviction(self) -> Query<V> {
        Query { evict_timer: self.spec_evict_timer(), eviction_pending: false, ..self }
    }

    /// Staleness Monitor outcome: the Executor is triggered exactly when the
    /// data is stale at `now`.
    pub open spec fn spec_ensure_not_stale(self, now: u64, suppressed: bool) -> (Query<V>, bool) {
        if self.is_stale_at(now) {
            self.spec_execute(suppressed)
        } else {
            (self, false)
        }
    }

    /// Invalidation Monitor outcome: the Executor is triggered exactly when
    /// the state is marked invalid.
    pub open spec fn spec_ensure_not_invalid(self, suppressed: bool) -> (Query<V>, bool) {
        if self.state is Invalid {
            self.spec_execute(suppressed)
        } else {
            (self, false)
        }
    }

    /// One full synchronization pass, re-run after every state or settings
    /// change: the Invalidation Monitor may trigger the Executor, then both
    /// schedulers re-arm their timers from the resulting record.
    pub open spec fn spec_synchronize(self, suppressed: bool) -> (Query<V>, bool) {
        let s = self.spec_ensure_not_invalid(suppressed);
        (s.0.spec_sync_eviction().spec_sync_refetch(), s.1)
    }

    /// Externally requested refetch: one Executor trigger, then a
    /// synchronization pass over the changed record.
    pub open spec fn spec_trigger_refetch(self, suppressed: bool) -> (Query<V>, bool) {
        let e = self.spec_execute(suppressed);
        let s = e.0.spec_synchronize(suppressed);
        (s.0, e.1 || s.1)
    }

    /// Consumer attach: the observer count increments; a never-fetched record
    /// performs its first load, any other runs the Staleness Monitor; then a
    /// synchronization pass over the changed record.
    pub open spec fn spec_attach(self, now: u64, suppressed: bool) -> (Query<V>, bool) {
        let q1 = Query { observers: (self.observers + 1) as u64, ..self };
        let e = if q1.state is Created {
            q1.spec_execute(suppressed)
        } else {
            q1.spec_ensure_not_stale(now, suppressed)
        };
        let s = e.0.spec_synchronize(suppressed);
        (s.0, e.1 || s.1)
    }

    /// External invalidation signal, then a synchronization pass in which the
    /// Invalidation Monitor triggers the Executor, deduplicated by its guard.
    pub open spec fn spec_invalidate_signal(self, suppressed: bool) -> (Query<V>, bool) {
        self.spec_invalidate().spec_synchronize(suppressed)
    }

    /// Fetch resolution at `now`, then a synchronization pass: both timers
    /// end up re-armed from the new update instant.
    pub open spec fn spec_resolve(self, value: V, now: u64, suppressed: bool) -> Query<V> {
        self.spec_fetch_resolved(value, now).spec_synchronize(suppressed).0
    }

    /// Interval timer fire at `now`: when the armed timer is due it is
    /// consumed and the Executor is triggered, then a synchronization pass.
    pub open spec fn spec_refetch_fired(self, now: u64, suppressed: bool) -> (Query<V>, bool) {
        if self.refetch_timer matches Some(t) && t.deadline <= now {
            (Query { refetch_timer: None::<Timer>, ..self }).spec_trigger_refetch(suppressed)
        } else {
            (self, false)
        }
    }

    /// The armed eviction timer is due at `now`.
    pub open spec fn evict_due_at(self, now: u64) -> bool {
        self.evict_timer matches Some(t) && t.deadline <= now
    }

    /// Executor: decide whether a fetch starts and advance the state machine.
    /// At most one fetch is in flight per key: a trigger while one is already
    /// running, or while fetching is suppressed, changes nothing.
    pub fn execute(&mut self, suppressed: bool) -> (started: bool)
        ensures
            (*final(self), started) == old(self).spec_execute(suppressed),
            started == (!suppressed && !old(self).state.is_in_flight()),
            !started ==> *final(self) == *old(self),
            started ==> final(self).state.is_in_flight(),
    {
        if suppressed {
            return false;
        }
        if self.state.in_flight() {
            return false;
        }
        let mut taken = QueryState::Loading;
        core::mem::swap(&mut self.state, &mut taken);
        match taken {
            QueryState::Created => true,
            QueryState::Loaded(v, _) => {
                self.state = QueryState::Fetching(v);
                true
            },
            QueryState::Invalid(v) => {
                self.state = QueryState::Fetching(v);
                true
            },
            other => {
                assert(false);
                self.state = other;
                false
            },
        }
    }

    /// The fetch started for this record resolved with `value` at `now`:
    /// stamp the instant and settle.
    pub fn fetch_resolved(&mut self, value: V, now: u64)
        ensures
            *final(self) == old(self).spec_fetch_resolved(value, now),
            final(self).state == QueryState::Loaded(value, now),
    {
        self.state = QueryState::Loaded(value, now);
    }

    /// External invalidation signal; reports whether the state changed.
    pub fn invalidate(&mut self) -> (changed: bool)
        ensures
            *final(self) == old(self).spec_invalidate(),
            changed == old(self).state is Loaded,
    {
        let mut taken = QueryState::Loading;
        core::mem::swap(&mut self.state, &mut taken);
        match taken {
            QueryState::Loaded(v, _) => {
                self.state = QueryState::Invalid(v);
                true
            },
            other => {
                self.state = other;
                false
            },
        }
    }

    /// Observer Counter: one more consumer attached.
    pub fn attach_observer(&mut self)
        requires
            old(self).observers < u64::MAX,
        ensures
            *final(self) == (Query { observers: (old(self).observers + 1) as u64, ..*old(self) }),
    {
        self.observers = self.observers + 1;
    }

    /// Observer Counter: one consumer detached. Detach is called exactly once
    /// per matching attach, so the count is positive here.
    pub fn detach_observer(&mut self)
        requires
            old(self).observers > 0,
        ensures
            *final(self) == (Query { observers: (old(self).observers - 1) as u64, ..*old(self) }),
    {
        self.observers = self.observers - 1;
    }

    /// Staleness Monitor, run when a consumer attaches: triggers the Executor
    /// when the settled data has outlived its staleness window at `now`.
    /// It runs on attach and not after every fetch — with a zero window that
    /// would refetch without end; keeping settled data fresh between
    /// attaches is the interval scheduler's job.
    pub fn ensure_not_stale(&mut self, now: u64, suppressed: bool) -> (started: bool)
        ensures
            (*final(self), started) == old(self).spec_ensure_not_stale(now, suppressed),
            started == (!suppressed && old(self).is_stale_at(now)),
            !started ==> *final(self) == *old(self),
    {
        let due = maybe_time_until_stale(self.state.updated_at(), self.stale_after, now);
        match due {
            Some(0) => self.execute(suppressed),
            _ => false,
        }
    }

    /// Invalidation Monitor, run on every state change: triggers the Executor
    /// whenever the state is marked invalid, deduplicated by its guard.
    pub fn ensure_not_invalid(&mut self, suppressed: bool) -> (started: bool)
        ensures
            (*final(self), started) == old(self).spec_ensure_not_invalid(suppressed),
            started == (!suppressed && old(self).state is Invalid),
            !started ==> *final(self) == *old(self),
    {
        let is_invalid = match &self.state {
            QueryState::Invalid(_) => true,
            _ => false,
        };
        if is_invalid {
            self.execute(suppressed)
        } else {
            false
        }
    }

    /// Interval Refetch Scheduler: cancel the previously armed refetch timer
    /// — returned so the host cancels its handle — and arm a new one for the
    /// current update instant plus the cadence, when both exist.
    pub fn sync_refetch(&mut self) -> (cancelled: Option<Timer>)
        ensures
            cancelled == old(self).refetch_timer,
            *final(self) == old(self).spec_sync_refetch(),
            final(self).refetch_timer == old(self).spec_refetch_timer(),
    {
        let cancelled = self.refetch_timer;
        self.refetch_timer = match (self.state.updated_at(), self.refetch_every) {
            (Some(u), Some(w)) => Some(Timer { deadline: u.saturating_add(w) }),
            _ => None,
        };
        cancelled
    }

    /// Eviction Scheduler, arming half: cancel the previously armed eviction
    /// timer — returned so the host cancels its handle — drop any deferred
    /// eviction from a superseded deadline, and arm a new timer for the
    /// current update instant plus the cache window, when both exist.
    pub fn sync_eviction(&mut self) -> (cancelled: Option<Timer>)
        ensures
            cancelled == old(self).evict_timer,
            *final(self) == old(self).spec_sync_eviction(),
            final(self).evict_timer == old(self).spec_evict_timer(),
            !final(self).eviction_pending,
    {
        let cancelled = self.evict_timer;
        self.eviction_pending = false;
        self.evict_timer = match (self.state.updated_at(), self.cache_for) {
            (Some(u), Some(w)) => Some(Timer { deadline: u.saturating_add(w) }),
            _ => None,
        };
        cancelled
    }

    /// One full synchronization pass over this record; see
    /// [`Self::spec_synchronize`]. Both timer slots end up holding exactly
    /// the timers computed from the record as it now stands, and the
    /// previously armed ones are handed back for cancellation.
    pub fn synchronize_state(&mut self, suppressed: bool) -> (r: SyncOutcome)
        ensures
            (*final(self), r.started) == old(self).spec_synchronize(suppressed),
            r.cancelled_refetch == old(self).refetch_timer,
            r.cancelled_evict == old(self).evict_timer,
            final(self).refetch_timer == final(self).spec_refetch_timer(),
            final(self).evict_timer == final(self).spec_evict_timer(),
            !final(self).eviction_pending,
    {
        let started = self.ensure_not_invalid(suppressed);
        let cancelled_evict = self.sync_eviction();
        let cancelled_refetch = self.sync_refetch();
        SyncOutcome { started, cancelled_refetch, cancelled_evict }
    }
}

} // verus!
