//! The global cache: owner of every per-key record and sole authority over
//! insertion and eviction. Consumers reach a record through its key; the
//! host reports timer fires and fetch resolutions back into the cache.

use vstd::prelude::*;

use crate::query::Query;
use crate::query::SyncOutcome;
use crate::query::Timer;
use crate::state::QueryState;
use crate::time_util::deadline_of;

verus! {

/// No two records share a key.
pub open spec fn unique_keys<V>(s: Seq<Query<V>>) -> bool {
    forall|i: int, j: int|
        0 <= i < s.len() && 0 <= j < s.len() && i != j ==> s[i].key != s[j].key
}

/// Replacing a record with one that keeps its key preserves key uniqueness.
pub proof fn lemma_update_keeps_wf<V>(pre: Seq<Query<V>>, post: Seq<Query<V>>, i: int)
    requires
        unique_keys(pre),
        0 <= i < pre.len(),
        post == pre.update(i, post[i]),
        post[i].key == pre[i].key,
    ensures
        unique_keys(post),
{
    assert forall|a: int, b: int|
        0 <= a < post.len() && 0 <= b < post.len() && a != b implies post[a].key
        != post[b].key by {
        if a != i {
            assert(post[a] == pre[a]);
        }
        if b != i {
            assert(post[b] == pre[b]);
        }
        assert(pre[a].key != pre[b].key);
    }
}

/// Removing a record preserves key uniqueness, and its key is gone.
pub proof fn lemma_remove_key<V>(pre: Seq<Query<V>>, i: int)
    requires
        unique_keys(pre),
        0 <= i < pre.len(),
    ensures
        unique_keys(pre.remove(i)),
        forall|j: int| 0 <= j < pre.remove(i).len() ==> pre.remove(i)[j].key != pre[i].key,
{
    pre.remove_ensures(i);
    assert forall|j: int| 0 <= j < pre.remove(i).len() implies pre.remove(i)[j].key
        != pre[i].key by {
        if j < i {
            assert(pre.remove(i)[j] == pre[j]);
        } else {
            assert(pre.remove(i)[j] == pre[j + 1]);
        }
    }
    assert forall|a: int, b: int|
        0 <= a < pre.remove(i).len() && 0 <= b < pre.remove(i).len() && a != b implies pre.remove(
        i,
    )[a].key != pre.remove(i)[b].key by {
        let a0 = if a < i {
            a
        } else {
            a + 1
        };
        let b0 = if b < i {
            b
        } else {
            b + 1
        };
        assert(pre.remove(i)[a] == pre[a0]);
        assert(pre.remove(i)[b] == pre[b0]);
        assert(pre[a0].key != pre[b0].key);
    }
}

/// The cache of all live records, with the process-wide switch that disables
/// fetching. Records enter through [`QueryCache::get_or_create_query`] and
/// leave only through the eviction protocol.
pub struct QueryCache<V> {
    /// The live records, one per key.
    pub entries: Vec<Query<V>>,
    /// While set, every Executor invocation is a no-op.
    pub fetch_suppressed: bool,
}

impl<V> QueryCache<V> {
    /// Well-formedness: keys are unique, so a key denotes one record.
    pub open spec fn wf(self) -> bool {
        unique_keys(self.entries@)
    }

    /// A record for `key` is live.
    pub open spec fn has_key(self, key: u64) -> bool {
        exists|i: int| 0 <= i < self.entries@.len() && self.entries@[i].key == key
    }

    /// Position of the record for `key`, when one is live.
    pub open spec fn key_index(self, key: u64) -> int {
        choose|i: int| 0 <= i < self.entries@.len() && self.entries@[i].key == key
    }

    /// The record for `key`, when one is live.
    pub open spec fn spec_get(self, key: u64) -> Query<V> {
        self.entries@[self.key_index(key)]
    }

    /// In a well-formed cache a live key has exactly one position.
    pub proof fn lemma_key_index(self, key: u64)
        requires
            self.wf(),
            self.has_key(key),
        ensures
            0 <= self.key_index(key) < self.entries@.len(),
            self.entries@[self.key_index(key)].key == key,
            forall|i: int|
                0 <= i < self.entries@.len() && self.entries@[i].key == key ==> i == self.key_index(
                    key,
                ),
    {
        let j = self.key_index(key);
        assert(0 <= j < self.entries@.len() && self.entries@[j].key == key);
    }

    /// A record seen at position `i` is the record its key denotes.
    pub proof fn lemma_key_at(self, key: u64, i: int)
        requires
            self.wf(),
            0 <= i < self.entries@.len(),
            self.entries@[i].key == key,
        ensures
            self.has_key(key),
            self.key_index(key) == i,
            self.spec_get(key) == self.entries@[i],
    {
        assert(self.has_key(key));
        self.lemma_key_index(key);
    }

    /// Replacing one record with one that keeps its key keeps every live
    /// key live.
    pub proof fn lemma_update_keeps_keys(self, post: QueryCache<V>, i: int)
        requires
            0 <= i < self.entries@.len(),
            post.entries@ == self.entries@.update(i, post.entries@[i]),
            post.entries@[i].key == self.entries@[i].key,
        ensures
            forall|k: u64| self.has_key(k) ==> post.has_key(k),
    {
        assert forall|k: u64| self.has_key(k) implies post.has_key(k) by {
            let j = self.key_index(k);
            assert(0 <= j < self.entries@.len() && self.entries@[j].key == k);
            if j == i {
                assert(post.entries@[i].key == k);
            } else {
                assert(post.entries@[j] == self.entries@[j]);
            }
        }
    }

    /// Removing one record keeps every other live key live.
    pub proof fn lemma_remove_keeps_other_keys(self, post: QueryCache<V>, i: int)
        requires
            0 <= i < self.entries@.len(),
            post.entries@ == self.entries@.remove(i),
        ensures
            forall|k: u64| self.has_key(k) && k != self.entries@[i].key ==> post.has_key(k),
    {
        self.entries@.remove_ensures(i);
        assert forall|k: u64|
            self.has_key(k) && k != self.entries@[i].key implies post.has_key(k) by {
            let j = self.key_index(k);
            assert(0 <= j < self.entries@.len() && self.entries@[j].key == k);
            if j < i {
                assert(post.entries@[j] == self.entries@[j]);
            } else {
                assert(post.entries@[j - 1] == self.entries@[j]);
            }
        }
    }

    /// An empty cache with fetching enabled.
    pub fn new() -> (c: QueryCache<V>)
        ensures
            c.wf(),
            c.entries@.len() == 0,
            !c.fetch_suppressed,
    {
        QueryCache { entries: Vec::new(), fetch_suppressed: false }
    }

    /// Process-wide switch that disables every Executor invocation while
    /// set, for controlled replay or test scenarios.
    pub fn suppress_query_load(&mut self, suppress: bool)
        ensures
            final(self).fetch_suppressed == suppress,
            final(self).entries == old(self).entries,
    {
        self.fetch_suppressed = suppress;
    }

    /// Position of the record for `key`, if one is live.
    pub fn index_of(&self, key: u64) -> (r: Option<usize>)
        requires
            self.wf(),
        ensures
            match r {
                Some(i) => self.has_key(key) && i as int == self.key_index(key) && i
                    < self.entries@.len(),
                None => !self.has_key(key),
            },
    {
        let n = self.entries.len();
        let mut i: usize = 0;
        while i < n
            invariant
                n == self.entries@.len(),
                i <= n,
                self.wf(),
                forall|j: int| 0 <= j < i ==> self.entries@[j].key != key,
            decreases n - i,
        {
            if self.entries[i].key == key {
                proof {
                    self.lemma_key_at(key, i as int);
                }
                return Some(i);
            }
            i = i + 1;
        }
        None
    }

    /// Cache lookup or insert: after the call a record for `key` is live.
    /// An existing record is left untouched; a new one starts never-fetched,
    /// unobserved and with no timers, carrying the given windows.
    pub fn get_or_create_query(
        &mut self,
        key: u64,
        stale_after: Option<u64>,
        cache_for: Option<u64>,
        refetch_every: Option<u64>,
    ) -> (created: bool)
        requires
            old(self).wf(),
        ensures
            final(self).wf(),
            final(self).fetch_suppressed == old(self).fetch_suppressed,
            final(self).has_key(key),
            created == !old(self).has_key(key),
            old(self).has_key(key) ==> *final(self) == *old(self),
            !old(self).has_key(key) ==> final(self).entries@ == old(self).entries@.push(
                (Query {
                    key,
                    state: QueryState::<V>::Created,
                    stale_after,
                    cache_for,
                    refetch_every,
                    observers: 0u64,
                    refetch_timer: None::<Timer>,
                    evict_timer: None::<Timer>,
                    eviction_pending: false,
                }),
            ),
            !old(self).has_key(key) ==> final(self).spec_get(key) == (Query {
                key,
                state: QueryState::<V>::Created,
                stale_after,
                cache_for,
                refetch_every,
                observers: 0u64,
                refetch_timer: None::<Timer>,
                evict_timer: None::<Timer>,
                eviction_pending: false,
            }),
            forall|k: u64| old(self).has_key(k) ==> final(self).has_key(k),
    {
        match self.index_of(key) {
            Some(_) => false,
            None => {
                let q = Query::new(key, stale_after, cache_for, refetch_every);
                self.entries.push(q);
                proof {
                    assert(self.entries@.last() == q);
                    assert forall|i: int, j: int|
                        0 <= i < self.entries@.len() && 0 <= j < self.entries@.len() && i
                            != j implies self.entries@[i].key != self.entries@[j].key by {
                        let pre = old(self).entries@;
                        if i < pre.len() && j < pre.len() {
                            assert(pre[i].key != pre[j].key);
                        }
                    }
                    self.lemma_key_at(key, self.entries@.len() - 1);
                    assert forall|k: u64| old(self).has_key(k) implies self.has_key(k) by {
                        let j = old(self).key_index(k);
                        assert(self.entries@[j] == old(self).entries@[j]);
                    }
                }
                true
            },
        }
    }

    /// Tracked read of the current state of the record for `key`, for UI
    /// binding; absent keys read as nothing.
    pub fn read_state(&self, key: u64) -> (r: Option<&QueryState<V>>)
        requires
            self.wf(),
        ensures
            match r {
                Some(s) => self.has_key(key) && *s == self.spec_get(key).state,
                None => !self.has_key(key),
            },
    {
        match self.index_of(key) {
            Some(i) => Some(&self.entries[i].state),
            None => None,
        }
    }

    /// A consumer attaches to the record for `key`: the observer count
    /// increments; a never-fetched record performs its first load, any other
    /// is checked for staleness at `now`; then monitors and schedulers
    /// re-run. The host starts a fetch and cancels timers as `r` says.
    pub fn attach(&mut self, key: u64, now: u64) -> (r: SyncOutcome)
        requires
            old(self).wf(),
            old(self).has_key(key),
            old(self).spec_get(key).observers < u64::MAX,
        ensures
            final(self).wf(),
            final(self).fetch_suppressed == old(self).fetch_suppressed,
            final(self).has_key(key),
            final(self).entries@ == old(self).entries@.update(
                old(self).key_index(key),
                old(self).spec_get(key).spec_attach(now, old(self).fetch_suppressed).0,
            ),
            r.started == old(self).spec_get(key).spec_attach(now, old(self).fetch_suppressed).1,
            r.cancelled_refetch == old(self).spec_get(key).refetch_timer,
            r.cancelled_evict == old(self).spec_get(key).evict_timer,
            final(self).spec_get(key) == old(self).spec_get(key).spec_attach(
                now,
                old(self).fetch_suppressed,
            ).0,
            final(self).spec_get(key).observers == old(self).spec_get(key).observers + 1,
            forall|k: u64| old(self).has_key(k) ==> final(self).has_key(k),
    {
        let suppressed = self.fetch_suppressed;
        let i = match self.index_of(key) {
            Some(i) => i,
            None => {
                assert(false);
                0
            },
        };
        let q = &mut self.entries[i];
        q.attach_observer();
        let is_created = match &q.state {
            QueryState::Created => true,
            _ => false,
        };
        let started_first = if is_created {
            q.execute(suppressed)
        } else {
            q.ensure_not_stale(now, suppressed)
        };
        let out = q.synchronize_state(suppressed);
        proof {
            let i0 = i as int;
            lemma_update_keeps_wf(old(self).entries@, self.entries@, i0);
            self.lemma_key_at(key, i0);
            old(self).lemma_update_keeps_keys(*self, i0);
        }
        SyncOutcome {
            started: started_first || out.started,
            cancelled_refetch: out.cancelled_refetch,
            cancelled_evict: out.cancelled_evict,
        }
    }

    /// A consumer detaches from the record for `key`. When the last one
    /// leaves a record whose eviction was deferred, the eviction runs now:
    /// the record is removed and handed back for disposal.
    pub fn detach(&mut self, key: u64) -> (evicted: Option<Query<V>>)
        requires
            old(self).wf(),
            old(self).has_key(key),
            old(self).spec_get(key).observers > 0,
        ensures
            final(self).wf(),
            final(self).fetch_suppressed == old(self).fetch_suppressed,
            ({
                let i = old(self).key_index(key);
                let q0 = old(self).spec_get(key);
                let q1 = (Query { observers: (q0.observers - 1) as u64, ..q0 });
                if q1.observers == 0 && q1.eviction_pending {
                    evicted == Some(q1) && final(self).entries@ == old(self).entries@.remove(i)
                        && !final(self).has_key(key)
                } else {
                    &&& evicted == None::<Query<V>>
                    &&& final(self).entries@ == old(self).entries@.update(i, q1)
                    &&& final(self).has_key(key)
                }
            }),
            old(self).spec_get(key).observers > 1 ==> final(self).has_key(key),
            forall|k: u64|
                old(self).has_key(k) && (k != key || old(self).spec_get(k).observers > 1)
                    ==> final(self).has_key(k),
    {
        let i = match self.index_of(key) {
            Some(i) => i,
            None => {
                assert(false);
                0
            },
        };
        let q = &mut self.entries[i];
        q.detach_observer();
        let must_evict = q.observers == 0 && q.eviction_pending;
        proof {
            let i0 = i as int;
            lemma_update_keeps_wf(old(self).entries@, self.entries@, i0);
            self.lemma_key_at(key, i0);
            old(self).lemma_update_keeps_keys(*self, i0);
        }
        if must_evict {
            let ghost mid = self.entries@;
            let removed = self.entries.remove(i);
            proof {
                let i0 = i as int;
                lemma_remove_key(mid, i0);
                mid.remove_ensures(i0);
                old(self).entries@.remove_ensures(i0);
                assert(mid.remove(i0) =~= old(self).entries@.remove(i0));
                old(self).lemma_remove_keeps_other_keys(*self, i0);
            }
            Some(removed)
        } else {
            None
        }
    }

    /// Externally requested refetch for `key`: the Executor runs,
    /// deduplicated by its guard, then monitors and schedulers re-run.
    pub fn trigger_refetch(&mut self, key: u64) -> (r: SyncOutcome)
        requires
            old(self).wf(),
            old(self).has_key(key),
        ensures
            final(self).wf(),
            final(self).fetch_suppressed == old(self).fetch_suppressed,
            final(self).has_key(key),
            final(self).entries@ == old(self).entries@.update(
                old(self).key_index(key),
                old(self).spec_get(key).spec_trigger_refetch(old(self).fetch_suppressed).0,
            ),
            r.started == old(self).spec_get(key).spec_trigger_refetch(
                old(self).fetch_suppressed,
            ).1,
            r.cancelled_refetch == old(self).spec_get(key).refetch_timer,
            r.cancelled_evict == old(self).spec_get(key).evict_timer,
            final(self).spec_get(key) == old(self).spec_get(key).spec_trigger_refetch(
                old(self).fetch_suppressed,
            ).0,
            forall|k: u64| old(self).has_key(k) ==> final(self).has_key(k),
    {
        let suppressed = self.fetch_suppressed;
        let i = match self.index_of(key) {
            Some(i) => i,
            None => {
                assert(false);
                0
            },
        };
        let q = &mut self.entries[i];
        let started = q.execute(suppressed);
        let out = q.synchronize_state(suppressed);
        proof {
            let i0 = i as int;
            lemma_update_keeps_wf(old(self).entries@, self.entries@, i0);
            self.lemma_key_at(key, i0);
            old(self).lemma_update_keeps_keys(*self, i0);
        }
        SyncOutcome {
            started: started || out.started,
            cancelled_refetch: out.cancelled_refetch,
            cancelled_evict: out.cancelled_evict,
        }
    }

    /// External invalidation signal for `key`: a settled value is marked
    /// untrustworthy and the Invalidation Monitor triggers the Executor,
    /// deduplicated by its guard.
    pub fn invalidate(&mut self, key: u64) -> (r: SyncOutcome)
        requires
            old(self).wf(),
            old(self).has_key(key),
        ensures
            final(self).wf(),
            final(self).fetch_suppressed == old(self).fetch_suppressed,
            final(self).has_key(key),
            final(self).entries@ == old(self).entries@.update(
                old(self).key_index(key),
                old(self).spec_get(key).spec_invalidate_signal(old(self).fetch_suppressed).0,
            ),
            r.started == old(self).spec_get(key).spec_invalidate_signal(
                old(self).fetch_suppressed,
            ).1,
            final(self).spec_get(key) == old(self).spec_get(key).spec_invalidate_signal(
                old(self).fetch_suppressed,
            ).0,
            r.cancelled_refetch == old(self).spec_get(key).refetch_timer,
            r.cancelled_evict == old(self).spec_get(key).evict_timer,
            !old(self).fetch_suppressed ==> (old(self).spec_get(key).state matches
                QueryState::Loaded(v, _) ==> final(self).spec_get(key).state
                == QueryState::Fetching(v)),
            forall|k: u64| old(self).has_key(k) ==> final(self).has_key(k),
    {
        let suppressed = self.fetch_suppressed;
        let i = match self.index_of(key) {
            Some(i) => i,
            None => {
                assert(false);
                0
            },
        };
        let q = &mut self.entries[i];
        q.invalidate();
        let out = q.synchronize_state(suppressed);
        proof {
            let i0 = i as int;
            lemma_update_keeps_wf(old(self).entries@, self.entries@, i0);
            self.lemma_key_at(key, i0);
            old(self).lemma_update_keeps_keys(*self, i0);
        }
        out
    }

    /// The fetch started for `key` resolved with `value` at `now`: the
    /// record settles and both timers are re-armed from the new update
    /// instant, discarding any previously armed deadline. A record evicted
    /// while its fetch was in flight is gone; the resolution then changes
    /// nothing here.
    pub fn fetch_resolved(&mut self, key: u64, value: V, now: u64) -> (r: SyncOutcome)
        requires
            old(self).wf(),
        ensures
            final(self).wf(),
            final(self).fetch_suppressed == old(self).fetch_suppressed,
            !old(self).has_key(key) ==> *final(self) == *old(self) && r == (SyncOutcome {
                started: false,
                cancelled_refetch: None::<Timer>,
                cancelled_evict: None::<Timer>,
            }),
            old(self).has_key(key) ==> final(self).entries@ == old(self).entries@.update(
                old(self).key_index(key),
                old(self).spec_get(key).spec_resolve(value, now, old(self).fetch_suppressed),
            ),
            old(self).has_key(key) ==> final(self).spec_get(key) == old(self).spec_get(
                key,
            ).spec_resolve(value, now, old(self).fetch_suppressed),
            old(self).has_key(key) ==> ({
                let w = old(self).spec_get(key);
                let qf = final(self).spec_get(key);
                &&& final(self).has_key(key)
                &&& qf.state == QueryState::Loaded(value, now)
                &&& qf.refetch_timer == (match w.refetch_every {
                    Some(d) => Some(Timer { deadline: deadline_of(now, d) }),
                    None => None::<Timer>,
                })
                &&& qf.evict_timer == (match w.cache_for {
                    Some(d) => Some(Timer { deadline: deadline_of(now, d) }),
                    None => None::<Timer>,
                })
                &&& !qf.eviction_pending
            }),
            old(self).has_key(key) ==> r.cancelled_refetch == old(self).spec_get(
                key,
            ).refetch_timer && r.cancelled_evict == old(self).spec_get(key).evict_timer,
            forall|k: u64| old(self).has_key(k) ==> final(self).has_key(k),
    {
        let suppressed = self.fetch_suppressed;
        let i = match self.index_of(key) {
            Some(i) => i,
            None => {
                return SyncOutcome {
                    started: false,
                    cancelled_refetch: None,
                    cancelled_evict: None,
                };
            },
        };
        let q = &mut self.entries[i];
        q.fetch_resolved(value, now);
        let out = q.synchronize_state(suppressed);
        proof {
            let i0 = i as int;
            lemma_update_keeps_wf(old(self).entries@, self.entries@, i0);
            self.lemma_key_at(key, i0);
            old(self).lemma_update_keeps_keys(*self, i0);
        }
        out
    }

    /// The armed interval-refetch timer for `key` fired at `now`: when it is
    /// due, the slot is consumed and the Executor runs, then monitors and
    /// schedulers re-run. A fire on an absent key or a slot that is no
    /// longer armed, or not yet due, changes nothing.
    pub fn refetch_timer_fired(&mut self, key: u64, now: u64) -> (r: SyncOutcome)
        requires
            old(self).wf(),
        ensures
            final(self).wf(),
            final(self).fetch_suppressed == old(self).fetch_suppressed,
            !old(self).has_key(key) ==> *final(self) == *old(self) && r == (SyncOutcome {
                started: false,
                cancelled_refetch: None::<Timer>,
                cancelled_evict: None::<Timer>,
            }),
            old(self).has_key(key) ==> final(self).entries@ == old(self).entries@.update(
                old(self).key_index(key),
                old(self).spec_get(key).spec_refetch_fired(now, old(self).fetch_suppressed).0,
            ),
            old(self).has_key(key) ==> r.started == old(self).spec_get(key).spec_refetch_fired(
                now,
                old(self).fetch_suppressed,
            ).1,
            old(self).has_key(key) ==> final(self).spec_get(key) == old(self).spec_get(
                key,
            ).spec_refetch_fired(now, old(self).fetch_suppressed).0,
            forall|k: u64| old(self).has_key(k) ==> final(self).has_key(k),
    {
        let suppressed = self.fetch_suppressed;
        let i = match self.index_of(key) {
            Some(i) => i,
            None => {
                return SyncOutcome {
                    started: false,
                    cancelled_refetch: None,
                    cancelled_evict: None,
                };
            },
        };
        let due = match self.entries[i].refetch_timer {
            Some(t) => t.deadline <= now,
            None => false,
        };
        if !due {
            return SyncOutcome { started: false, cancelled_refetch: None, cancelled_evict: None };
        }
        let q = &mut self.entries[i];
        q.refetch_timer = None;
        let started = q.execute(suppressed);
        let out = q.synchronize_state(suppressed);
        proof {
            let i0 = i as int;
            lemma_update_keeps_wf(old(self).entries@, self.entries@, i0);
            self.lemma_key_at(key, i0);
            old(self).lemma_update_keeps_keys(*self, i0);
        }
        SyncOutcome {
            started: started || out.started,
            cancelled_refetch: out.cancelled_refetch,
            cancelled_evict: out.cancelled_evict,
        }
    }

    /// The armed eviction timer for `key` fired at `now`. When it is due,
    /// the slot is consumed and eviction is attempted: an unobserved record
    /// is removed and handed back for disposal; a record that still has
    /// observers is never removed — its eviction is deferred until the last
    /// consumer detaches, unless a new update cancels it first.
    pub fn evict_timer_fired(&mut self, key: u64, now: u64) -> (evicted: Option<Query<V>>)
        requires
            old(self).wf(),
        ensures
            final(self).wf(),
            final(self).fetch_suppressed == old(self).fetch_suppressed,
            !old(self).has_key(key) ==> *final(self) == *old(self) && evicted == None::<Query<V>>,
            old(self).has_key(key) ==> ({
                let i = old(self).key_index(key);
                let q0 = old(self).spec_get(key);
                if q0.evict_due_at(now) {
                    if q0.observers == 0 {
                        &&& evicted == Some((Query { evict_timer: None::<Timer>, ..q0 }))
                        &&& final(self).entries@ == old(self).entries@.remove(i)
                        &&& !final(self).has_key(key)
                    } else {
                        &&& evicted == None::<Query<V>>
                        &&& final(self).entries@ == old(self).entries@.update(
                            i,
                            (Query { evict_timer: None::<Timer>, eviction_pending: true, ..q0 }),
                        )
                        &&& final(self).has_key(key)
                    }
                } else {
                    evicted == None::<Query<V>> && *final(self) == *old(self)
                }
            }),
            old(self).has_key(key) && old(self).spec_get(key).observers > 0 ==> final(self).has_key(
                key,
            ) && evicted == None::<Query<V>>,
            forall|k: u64|
                old(self).has_key(k) && (k != key || old(self).spec_get(k).observers > 0)
                    ==> final(self).has_key(k),
    {
        let i = match self.index_of(key) {
            Some(i) => i,
            None => {
                return None;
            },
        };
        let due = match self.entries[i].evict_timer {
            Some(t) => t.deadline <= now,
            None => false,
        };
        if !due {
            return None;
        }
        let q = &mut self.entries[i];
        q.evict_timer = None;
        let unobserved = q.observers == 0;
        if unobserved {
            proof {
                let i0 = i as int;
                lemma_update_keeps_wf(old(self).entries@, self.entries@, i0);
            }
            let ghost mid = self.entries@;
            let removed = self.entries.remove(i);
            proof {
                let i0 = i as int;
                lemma_remove_key(mid, i0);
                mid.remove_ensures(i0);
                old(self).entries@.remove_ensures(i0);
                assert(mid.remove(i0) =~= old(self).entries@.remove(i0));
                old(self).lemma_remove_keeps_other_keys(*self, i0);
            }
            Some(removed)
        } else {
            q.eviction_pending = true;
            proof {
                let i0 = i as int;
                lemma_update_keeps_wf(old(self).entries@, self.entries@, i0);
                self.lemma_key_at(key, i0);
                old(self).lemma_update_keeps_keys(*self, i0);
            }
            None
        }
    }
}

} // verus!
