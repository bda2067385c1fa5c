//! Laws of the engine that relate several operations or whole sequences of
//! them, proved over the same specification functions that the executable
//! operations are verified against.
//!
//! One guarantee lives elsewhere: that a record which still has observers is
//! never removed from the cache, however late an eviction timer fires, is
//! stated directly on the contracts of
//! [`crate::cache::QueryCache::evict_timer_fired`] and
//! [`crate::cache::QueryCache::detach`].

use vstd::prelude::*;

use crate::query::Query;
use crate::query::Timer;
use crate::state::QueryState;
use crate::time_util::deadline_of;

verus! {

/// Record and number of started fetches after `n` consecutive Executor
/// triggers on the same record, with nothing resolving in between.
pub open spec fn spec_trigger_times<V>(q: Query<V>, suppressed: bool, n: nat) -> (Query<V>, nat)
    decreases n,
{
    if n == 0 {
        (q, 0nat)
    } else {
        let prev = spec_trigger_times(q, suppressed, (n - 1) as nat);
        let step = prev.0.spec_execute(suppressed);
        (step.0, (prev.1 + if step.1 {
            1nat
        } else {
            0nat
        }) as nat)
    }
}

/// **Dedup.** For every sequence of Executor triggers on the same record
/// while nothing resolves, at most one fetch starts: exactly one when the
/// record was triggered at least once, fetching is not suppressed and no
/// fetch was already in flight, and none otherwise. In particular a record
/// with a fetch in flight is left exactly as it is.
pub proof fn lemma_executor_dedup<V>(q: Query<V>, suppressed: bool, n: nat)
    requires
        n >= 1,
    ensures
        spec_trigger_times(q, suppressed, n).1 == if suppressed || q.state.is_in_flight() {
            0nat
        } else {
            1nat
        },
        spec_trigger_times(q, suppressed, n).0 == if suppressed || q.state.is_in_flight() {
            q
        } else {
            q.spec_execute(suppressed).0
        },
    decreases n,
{
    if n == 1 {
        assert(spec_trigger_times(q, suppressed, 0nat) == (q, 0nat));
        assert(spec_trigger_times(q, suppressed, 1nat).0 == q.spec_execute(suppressed).0);
    } else {
        lemma_executor_dedup(q, suppressed, (n - 1) as nat);
        if !(suppressed || q.state.is_in_flight()) {
            assert(q.spec_execute(suppressed).0.state.is_in_flight());
        }
    }
}

/// Number of attaches in a consumer attach/detach history (`true` attaches,
/// `false` detaches).
pub open spec fn attach_count(ops: Seq<bool>) -> int
    decreases ops.len(),
{
    if ops.len() == 0 {
        0
    } else {
        attach_count(ops.drop_last()) + if ops.last() {
            1int
        } else {
            0int
        }
    }
}

/// Number of detaches in a consumer attach/detach history.
pub open spec fn detach_count(ops: Seq<bool>) -> int
    decreases ops.len(),
{
    if ops.len() == 0 {
        0
    } else {
        detach_count(ops.drop_last()) + if ops.last() {
            0int
        } else {
            1int
        }
    }
}

/// Observer count after a history, starting from zero: each attach adds one,
/// each detach takes one away — the step the Observer Counter's
/// `attach_observer` and `detach_observer` are verified to take.
pub open spec fn observers_after(ops: Seq<bool>) -> int
    decreases ops.len(),
{
    if ops.len() == 0 {
        0
    } else {
        observers_after(ops.drop_last()) + if ops.last() {
            1int
        } else {
            -1int
        }
    }
}

/// The count always equals the attaches minus the detaches so far.
pub proof fn lemma_observer_count_split(ops: Seq<bool>)
    ensures
        observers_after(ops) == attach_count(ops) - detach_count(ops),
    decreases ops.len(),
{
    if ops.len() > 0 {
        lemma_observer_count_split(ops.drop_last());
    }
}

/// **Observer non-negativity.** In every attach/detach history in which a
/// detach only ever answers an earlier attach — no prefix detaches more
/// often than it attached — the observer count equals the number of attaches
/// minus the number of detaches at every point, and never goes below zero.
pub proof fn lemma_observer_count(ops: Seq<bool>)
    requires
        forall|k: int|
            0 <= k <= ops.len() ==> detach_count(#[trigger] ops.take(k)) <= attach_count(
                ops.take(k),
            ),
    ensures
        observers_after(ops) == attach_count(ops) - detach_count(ops),
        forall|k: int| 0 <= k <= ops.len() ==> observers_after(#[trigger] ops.take(k)) >= 0,
{
    lemma_observer_count_split(ops);
    assert forall|k: int| 0 <= k <= ops.len() implies observers_after(#[trigger] ops.take(k))
        >= 0 by {
        lemma_observer_count_split(ops.take(k));
    }
}

/// **No leaked timers.** A synchronization pass leaves each concern with at
/// most one armed timer — the one computed from the record as it now stands
/// — and no deferred eviction; the previously armed timers are exactly what
/// the pass hands back for cancellation, so every arm is paired with the
/// cancellation of its predecessor.
pub proof fn lemma_no_leaked_timers<V>(q: Query<V>, suppressed: bool)
    ensures
        ({
            let q2 = q.spec_synchronize(suppressed).0;
            &&& q2.refetch_timer == q2.spec_refetch_timer()
            &&& q2.evict_timer == q2.spec_evict_timer()
            &&& !q2.eviction_pending
        }),
{
}

/// **Rearm on update.** After a fetch resolves at `now`, both the
/// interval-refetch deadline and the eviction deadline are recomputed from
/// the new update instant, whatever deadlines were armed before, and any
/// deferred eviction is cancelled.
pub proof fn lemma_rearm_on_update<V>(q: Query<V>, value: V, now: u64, suppressed: bool)
    ensures
        ({
            let q2 = q.spec_resolve(value, now, suppressed);
            &&& q2.state == QueryState::Loaded(value, now)
            &&& q2.refetch_timer == (match q.refetch_every {
                Some(d) => Some(Timer { deadline: deadline_of(now, d) }),
                None => None::<Timer>,
            })
            &&& q2.evict_timer == (match q.cache_for {
                Some(d) => Some(Timer { deadline: deadline_of(now, d) }),
                None => None::<Timer>,
            })
            &&& !q2.eviction_pending
        }),
{
}

} // verus!
