use query_engine::cache::QueryCache;
use query_engine::query::Timer;
use query_engine::state::QueryState;
use query_engine::time_util::maybe_time_until_stale;
use query_engine::time_util::time_until_stale;

#[test]
fn remaining_time_counts_down_and_saturates() {
    assert_eq!(time_until_stale(100, 50, 120), 30);
    assert_eq!(time_until_stale(100, 50, 150), 0);
    assert_eq!(time_until_stale(100, 50, 151), 0);
    assert_eq!(time_until_stale(100, 50, 100), 50);
    // A window reaching past the largest instant never elapses.
    assert_eq!(time_until_stale(u64::MAX, 5, 0), u64::MAX);
    assert_eq!(time_until_stale(u64::MAX - 1, u64::MAX, u64::MAX), 0);
}

#[test]
fn remaining_time_needs_both_inputs() {
    assert_eq!(maybe_time_until_stale(Some(100), Some(50), 120), Some(30));
    assert_eq!(maybe_time_until_stale(None, Some(50), 120), None);
    assert_eq!(maybe_time_until_stale(Some(100), None, 120), None);
    assert_eq!(maybe_time_until_stale(None, None, 120), None);
}

#[test]
fn concurrent_triggers_start_one_fetch() {
    let mut c: QueryCache<u64> = QueryCache::new();
    c.get_or_create_query(1, None, None, None);
    let first = c.trigger_refetch(1);
    assert!(first.started);
    let second = c.trigger_refetch(1);
    assert!(!second.started);
    let third = c.trigger_refetch(1);
    assert!(!third.started);
    assert!(matches!(c.read_state(1), Some(QueryState::Loading)));
    c.fetch_resolved(1, 9, 100);
    let after = c.trigger_refetch(1);
    assert!(after.started);
    assert!(matches!(c.read_state(1), Some(QueryState::Fetching(v)) if *v == 9));
}

#[test]
fn suppression_disables_every_trigger() {
    let mut c: QueryCache<u64> = QueryCache::new();
    c.get_or_create_query(1, Some(0), None, None);
    c.suppress_query_load(true);
    let attach = c.attach(1, 0);
    assert!(!attach.started);
    let trigger = c.trigger_refetch(1);
    assert!(!trigger.started);
    assert!(matches!(c.read_state(1), Some(QueryState::Created)));
    c.suppress_query_load(false);
    let trigger = c.trigger_refetch(1);
    assert!(trigger.started);
    assert!(matches!(c.read_state(1), Some(QueryState::Loading)));
}

#[test]
fn observer_count_follows_attach_and_detach() {
    let mut c: QueryCache<u64> = QueryCache::new();
    c.get_or_create_query(1, None, None, None);
    c.attach(1, 0);
    c.attach(1, 0);
    c.attach(1, 0);
    assert_eq!(c.entries[0].observers, 3);
    c.detach(1);
    assert_eq!(c.entries[0].observers, 2);
    c.detach(1);
    c.detach(1);
    assert_eq!(c.entries[0].observers, 0);
    // No eviction was deferred, so the unobserved entry stays cached.
    assert!(c.read_state(1).is_some());
}

#[test]
fn update_discards_deferred_eviction_and_rearms() {
    let mut c: QueryCache<u64> = QueryCache::new();
    c.get_or_create_query(1, None, Some(10_000), None);
    c.trigger_refetch(1);
    c.fetch_resolved(1, 1, 0);
    c.attach(1, 500);
    let fired = c.evict_timer_fired(1, 10_000);
    assert!(fired.is_none());
    assert!(c.entries[0].eviction_pending);
    // A new update supersedes the deferred eviction and re-arms the timer.
    c.fetch_resolved(1, 2, 11_000);
    assert!(!c.entries[0].eviction_pending);
    assert_eq!(c.entries[0].evict_timer, Some(Timer { deadline: 21_000 }));
    let on_detach = c.detach(1);
    assert!(on_detach.is_none());
    assert!(c.read_state(1).is_some());
}

#[test]
fn invalidation_before_first_load_is_ignored() {
    let mut c: QueryCache<u64> = QueryCache::new();
    c.get_or_create_query(1, None, None, None);
    let r = c.invalidate(1);
    assert!(!r.started);
    assert!(matches!(c.read_state(1), Some(QueryState::Created)));
}

#[test]
fn lookup_or_insert_keeps_existing_record() {
    let mut c: QueryCache<u64> = QueryCache::new();
    assert!(c.get_or_create_query(1, Some(5000), None, None));
    c.trigger_refetch(1);
    c.fetch_resolved(1, 3, 7);
    assert!(!c.get_or_create_query(1, Some(9999), None, None));
    assert!(matches!(c.read_state(1), Some(QueryState::Loaded(v, t)) if *v == 3 && *t == 7));
    assert_eq!(c.entries[0].stale_after, Some(5000));
    assert!(c.get_or_create_query(2, None, None, None));
    assert_eq!(c.entries.len(), 2);
}

#[test]
fn fires_on_absent_or_unarmed_keys_change_nothing() {
    let mut c: QueryCache<u64> = QueryCache::new();
    assert!(c.evict_timer_fired(1, 1000).is_none());
    assert!(!c.refetch_timer_fired(1, 1000).started);
    let r = c.fetch_resolved(1, 5, 1000);
    assert!(!r.started);
    c.get_or_create_query(1, None, None, None);
    // No timer is armed before the first update, so a fire is a no-op.
    assert!(c.evict_timer_fired(1, 1000).is_none());
    assert!(!c.refetch_timer_fired(1, 1000).started);
    assert!(matches!(c.read_state(1), Some(QueryState::Created)));
}

#[test]
fn refetch_while_fetching_clears_timer_until_resolution() {
    let mut c: QueryCache<u64> = QueryCache::new();
    c.get_or_create_query(1, None, None, Some(2000));
    c.trigger_refetch(1);
    c.fetch_resolved(1, 1, 0);
    assert_eq!(c.entries[0].refetch_timer, Some(Timer { deadline: 2000 }));
    // While the refetch is in flight there is no update instant to measure
    // from, so no interval timer is armed.
    let r = c.refetch_timer_fired(1, 2000);
    assert!(r.started);
    assert_eq!(c.entries[0].refetch_timer, None);
    c.fetch_resolved(1, 2, 2500);
    assert_eq!(c.entries[0].refetch_timer, Some(Timer { deadline: 4500 }));
}

#[test]
fn deadlines_saturate_at_the_largest_instant() {
    let mut c: QueryCache<u64> = QueryCache::new();
    c.get_or_create_query(1, None, Some(u64::MAX), Some(10));
    c.trigger_refetch(1);
    c.fetch_resolved(1, 1, 5);
    assert_eq!(c.entries[0].evict_timer, Some(Timer { deadline: u64::MAX }));
    assert_eq!(c.entries[0].refetch_timer, Some(Timer { deadline: 15 }));
    let fired = c.evict_timer_fired(1, u64::MAX - 1);
    assert!(fired.is_none());
    assert!(c.read_state(1).is_some());
}

#[test]
fn cancelled_timers_are_handed_back() {
    let mut c: QueryCache<u64> = QueryCache::new();
    c.get_or_create_query(1, None, Some(10_000), Some(2000));
    c.trigger_refetch(1);
    let r = c.fetch_resolved(1, 1, 0);
    assert_eq!(r.cancelled_refetch, None);
    assert_eq!(r.cancelled_evict, None);
    let r = c.fetch_resolved(1, 2, 1000);
    // Re-arming cancels exactly the previously armed timers.
    assert_eq!(r.cancelled_refetch, Some(Timer { deadline: 2000 }));
    assert_eq!(r.cancelled_evict, Some(Timer { deadline: 10_000 }));
    assert_eq!(c.entries[0].refetch_timer, Some(Timer { deadline: 3000 }));
    assert_eq!(c.entries[0].evict_timer, Some(Timer { deadline: 11_000 }));
}
