use query_engine::cache::QueryCache;
use query_engine::query::Timer;
use query_engine::state::QueryState;

#[test]
fn scenario_a_first_attach_triggers_single_fetch() {
    let mut c: QueryCache<u64> = QueryCache::new();
    let created = c.get_or_create_query(1, Some(0), None, None);
    assert!(created);
    assert!(matches!(c.read_state(1), Some(QueryState::Created)));
    let r = c.attach(1, 0);
    assert!(r.started);
    assert!(matches!(c.read_state(1), Some(QueryState::Loading)));
    c.fetch_resolved(1, 42, 0);
    assert!(matches!(c.read_state(1), Some(QueryState::Loaded(v, t)) if *v == 42 && *t == 0));
}

#[test]
fn scenario_b_staleness_window_gates_refetch() {
    let mut c: QueryCache<u64> = QueryCache::new();
    c.get_or_create_query(1, Some(5000), None, None);
    let first = c.trigger_refetch(1);
    assert!(first.started);
    c.fetch_resolved(1, 7, 0);
    let at_3s = c.attach(1, 3000);
    assert!(!at_3s.started);
    assert!(matches!(c.read_state(1), Some(QueryState::Loaded(v, t)) if *v == 7 && *t == 0));
    let at_5s = c.attach(1, 5000);
    assert!(at_5s.started);
    assert!(matches!(c.read_state(1), Some(QueryState::Fetching(v)) if *v == 7));
}

#[test]
fn scenario_c_unobserved_entry_evicted_when_cache_window_elapses() {
    let mut c: QueryCache<u64> = QueryCache::new();
    c.get_or_create_query(1, None, Some(10_000), None);
    c.trigger_refetch(1);
    c.fetch_resolved(1, 1, 0);
    assert_eq!(c.entries[0].evict_timer, Some(Timer { deadline: 10_000 }));
    let early = c.evict_timer_fired(1, 9000);
    assert!(early.is_none());
    assert!(c.read_state(1).is_some());
    let at_deadline = c.evict_timer_fired(1, 10_000);
    assert!(at_deadline.is_some());
    assert!(c.read_state(1).is_none());
}

#[test]
fn scenario_d_late_observer_blocks_eviction() {
    let mut c: QueryCache<u64> = QueryCache::new();
    c.get_or_create_query(1, None, Some(10_000), None);
    c.trigger_refetch(1);
    c.fetch_resolved(1, 1, 0);
    let r = c.attach(1, 9000);
    assert!(!r.started);
    let fired = c.evict_timer_fired(1, 10_000);
    assert!(fired.is_none());
    assert!(c.read_state(1).is_some());
    // The deferred eviction runs when the last consumer detaches.
    let on_detach = c.detach(1);
    assert!(on_detach.is_some());
    assert!(c.read_state(1).is_none());
}

#[test]
fn scenario_e_interval_measured_from_latest_update() {
    let mut c: QueryCache<u64> = QueryCache::new();
    c.get_or_create_query(1, None, None, Some(2000));
    c.trigger_refetch(1);
    c.fetch_resolved(1, 1, 0);
    assert_eq!(c.entries[0].refetch_timer, Some(Timer { deadline: 2000 }));
    let second = c.refetch_timer_fired(1, 2000);
    assert!(second.started);
    assert!(matches!(c.read_state(1), Some(QueryState::Fetching(_))));
    c.fetch_resolved(1, 2, 2100);
    assert_eq!(c.entries[0].refetch_timer, Some(Timer { deadline: 4100 }));
}

#[test]
fn scenario_f_double_invalidation_triggers_once() {
    let mut c: QueryCache<u64> = QueryCache::new();
    c.get_or_create_query(1, None, None, None);
    c.trigger_refetch(1);
    c.fetch_resolved(1, 5, 0);
    let first = c.invalidate(1);
    assert!(first.started);
    assert!(matches!(c.read_state(1), Some(QueryState::Fetching(v)) if *v == 5));
    let second = c.invalidate(1);
    assert!(!second.started);
    assert!(matches!(c.read_state(1), Some(QueryState::Fetching(v)) if *v == 5));
    c.fetch_resolved(1, 6, 1000);
    assert!(matches!(c.read_state(1), Some(QueryState::Loaded(v, t)) if *v == 6 && *t == 1000));
}
