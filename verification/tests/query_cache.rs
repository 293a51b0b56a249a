use pl3xus::query::query_key_or_default;
use pl3xus::query::targeted_query_key;
use pl3xus::query::mount_action;
use pl3xus::query::refetch_on_invalidation;
use pl3xus::query::MountAction;
use pl3xus::query::QueryState;
use pl3xus::query_cache::QueryCache;
use pl3xus::tracking::UseRequestState;

fn cached(data: Option<Vec<u8>>, is_fetching: bool) -> QueryState<Vec<u8>> {
    QueryState { data, error: None, is_fetching, is_stale: false }
}

#[test]
fn cache_entries_are_created_once_and_follow_fetches() {
    let mut cache = QueryCache::new();
    assert!(cache.state("ListPrograms", "00").is_none());
    cache.get_or_create("ListPrograms", "00");
    let s = cache.state("ListPrograms", "00").unwrap();
    assert!(s.data.is_none() && s.error.is_none() && !s.is_fetching && !s.is_stale);

    cache.start_fetch("ListPrograms", "00");
    assert!(cache.state("ListPrograms", "00").unwrap().is_fetching);
    cache.fetch_succeeded("ListPrograms", "00", vec![1, 2, 3]);
    let s = cache.state("ListPrograms", "00").unwrap();
    assert_eq!(s.data, Some(vec![1, 2, 3]));
    assert!(!s.is_fetching && !s.is_stale && s.error.is_none());

    // A second view of the same query finds the entry as it is.
    cache.get_or_create("ListPrograms", "00");
    assert_eq!(cache.state("ListPrograms", "00").unwrap().data, Some(vec![1, 2, 3]));

    cache.start_fetch("ListPrograms", "00");
    let s = cache.state("ListPrograms", "00").unwrap();
    assert!(s.is_fetching && s.is_stale);
    cache.fetch_failed("ListPrograms", "00", "timeout".to_string());
    let s = cache.state("ListPrograms", "00").unwrap();
    assert_eq!(s.error.as_deref(), Some("timeout"));
    assert_eq!(s.data, Some(vec![1, 2, 3]));
    assert!(!s.is_fetching && s.is_stale);
}

#[test]
fn updates_to_unknown_queries_change_nothing() {
    let mut cache = QueryCache::new();
    cache.start_fetch("ListPrograms", "00");
    cache.fetch_succeeded("ListPrograms", "00", vec![9]);
    assert!(cache.state("ListPrograms", "00").is_none());
    assert!(!cache.has_cached_data("ListPrograms"));
}

#[test]
fn cached_data_is_reported_per_query_type() {
    let mut cache = QueryCache::new();
    cache.get_or_create("GetProgram", "01");
    cache.get_or_create("GetProgram", "02");
    cache.get_or_create("ListRobots", "");
    assert!(!cache.has_cached_data("GetProgram"));
    cache.fetch_succeeded("GetProgram", "02", vec![5]);
    assert!(cache.has_cached_data("GetProgram"));
    assert!(!cache.has_cached_data("ListRobots"));
    assert!(!cache.has_cached_data("Other"));
}

#[test]
fn clearing_the_cache_keeps_entries_and_drops_data() {
    let mut cache = QueryCache::new();
    cache.get_or_create("GetProgram", "01");
    cache.fetch_succeeded("GetProgram", "01", vec![5]);
    cache.get_or_create("ListRobots", "");
    cache.start_fetch("ListRobots", "");
    cache.clear_cache();
    assert!(!cache.has_cached_data("GetProgram"));
    let a = cache.state("GetProgram", "01").unwrap();
    assert!(a.data.is_none() && a.error.is_none() && !a.is_fetching && !a.is_stale);
    let b = cache.state("ListRobots", "").unwrap();
    assert!(!b.is_fetching);
}

#[test]
fn mount_restores_fetches_or_waits() {
    assert_eq!(mount_action(&cached(Some(vec![1]), false), true), MountAction::Restore);
    assert_eq!(mount_action(&cached(Some(vec![1]), true), true), MountAction::Restore);
    assert_eq!(mount_action(&cached(Some(vec![1]), false), false), MountAction::Fetch);
    assert_eq!(mount_action(&cached(None, false), false), MountAction::Fetch);
    assert_eq!(mount_action(&cached(None, true), false), MountAction::Wait);
}

#[test]
fn restore_takes_the_cached_flags() {
    let mut q: QueryState<u32> = QueryState::default();
    let c = QueryState { data: Some(vec![7]), error: Some("old".to_string()), is_fetching: true, is_stale: true };
    q.restore(&c, 7);
    assert_eq!(q.data, Some(7));
    assert_eq!(q.error.as_deref(), Some("old"));
    assert!(q.is_fetching && q.is_stale);
}

#[test]
fn request_outcomes_drive_the_query_state() {
    let mut q: QueryState<u32> = QueryState::default();
    q.start_fetch();
    q.apply_request(UseRequestState { is_loading: true, data: None, error: None });
    assert!(q.is_loading());
    q.apply_request(UseRequestState { is_loading: false, data: None, error: None });
    assert!(q.is_loading());
    q.apply_request(UseRequestState { is_loading: false, data: Some(3), error: None });
    assert_eq!(q.data, Some(3));
    assert!(!q.is_fetching && q.error.is_none());
    q.start_fetch();
    q.apply_request(UseRequestState { is_loading: false, data: None, error: Some("boom".to_string()) });
    assert_eq!(q.error.as_deref(), Some("boom"));
    assert_eq!(q.data, Some(3));
    assert!(!q.is_fetching && q.is_stale);
}

#[test]
fn invalidation_counters_trigger_refetch_once() {
    assert_eq!(refetch_on_invalidation(None, 0), None);
    assert_eq!(refetch_on_invalidation(Some(0), 0), None);
    assert_eq!(refetch_on_invalidation(Some(1), 0), Some(1));
    assert_eq!(refetch_on_invalidation(Some(3), 3), None);
    assert_eq!(refetch_on_invalidation(Some(2), 5), None);
}

#[test]
fn query_keys_for_targets_and_failed_serialization() {
    assert_eq!(query_key_or_default(Some(&[0x0a, 0xff])), "0aff");
    assert_eq!(query_key_or_default(None), "default");
    assert_eq!(targeted_query_key(12, "0aff"), "entity:12:0aff");
    assert_eq!(targeted_query_key(0, "default"), "entity:0:default");
}
