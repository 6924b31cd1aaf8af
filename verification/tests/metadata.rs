use psr::metadata::{
    read_thread_count, read_user, ThreadCache, UserCache, THREAD_TTL_MS, USER_TTL_MS,
};

#[test]
fn time_to_live_values() {
    assert_eq!(USER_TTL_MS, 30_000);
    assert_eq!(THREAD_TTL_MS, 5_000);
}

#[test]
fn read_user_trims_the_output() {
    assert_eq!(read_user(Some("alice\n")), "alice");
    assert_eq!(read_user(Some("  root  ")), "root");
}

#[test]
fn read_user_falls_back_to_unknown() {
    assert_eq!(read_user(None), "unknown");
    assert_eq!(read_user(Some("")), "unknown");
    assert_eq!(read_user(Some(" \n")), "unknown");
}

#[test]
fn read_thread_count_parses_the_output() {
    assert_eq!(read_thread_count(Some("   12\n")), Some(12));
    assert_eq!(read_thread_count(Some("1")), Some(1));
}

#[test]
fn read_thread_count_is_absent_on_failure() {
    assert_eq!(read_thread_count(None), None);
    assert_eq!(read_thread_count(Some("")), None);
    assert_eq!(read_thread_count(Some("n/a")), None);
    assert_eq!(read_thread_count(Some("1 2")), None);
}

#[test]
fn user_cache_stores_what_it_resolved() {
    let mut cache = UserCache::new(0);
    assert!(!cache.is_cached(7, 0));
    assert_eq!(cache.get_user(7, 10, Some("alice\n")), "alice");
    assert!(cache.is_cached(7, 10));
    assert_eq!(cache.get_user(7, 20, Some("bob\n")), "alice");
    assert_eq!(cache.get_user(7, 30, None), "alice");
}

#[test]
fn user_cache_stores_the_sentinel_too() {
    let mut cache = UserCache::new(0);
    assert_eq!(cache.get_user(7, 10, None), "unknown");
    assert!(cache.is_cached(7, 10));
    assert_eq!(cache.get_user(7, 20, Some("alice")), "unknown");
}

#[test]
fn user_cache_is_emptied_as_a_whole_after_its_time_to_live() {
    let mut cache = UserCache::new(1_000);
    assert_eq!(cache.get_user(1, 1_000, Some("alice")), "alice");
    assert_eq!(cache.get_user(2, 20_000, Some("bob")), "bob");
    assert!(cache.is_cached(1, 31_000));
    assert!(cache.is_cached(2, 31_000));
    assert!(!cache.is_cached(1, 31_001));
    assert!(!cache.is_cached(2, 31_001));
    assert_eq!(cache.get_user(1, 31_001, Some("carol")), "carol");
    assert!(!cache.is_cached(2, 31_001));
    assert!(cache.is_cached(1, 61_001));
    assert!(!cache.is_cached(1, 61_002));
}

#[test]
fn user_cache_ignores_a_clock_that_runs_backwards() {
    let mut cache = UserCache::new(50_000);
    assert_eq!(cache.get_user(1, 50_000, Some("alice")), "alice");
    assert!(cache.is_cached(1, 10));
    assert_eq!(cache.get_user(1, 10, Some("bob")), "alice");
}

#[test]
fn thread_cache_stores_counts() {
    let mut cache = ThreadCache::new(0);
    assert_eq!(cache.get_thread_count(7, 10, Some(" 4\n")), Some(4));
    assert!(cache.is_cached(7, 10));
    assert_eq!(cache.get_thread_count(7, 20, Some("9")), Some(4));
    assert_eq!(cache.get_thread_count(7, 20, None), Some(4));
}

#[test]
fn thread_cache_does_not_remember_failures() {
    let mut cache = ThreadCache::new(0);
    assert_eq!(cache.get_thread_count(7, 10, None), None);
    assert!(!cache.is_cached(7, 10));
    assert_eq!(cache.get_thread_count(7, 20, Some("x")), None);
    assert!(!cache.is_cached(7, 20));
    assert_eq!(cache.get_thread_count(7, 30, Some("3")), Some(3));
    assert!(cache.is_cached(7, 30));
}

#[test]
fn thread_cache_is_emptied_after_its_time_to_live() {
    let mut cache = ThreadCache::new(0);
    assert_eq!(cache.get_thread_count(7, 0, Some("4")), Some(4));
    assert!(cache.is_cached(7, 5_000));
    assert!(!cache.is_cached(7, 5_001));
    assert_eq!(cache.get_thread_count(7, 5_001, Some("6")), Some(6));
    assert!(cache.is_cached(7, 10_001));
    assert!(!cache.is_cached(7, 10_002));
}
