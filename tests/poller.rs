use ktv_casting::status_poller::{
    should_auto_advance, DurationCache, PollTick, StatusPoller, ADVANCE_COOLDOWN_MS,
    POLL_INTERVAL_MS,
};

#[test]
fn advance_gate() {
    assert!(should_auto_advance(200, 199));
    assert!(should_auto_advance(200, 198));
    assert!(!should_auto_advance(200, 197));
    assert!(!should_auto_advance(200, 200));
    assert!(!should_auto_advance(0, 10));
    assert!(!should_auto_advance(6, 5));
    assert!(should_auto_advance(7, 6));
}

#[test]
fn auto_advance_fires_once_then_waits() {
    let mut cache = DurationCache::new();
    cache.insert("BV1AAAAAAAAA", 200);
    let total = cache.total_for(&Some("BV1AAAAAAAAA".to_string()));
    assert_eq!(total, 200);
    let mut p = StatusPoller::new();
    let t = p.tick(10_000, total, 199);
    assert_eq!(
        t,
        PollTick { length: Some(200), position: 199, advance: true, next_tick_in_ms: ADVANCE_COOLDOWN_MS }
    );
    let t2 = p.tick(10_000 + POLL_INTERVAL_MS, total, 199);
    assert!(!t2.advance);
    assert_eq!(t2.next_tick_in_ms, 1000);
    let t3 = p.tick(15_000, total, 199);
    assert!(t3.advance);
}

#[test]
fn unknown_length_reports_position_only() {
    let cache = DurationCache::new();
    assert_eq!(cache.total_for(&Some("x".to_string())), 0);
    assert_eq!(cache.total_for(&None), 0);
    let mut p = StatusPoller::new();
    let t = p.tick(0, 0, 42);
    assert_eq!(t, PollTick { length: None, position: 42, advance: false, next_tick_in_ms: 1000 });
}

#[test]
fn cache_overwrites_and_keeps() {
    let mut cache = DurationCache::new();
    cache.insert("a", 1);
    cache.insert("b", 2);
    cache.insert("a", 3);
    assert_eq!(cache.get("a"), Some(3));
    assert_eq!(cache.get("b"), Some(2));
    assert_eq!(cache.get("c"), None);
}
