use colosseo_core::models::{Alert, AlertLevel, AvailabilityStatus};
use colosseo_core::state_machine::{TicketState, TicketType};
use colosseo_core::store::{metric_key, StateStore, PROXY_TTL_MS, STATE_TTL_MS};

const T0: i64 = 1_700_000_000_000;

fn monitoring(now: i64) -> TicketState {
    TicketState::Monitoring {
        started_at: now,
        last_check: now,
        check_count: 7,
        target_date: "2026-03-15".to_string(),
        ticket_type: TicketType::ForumPassSuper,
    }
}

fn alert(tag: &str) -> Alert {
    Alert {
        level: AlertLevel::Warning,
        timestamp_ms: T0,
        target: tag.to_string(),
        availability: AvailabilityStatus::Uncertain,
        confidence: 500,
        metadata: vec![],
    }
}

#[test]
fn test_claim_single_winner() {
    // Two workers race the same event id: exactly one wins.
    let mut store = StateStore::new();
    let e1 = "E1".to_string();
    let won_a = store.try_claim_cart(&e1, &"cart-a".to_string(), 900, T0);
    let won_b = store.try_claim_cart(&e1, &"cart-b".to_string(), 900, T0);
    assert!(won_a);
    assert!(!won_b);
    let claim = store.get_claim(&e1, T0).unwrap();
    assert_eq!(claim.token, "cart-a");
    assert_eq!(claim.expires_at, T0 + 900_000);
}

#[test]
fn test_claim_blocks_until_release() {
    let mut store = StateStore::new();
    let id = "evt".to_string();
    assert!(store.try_claim_cart(&id, &"one".to_string(), 60, T0));
    assert!(!store.try_claim_cart(&id, &"two".to_string(), 60, T0 + 59_999));
    store.release_claim(&id);
    assert!(store.try_claim_cart(&id, &"two".to_string(), 60, T0 + 59_999));
    let claim = store.get_claim(&id, T0 + 59_999).unwrap();
    assert_eq!(claim.token, "two");
}

#[test]
fn test_claim_expires_after_ttl() {
    let mut store = StateStore::new();
    let id = "evt".to_string();
    assert!(store.try_claim_cart(&id, &"one".to_string(), 10, T0));
    // One millisecond before the deadline the claim still blocks.
    assert!(!store.try_claim_cart(&id, &"two".to_string(), 10, T0 + 9_999));
    // At the deadline it no longer does.
    assert!(store.try_claim_cart(&id, &"two".to_string(), 10, T0 + 10_000));
}

#[test]
fn test_claims_independent_per_resource() {
    let mut store = StateStore::new();
    assert!(store.try_claim_cart(&"a".to_string(), &"ca".to_string(), 900, T0));
    assert!(store.try_claim_cart(&"b".to_string(), &"cb".to_string(), 900, T0));
    assert!(!store.try_claim_cart(&"a".to_string(), &"cx".to_string(), 900, T0));
}

#[test]
fn test_state_round_trip_until_ttl() {
    let mut store = StateStore::new();
    let id = "colosseo-01".to_string();
    let state = monitoring(T0);
    store.save_state(&id, state.clone(), T0);
    // Identical immediately and for the whole hour.
    assert_eq!(store.load_state(&id, T0), Some(&state));
    assert_eq!(store.load_state(&id, T0 + STATE_TTL_MS - 1), Some(&state));
    // Absent once the TTL elapsed; absence is not an error.
    assert_eq!(store.load_state(&id, T0 + STATE_TTL_MS), None);
    assert_eq!(store.load_state(&"other".to_string(), T0), None);
}

#[test]
fn test_state_overwrite_is_unconditional() {
    let mut store = StateStore::new();
    let id = "t".to_string();
    store.save_state(&id, monitoring(T0), T0);
    let later = monitoring(T0 + 5_000);
    store.save_state(&id, later.clone(), T0 + 5_000);
    assert_eq!(store.load_state(&id, T0 + 5_000), Some(&later));
}

#[test]
fn test_delete_state() {
    let mut store = StateStore::new();
    let id = "t".to_string();
    store.save_state(&id, monitoring(T0), T0);
    store.delete_state(&id);
    assert_eq!(store.load_state(&id, T0), None);
}

#[test]
fn test_session_round_trip() {
    let mut store = StateStore::new();
    let sid = "sess-9".to_string();
    let cookies = "token=SECRET-REDACTED; path=/".to_string();
    store.save_session(&sid, &cookies, 120, T0);
    assert_eq!(store.load_session(&sid, T0 + 119_999), Some(&cookies));
    assert_eq!(store.load_session(&sid, T0 + 120_000), None);
}

#[test]
fn test_metric_key_format() {
    let labels = vec![
        ("venue".to_string(), "colosseo".to_string()),
        ("kind".to_string(), "poll".to_string()),
    ];
    assert_eq!(
        metric_key(&"checks".to_string(), &labels),
        "checks:venue=colosseo,kind=poll"
    );
    assert_eq!(metric_key(&"checks".to_string(), &vec![]), "checks:");
}

#[test]
fn test_metrics_since_filter_and_order() {
    let mut store = StateStore::new();
    let name = "latency".to_string();
    let labels = vec![("proxy".to_string(), "a".to_string())];
    store.record_metric(&name, 10, &labels, T0);
    store.record_metric(&name, 20, &labels, T0 + 1_000);
    store.record_metric(&name, 30, &labels, T0 + 2_000);
    let all = store.get_metrics(&name, &labels, T0);
    assert_eq!(all.len(), 3);
    assert_eq!(
        all.iter().map(|s| (s.timestamp_ms, s.value)).collect::<Vec<_>>(),
        vec![(T0, 10), (T0 + 1_000, 20), (T0 + 2_000, 30)]
    );
    // Only samples at or after `since` come back.
    let tail = store.get_metrics(&name, &labels, T0 + 1_000);
    assert_eq!(
        tail.iter().map(|s| s.value).collect::<Vec<_>>(),
        vec![20, 30]
    );
    // Different label sets are different series.
    let other = store.get_metrics(&name, &vec![], T0);
    assert_eq!(other.len(), 0);
}

#[test]
fn test_metrics_prune_after_window() {
    let mut store = StateStore::new();
    let name = "checks".to_string();
    let labels = vec![];
    store.record_metric(&name, 1, &labels, T0);
    // A write a day and a bit later prunes the old sample for good.
    store.record_metric(&name, 2, &labels, T0 + 86_400_000 + 1);
    let all = store.get_metrics(&name, &labels, 0);
    assert_eq!(
        all.iter().map(|s| s.value).collect::<Vec<_>>(),
        vec![2]
    );
}

#[test]
fn test_alert_queue_fifo() {
    let mut store = StateStore::new();
    assert_eq!(store.dequeue_alert(), None);
    store.queue_alert(alert("first"));
    store.queue_alert(alert("second"));
    store.queue_alert(alert("third"));
    assert_eq!(store.dequeue_alert().unwrap().target, "first");
    assert_eq!(store.dequeue_alert().unwrap().target, "second");
    assert_eq!(store.dequeue_alert().unwrap().target, "third");
    assert_eq!(store.dequeue_alert(), None);
}

#[test]
fn test_proxy_health_defaults_to_one() {
    // With zero observations the health score is exactly 1.0.
    let store = StateStore::new();
    let health = store.get_proxy_health(&"proxy-x".to_string(), T0);
    assert_eq!(health.success_count, 0);
    assert_eq!(health.error_count, 0);
    assert_eq!(health.health_num as f64 / health.health_den as f64, 1.0);
}

#[test]
fn test_proxy_health_counts_and_score() {
    // One success then one failure: counts 1/1, score exactly 0.5,
    // last latency from the latest observation.
    let mut store = StateStore::new();
    let proxy = "proxy-A".to_string();
    store.update_proxy_health(&proxy, true, 120, T0);
    store.update_proxy_health(&proxy, false, 300, T0 + 1);
    let health = store.get_proxy_health(&proxy, T0 + 2);
    assert_eq!(health.success_count, 1);
    assert_eq!(health.error_count, 1);
    assert_eq!(health.last_latency_ms, 300);
    assert_eq!(health.health_num as f64 / health.health_den as f64, 0.5);
}

#[test]
fn test_proxy_health_exact_ratio() {
    // After N successes and M failures the score is exactly N/(N+M).
    let mut store = StateStore::new();
    let proxy = "proxy-B".to_string();
    for i in 0..3 {
        store.update_proxy_health(&proxy, true, 100, T0 + i);
    }
    store.update_proxy_health(&proxy, false, 100, T0 + 3);
    let health = store.get_proxy_health(&proxy, T0 + 4);
    assert_eq!(health.success_count, 3);
    assert_eq!(health.error_count, 1);
    assert_eq!(health.health_num, 3);
    assert_eq!(health.health_den, 4);
    assert_eq!(health.health_num as f64 / health.health_den as f64, 0.75);
}

#[test]
fn test_proxy_record_rolling_expiry() {
    let mut store = StateStore::new();
    let proxy = "proxy-C".to_string();
    store.update_proxy_health(&proxy, false, 50, T0);
    // Before the rolling deadline the record counts.
    let h = store.get_proxy_health(&proxy, T0 + PROXY_TTL_MS - 1);
    assert_eq!(h.error_count, 1);
    // At the deadline it no longer does: back to the default score.
    let h = store.get_proxy_health(&proxy, T0 + PROXY_TTL_MS);
    assert_eq!(h.error_count, 0);
    assert_eq!(h.health_num as f64 / h.health_den as f64, 1.0);
    // A fresh observation restarts the counters from zero.
    store.update_proxy_health(&proxy, true, 10, T0 + PROXY_TTL_MS);
    let h = store.get_proxy_health(&proxy, T0 + PROXY_TTL_MS + 1);
    assert_eq!(h.success_count, 1);
    assert_eq!(h.error_count, 0);
}
