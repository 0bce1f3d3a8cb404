use colosseo_core::control::{
    complete_payment, get_cart_status, get_status, initiate_acquisition, release_cart,
    start_monitoring, state_code, stop_monitoring, ticket_type_from_code, PaymentOutcome,
};
use colosseo_core::registry::StateMachineManager;
use colosseo_core::state_machine::{FailureReason, PaymentMethod, TicketState, TicketType};
use colosseo_core::store::StateStore;

const T0: i64 = 1_700_000_000_000;

fn paying(now: i64) -> TicketState {
    TicketState::Paying {
        started_at: now,
        payment_token: "tok-1".to_string(),
        method: PaymentMethod::UniCreditCard,
        cart_id: "cart-1".to_string(),
    }
}

#[test]
fn test_ticket_type_codes() {
    assert_eq!(ticket_type_from_code(1), TicketType::Ordinario);
    assert_eq!(ticket_type_from_code(2), TicketType::FullExperienceArena);
    assert_eq!(ticket_type_from_code(3), TicketType::FullExperienceUnderground);
    assert_eq!(ticket_type_from_code(4), TicketType::ForumPassSuper);
    // Unknown codes fall back to the basic ticket.
    assert_eq!(ticket_type_from_code(0), TicketType::Ordinario);
    assert_eq!(ticket_type_from_code(99), TicketType::Ordinario);
}

#[test]
fn test_state_codes() {
    assert_eq!(state_code(&paying(T0)), 5);
    let confirmed = TicketState::Confirmed {
        confirmed_at: T0,
        confirmation_code: "C".to_string(),
        tickets: vec![],
    };
    assert_eq!(state_code(&confirmed), 6);
}

#[test]
fn test_start_monitoring_establishes_state() {
    let mut registry = StateMachineManager::new();
    let mut store = StateStore::new();
    let id = "colosseo-01".to_string();
    start_monitoring(&mut registry, &mut store, &id, &"2026-03-15".to_string(), 4, T0);
    let expected = TicketState::Monitoring {
        started_at: T0,
        last_check: T0,
        check_count: 0,
        target_date: "2026-03-15".to_string(),
        ticket_type: TicketType::ForumPassSuper,
    };
    assert_eq!(registry.get(&id), Some(&expected));
    assert_eq!(store.load_state(&id, T0), Some(&expected));
}

#[test]
fn test_stop_monitoring_removes_everywhere() {
    let mut registry = StateMachineManager::new();
    let mut store = StateStore::new();
    let id = "colosseo-01".to_string();
    start_monitoring(&mut registry, &mut store, &id, &"2026-03-15".to_string(), 1, T0);
    let r = stop_monitoring(&mut registry, &mut store, &id);
    assert!(r.success);
    assert_eq!(r.message, "Monitoring stopped");
    assert!(registry.get(&id).is_none());
    assert_eq!(store.load_state(&id, T0), None);
    // Stopping an unknown target reports that nothing was tracked.
    let r = stop_monitoring(&mut registry, &mut store, &id);
    assert!(!r.success);
}

#[test]
fn test_get_status_single_and_all() {
    let mut registry = StateMachineManager::new();
    let mut store = StateStore::new();
    start_monitoring(&mut registry, &mut store, &"a".to_string(), &"d1".to_string(), 1, T0);
    start_monitoring(&mut registry, &mut store, &"b".to_string(), &"d2".to_string(), 2, T0);

    let one = get_status(&registry, &"a".to_string());
    assert_eq!(one.len(), 1);
    assert_eq!(one[0].target_id, "a");
    assert_eq!(one[0].state, 1);
    assert_eq!(one[0].checks_total, 0);
    assert_eq!(one[0].last_check_ms, T0);

    let none = get_status(&registry, &"ghost".to_string());
    assert_eq!(none.len(), 0);

    let mut all: Vec<String> = get_status(&registry, &String::new())
        .into_iter()
        .map(|t| t.target_id)
        .collect();
    all.sort();
    assert_eq!(all, vec!["a".to_string(), "b".to_string()]);
}

#[test]
fn test_initiate_acquisition_single_winner() {
    // Two racing acquisition attempts for one event id, ttl 900 s:
    // exactly one wins a cart, the other gets the structured negative.
    let mut store = StateStore::new();
    let e1 = "E1".to_string();
    let first = initiate_acquisition(&mut store, &e1, T0);
    let second = initiate_acquisition(&mut store, &e1, T0);
    assert!(first.success);
    assert!(first.cart_id.starts_with("cart-"));
    assert_eq!(first.cart_id.len(), 41);
    assert_eq!(first.hold_expires_ms, T0 + 900_000);
    assert_eq!(first.payment_options.len(), 2);
    assert_eq!(first.payment_options[0].display_name, "UniCredit Card");
    assert!(first.payment_options[0].requires_3ds);
    assert_eq!(first.payment_options[1].display_name, "PayPal");
    assert_eq!(first.error_message, "");

    assert!(!second.success);
    assert_eq!(second.cart_id, "");
    assert_eq!(second.error_message, "Already claimed");
    assert_eq!(second.payment_options.len(), 0);
}

#[test]
fn test_acquisition_cart_ids_are_fresh() {
    let mut store = StateStore::new();
    let a = initiate_acquisition(&mut store, &"E1".to_string(), T0);
    let b = initiate_acquisition(&mut store, &"E2".to_string(), T0);
    assert!(a.success && b.success);
    assert_ne!(a.cart_id, b.cart_id);
}

#[test]
fn test_get_cart_status_reflects_claim() {
    let mut store = StateStore::new();
    let e1 = "E1".to_string();
    let won = initiate_acquisition(&mut store, &e1, T0);
    assert!(won.success);

    let status = get_cart_status(&store, &e1, &won.cart_id, T0 + 1_000);
    assert_eq!(status.cart_id, won.cart_id);
    assert_eq!(status.state, 1);
    assert_eq!(status.expires_ms, T0 + 900_000);

    // A foreign cart id is not the holder.
    let other = get_cart_status(&store, &e1, &"cart-impostor".to_string(), T0 + 1_000);
    assert_eq!(other.state, 0);
    assert_eq!(other.expires_ms, 0);

    // Once the hold expired the cart is gone.
    let late = get_cart_status(&store, &e1, &won.cart_id, T0 + 900_000);
    assert_eq!(late.state, 0);
}

#[test]
fn test_complete_payment_approved() {
    let mut registry = StateMachineManager::new();
    let mut store = StateStore::new();
    let target = "colosseo-01".to_string();
    let event = "E1".to_string();
    registry.insert(target.clone(), paying(T0));
    assert!(store.try_claim_cart(&event, &"cart-1".to_string(), 900, T0));

    let outcome = PaymentOutcome::Approved {
        confirmation_code: "ABC123XYZ".to_string(),
        tickets: vec![],
    };
    let r = complete_payment(&mut registry, &mut store, &target, &event, outcome, T0 + 5_000);
    assert!(r.success);
    assert_eq!(r.confirmation_code, "ABC123XYZ");
    assert_eq!(r.error_message, "");
    assert_eq!(r.state, 6);
    assert_eq!(r.timestamp_ms, T0 + 5_000);
    // The lifecycle is confirmed and the claim released.
    assert!(matches!(
        registry.get(&target),
        Some(TicketState::Confirmed { .. })
    ));
    assert!(store.get_claim(&event, T0 + 5_000).is_none());
}

#[test]
fn test_complete_payment_declined() {
    let mut registry = StateMachineManager::new();
    let mut store = StateStore::new();
    let target = "colosseo-01".to_string();
    let event = "E1".to_string();
    registry.insert(target.clone(), paying(T0));
    assert!(store.try_claim_cart(&event, &"cart-1".to_string(), 900, T0));

    let outcome = PaymentOutcome::Declined {
        reason: FailureReason::PaymentDeclined,
        retry_eligible: false,
    };
    let r = complete_payment(&mut registry, &mut store, &target, &event, outcome, T0 + 5_000);
    assert!(!r.success);
    assert_eq!(r.error_message, "payment declined");
    assert_eq!(r.confirmation_code, "");
    assert_eq!(r.state, 7);
    assert!(matches!(
        registry.get(&target),
        Some(TicketState::Failed { .. })
    ));
    assert!(store.get_claim(&event, T0 + 5_000).is_none());
}

#[test]
fn test_complete_payment_wrong_phase_changes_nothing() {
    let mut registry = StateMachineManager::new();
    let mut store = StateStore::new();
    let target = "colosseo-01".to_string();
    let event = "E1".to_string();
    let monitoring = TicketState::Monitoring {
        started_at: T0,
        last_check: T0,
        check_count: 0,
        target_date: "d".to_string(),
        ticket_type: TicketType::Ordinario,
    };
    registry.insert(target.clone(), monitoring.clone());
    assert!(store.try_claim_cart(&event, &"cart-1".to_string(), 900, T0));

    let outcome = PaymentOutcome::Approved {
        confirmation_code: "C".to_string(),
        tickets: vec![],
    };
    let r = complete_payment(&mut registry, &mut store, &target, &event, outcome, T0);
    assert!(!r.success);
    assert_eq!(r.error_message, "invalid state transition");
    assert_eq!(registry.get(&target), Some(&monitoring));
    // The claim is not released on a refused transition.
    assert!(store.get_claim(&event, T0).is_some());
}

#[test]
fn test_complete_payment_unknown_target() {
    let mut registry = StateMachineManager::new();
    let mut store = StateStore::new();
    let outcome = PaymentOutcome::Declined {
        reason: FailureReason::PaymentDeclined,
        retry_eligible: true,
    };
    let r = complete_payment(
        &mut registry,
        &mut store,
        &"ghost".to_string(),
        &"E1".to_string(),
        outcome,
        T0,
    );
    assert!(!r.success);
    assert_eq!(r.error_message, "state not found");
}

#[test]
fn test_release_cart_releases_and_records_reason() {
    let mut store = StateStore::new();
    let event = "E1".to_string();
    assert!(store.try_claim_cart(&event, &"cart-1".to_string(), 900, T0));

    let r = release_cart(&mut store, &event, &"user cancelled".to_string(), T0 + 1);
    assert!(r.success);
    assert!(store.get_claim(&event, T0 + 1).is_none());
    // A second claim can win immediately.
    assert!(store.try_claim_cart(&event, &"cart-2".to_string(), 900, T0 + 2));

    let alert = store.dequeue_alert().unwrap();
    assert_eq!(alert.target, "E1");
    assert_eq!(alert.timestamp_ms, T0 + 1);
    assert_eq!(
        alert.metadata,
        vec![("reason".to_string(), "user cancelled".to_string())]
    );

    // Releasing with no live claim reports that nothing was held.
    let r = release_cart(&mut store, &"other".to_string(), &"noop".to_string(), T0);
    assert!(!r.success);
}

#[test]
fn test_metrics_snapshot_lists_all_proxies() {
    let mut store = StateStore::new();
    store.update_proxy_health(&"proxy-A".to_string(), true, 100, T0);
    store.update_proxy_health(&"proxy-B".to_string(), false, 200, T0);
    let snapshot = colosseo_core::control::metrics_snapshot(&store, T0 + 5);
    assert_eq!(snapshot.timestamp_ms, T0 + 5);
    let mut urls: Vec<String> = snapshot
        .proxy_health
        .iter()
        .map(|h| h.proxy_url.clone())
        .collect();
    urls.sort();
    assert_eq!(urls, vec!["proxy-A".to_string(), "proxy-B".to_string()]);
    for h in &snapshot.proxy_health {
        if h.proxy_url == "proxy-A" {
            assert_eq!((h.success_count, h.error_count), (1, 0));
            assert_eq!(h.health_num as f64 / h.health_den as f64, 1.0);
        } else {
            assert_eq!((h.success_count, h.error_count), (0, 1));
            assert_eq!(h.health_num as f64 / h.health_den as f64, 0.0);
        }
    }
}
