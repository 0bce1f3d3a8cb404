use colosseo_core::registry::StateMachineManager;
use colosseo_core::state_machine::{
    FailureReason, StateTransitionError, TicketState, TicketType, CARTING_TIMEOUT_MS,
    DETECTED_TIMEOUT_MS, MONITORING_TIMEOUT_MS, PAYING_TIMEOUT_MS,
};

fn monitoring(now: i64) -> TicketState {
    TicketState::Monitoring {
        started_at: now,
        last_check: now,
        check_count: 0,
        target_date: "2026-03-15".to_string(),
        ticket_type: TicketType::Ordinario,
    }
}

fn detected(now: i64, confidence: u32) -> TicketState {
    TicketState::Detected {
        detected_at: now,
        confidence,
        signals: vec![],
        target_date: "2026-03-15".to_string(),
        ticket_type: TicketType::Ordinario,
    }
}

fn carting(now: i64) -> TicketState {
    TicketState::Carting {
        started_at: now,
        session_id: "sess-1".to_string(),
        cart_id: None,
        target_date: "2026-03-15".to_string(),
        ticket_type: TicketType::Ordinario,
    }
}

fn holding(expires_at: i64) -> TicketState {
    TicketState::Holding {
        cart_id: "cart-1".to_string(),
        expires_at,
        heartbeat_due: expires_at - 30_000,
        target_date: "2026-03-15".to_string(),
        ticket_type: TicketType::Ordinario,
    }
}

fn paying(now: i64) -> TicketState {
    TicketState::Paying {
        started_at: now,
        payment_token: "tok-1".to_string(),
        method: colosseo_core::state_machine::PaymentMethod::PayPal,
        cart_id: "cart-1".to_string(),
    }
}

fn confirmed(now: i64) -> TicketState {
    TicketState::Confirmed {
        confirmed_at: now,
        confirmation_code: "ABC123".to_string(),
        tickets: vec![],
    }
}

fn failed(now: i64, retry_eligible: bool) -> TicketState {
    TicketState::Failed {
        failed_at: now,
        reason: FailureReason::NetworkError,
        retry_eligible,
    }
}

#[test]
fn test_allowed_transitions() {
    let now = 1_700_000_000_000;
    assert!(monitoring(now).can_transition(&detected(now, 900)));
    assert!(detected(now, 900).can_transition(&carting(now)));
    assert!(carting(now).can_transition(&holding(now + 600_000)));
    assert!(carting(now).can_transition(&failed(now, false)));
    assert!(holding(now + 600_000).can_transition(&paying(now)));
    assert!(holding(now + 600_000).can_transition(&failed(now, true)));
    assert!(paying(now).can_transition(&confirmed(now)));
    assert!(paying(now).can_transition(&failed(now, false)));
    assert!(failed(now, true).can_transition(&monitoring(now)));
    assert!(failed(now, true).can_transition(&carting(now)));
}

#[test]
fn test_rejected_transitions() {
    let now = 1_700_000_000_000;
    assert!(!monitoring(now).can_transition(&carting(now)));
    assert!(!monitoring(now).can_transition(&confirmed(now)));
    assert!(!detected(now, 500).can_transition(&holding(now)));
    assert!(!confirmed(now).can_transition(&monitoring(now)));
    assert!(!confirmed(now).can_transition(&carting(now)));
    assert!(!failed(now, false).can_transition(&monitoring(now)));
    assert!(!failed(now, false).can_transition(&carting(now)));
    assert!(!holding(now).can_transition(&confirmed(now)));
}

#[test]
fn test_transition_carries_variant_names_only() {
    let now = 1_700_000_000_000;
    let err = monitoring(now).transition(confirmed(now)).unwrap_err();
    match err {
        StateTransitionError::InvalidTransition { from, to } => {
            assert_eq!(from, "Monitoring");
            assert_eq!(to, "Confirmed");
        }
        other => panic!("unexpected error {:?}", other),
    }
    let ok = paying(now).transition(confirmed(now)).unwrap();
    assert_eq!(ok, confirmed(now));
}

#[test]
fn test_phase_timeouts() {
    let now = 1_700_000_000_000;
    assert_eq!(monitoring(now).timeout(now), Some(MONITORING_TIMEOUT_MS));
    assert_eq!(detected(now, 900).timeout(now), Some(DETECTED_TIMEOUT_MS));
    assert_eq!(carting(now).timeout(now), Some(CARTING_TIMEOUT_MS));
    assert_eq!(paying(now).timeout(now), Some(PAYING_TIMEOUT_MS));
    assert_eq!(holding(now + 5_000).timeout(now), Some(5_000));
    assert_eq!(confirmed(now).timeout(now), None);
    assert_eq!(failed(now, true).timeout(now), None);
}

#[test]
fn test_is_timed_out_only_for_expired_holds() {
    let now = 1_700_000_000_000;
    assert!(!monitoring(now).is_timed_out(now));
    assert!(!holding(now + 1).is_timed_out(now));
    assert!(holding(now).is_timed_out(now));
    assert!(holding(now - 10).is_timed_out(now));
    assert!(!confirmed(now).is_timed_out(now));
}

#[test]
fn test_state_accessors() {
    let now = 1_700_000_000_000;
    assert_eq!(
        monitoring(now).ticket_type(),
        Some(&TicketType::Ordinario)
    );
    assert_eq!(paying(now).ticket_type(), None);
    assert_eq!(
        carting(now).target_date(),
        Some(&"2026-03-15".to_string())
    );
    assert_eq!(confirmed(now).target_date(), None);
}

#[test]
fn test_ticket_type_display_name() {
    assert_eq!(TicketType::Ordinario.display_name(), "Ordinario");
    assert_eq!(
        TicketType::FullExperienceArena.display_name(),
        "Full Experience Arena"
    );
    assert_eq!(
        TicketType::FullExperienceUnderground.display_name(),
        "Full Experience Underground"
    );
    assert_eq!(TicketType::ForumPassSuper.display_name(), "Forum Pass Super");
}

#[test]
fn test_registry_monitored_target_scenario() {
    // A target under monitoring accepts a detection, then refuses a
    // jump straight to confirmation, keeping the detection in place.
    let now = 1_700_000_000_000;
    let id = "colosseo-01".to_string();
    let mut registry = StateMachineManager::new();
    registry.insert(id.clone(), monitoring(now));

    let det = detected(now, 900);
    assert!(registry.update(&id, det.clone()).is_ok());
    assert_eq!(registry.get(&id), Some(&det));

    let err = registry.update(&id, confirmed(now)).unwrap_err();
    assert!(matches!(
        err,
        StateTransitionError::InvalidTransition { .. }
    ));
    assert_eq!(registry.get(&id), Some(&det));
}

#[test]
fn test_registry_update_unknown_target() {
    let now = 1_700_000_000_000;
    let mut registry = StateMachineManager::new();
    let id = "ghost".to_string();
    let err = registry.update(&id, detected(now, 500)).unwrap_err();
    assert!(matches!(err, StateTransitionError::NotFound { .. }));
    assert!(registry.get(&id).is_none());
}

#[test]
fn test_registry_cleanup_terminal() {
    let now = 1_700_000_000_000;
    let mut registry = StateMachineManager::new();
    registry.insert("a".to_string(), monitoring(now));
    registry.insert("b".to_string(), confirmed(now));
    registry.insert("c".to_string(), failed(now, true));
    registry.insert("d".to_string(), failed(now, false));
    registry.cleanup_terminal();
    assert!(registry.get(&"a".to_string()).is_some());
    assert!(registry.get(&"b".to_string()).is_none());
    assert!(registry.get(&"c".to_string()).is_none());
    assert!(registry.get(&"d".to_string()).is_none());
}

#[test]
fn test_registry_insert_overwrites() {
    let now = 1_700_000_000_000;
    let mut registry = StateMachineManager::new();
    let id = "t".to_string();
    registry.insert(id.clone(), monitoring(now));
    registry.insert(id.clone(), carting(now));
    assert_eq!(registry.get(&id), Some(&carting(now)));
    let mut targets = registry.targets();
    targets.sort();
    assert_eq!(targets, vec!["t".to_string()]);
}

#[test]
fn test_error_describe() {
    let err = StateTransitionError::Timeout;
    assert_eq!(err.describe(), "state has timed out");
    let err = StateTransitionError::NotFound { id: "x".to_string() };
    assert_eq!(err.describe(), "state not found");
    let err = StateTransitionError::SerializationError("bad".to_string());
    assert_eq!(err.describe(), "state serialization failed");
    let err = StateTransitionError::InvalidTransition {
        from: "A".to_string(),
        to: "B".to_string(),
    };
    assert_eq!(err.describe(), "invalid state transition");
}
