use colosseo_core::codec::{decode_state, encode_state};
use colosseo_core::state_machine::{
    DetectionSignal, FailureReason, PaymentMethod, PriceTier, SignalSource, TicketDetail,
    TicketState, TicketType,
};

const T0: i64 = 1_700_000_000_000;

fn round_trip(state: TicketState) {
    let text = encode_state(&state);
    let back = decode_state(&text).expect("an encoded state must decode");
    assert_eq!(back, state);
}

#[test]
fn test_round_trip_monitoring() {
    round_trip(TicketState::Monitoring {
        started_at: T0,
        last_check: T0 + 5_000,
        check_count: 42,
        target_date: "2026-03-15".to_string(),
        ticket_type: TicketType::FullExperienceUnderground,
    });
}

#[test]
fn test_round_trip_detected_with_signals() {
    round_trip(TicketState::Detected {
        detected_at: T0,
        confidence: 900,
        signals: vec![
            DetectionSignal {
                source: SignalSource::ApiResponse,
                confidence: 950,
                timestamp_ms: T0 - 10,
                metadata: Some("slots=3".to_string()),
            },
            DetectionSignal {
                source: SignalSource::DomMutation,
                confidence: 800,
                timestamp_ms: T0 - 5,
                metadata: None,
            },
        ],
        target_date: "2026-03-15".to_string(),
        ticket_type: TicketType::Ordinario,
    });
}

#[test]
fn test_round_trip_carting() {
    round_trip(TicketState::Carting {
        started_at: T0,
        session_id: "sess; with: odd, chars".to_string(),
        cart_id: Some("cart-1".to_string()),
        target_date: String::new(),
        ticket_type: TicketType::ForumPassSuper,
    });
    round_trip(TicketState::Carting {
        started_at: -1,
        session_id: String::new(),
        cart_id: None,
        target_date: "2026-03-16".to_string(),
        ticket_type: TicketType::Ordinario,
    });
}

#[test]
fn test_round_trip_holding_paying() {
    round_trip(TicketState::Holding {
        cart_id: "cart-9".to_string(),
        expires_at: T0 + 600_000,
        heartbeat_due: T0 + 30_000,
        target_date: "2026-03-15".to_string(),
        ticket_type: TicketType::FullExperienceArena,
    });
    round_trip(TicketState::Paying {
        started_at: T0,
        payment_token: "tok".to_string(),
        method: PaymentMethod::VirtualCard { provider: "acme".to_string() },
        cart_id: "cart-9".to_string(),
    });
    round_trip(TicketState::Paying {
        started_at: i64::MIN,
        payment_token: String::new(),
        method: PaymentMethod::PayPal,
        cart_id: "c".to_string(),
    });
}

#[test]
fn test_round_trip_terminal_states() {
    round_trip(TicketState::Confirmed {
        confirmed_at: T0,
        confirmation_code: "ABC123XYZ".to_string(),
        tickets: vec![TicketDetail {
            ticket_id: "t-1".to_string(),
            visitor_name: "Ada".to_string(),
            date: "2026-03-15".to_string(),
            time_slot: "09:30".to_string(),
            ticket_type: TicketType::Ordinario,
            price_tier: PriceTier::Ridotto,
        }],
    });
    for reason in [
        FailureReason::CartHoldExpired,
        FailureReason::PaymentDeclined,
        FailureReason::QueueItDetected,
        FailureReason::Timeout,
    ] {
        round_trip(TicketState::Failed {
            failed_at: T0,
            reason,
            retry_eligible: true,
        });
        round_trip(TicketState::Failed {
            failed_at: 0,
            reason,
            retry_eligible: false,
        });
    }
}

#[test]
fn test_round_trip_unicode_strings() {
    round_trip(TicketState::Monitoring {
        started_at: 0,
        last_check: 0,
        check_count: 0,
        target_date: "Colosseo — biglietti, 15 marzo".to_string(),
        ticket_type: TicketType::Ordinario,
    });
}

#[test]
fn test_decode_rejects_garbage() {
    assert_eq!(decode_state(&String::new()), None);
    assert_eq!(decode_state(&"Z1;".to_string()), None);
    assert_eq!(decode_state(&"M1;".to_string()), None);
    assert_eq!(decode_state(&"Mx".to_string()), None);
    // A valid encoding with trailing bytes is rejected.
    let good = encode_state(&TicketState::Failed {
        failed_at: 7,
        reason: FailureReason::NetworkError,
        retry_eligible: false,
    });
    let mut tampered = good.clone();
    tampered.push('Z');
    assert!(decode_state(&good).is_some());
    assert_eq!(decode_state(&tampered), None);
}

#[test]
fn test_encoding_is_compact_text() {
    let text = encode_state(&TicketState::Failed {
        failed_at: 7,
        reason: FailureReason::Timeout,
        retry_eligible: true,
    });
    assert_eq!(text, "X7;tt");
}
