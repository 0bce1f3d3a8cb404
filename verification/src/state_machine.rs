//! Acquisition lifecycle state machine: one tagged state per target,
//! a fixed table of allowed transitions, and lazily evaluated per-phase
//! timeouts. The state machine performs no I/O; callers supply the
//! current time as epoch milliseconds.

use vstd::prelude::*;

verus! {

/// Phase timeout for the monitoring phase, in milliseconds (24 hours).
pub const MONITORING_TIMEOUT_MS: i64 = 86_400_000;

/// Phase timeout for the detected phase, in milliseconds (5 seconds).
pub const DETECTED_TIMEOUT_MS: i64 = 5_000;

/// Phase timeout for the carting phase, in milliseconds (10 seconds).
pub const CARTING_TIMEOUT_MS: i64 = 10_000;

/// Phase timeout for the paying phase, in milliseconds (60 seconds).
pub const PAYING_TIMEOUT_MS: i64 = 60_000;

/// Confidence values are fixed-point thousandths of 1.0, so they range
/// over 0..=1000.
pub const CONFIDENCE_SCALE: u32 = 1000;

#[derive(Clone, Copy, Debug, PartialEq, Eq, Structural)]
pub enum TicketType {
    Ordinario,
    FullExperienceArena,
    FullExperienceUnderground,
    ForumPassSuper,
}

#[derive(Clone, Debug, PartialEq, Eq)]
pub enum PaymentMethod {
    UniCreditCard,
    PayPal,
    BankTransfer,
    VirtualCard { provider: String },
}

#[derive(Clone, Copy, Debug, PartialEq, Eq, Structural)]
pub enum SignalSource {
    ApiResponse,
    DomMutation,
    VisualConfirmation,
    TimingAnalysis,
    CrossSession,
}

/// One availability observation feeding the detection phase.
/// `confidence` is in thousandths; `timestamp_ms` is epoch milliseconds.
#[derive(Clone, Debug, PartialEq, Eq)]
pub struct DetectionSignal {
    pub source: SignalSource,
    pub confidence: u32,
    pub timestamp_ms: i64,
    pub metadata: Option<String>,
}

#[derive(Clone, Copy, Debug, PartialEq, Eq, Structural)]
pub enum PriceTier {
    Intero,
    Ridotto,
    Gratuito,
}

#[derive(Clone, Debug, PartialEq, Eq)]
pub struct TicketDetail {
    pub ticket_id: String,
    pub visitor_name: String,
    pub date: String,
    pub time_slot: String,
    pub ticket_type: TicketType,
    pub price_tier: PriceTier,
}

#[derive(Clone, Copy, Debug, PartialEq, Eq, Structural)]
pub enum FailureReason {
    CartHoldExpired,
    PaymentDeclined,
    SessionInvalid,
    QueueItDetected,
    RateLimited,
    NetworkError,
    ValidationFailed,
    InventoryGone,
    Timeout,
}

/// Complete ticket acquisition lifecycle state. All instants are
/// absolute epoch milliseconds so that persisted states stay comparable
/// to "now" on any process or machine.
#[derive(Clone, Debug, PartialEq, Eq)]
pub enum TicketState {
    /// Monitoring phase: actively polling for availability.
    Monitoring {
        started_at: i64,
        last_check: i64,
        check_count: u64,
        target_date: String,
        ticket_type: TicketType,
    },
    /// Detection phase: availability detected, confidence assessed.
    Detected {
        detected_at: i64,
        confidence: u32,
        signals: Vec<DetectionSignal>,
        target_date: String,
        ticket_type: TicketType,
    },
    /// Carting phase: initiating cart injection.
    Carting {
        started_at: i64,
        session_id: String,
        cart_id: Option<String>,
        target_date: String,
        ticket_type: TicketType,
    },
    /// Holding phase: cart secured, hold being maintained.
    Holding {
        cart_id: String,
        expires_at: i64,
        heartbeat_due: i64,
        target_date: String,
        ticket_type: TicketType,
    },
    /// Payment phase: processing payment.
    Paying {
        started_at: i64,
        payment_token: String,
        method: PaymentMethod,
        cart_id: String,
    },
    /// Terminal: purchase complete.
    Confirmed {
        confirmed_at: i64,
        confirmation_code: String,
        tickets: Vec<TicketDetail>,
    },
    /// Terminal: an error occurred.
    Failed {
        failed_at: i64,
        reason: FailureReason,
        retry_eligible: bool,
    },
}

/// The fixed adjacency table of the lifecycle. Every pair of variants
/// not listed here is an invalid transition.
pub open spec fn allows_transition(from: &TicketState, to: &TicketState) -> bool {
    ||| (from matches TicketState::Monitoring { .. } && to matches TicketState::Detected { .. })
    ||| (from matches TicketState::Detected { .. } && to matches TicketState::Carting { .. })
    ||| (from matches TicketState::Carting { .. } && to matches TicketState::Holding { .. })
    ||| (from matches TicketState::Carting { .. } && to matches TicketState::Failed { .. })
    ||| (from matches TicketState::Holding { .. } && to matches TicketState::Paying { .. })
    ||| (from matches TicketState::Holding { .. } && to matches TicketState::Failed { .. })
    ||| (from matches TicketState::Paying { .. } && to matches TicketState::Confirmed { .. })
    ||| (from matches TicketState::Paying { .. } && to matches TicketState::Failed { .. })
    ||| (from matches TicketState::Failed { retry_eligible: true, .. }
        && to matches TicketState::Monitoring { .. })
    ||| (from matches TicketState::Failed { retry_eligible: true, .. }
        && to matches TicketState::Carting { .. })
}

impl TicketState {
    /// A state is terminal when it has no outgoing transitions at all:
    /// `Confirmed`, and every `Failed` whose retry flag is off.
    /// (`Failed { retry_eligible: true }` has outgoing edges, but the
    /// terminal sweep removes every `Confirmed` or `Failed` entry; see
    /// `is_swept`.)
    pub open spec fn is_terminal(&self) -> bool {
        match self {
            TicketState::Confirmed { .. } => true,
            TicketState::Failed { retry_eligible, .. } => !*retry_eligible,
            _ => false,
        }
    }

    /// The registry's terminal sweep removes `Confirmed` and `Failed`
    /// entries, retry-eligible or not.
    pub open spec fn spec_is_swept(&self) -> bool {
        match self {
            TicketState::Confirmed { .. } => true,
            TicketState::Failed { .. } => true,
            _ => false,
        }
    }

    /// Whether the terminal sweep removes this state: `Confirmed` or
    /// `Failed`, retry-eligible or not.
    #[verifier::when_used_as_spec(spec_is_swept)]
    pub fn is_swept(&self) -> (r: bool)
        ensures
            r == self.spec_is_swept(),
    {
        match self {
            TicketState::Confirmed { .. } => true,
            TicketState::Failed { .. } => true,
            _ => false,
        }
    }

    /// Well-formedness: every embedded instant is a non-negative epoch
    /// timestamp and every confidence value is within scale.
    pub open spec fn wf(&self) -> bool {
        match self {
            TicketState::Monitoring { started_at, last_check, .. } => {
                0 <= *started_at && 0 <= *last_check
            },
            TicketState::Detected { detected_at, confidence, .. } => {
                0 <= *detected_at && *confidence <= CONFIDENCE_SCALE
            },
            TicketState::Carting { started_at, .. } => 0 <= *started_at,
            TicketState::Holding { expires_at, heartbeat_due, .. } => {
                0 <= *expires_at && 0 <= *heartbeat_due
            },
            TicketState::Paying { started_at, .. } => 0 <= *started_at,
            TicketState::Confirmed { confirmed_at, .. } => 0 <= *confirmed_at,
            TicketState::Failed { failed_at, .. } => 0 <= *failed_at,
        }
    }

    /// The duration after which the current phase counts as expired:
    /// a fixed budget for the active phases, the hold's own deadline for
    /// `Holding`, nothing for terminal states.
    pub open spec fn timeout_spec(&self, now_ms: i64) -> Option<i64> {
        match self {
            TicketState::Monitoring { .. } => Some(MONITORING_TIMEOUT_MS),
            TicketState::Detected { .. } => Some(DETECTED_TIMEOUT_MS),
            TicketState::Carting { .. } => Some(CARTING_TIMEOUT_MS),
            TicketState::Holding { expires_at, .. } => Some((*expires_at - now_ms) as i64),
            TicketState::Paying { .. } => Some(PAYING_TIMEOUT_MS),
            TicketState::Confirmed { .. } => None,
            TicketState::Failed { .. } => None,
        }
    }

    /// The variant's name, as carried inside transition errors.
    pub open spec fn label_spec(&self) -> Seq<char> {
        match self {
            TicketState::Monitoring { .. } => "Monitoring"@,
            TicketState::Detected { .. } => "Detected"@,
            TicketState::Carting { .. } => "Carting"@,
            TicketState::Holding { .. } => "Holding"@,
            TicketState::Paying { .. } => "Paying"@,
            TicketState::Confirmed { .. } => "Confirmed"@,
            TicketState::Failed { .. } => "Failed"@,
        }
    }

    /// Check whether the transition from `self` to `to` is in the
    /// adjacency table.
    pub fn can_transition(&self, to: &TicketState) -> (r: bool)
        ensures
            r == allows_transition(self, to),
    {
        match (self, to) {
            (TicketState::Monitoring { .. }, TicketState::Detected { .. }) => true,
            (TicketState::Detected { .. }, TicketState::Carting { .. }) => true,
            (TicketState::Carting { .. }, TicketState::Holding { .. }) => true,
            (TicketState::Carting { .. }, TicketState::Failed { .. }) => true,
            (TicketState::Holding { .. }, TicketState::Paying { .. }) => true,
            (TicketState::Holding { .. }, TicketState::Failed { .. }) => true,
            (TicketState::Paying { .. }, TicketState::Confirmed { .. }) => true,
            (TicketState::Paying { .. }, TicketState::Failed { .. }) => true,
            (TicketState::Failed { retry_eligible: true, .. }, TicketState::Monitoring { .. }) => {
                true
            },
            (TicketState::Failed { retry_eligible: true, .. }, TicketState::Carting { .. }) => true,
            _ => false,
        }
    }

    /// Timeout budget of the current phase; `None` for terminal states.
    /// Only `Holding` depends on `now_ms`, through its own deadline.
    pub fn timeout(&self, now_ms: i64) -> (r: Option<i64>)
        requires
            self.wf(),
            0 <= now_ms,
        ensures
            r == self.timeout_spec(now_ms),
    {
        match self {
            TicketState::Monitoring { .. } => Some(MONITORING_TIMEOUT_MS),
            TicketState::Detected { .. } => Some(DETECTED_TIMEOUT_MS),
            TicketState::Carting { .. } => Some(CARTING_TIMEOUT_MS),
            TicketState::Holding { expires_at, .. } => Some(*expires_at - now_ms),
            TicketState::Paying { .. } => Some(PAYING_TIMEOUT_MS),
            TicketState::Confirmed { .. } => None,
            TicketState::Failed { .. } => None,
        }
    }

    /// A state has timed out exactly when its computed timeout duration
    /// is zero or negative. Terminal states never time out.
    pub fn is_timed_out(&self, now_ms: i64) -> (r: bool)
        requires
            self.wf(),
            0 <= now_ms,
        ensures
            r == (self.timeout_spec(now_ms) matches Some(d) && d <= 0),
    {
        match self.timeout(now_ms) {
            Some(d) => d <= 0,
            None => false,
        }
    }

    /// The variant's name, used in error reports. Never exposes the
    /// payload, so tokens and session ids cannot leak through errors.
    pub fn label(&self) -> (r: String)
        ensures
            r@ == self.label_spec(),
    {
        match self {
            TicketState::Monitoring { .. } => "Monitoring".to_owned(),
            TicketState::Detected { .. } => "Detected".to_owned(),
            TicketState::Carting { .. } => "Carting".to_owned(),
            TicketState::Holding { .. } => "Holding".to_owned(),
            TicketState::Paying { .. } => "Paying".to_owned(),
            TicketState::Confirmed { .. } => "Confirmed".to_owned(),
            TicketState::Failed { .. } => "Failed".to_owned(),
        }
    }

    /// Validated transition: returns the proposed state unchanged when
    /// the edge is in the table, otherwise an `InvalidTransition` error
    /// carrying the two variant names.
    pub fn transition(self, new_state: TicketState) -> (r: Result<
        TicketState,
        StateTransitionError,
    >)
        ensures
            allows_transition(&self, &new_state) ==> r == Ok::<TicketState, StateTransitionError>(
                new_state,
            ),
            !allows_transition(&self, &new_state) ==> (r matches Err(e) && e matches
                StateTransitionError::InvalidTransition { from, to } && from@ == self.label_spec()
                && to@ == new_state.label_spec()),
    {
        if !self.can_transition(&new_state) {
            return Err(
                StateTransitionError::InvalidTransition {
                    from: self.label(),
                    to: new_state.label(),
                },
            );
        }
        Ok(new_state)
    }

    /// The ticket type under acquisition, for the phases that carry it.
    pub fn ticket_type(&self) -> (r: Option<&TicketType>)
        ensures
            match self {
                TicketState::Monitoring { ticket_type, .. } => (r matches Some(t) && *t
                    == ticket_type),
                TicketState::Detected { ticket_type, .. } => (r matches Some(t) && *t
                    == ticket_type),
                TicketState::Carting { ticket_type, .. } => (r matches Some(t) && *t
                    == ticket_type),
                TicketState::Holding { ticket_type, .. } => (r matches Some(t) && *t
                    == ticket_type),
                _ => r is None,
            },
    {
        match self {
            TicketState::Monitoring { ticket_type, .. } => Some(ticket_type),
            TicketState::Detected { ticket_type, .. } => Some(ticket_type),
            TicketState::Carting { ticket_type, .. } => Some(ticket_type),
            TicketState::Holding { ticket_type, .. } => Some(ticket_type),
            _ => None,
        }
    }

    /// The target date under acquisition, for the phases that carry it.
    pub fn target_date(&self) -> (r: Option<&String>)
        ensures
            match self {
                TicketState::Monitoring { target_date, .. } => (r matches Some(d) && *d
                    == target_date),
                TicketState::Detected { target_date, .. } => (r matches Some(d) && *d
                    == target_date),
                TicketState::Carting { target_date, .. } => (r matches Some(d) && *d
                    == target_date),
                TicketState::Holding { target_date, .. } => (r matches Some(d) && *d
                    == target_date),
                _ => r is None,
            },
    {
        match self {
            TicketState::Monitoring { target_date, .. } => Some(target_date),
            TicketState::Detected { target_date, .. } => Some(target_date),
            TicketState::Carting { target_date, .. } => Some(target_date),
            TicketState::Holding { target_date, .. } => Some(target_date),
            _ => None,
        }
    }
}

impl TicketType {
    /// Human-readable name of the ticket type.
    pub fn display_name(&self) -> (r: String)
        ensures
            r@ == match self {
                TicketType::Ordinario => "Ordinario"@,
                TicketType::FullExperienceArena => "Full Experience Arena"@,
                TicketType::FullExperienceUnderground => "Full Experience Underground"@,
                TicketType::ForumPassSuper => "Forum Pass Super"@,
            },
    {
        match self {
            TicketType::Ordinario => "Ordinario".to_owned(),
            TicketType::FullExperienceArena => "Full Experience Arena".to_owned(),
            TicketType::FullExperienceUnderground => "Full Experience Underground".to_owned(),
            TicketType::ForumPassSuper => "Forum Pass Super".to_owned(),
        }
    }
}

/// Errors raised by the state machine and the registry.
#[derive(Clone, Debug, PartialEq, Eq)]
pub enum StateTransitionError {
    /// The proposed edge is not in the adjacency table. Carries the two
    /// variant names only, never the payloads.
    InvalidTransition { from: String, to: String },
    /// No lifecycle is tracked under the requested id.
    NotFound { id: String },
    /// The phase's timeout budget has elapsed.
    Timeout,
    /// A persisted payload could not be decoded.
    SerializationError(String),
}

impl StateTransitionError {
    /// Short description of the error, for logs and responses.
    pub fn describe(&self) -> (r: String)
        ensures
            self matches StateTransitionError::InvalidTransition { .. } ==> r@
                == "invalid state transition"@,
            self matches StateTransitionError::NotFound { .. } ==> r@ == "state not found"@,
            self matches StateTransitionError::Timeout ==> r@ == "state has timed out"@,
            self matches StateTransitionError::SerializationError(_) ==> r@
                == "state serialization failed"@,
    {
        match self {
            StateTransitionError::InvalidTransition { .. } => "invalid state transition".to_owned(),
            StateTransitionError::NotFound { .. } => "state not found".to_owned(),
            StateTransitionError::Timeout => "state has timed out".to_owned(),
            StateTransitionError::SerializationError(_) => "state serialization failed".to_owned(),
        }
    }
}

} // verus!
