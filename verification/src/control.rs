//! Decision logic of the streaming control surface: starting and
//! stopping a monitored lifecycle, status summaries, and the
//! acquisition operations that combine the registry with the
//! coordination store. The RPC transport, task spawning and clock
//! reads stay outside the verified boundary; these functions take the
//! current time and outside outcomes as plain values.

use vstd::prelude::*;
use crate::models::{Alert, AlertLevel, AvailabilityStatus, CartItem};
use crate::registry::StateMachineManager;
use crate::state_machine::{
    allows_transition,
    FailureReason,
    StateTransitionError,
    TicketDetail,
    TicketState,
    TicketType,
};
use crate::store::{health_reported, ClaimRecord, ProxyHealth, StateStore, StoredState, STATE_TTL_MS};

verus! {

/// TTL of an acquisition claim: 15 minutes.
pub const CLAIM_TTL_SECS: u64 = 900;

/// One selectable payment option.
#[derive(Clone, Debug, PartialEq, Eq)]
pub struct PaymentOption {
    pub method: u32,
    pub display_name: String,
    pub requires_3ds: bool,
}

/// Answer to an acquisition attempt. An already-claimed resource is a
/// structured negative (`success == false`), not an error.
#[derive(Clone, Debug, PartialEq, Eq)]
pub struct AcquisitionResponse {
    pub cart_id: String,
    pub hold_expires_ms: i64,
    pub payment_options: Vec<PaymentOption>,
    pub success: bool,
    pub error_message: String,
}

/// Answer to a stop request.
#[derive(Clone, Debug, PartialEq, Eq)]
pub struct StopResponse {
    pub success: bool,
    pub message: String,
}

/// Per-target summary handed to the orchestrator. The proxy and health
/// fields are neutral defaults here; the transport layer enriches them
/// from live proxy records when it knows the proxy in use.
#[derive(Clone, Debug, PartialEq, Eq)]
pub struct TargetStatus {
    pub target_id: String,
    pub state: u32,
    pub checks_total: u64,
    pub detections_total: u64,
    pub last_check_ms: i64,
    pub current_proxy: String,
    pub health_num: u64,
    pub health_den: u64,
}

/// Answer to a cart-status request.
#[derive(Clone, Debug, PartialEq, Eq)]
pub struct CartStatusResponse {
    pub cart_id: String,
    pub state: u32,
    pub expires_ms: i64,
    pub items: Vec<CartItem>,
    pub total_cents: u32,
}

/// Outcome of the external payment gateway, handed in as plain values.
#[derive(Clone, Debug, PartialEq, Eq)]
pub enum PaymentOutcome {
    Approved { confirmation_code: String, tickets: Vec<TicketDetail> },
    Declined { reason: FailureReason, retry_eligible: bool },
}

/// Answer to a payment-completion request.
#[derive(Clone, Debug, PartialEq, Eq)]
pub struct PaymentResponse {
    pub success: bool,
    pub confirmation_code: String,
    pub error_message: String,
    pub state: u32,
    pub timestamp_ms: i64,
}

/// One aggregate snapshot emitted on the metrics stream.
#[derive(Clone, Debug, PartialEq, Eq)]
pub struct MetricsEvent {
    pub timestamp_ms: i64,
    pub proxy_health: Vec<ProxyHealth>,
}

/// Answer to a cart-release request.
#[derive(Clone, Copy, Debug, PartialEq, Eq, Structural)]
pub struct ReleaseResponse {
    pub success: bool,
}

/// Wire code of each lifecycle phase.
pub open spec fn spec_state_code(s: TicketState) -> u32 {
    match s {
        TicketState::Monitoring { .. } => 1u32,
        TicketState::Detected { .. } => 2u32,
        TicketState::Carting { .. } => 3u32,
        TicketState::Holding { .. } => 4u32,
        TicketState::Paying { .. } => 5u32,
        TicketState::Confirmed { .. } => 6u32,
        TicketState::Failed { .. } => 7u32,
    }
}

/// Wire code of a ticket type; unknown codes fall back to the basic
/// ticket.
pub open spec fn spec_ticket_type_from_code(code: u32) -> TicketType {
    if code == 2 {
        TicketType::FullExperienceArena
    } else if code == 3 {
        TicketType::FullExperienceUnderground
    } else if code == 4 {
        TicketType::ForumPassSuper
    } else {
        TicketType::Ordinario
    }
}

/// The fresh lifecycle that a monitoring request establishes.
pub open spec fn spec_initial_monitoring(target_date: String, code: u32, now_ms: i64) -> TicketState {
    TicketState::Monitoring {
        started_at: now_ms,
        last_check: now_ms,
        check_count: 0,
        target_date: target_date,
        ticket_type: spec_ticket_type_from_code(code),
    }
}

/// The lifecycle state proposed once the payment gateway answered.
pub open spec fn spec_payment_state(outcome: PaymentOutcome, now_ms: i64) -> TicketState {
    match outcome {
        PaymentOutcome::Approved { confirmation_code, tickets } => TicketState::Confirmed {
            confirmed_at: now_ms,
            confirmation_code: confirmation_code,
            tickets: tickets,
        },
        PaymentOutcome::Declined { reason, retry_eligible } => TicketState::Failed {
            failed_at: now_ms,
            reason: reason,
            retry_eligible: retry_eligible,
        },
    }
}

/// The confirmation code an outcome carries (empty for declines).
pub open spec fn spec_outcome_confirmation(outcome: PaymentOutcome) -> Seq<char> {
    match outcome {
        PaymentOutcome::Approved { confirmation_code, .. } => confirmation_code@,
        PaymentOutcome::Declined { .. } => Seq::empty(),
    }
}

/// Total checks reported for a state.
pub open spec fn spec_checks_total(s: TicketState) -> u64 {
    match s {
        TicketState::Monitoring { check_count, .. } => check_count,
        _ => 0u64,
    }
}

/// Total detections reported for a state: the signals backing a
/// detection, none elsewhere.
pub open spec fn spec_detections_total(s: TicketState) -> u64 {
    match s {
        TicketState::Detected { signals, .. } => signals@.len() as u64,
        _ => 0u64,
    }
}

/// The most recent activity instant a state carries.
pub open spec fn spec_last_activity(s: TicketState) -> i64 {
    match s {
        TicketState::Monitoring { last_check, .. } => last_check,
        TicketState::Detected { detected_at, .. } => detected_at,
        TicketState::Carting { started_at, .. } => started_at,
        TicketState::Holding { heartbeat_due, .. } => heartbeat_due,
        TicketState::Paying { started_at, .. } => started_at,
        TicketState::Confirmed { confirmed_at, .. } => confirmed_at,
        TicketState::Failed { failed_at, .. } => failed_at,
    }
}

/// A summary reports exactly the given state under the given id.
pub open spec fn status_matches(ts: TargetStatus, id: Seq<char>, s: TicketState) -> bool {
    &&& ts.target_id@ == id
    &&& ts.state == spec_state_code(s)
    &&& ts.checks_total == spec_checks_total(s)
    &&& ts.detections_total == spec_detections_total(s)
    &&& ts.last_check_ms == spec_last_activity(s)
    &&& ts.current_proxy@ == Seq::<char>::empty()
    &&& ts.health_num == 1 && ts.health_den == 1
}

/// The two payment options offered with a won claim.
pub open spec fn payment_options_ok(v: Seq<PaymentOption>) -> bool {
    &&& v.len() == 2
    &&& v[0].method == 1 && v[0].display_name@ == "UniCredit Card"@ && v[0].requires_3ds
    &&& v[1].method == 2 && v[1].display_name@ == "PayPal"@ && !v[1].requires_3ds
}

/// The alert that records a cart release and its reason.
pub open spec fn release_alert_ok(a: Alert, event_id: Seq<char>, reason: Seq<char>, now_ms: i64) -> bool {
    &&& a.level == AlertLevel::Info
    &&& a.timestamp_ms == now_ms
    &&& a.target@ == event_id
    &&& a.availability == AvailabilityStatus::NoData
    &&& a.confidence == 0
    &&& a.metadata@.len() == 1
    &&& a.metadata@[0].0@ == "reason"@
    &&& a.metadata@[0].1@ == reason
}

/// Relies on `uuid::Uuid::new_v4` and the hyphenated `Display` form of
/// `uuid::Uuid`: a fresh random v4 UUID rendered as 36 ASCII
/// characters.
#[verifier::external_body]
fn fresh_uuid() -> (r: String)
    ensures
        r@.len() == 36,
{
    uuid::Uuid::new_v4().to_string()
}

/// Decode a wire ticket-type code; unknown codes fall back to the
/// basic ticket.
pub fn ticket_type_from_code(code: u32) -> (t: TicketType)
    ensures
        t == spec_ticket_type_from_code(code),
{
    if code == 2 {
        TicketType::FullExperienceArena
    } else if code == 3 {
        TicketType::FullExperienceUnderground
    } else if code == 4 {
        TicketType::ForumPassSuper
    } else {
        TicketType::Ordinario
    }
}

/// Wire code of a lifecycle phase.
pub fn state_code(s: &TicketState) -> (r: u32)
    ensures
        r == spec_state_code(*s),
{
    match s {
        TicketState::Monitoring { .. } => 1,
        TicketState::Detected { .. } => 2,
        TicketState::Carting { .. } => 3,
        TicketState::Holding { .. } => 4,
        TicketState::Paying { .. } => 5,
        TicketState::Confirmed { .. } => 6,
        TicketState::Failed { .. } => 7,
    }
}

/// Establish a fresh `Monitoring` lifecycle for `target_id` in the
/// registry and persist it in the coordination store; the streaming
/// task that feeds availability events back runs outside and is fed
/// from this state.
pub fn start_monitoring(
    registry: &mut StateMachineManager,
    store: &mut StateStore,
    target_id: &String,
    target_date: &String,
    ticket_type_code: u32,
    now_ms: i64,
)
    requires
        old(registry).inv(),
        old(store).inv(),
        0 <= now_ms,
        now_ms + STATE_TTL_MS <= i64::MAX,
    ensures
        final(registry).inv(),
        final(store).inv(),
        final(registry)@ == old(registry)@.insert(
            target_id@,
            spec_initial_monitoring(*target_date, ticket_type_code, now_ms),
        ),
        final(store).states_map() == old(store).states_map().insert(
            target_id@,
            (StoredState {
                state: spec_initial_monitoring(*target_date, ticket_type_code, now_ms),
                expires_at: (now_ms + STATE_TTL_MS) as i64,
            }),
        ),
        final(store).claims_map() == old(store).claims_map(),
        final(store).sessions_map() == old(store).sessions_map(),
        final(store).metrics_map() == old(store).metrics_map(),
        final(store).alerts_seq() == old(store).alerts_seq(),
        final(store).proxies_map() == old(store).proxies_map(),
{
    let ticket_type = ticket_type_from_code(ticket_type_code);
    let for_registry = TicketState::Monitoring {
        started_at: now_ms,
        last_check: now_ms,
        check_count: 0,
        target_date: target_date.clone(),
        ticket_type,
    };
    let for_store = TicketState::Monitoring {
        started_at: now_ms,
        last_check: now_ms,
        check_count: 0,
        target_date: target_date.clone(),
        ticket_type,
    };
    registry.insert(target_id.clone(), for_registry);
    store.save_state(target_id, for_store, now_ms);
}

/// Halt monitoring for `target_id`: the lifecycle entry leaves the
/// registry and the durable snapshot is dropped, so the target is
/// reported gone everywhere. The caller cancels the streaming task it
/// spawned for the target.
pub fn stop_monitoring(
    registry: &mut StateMachineManager,
    store: &mut StateStore,
    target_id: &String,
) -> (r: StopResponse)
    requires
        old(registry).inv(),
        old(store).inv(),
    ensures
        final(registry).inv(),
        final(store).inv(),
        final(registry)@ == old(registry)@.remove(target_id@),
        final(store).states_map() == old(store).states_map().remove(target_id@),
        final(store).claims_map() == old(store).claims_map(),
        final(store).sessions_map() == old(store).sessions_map(),
        final(store).metrics_map() == old(store).metrics_map(),
        final(store).alerts_seq() == old(store).alerts_seq(),
        final(store).proxies_map() == old(store).proxies_map(),
        r.success == old(registry)@.contains_key(target_id@),
        r.message@ == "Monitoring stopped"@,
{
    let tracked_here = registry.remove(target_id);
    store.delete_state(target_id);
    StopResponse { success: tracked_here, message: "Monitoring stopped".to_owned() }
}

/// Summary of one tracked state.
fn target_status_of(id: String, s: &TicketState) -> (r: TargetStatus)
    ensures
        status_matches(r, id@, *s),
        r.target_id == id,
{
    let checks_total = match s {
        TicketState::Monitoring { check_count, .. } => *check_count,
        _ => 0,
    };
    let detections_total = match s {
        TicketState::Detected { signals, .. } => signals.len() as u64,
        _ => 0,
    };
    let last_check_ms = match s {
        TicketState::Monitoring { last_check, .. } => *last_check,
        TicketState::Detected { detected_at, .. } => *detected_at,
        TicketState::Carting { started_at, .. } => *started_at,
        TicketState::Holding { heartbeat_due, .. } => *heartbeat_due,
        TicketState::Paying { started_at, .. } => *started_at,
        TicketState::Confirmed { confirmed_at, .. } => *confirmed_at,
        TicketState::Failed { failed_at, .. } => *failed_at,
    };
    TargetStatus {
        target_id: id,
        state: state_code(s),
        checks_total,
        detections_total,
        last_check_ms,
        current_proxy: String::new(),
        health_num: 1,
        health_den: 1,
    }
}

/// Per-target summaries: one entry for the named target, or one for
/// every known target when `target_id` is empty. An unknown non-empty
/// id yields no entries (the transport reports it as not found).
pub fn get_status(registry: &StateMachineManager, target_id: &String) -> (r: Vec<TargetStatus>)
    requires
        registry.inv(),
    ensures
        forall|j: int|
            0 <= j < r@.len() ==> registry@.contains_key(#[trigger] r@[j].target_id@)
                && status_matches(r@[j], r@[j].target_id@, registry@[r@[j].target_id@]),
        target_id@.len() != 0 && registry@.contains_key(target_id@) ==> r@.len() == 1
            && r@[0].target_id@ == target_id@,
        target_id@.len() != 0 && !registry@.contains_key(target_id@) ==> r@.len() == 0,
        target_id@.len() == 0 ==> forall|k: Seq<char>|
            registry@.contains_key(k) ==> exists|j: int|
                0 <= j < r@.len() && #[trigger] r@[j].target_id@ == k,
{
    let mut out: Vec<TargetStatus> = Vec::new();
    if target_id.as_str().is_empty() {
        let ids = registry.targets();
        let n = ids.len();
        let mut i: usize = 0;
        while i < n
            invariant
                i <= n,
                n == ids@.len(),
                registry.inv(),
                out@.len() == i,
                forall|j: int| 0 <= j < n ==> registry@.contains_key(#[trigger] ids@[j]@),
                forall|j: int| 0 <= j < i ==> #[trigger] out@[j].target_id@ == ids@[j]@,
                forall|j: int|
                    0 <= j < i ==> status_matches(
                        #[trigger] out@[j],
                        ids@[j]@,
                        registry@[ids@[j]@],
                    ),
            decreases n - i,
        {
            if let Some(s) = registry.get(&ids[i]) {
                out.push(target_status_of(ids[i].clone(), s));
            }
            i = i + 1;
        }
        proof {
            assert forall|k: Seq<char>| registry@.contains_key(k) implies exists|j: int|
                0 <= j < out@.len() && #[trigger] out@[j].target_id@ == k by {
                let j = choose|j: int| 0 <= j < ids@.len() && #[trigger] ids@[j]@ == k;
                assert(out@[j].target_id@ == k);
            }
        }
    } else {
        if let Some(s) = registry.get(target_id) {
            out.push(target_status_of(target_id.clone(), s));
        }
    }
    out
}

/// The two payment options offered with a won claim.
fn default_payment_options() -> (r: Vec<PaymentOption>)
    ensures
        payment_options_ok(r@),
{
    let mut r: Vec<PaymentOption> = Vec::new();
    r.push(
        PaymentOption { method: 1, display_name: "UniCredit Card".to_owned(), requires_3ds: true },
    );
    r.push(PaymentOption { method: 2, display_name: "PayPal".to_owned(), requires_3ds: false });
    r
}

/// Race for the contested event: try to claim it under a fresh cart id
/// with the fixed 15-minute TTL. Winning yields the cart id and the
/// payment options; losing is the structured negative
/// `success == false` with the message `Already claimed`. Exactly one
/// of any set of callers racing the same event id can win while the
/// claim lives.
pub fn initiate_acquisition(store: &mut StateStore, event_id: &String, now_ms: i64) -> (r:
    AcquisitionResponse)
    requires
        old(store).inv(),
        0 <= now_ms,
        now_ms + CLAIM_TTL_SECS * 1000 <= i64::MAX,
    ensures
        final(store).inv(),
        r.success == !old(store).claim_live(event_id@, now_ms),
        r.success ==> final(store).claims_map() == old(store).claims_map().insert(
            event_id@,
            (ClaimRecord {
                token: r.cart_id,
                expires_at: (now_ms + CLAIM_TTL_SECS * 1000) as i64,
            }),
        ),
        r.success ==> r.cart_id@.len() == 41 && r.hold_expires_ms == now_ms + CLAIM_TTL_SECS
            * 1000 && payment_options_ok(r.payment_options@) && r.error_message@.len() == 0,
        !r.success ==> final(store).claims_map() == old(store).claims_map(),
        !r.success ==> r.cart_id@.len() == 0 && r.hold_expires_ms == 0 && r.payment_options@.len()
            == 0 && r.error_message@ == "Already claimed"@,
        final(store).states_map() == old(store).states_map(),
        final(store).sessions_map() == old(store).sessions_map(),
        final(store).metrics_map() == old(store).metrics_map(),
        final(store).alerts_seq() == old(store).alerts_seq(),
        final(store).proxies_map() == old(store).proxies_map(),
{
    proof {
        reveal_strlit("cart-");
    }
    let cart_id = "cart-".to_owned().concat(fresh_uuid().as_str());
    let won = store.try_claim_cart(event_id, &cart_id, CLAIM_TTL_SECS, now_ms);
    if won {
        AcquisitionResponse {
            cart_id,
            hold_expires_ms: now_ms + 900_000,
            payment_options: default_payment_options(),
            success: true,
            error_message: String::new(),
        }
    } else {
        AcquisitionResponse {
            cart_id: String::new(),
            hold_expires_ms: 0,
            payment_options: Vec::new(),
            success: false,
            error_message: "Already claimed".to_owned(),
        }
    }
}

/// Cart status against the true claim content: the cart is active
/// exactly while the claim for its event id is live and carries this
/// cart id as its token.
pub fn get_cart_status(
    store: &StateStore,
    event_id: &String,
    cart_id: &String,
    now_ms: i64,
) -> (r: CartStatusResponse)
    requires
        store.inv(),
    ensures
        r.cart_id == *cart_id,
        r.items@.len() == 0 && r.total_cents == 0,
        store.claim_live(event_id@, now_ms) && store.claims_map()[event_id@].token@ == cart_id@
            ==> r.state == 1 && r.expires_ms == store.claims_map()[event_id@].expires_at,
        !(store.claim_live(event_id@, now_ms) && store.claims_map()[event_id@].token@ == cart_id@)
            ==> r.state == 0 && r.expires_ms == 0,
{
    let mut state: u32 = 0;
    let mut expires_ms: i64 = 0;
    if let Some(claim) = store.get_claim(event_id, now_ms) {
        if claim.token == *cart_id {
            state = 1;
            expires_ms = claim.expires_at;
        }
    }
    CartStatusResponse {
        cart_id: cart_id.clone(),
        state,
        expires_ms,
        items: Vec::new(),
        total_cents: 0,
    }
}

/// Settle a payment: propose the gateway's outcome as the next
/// lifecycle state (`Confirmed` on approval, `Failed` on decline).
/// When the transition is accepted the claim for the event is
/// released; on any failure registry and store are left untouched.
pub fn complete_payment(
    registry: &mut StateMachineManager,
    store: &mut StateStore,
    target_id: &String,
    event_id: &String,
    outcome: PaymentOutcome,
    now_ms: i64,
) -> (r: PaymentResponse)
    requires
        old(registry).inv(),
        old(store).inv(),
    ensures
        final(registry).inv(),
        final(store).inv(),
        r.timestamp_ms == now_ms,
        !old(registry)@.contains_key(target_id@) ==> !r.success && r.error_message@
            == "state not found"@ && final(registry)@ == old(registry)@ && final(store).claims_map()
            == old(store).claims_map(),
        old(registry)@.contains_key(target_id@) && allows_transition(
            &old(registry)@[target_id@],
            &spec_payment_state(outcome, now_ms),
        ) ==> final(registry)@ == old(registry)@.insert(
            target_id@,
            spec_payment_state(outcome, now_ms),
        ) && final(store).claims_map() == old(store).claims_map().remove(event_id@) && r.success
            == (outcome matches PaymentOutcome::Approved { .. }) && r.state == spec_state_code(
            spec_payment_state(outcome, now_ms),
        ),
        old(registry)@.contains_key(target_id@) && allows_transition(
            &old(registry)@[target_id@],
            &spec_payment_state(outcome, now_ms),
        ) ==> r.confirmation_code@ == spec_outcome_confirmation(outcome) && r.error_message@
            == (if outcome matches PaymentOutcome::Approved { .. } {
            Seq::<char>::empty()
        } else {
            "payment declined"@
        }),
        old(registry)@.contains_key(target_id@) && !allows_transition(
            &old(registry)@[target_id@],
            &spec_payment_state(outcome, now_ms),
        ) ==> !r.success && r.error_message@ == "invalid state transition"@ && final(registry)@
            == old(registry)@ && final(store).claims_map() == old(store).claims_map(),
        final(store).states_map() == old(store).states_map(),
        final(store).sessions_map() == old(store).sessions_map(),
        final(store).metrics_map() == old(store).metrics_map(),
        final(store).alerts_seq() == old(store).alerts_seq(),
        final(store).proxies_map() == old(store).proxies_map(),
{
    let approved = matches!(outcome, PaymentOutcome::Approved { .. });
    let code_for_response = match &outcome {
        PaymentOutcome::Approved { confirmation_code, .. } => confirmation_code.clone(),
        PaymentOutcome::Declined { .. } => String::new(),
    };
    let proposed = match outcome {
        PaymentOutcome::Approved { confirmation_code, tickets } => TicketState::Confirmed {
            confirmed_at: now_ms,
            confirmation_code,
            tickets,
        },
        PaymentOutcome::Declined { reason, retry_eligible } => TicketState::Failed {
            failed_at: now_ms,
            reason,
            retry_eligible,
        },
    };
    let state = state_code(&proposed);
    match registry.update(target_id, proposed) {
        Ok(()) => {
            store.release_claim(event_id);
            PaymentResponse {
                success: approved,
                confirmation_code: code_for_response,
                error_message: if approved {
                    String::new()
                } else {
                    "payment declined".to_owned()
                },
                state,
                timestamp_ms: now_ms,
            }
        },
        Err(e) => {
            let not_found = matches!(e, StateTransitionError::NotFound { .. });
            PaymentResponse {
                success: false,
                confirmation_code: String::new(),
                error_message: if not_found {
                    "state not found".to_owned()
                } else {
                    "invalid state transition".to_owned()
                },
                state: 0,
                timestamp_ms: now_ms,
            }
        },
    }
}

/// Release the coordination claim for an event and queue an alert that
/// records the release reason for downstream delivery.
pub fn release_cart(
    store: &mut StateStore,
    event_id: &String,
    reason: &String,
    now_ms: i64,
) -> (r: ReleaseResponse)
    requires
        old(store).inv(),
    ensures
        final(store).inv(),
        final(store).claims_map() == old(store).claims_map().remove(event_id@),
        r.success == old(store).claim_live(event_id@, now_ms),
        final(store).alerts_seq().len() == old(store).alerts_seq().len() + 1,
        final(store).alerts_seq() == old(store).alerts_seq().push(
            final(store).alerts_seq().last(),
        ),
        release_alert_ok(final(store).alerts_seq().last(), event_id@, reason@, now_ms),
        final(store).states_map() == old(store).states_map(),
        final(store).sessions_map() == old(store).sessions_map(),
        final(store).metrics_map() == old(store).metrics_map(),
        final(store).proxies_map() == old(store).proxies_map(),
{
    let existed = match store.get_claim(event_id, now_ms) {
        Some(_) => true,
        None => false,
    };
    store.release_claim(event_id);
    let mut metadata: Vec<(String, String)> = Vec::new();
    metadata.push(("reason".to_owned(), reason.clone()));
    store.queue_alert(
        Alert {
            level: AlertLevel::Info,
            timestamp_ms: now_ms,
            target: event_id.clone(),
            availability: AvailabilityStatus::NoData,
            confidence: 0,
            metadata,
        },
    );
    ReleaseResponse { success: existed }
}


/// One aggregate snapshot for the metrics stream: the health summary
/// of every known proxy, under the snapshot's timestamp. The periodic
/// cadence and the stream channel live with the caller.
pub fn metrics_snapshot(store: &StateStore, now_ms: i64) -> (r: MetricsEvent)
    requires
        store.inv(),
    ensures
        r.timestamp_ms == now_ms,
        forall|i: int|
            0 <= i < r.proxy_health@.len() ==> health_reported(
                #[trigger] r.proxy_health@[i],
                store.proxy_base(r.proxy_health@[i].proxy_url@, now_ms),
            ),
        forall|i: int, j: int|
            #![trigger r.proxy_health@[i].proxy_url@, r.proxy_health@[j].proxy_url@]
            0 <= i < j < r.proxy_health@.len() ==> r.proxy_health@[i].proxy_url@
                != r.proxy_health@[j].proxy_url@,
        forall|k: Seq<char>|
            store.proxies_map().contains_key(k) ==> exists|i: int|
                0 <= i < r.proxy_health@.len() && #[trigger] r.proxy_health@[i].proxy_url@ == k,
{
    let urls = store.proxy_urls();
    let n = urls.len();
    let mut proxy_health: Vec<ProxyHealth> = Vec::new();
    let mut i: usize = 0;
    while i < n
        invariant
            i <= n,
            n == urls@.len(),
            store.inv(),
            proxy_health@.len() == i,
            forall|a: int, b: int|
                #![trigger urls@[a]@, urls@[b]@]
                0 <= a < b < n ==> urls@[a]@ != urls@[b]@,
            forall|j: int| 0 <= j < i ==> #[trigger] proxy_health@[j].proxy_url@ == urls@[j]@,
            forall|j: int|
                0 <= j < i ==> health_reported(
                    #[trigger] proxy_health@[j],
                    store.proxy_base(urls@[j]@, now_ms),
                ),
        decreases n - i,
    {
        proxy_health.push(store.get_proxy_health(&urls[i], now_ms));
        i = i + 1;
    }
    proof {
    }
    let ev = MetricsEvent { timestamp_ms: now_ms, proxy_health };
    proof {
        assert forall|k: Seq<char>| store.proxies_map().contains_key(k) implies exists|i2: int|
            0 <= i2 < ev.proxy_health@.len() && #[trigger] ev.proxy_health@[i2].proxy_url@ == k by {
            let j = choose|j: int| 0 <= j < urls@.len() && #[trigger] urls@[j]@ == k;
            assert(0 <= j < ev.proxy_health@.len() && ev.proxy_health@[j].proxy_url@ == k);
        }
    }
    ev
}

} // verus!
