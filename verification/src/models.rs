//! Shared data model: monitoring targets, availability signals, carts,
//! and alerts. Times are epoch milliseconds; confidences are fixed-point
//! thousandths of 1.0.

use vstd::prelude::*;
use crate::state_machine::TicketType;

verus! {

/// Target configuration for monitoring.
#[derive(Clone, Debug, PartialEq, Eq)]
pub struct MonitorTarget {
    pub id: String,
    pub name: String,
    pub url: String,
    pub ticket_type: TicketType,
    pub priority: TaskPriority,
    pub selectors: Vec<(String, String)>,
    pub headers: Vec<(String, String)>,
    pub poll_config: PollConfig,
}

#[derive(Clone, Copy, Debug, PartialEq, Eq, Structural)]
pub enum TaskPriority {
    /// Imminent releases, maximum resources.
    Critical,
    /// Upcoming releases.
    High,
    /// Background monitoring.
    Normal,
    /// Opportunistic.
    Low,
}

impl TaskPriority {
    /// Concurrency budget granted to tasks of this priority.
    pub fn semaphore_permits(&self) -> (r: usize)
        ensures
            r == match self {
                TaskPriority::Critical => 100usize,
                TaskPriority::High => 50usize,
                TaskPriority::Normal => 20usize,
                TaskPriority::Low => 10usize,
            },
    {
        match self {
            TaskPriority::Critical => 100,
            TaskPriority::High => 50,
            TaskPriority::Normal => 20,
            TaskPriority::Low => 10,
        }
    }
}

#[derive(Clone, Copy, Debug, PartialEq, Eq, Structural)]
pub struct PollConfig {
    pub base_interval_ms: u64,
    pub jitter_percent: u8,
    pub adaptive: bool,
}

impl Default for PollConfig {
    /// Default polling cadence: 5 s base interval, 30% jitter,
    /// adaptive backoff on.
    fn default() -> (r: Self)
        ensures
            r.base_interval_ms == 5000,
            r.jitter_percent == 30,
            r.adaptive,
    {
        PollConfig { base_interval_ms: 5000, jitter_percent: 30, adaptive: true }
    }
}

#[derive(Clone, Copy, Debug, PartialEq, Eq, Structural)]
pub enum Confidence {
    High,
    Medium,
    Low,
}

/// Availability verdict for one slot.
#[derive(Clone, Copy, Debug, PartialEq, Eq, Structural)]
pub enum AvailabilityStatus {
    Available(Confidence),
    SoldOut(Confidence),
    NotYetReleased,
    Uncertain,
    NoData,
}

/// Detection indicator extracted by the availability detector.
#[derive(Clone, Copy, Debug, PartialEq, Eq, Structural)]
pub enum AvailabilityIndicator {
    Available,
    SoldOut,
    NotYetReleased,
    Loading,
}

/// Time slot information.
#[derive(Clone, Debug, PartialEq, Eq)]
pub struct TimeSlot {
    pub time: String,
    pub available_count: u32,
    pub held_count: u32,
    pub price_tiers: Vec<(String, PriceTierInfo)>,
}

#[derive(Clone, Copy, Debug, PartialEq, Eq, Structural)]
pub struct PriceTierInfo {
    pub cents: u32,
    pub available: u32,
}

/// One line of a cart.
#[derive(Clone, Debug, PartialEq, Eq)]
pub struct CartItem {
    pub event_id: String,
    pub date: String,
    pub time_slot: String,
    pub ticket_type: String,
    pub quantity: u32,
    pub price_tier: String,
    pub unit_price_cents: u32,
}

#[derive(Clone, Copy, Debug, PartialEq, Eq, Structural)]
pub enum AlertLevel {
    Info,
    Warning,
    Critical,
}

/// Notification alert, queued FIFO for downstream delivery.
#[derive(Clone, Debug, PartialEq, Eq)]
pub struct Alert {
    pub level: AlertLevel,
    pub timestamp_ms: i64,
    pub target: String,
    pub availability: AvailabilityStatus,
    pub confidence: u32,
    pub metadata: Vec<(String, String)>,
}

} // verus!
