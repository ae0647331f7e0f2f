//! NIC link monitoring.
use vstd::prelude::*;

verus! {

/// Monitoring started (platform, period, default scope).
pub const MONITOR_READY: &'static str = "NIC-001";

/// Sampling failed (throttled by milestone).
pub const SAMPLE_FAILED: &'static str = "NIC-002";

/// Counters cannot be read on this platform.
pub const UNSUPPORTED: &'static str = "NIC-003";

/// The interface list changed.
pub const ADAPTERS_CHANGED: &'static str = "NIC-004";

/// A selected adapter is not in the list right now.
pub const SELECTION_UNKNOWN: &'static str = "NIC-005";

/// Monitoring scope updated.
pub const SELECTION_APPLIED: &'static str = "NIC-006";

/// NIC report generated.
pub const REPORT: &'static str = "NIC-007";

/// Inventory of the first sample.
pub const DISCOVERED: &'static str = "NIC-008";

/// Link down.
pub const LINK_DOWN: &'static str = "NIC-010";

/// Link restored (with the outage duration).
pub const LINK_UP: &'static str = "NIC-011";

/// Negotiated speed changed.
pub const SPEED_CHANGED: &'static str = "NIC-012";

/// Cumulative counters were reset.
pub const COUNTER_RESET: &'static str = "NIC-013";

/// Discard spike started.
pub const DISCARD_SPIKE: &'static str = "NIC-020";

/// Discard spike ended (peak and duration).
pub const DISCARD_SPIKE_END: &'static str = "NIC-021";

/// Error spike started.
pub const ERROR_SPIKE: &'static str = "NIC-022";

/// Error spike ended (peak and duration).
pub const ERROR_SPIKE_END: &'static str = "NIC-023";

/// Send queue backlog started.
pub const QUEUE_BACKLOG: &'static str = "NIC-024";

/// Send queue backlog ended (peak and duration).
pub const QUEUE_BACKLOG_END: &'static str = "NIC-025";

} // verus!
