//! Input validation and clamping.
use vstd::prelude::*;

verus! {

/// Missing or malformed parameter (empty address and the like).
pub const REJECTED: &'static str = "CFG-001";

/// Target address longer than the limit.
pub const URL_TOO_LONG: &'static str = "CFG-002";

/// Target address scheme is not http/https.
pub const URL_SCHEME: &'static str = "CFG-003";

/// Test authorization not confirmed.
pub const NOT_AUTHORIZED: &'static str = "CFG-004";

/// Non-finite number rejected.
pub const NON_FINITE: &'static str = "CFG-005";

/// Value clamped into range; requested and applied values are reported.
pub const CLAMPED: &'static str = "CFG-010";

/// Live adjustment applied.
pub const LIVE_APPLIED: &'static str = "CFG-011";

/// Ramp-up plan started.
pub const RAMP_STARTED: &'static str = "CFG-012";

/// Ramp-up plan completed.
pub const RAMP_COMPLETED: &'static str = "CFG-013";

/// Local piece mode refused a public or non-literal address.
pub const PT_NOT_LOCAL: &'static str = "CFG-014";

} // verus!
