//! Process and infrastructure.
use vstd::prelude::*;

verus! {

/// Session start (environment header written by the shell).
pub const SESSION_START: &'static str = "SYS-000";

/// Process panic.
pub const PANIC: &'static str = "SYS-001";

/// Uncaught exception or unhandled rejection in the web view.
pub const FRONTEND_ERROR: &'static str = "SYS-002";

/// Traffic engine constructed.
pub const ENGINE_READY: &'static str = "SYS-003";

/// HTTP client unavailable (starting is refused).
pub const CLIENT_UNAVAILABLE: &'static str = "SYS-004";

/// HTTP client built with the degraded configuration.
pub const CLIENT_DEGRADED: &'static str = "SYS-005";

/// Crash report written (the message carries the path).
pub const CRASH_REPORT: &'static str = "SYS-006";

} // verus!
