//! Run lifecycle.
use vstd::prelude::*;

verus! {

/// A run started.
pub const STARTED: &'static str = "RUN-001";

/// A run was stopped.
pub const STOPPED: &'static str = "RUN-002";

/// A byte or duration limit was reached and the run stopped.
pub const AUTO_STOPPED: &'static str = "RUN-003";

/// A second start while running was refused.
pub const ALREADY_RUNNING: &'static str = "RUN-004";

/// Snapshot of the effective parameters.
pub const CONFIG: &'static str = "RUN-005";

/// Pressure guard entered the warning state.
pub const PRESSURE_WARNING: &'static str = "RUN-006";

/// Pressure guard tripped and stopped the run.
pub const PRESSURE_STOPPED: &'static str = "RUN-007";

} // verus!
