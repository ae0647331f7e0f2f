//! Network requests and retries.
use vstd::prelude::*;

verus! {

/// The server answered with a non-2xx status.
pub const HTTP_STATUS: &'static str = "NET-001";

/// The request failed as a whole (connect, timeout, ...).
pub const REQUEST_FAILED: &'static str = "NET-002";

/// The response body broke off half-way.
pub const STREAM_BROKEN: &'static str = "NET-003";

/// Backing off after failures (throttled by milestone).
pub const BACKOFF: &'static str = "NET-004";

} // verus!
