//! Stable event codes: every log line and lifecycle event that the library
//! produces carries a `DOMAIN-NNN` code tied to exactly one code path, so that
//! a reported code leads straight to the branch that emitted it. Codes are
//! never reused; the empty string means "no code" and is reserved for text
//! passed through from elsewhere.
//!
//! Domains: [`sys`] process and infrastructure, [`cfg`] input validation,
//! [`run`] run lifecycle, [`net`] requests and retries, [`nic`] link monitoring.
use vstd::prelude::*;

use crate::text::pow10;

pub mod cfg;
pub mod net;
pub mod nic;
pub mod run;
pub mod sys;

verus! {

/// Every event code, for the format guard and diagnostic exports.
pub const ALL: [&'static str; 46] = [
    sys::SESSION_START,
    sys::PANIC,
    sys::FRONTEND_ERROR,
    sys::ENGINE_READY,
    sys::CLIENT_UNAVAILABLE,
    sys::CLIENT_DEGRADED,
    sys::CRASH_REPORT,
    cfg::REJECTED,
    cfg::URL_TOO_LONG,
    cfg::URL_SCHEME,
    cfg::NOT_AUTHORIZED,
    cfg::NON_FINITE,
    cfg::CLAMPED,
    cfg::LIVE_APPLIED,
    cfg::RAMP_STARTED,
    cfg::RAMP_COMPLETED,
    cfg::PT_NOT_LOCAL,
    run::STARTED,
    run::STOPPED,
    run::AUTO_STOPPED,
    run::ALREADY_RUNNING,
    run::CONFIG,
    run::PRESSURE_WARNING,
    run::PRESSURE_STOPPED,
    net::HTTP_STATUS,
    net::REQUEST_FAILED,
    net::STREAM_BROKEN,
    net::BACKOFF,
    nic::MONITOR_READY,
    nic::SAMPLE_FAILED,
    nic::UNSUPPORTED,
    nic::ADAPTERS_CHANGED,
    nic::SELECTION_UNKNOWN,
    nic::SELECTION_APPLIED,
    nic::REPORT,
    nic::DISCOVERED,
    nic::LINK_DOWN,
    nic::LINK_UP,
    nic::SPEED_CHANGED,
    nic::COUNTER_RESET,
    nic::DISCARD_SPIKE,
    nic::DISCARD_SPIKE_END,
    nic::ERROR_SPIKE,
    nic::ERROR_SPIKE_END,
    nic::QUEUE_BACKLOG,
    nic::QUEUE_BACKLOG_END,
];

/// Burst quota of repeated log lines: the first `LOG_BURST` of a kind are kept.
pub const LOG_BURST: u64 = 3;

/// `n` is ten, a hundred, a thousand, ...
pub open spec fn is_power_of_ten(n: nat) -> bool {
    exists|k: nat| k >= 1 && #[trigger] pow10(k) == n
}

/// The milestones of a repeated log line: the burst, then every power of ten.
/// (The saturated counter `u64::MAX` also reads as a milestone.)
pub open spec fn milestone(count: u64) -> bool {
    count <= LOG_BURST || is_power_of_ten(count as nat) || count == u64::MAX
}

proof fn lemma_pow10_grows(a: nat, b: nat)
    requires
        a < b,
    ensures
        pow10(a) < pow10(b),
    decreases b,
{
    if a + 1 < b {
        lemma_pow10_grows(a, (b - 1) as nat);
    }
    assert(pow10(b) == 10 * pow10((b - 1) as nat));
    lemma_pow10_positive((b - 1) as nat);
}

proof fn lemma_pow10_positive(k: nat)
    ensures
        pow10(k) >= 1,
    decreases k,
{
    if k > 0 {
        lemma_pow10_positive((k - 1) as nat);
    }
}

proof fn lemma_pow10_20()
    ensures
        pow10(18) == 1_000_000_000_000_000_000,
        pow10(19) == 10_000_000_000_000_000_000,
        pow10(20) > u64::MAX,
{
    reveal_with_fuel(pow10, 21);
}

/// Whether the `count`-th occurrence of a repeated log line is written: the
/// first [`LOG_BURST`], then the powers of ten.
///
/// Shared by the engine (network failures) and the shell (front-end errors),
/// so that both throttle by the same rule.
pub fn is_log_milestone(count: u64) -> (r: bool)
    ensures
        r == milestone(count),
{
    if count <= LOG_BURST {
        return true;
    }
    let mut step: u64 = 10;
    let ghost mut k: nat = 1;
    proof {
        reveal_with_fuel(pow10, 2);
    }
    while step < count
        invariant
            count > LOG_BURST,
            1 <= k <= 19,
            step == pow10(k),
            step >= 10,
            forall|i: nat| 1 <= i < k ==> #[trigger] pow10(i) < count,
        decreases u64::MAX - step,
    {
        proof {
            lemma_pow10_20();
        }
        if step > u64::MAX / 10 {
            // The next power of ten does not fit: the counter can only meet the
            // saturated value from here on.
            proof {
                assert forall|i: nat| i >= 1 implies #[trigger] pow10(i) != count by {
                    if i <= k {
                        if i < k {
                            assert(pow10(i) < count);
                        }
                    } else {
                        lemma_pow10_20();
                        if i > 20 {
                            lemma_pow10_grows(20, i);
                        }
                        if k < 18 {
                            lemma_pow10_grows(k, 18);
                        }
                        assert(k == 19);
                        if i == 20 {
                        } else {
                            assert(pow10(i) > u64::MAX);
                        }
                    }
                }
            }
            return count == u64::MAX;
        }
        proof {
            if k == 19 {
                assert(step == pow10(19));
            }
            assert(pow10(k + 1) == 10 * pow10(k));
        }
        step = step * 10;
        proof {
            k = k + 1;
        }
    }
    proof {
        assert(is_power_of_ten(count as nat) <==> step == count) by {
            if step == count {
                assert(pow10(k) == count);
            } else {
                assert forall|i: nat| i >= 1 implies #[trigger] pow10(i) != count by {
                    if i < k {
                    } else if i > k {
                        lemma_pow10_grows(k, i);
                    }
                }
            }
        }
        if step == count {
        } else {
            assert(count != u64::MAX);
        }
    }
    step == count
}

} // verus!
