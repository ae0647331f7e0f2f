//! The decisions of one download worker, apart from the network: whether it
//! is on duty, which URL it asks for next, how a response status, a failed
//! request or each piece of a response body counts, and what is logged.
//!
//! The shell runs the loop: it sends the request, reads the body, sleeps the
//! backoff, and hands every outcome to the functions here.
use vstd::prelude::*;

use crate::codes;
use crate::engine::{busted, clamped_threads, cache_busted_url, clamp_threads};
use crate::text::{dec, push_decimal, push_str};

verus! {

/// One worker of one run.
#[derive(Debug, Clone, Copy, PartialEq, Eq, Structural)]
pub struct Worker {
    pub index: u32,
    pub run: u64,
    /// Requests issued so far (wrapping), which also makes each URL unique.
    pub request_id: u64,
    /// Failures since the last good response.
    pub consecutive_failures: u32,
}

/// A failure to count: the code and text of the error panel, and the code and
/// detail of the (throttled) log line.
#[derive(Debug, Clone, PartialEq, Eq)]
pub struct Failure {
    pub error_code: String,
    pub error_message: String,
    pub log_code: &'static str,
    pub log_detail: String,
}

/// `HTTP nnn`, the panel code of a refused response.
pub open spec fn status_code_text(status: u16) -> Seq<char> {
    "HTTP "@ + dec(status as nat)
}

/// The failure of a response with an unsuccessful status, the
/// `failures`-th in a row.
pub open spec fn status_failure(f: Failure, status: u16, failures: u32) -> bool {
    &&& f.error_code@ == status_code_text(status)
    &&& f.error_message@ == "服务器返回 HTTP "@ + dec(status as nat)
    &&& f.log_code@ == codes::net::HTTP_STATUS@
    &&& f.log_detail@ == "服务器返回 HTTP "@ + dec(status as nat) + "（连续失败 "@ + dec(
        failures as nat,
    ) + " 次）"@
}

/// The failure of a request that got no response.
pub open spec fn send_failure(f: Failure, code: Seq<char>, error: Seq<char>) -> bool {
    &&& f.error_code@ == code
    &&& f.error_message@ == "请求失败："@ + error
    &&& f.log_code@ == codes::net::REQUEST_FAILED@
    &&& f.log_detail@ == "请求失败（"@ + code + "）："@ + error
}

/// The failure of a response body that broke off.
pub open spec fn stream_failure(f: Failure, code: Seq<char>, error: Seq<char>) -> bool {
    &&& f.error_code@ == code
    &&& f.error_message@ == "响应流中断："@ + error
    &&& f.log_code@ == codes::net::STREAM_BROKEN@
    &&& f.log_detail@ == "响应流中断（"@ + code + "）："@ + error
}

/// A successful HTTP status (`2xx`).
pub open spec fn success_status(status: u16) -> bool {
    200 <= status <= 299
}

/// The failure count after one more failure (it saturates).
pub open spec fn one_more(failures: u32) -> u32 {
    if failures == u32::MAX {
        u32::MAX
    } else {
        (failures + 1) as u32
    }
}

impl Worker {
    /// Worker `index` of generation `run`, before its first request.
    pub fn new(index: u32, run: u64) -> (r: Self)
        ensures
            r == (Worker { index, run, request_id: 0, consecutive_failures: 0 }),
    {
        Worker { index, run, request_id: 0, consecutive_failures: 0 }
    }

    /// The URL of the next request, or `None` when the worker is off duty
    /// (its index is not below the wanted worker count); it then idles
    /// briefly and asks again.
    pub fn next_target(&mut self, url: &str, threads: u32) -> (r: Option<String>)
        ensures
            old(self).index >= clamped_threads(threads) ==> r is None && *final(self) == *old(self),
            old(self).index < clamped_threads(threads) ==> ({
                let id = vstd::wrapping::u64_specs::wrapping_add(old(self).request_id, 1);
                &&& *final(self) == (Worker { request_id: id, ..*old(self) })
                &&& r matches Some(target) && target@ == busted(url@, old(self).index, id)
            }),
    {
        if self.index >= clamp_threads(threads) {
            return None;
        }
        self.request_id = self.request_id.wrapping_add(1);
        Some(cache_busted_url(url, self.index, self.request_id))
    }

    /// A response arrived with `status`. A success clears the failure streak
    /// and the body is read; any other status is one more failure, returned
    /// for counting, and the worker backs off for
    /// `consecutive_failures` failures.
    pub fn on_status(&mut self, status: u16) -> (r: Option<Failure>)
        ensures
            success_status(status) ==> r is None && *final(self) == (Worker {
                consecutive_failures: 0,
                ..*old(self)
            }),
            !success_status(status) ==> ({
                let n = one_more(old(self).consecutive_failures);
                &&& *final(self) == (Worker { consecutive_failures: n, ..*old(self) })
                &&& r matches Some(f) && status_failure(f, status, n)
            }),
    {
        if 200 <= status && status <= 299 {
            self.consecutive_failures = 0;
            return None;
        }
        self.consecutive_failures = self.consecutive_failures.saturating_add(1);
        let mut error_code = String::new();
        push_str(&mut error_code, "HTTP ");
        push_decimal(&mut error_code, status as u64);
        let mut error_message = String::new();
        push_str(&mut error_message, "服务器返回 HTTP ");
        push_decimal(&mut error_message, status as u64);
        let mut log_detail = String::new();
        push_str(&mut log_detail, "服务器返回 HTTP ");
        push_decimal(&mut log_detail, status as u64);
        push_str(&mut log_detail, "（连续失败 ");
        push_decimal(&mut log_detail, self.consecutive_failures as u64);
        push_str(&mut log_detail, " 次）");
        Some(Failure { error_code, error_message, log_code: codes::net::HTTP_STATUS, log_detail })
    }

    /// The request failed before any response (`code` classifies `error`):
    /// one more failure, after which the worker backs off.
    pub fn on_send_error(&mut self, code: &str, error: &str) -> (r: Failure)
        ensures
            *final(self) == (Worker {
                consecutive_failures: one_more(old(self).consecutive_failures),
                ..*old(self)
            }),
            send_failure(r, code@, error@),
    {
        self.consecutive_failures = self.consecutive_failures.saturating_add(1);
        let mut error_code = String::new();
        push_str(&mut error_code, code);
        let mut error_message = String::new();
        push_str(&mut error_message, "请求失败：");
        push_str(&mut error_message, error);
        let mut log_detail = String::new();
        push_str(&mut log_detail, "请求失败（");
        push_str(&mut log_detail, code);
        push_str(&mut log_detail, "）：");
        push_str(&mut log_detail, error);
        Failure { error_code, error_message, log_code: codes::net::REQUEST_FAILED, log_detail }
    }
}

/// What happened while reading a response body.
#[derive(Debug, Clone, PartialEq, Eq)]
pub enum BodyEvent {
    /// A stop won the race, or the worker's generation was retired.
    Stopped,
    /// The worker count dropped below this worker while the body streamed.
    ScaledDown,
    /// A piece of `length` bytes arrived.
    Data { length: u64 },
    /// The body broke off (`code` classifies `error`).
    Broken { code: String, error: String },
    /// The body ended.
    End,
}

/// Progress through one response body.
#[derive(Debug, Clone, Copy, PartialEq, Eq, Structural)]
pub struct Transfer {
    pub waiting_first_chunk: bool,
    pub healthy: bool,
    pub scaled_down: bool,
}

/// What to do after a body event.
#[derive(Debug, Clone, PartialEq, Eq)]
pub enum BodyAction {
    /// Count `bytes` (throttled by the rate limiter); `first` is the first
    /// piece, whose delay is the response latency. Keep reading.
    Take { bytes: u64, first: bool },
    /// Stop reading.
    Leave,
    /// Stop reading and count this failure.
    Fail { failure: Failure },
}

/// What the end of a body counts: whether a latency is recorded for a
/// response that sent no data, and whether the request completed.
#[derive(Debug, Clone, Copy, PartialEq, Eq, Structural)]
pub struct BodyOutcome {
    pub record_latency: bool,
    pub completed: bool,
}

impl Transfer {
    /// A body about to be read.
    pub fn new() -> (r: Self)
        ensures
            r == (Transfer { waiting_first_chunk: true, healthy: true, scaled_down: false }),
    {
        Transfer { waiting_first_chunk: true, healthy: true, scaled_down: false }
    }

    /// Handles one body event: a stop or a break leaves the body unhealthy,
    /// a scale-down leaves it healthy but not completed, data is taken.
    pub fn on_event(&mut self, event: BodyEvent) -> (r: BodyAction)
        ensures
            match event {
                BodyEvent::Stopped => r == BodyAction::Leave && *final(self) == (Transfer {
                    healthy: false,
                    ..*old(self)
                }),
                BodyEvent::ScaledDown => r == BodyAction::Leave && *final(self) == (Transfer {
                    scaled_down: true,
                    ..*old(self)
                }),
                BodyEvent::Data { length } => r == (BodyAction::Take {
                    bytes: length,
                    first: old(self).waiting_first_chunk,
                }) && *final(self) == (Transfer { waiting_first_chunk: false, ..*old(self) }),
                BodyEvent::Broken { code, error } => (r matches BodyAction::Fail { failure }
                    && stream_failure(failure, code@, error@)) && *final(self) == (Transfer {
                    healthy: false,
                    ..*old(self)
                }),
                BodyEvent::End => r == BodyAction::Leave && *final(self) == *old(self),
            },
    {
        match event {
            BodyEvent::Stopped => {
                self.healthy = false;
                BodyAction::Leave
            },
            BodyEvent::ScaledDown => {
                self.scaled_down = true;
                BodyAction::Leave
            },
            BodyEvent::Data { length } => {
                let first = self.waiting_first_chunk;
                self.waiting_first_chunk = false;
                BodyAction::Take { bytes: length, first }
            },
            BodyEvent::Broken { code, error } => {
                self.healthy = false;
                let mut error_message = String::new();
                push_str(&mut error_message, "响应流中断：");
                push_str(&mut error_message, error.as_str());
                let mut log_detail = String::new();
                push_str(&mut log_detail, "响应流中断（");
                push_str(&mut log_detail, code.as_str());
                push_str(&mut log_detail, "）：");
                push_str(&mut log_detail, error.as_str());
                BodyAction::Fail {
                    failure: Failure {
                        error_code: code,
                        error_message,
                        log_code: codes::net::STREAM_BROKEN,
                        log_detail,
                    },
                }
            },
            BodyEvent::End => BodyAction::Leave,
        }
    }

    /// What the end of the body counts: a healthy body that sent nothing
    /// still records its latency, and only a healthy body read to its end
    /// completes the request.
    pub fn finish(&self) -> (r: BodyOutcome)
        ensures
            r.record_latency == (self.waiting_first_chunk && self.healthy),
            r.completed == (self.healthy && !self.scaled_down),
    {
        BodyOutcome {
            record_latency: self.waiting_first_chunk && self.healthy,
            completed: self.healthy && !self.scaled_down,
        }
    }
}

/// Text of the log line of a backoff.
pub open spec fn backoff_text(failures: u32, wait_ms: u64) -> Seq<char> {
    "连续失败 "@ + dec(failures as nat) + " 次，退避 "@ + dec(wait_ms as nat) + "ms 后重试"@
}

/// The (throttled) log line of a backoff of `wait_ms` after `failures`
/// failures in a row: it tells a fast retry from an exponential wait.
pub fn backoff_message(failures: u32, wait_ms: u64) -> (r: String)
    ensures
        r@ == backoff_text(failures, wait_ms),
{
    let mut r = String::new();
    push_str(&mut r, "连续失败 ");
    push_decimal(&mut r, failures as u64);
    push_str(&mut r, " 次，退避 ");
    push_decimal(&mut r, wait_ms);
    push_str(&mut r, "ms 后重试");
    r
}

} // verus!
