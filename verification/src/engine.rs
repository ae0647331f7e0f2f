//! Decisions of the traffic engine: which requests may start a run, which
//! worker belongs to the live run, how a request URL is marked, how long a
//! failing worker backs off and which failures deserve a log line.
//!
//! The engine's I/O (the HTTP client, timers, broadcast channels) and its
//! floating-point rate arithmetic belong to the application shell, which
//! consults these functions at every decision point.
use vstd::prelude::*;

use crate::codes;
use crate::contract::{error_text, CoreError, RunEventKind};
use crate::text::{
    chars_of, contains, dec, occurs_at, push_char, push_decimal, push_str, same_text, starts_with,
    string_of, trim, trimmed, utf8_len,
};

verus! {

/// Most concurrent workers a run may use.
pub const MAX_WORKERS: u32 = 32;
/// History samples kept (about 30 seconds at one sample per tick).
pub const HISTORY_LEN: usize = 120;
/// Metrics tick period in milliseconds.
pub const TICK_MS: u32 = 250;
/// Worker count of an engine that has not run yet.
pub const DEFAULT_THREADS: u32 = 4;
/// Longest accepted target address, in bytes.
pub const MAX_URL_LEN: usize = 2048;
/// Base of the exponential failure backoff, in milliseconds.
pub const BACKOFF_BASE_MS: u64 = 400;
/// Ceiling of the failure backoff, in milliseconds.
pub const BACKOFF_MAX_MS: u64 = 3_200;

// ---------------------------------------------------------------------------
// Request marking
// ---------------------------------------------------------------------------

/// Position of the first `c` in `s` (the length when there is none).
pub open spec fn find(s: Seq<char>, c: char) -> int
    decreases s.len(),
{
    if s.len() == 0 {
        0
    } else if s[0] == c {
        0
    } else {
        1 + find(s.drop_first(), c)
    }
}

/// The `_ll={worker}-{request}` marker appended to every request address,
/// keeping the query (`?` or `&` as the joint) and moving the fragment behind it.
pub open spec fn busted(url: Seq<char>, worker_id: u32, request_id: u64) -> Seq<char> {
    let cut = find(url, '#');
    let base = url.take(cut);
    let fragment = if cut < url.len() {
        url.skip(cut + 1)
    } else {
        Seq::empty()
    };
    let suffix = if fragment.len() == 0 {
        Seq::empty()
    } else {
        seq!['#'] + fragment
    };
    let separator = if base.len() > 0 && (base.last() == '?' || base.last() == '&') {
        Seq::empty()
    } else if find(base, '?') < base.len() {
        seq!['&']
    } else {
        seq!['?']
    };
    base + separator + seq!['_', 'l', 'l', '='] + dec(worker_id as nat) + seq!['-'] + dec(
        request_id as nat,
    ) + suffix
}

proof fn lemma_find(s: Seq<char>, c: char, i: int)
    requires
        0 <= i <= s.len(),
        forall|j: int| 0 <= j < i ==> s[j] != c,
        i == s.len() || s[i] == c,
    ensures
        find(s, c) == i,
    decreases i,
{
    if i > 0 {
        lemma_find(s.drop_first(), c, i - 1);
    }
}

/// Position of the first `c` in `chars`.
fn find_char(chars: &Vec<char>, c: char) -> (i: usize)
    ensures
        i == find(chars@, c),
        i <= chars@.len(),
{
    let mut i: usize = 0;
    while i < chars.len() && chars[i] != c
        invariant
            i <= chars@.len(),
            forall|j: int| 0 <= j < i ==> chars@[j] != c,
        decreases chars.len() - i,
    {
        i = i + 1;
    }
    proof {
        lemma_find(chars@, c, i as int);
    }
    i
}

/// Appends the cache-busting marker to a request address, so that every
/// request reaches the origin; `_ll` also tells the target's operators that
/// the traffic comes from LoadLoom, and which worker and request sent it.
pub fn cache_busted_url(url: &str, worker_id: u32, request_id: u64) -> (r: String)
    ensures
        r@ == busted(url@, worker_id, request_id),
{
    let chars = chars_of(url);
    let cut = find_char(&chars, '#');
    let mut base: Vec<char> = Vec::new();
    let mut i: usize = 0;
    while i < cut
        invariant
            cut <= chars@.len(),
            i <= cut,
            base@ == chars@.take(i as int),
        decreases cut - i,
    {
        base.push(chars[i]);
        i = i + 1;
        assert(base@ =~= chars@.take(i as int));
    }
    let mut r = string_of(&base);
    let n = base.len();
    if n > 0 && (base[n - 1] == '?' || base[n - 1] == '&') {
    } else if find_char(&base, '?') < n {
        push_char(&mut r, '&');
    } else {
        push_char(&mut r, '?');
    }
    push_str(&mut r, "_ll=");
    push_decimal(&mut r, worker_id as u64);
    push_char(&mut r, '-');
    push_decimal(&mut r, request_id);
    if cut < chars.len() && cut + 1 < chars.len() {
        push_char(&mut r, '#');
        let mut j: usize = cut + 1;
        let ghost mid = r@;
        while j < chars.len()
            invariant
                cut + 1 <= j <= chars@.len(),
                r@ == mid + chars@.subrange(cut + 1, j as int),
            decreases chars.len() - j,
        {
            push_char(&mut r, chars[j]);
            j = j + 1;
            assert(r@ =~= mid + chars@.subrange(cut + 1, j as int));
        }
        assert(chars@.skip(cut + 1) =~= chars@.subrange(cut + 1, chars@.len() as int));
    }
    proof {
        reveal_strlit("_ll=");
    }
    assert(r@ =~= busted(url@, worker_id, request_id));
    r
}

// ---------------------------------------------------------------------------
// Run generations
// ---------------------------------------------------------------------------

/// Run control read by the workers: the stop flag, the number of workers on
/// duty, and the run generation.
///
/// The generation is what keeps a worker of an old run from coming back to
/// life: a stop immediately followed by a start clears the stop flag, but a
/// worker that slept through both still belongs to the previous generation.
#[derive(Debug, Clone, Copy, PartialEq, Eq)]
pub struct Control {
    pub stop: bool,
    pub threads: u32,
    pub run: u64,
}

/// The generation after `run` (the counter wraps).
pub open spec fn next_run(run: u64) -> u64 {
    if run == u64::MAX {
        0
    } else {
        (run + 1) as u64
    }
}

/// A worker of generation `run` may keep working: no stop was requested and
/// its generation is the current one.
pub open spec fn active(control: Control, run: u64) -> bool {
    !control.stop && control.run == run
}

impl Control {
    /// A fresh control: not stopped, no worker on duty, generation zero.
    pub fn new() -> (r: Self)
        ensures
            !r.stop && r.threads == 0 && r.run == 0,
    {
        Control { stop: false, threads: 0, run: 0 }
    }

    /// Opens a new generation and returns its identifier.
    pub fn begin_run(&mut self) -> (r: u64)
        ensures
            final(self).run == next_run(old(self).run),
            r == final(self).run,
            final(self).stop == old(self).stop,
            final(self).threads == old(self).threads,
    {
        self.run = self.run.wrapping_add(1);
        self.run
    }

    /// Retires the current generation.
    pub fn invalidate_run(&mut self)
        ensures
            final(self).run == next_run(old(self).run),
            final(self).stop == old(self).stop,
            final(self).threads == old(self).threads,
    {
        self.run = self.run.wrapping_add(1);
    }

    /// Whether a worker of generation `run` may keep working.
    pub fn is_active(&self, run: u64) -> (r: bool)
        ensures
            r == active(*self, run),
    {
        !self.stop && self.run == run
    }
}

/// Clamps a requested worker count into `1..=MAX_WORKERS`.
pub open spec fn clamped_threads(threads: u32) -> u32 {
    if threads < 1 {
        1
    } else if threads > MAX_WORKERS {
        MAX_WORKERS
    } else {
        threads
    }
}

/// Clamps a requested worker count into `1..=MAX_WORKERS`.
pub fn clamp_threads(threads: u32) -> (r: u32)
    ensures
        r == clamped_threads(threads),
{
    if threads < 1 {
        1
    } else if threads > MAX_WORKERS {
        MAX_WORKERS
    } else {
        threads
    }
}

/// Whether worker `index` is on duty when `threads` workers are wanted.
pub fn worker_on_duty(index: u32, threads: u32) -> (r: bool)
    ensures
        r == (index < clamped_threads(threads)),
{
    index < clamp_threads(threads)
}

/// The engine's run state: whether a run is live, and the control its workers
/// read. Starting and stopping both go through here, under one lock in the
/// shell, so that a start and a stop can never interleave.
#[derive(Debug, Clone, Copy, PartialEq, Eq)]
pub struct RunGate {
    pub running: bool,
    pub control: Control,
}

/// What a stop did: the kind of event to report and the generation it ended.
#[derive(Debug, Clone, Copy, PartialEq, Eq)]
pub struct StopOutcome {
    pub kind: RunEventKind,
    pub run: u64,
}

/// `gate` with a new run begun for `threads` workers.
pub open spec fn started(gate: RunGate, threads: u32) -> RunGate {
    RunGate {
        running: true,
        control: Control { stop: false, threads: threads, run: next_run(gate.control.run) },
    }
}

/// `gate` with its run ended.
pub open spec fn stopped(gate: RunGate) -> RunGate {
    RunGate {
        running: false,
        control: Control {
            stop: true,
            threads: gate.control.threads,
            run: next_run(gate.control.run),
        },
    }
}

/// Whether a stop aimed at `target` (`None` for a manual stop, the generation
/// for an automatic one) ends the live run.
pub open spec fn stop_applies(gate: RunGate, target: Option<u64>) -> bool {
    gate.running && match target {
        Some(run) => gate.control.run == run,
        None => true,
    }
}

impl RunGate {
    /// An idle engine.
    pub fn new() -> (r: Self)
        ensures
            !r.running && r.control == (Control { stop: false, threads: 0, run: 0 }),
    {
        RunGate { running: false, control: Control::new() }
    }

    /// Admits a new run with `threads` workers, unless one is live.
    ///
    /// The check and the switch to running happen in one step, so of two
    /// concurrent starts exactly one is admitted.
    pub fn try_begin(&mut self, threads: u32) -> (r: Option<u64>)
        ensures
            old(self).running ==> r is None && *final(self) == *old(self),
            !old(self).running ==> *final(self) == started(*old(self), threads) && r == Some(
                final(self).control.run,
            ),
    {
        if self.running {
            return None;
        }
        self.control.stop = false;
        let run = self.control.begin_run();
        self.control.threads = threads;
        self.running = true;
        Some(run)
    }

    /// Stops the live run. A manual stop (`target == None`) ends whatever run
    /// is live; an automatic stop names the generation it was decided for and
    /// gives up when that generation is no longer the live one. Stopping an
    /// idle engine changes nothing.
    pub fn stop_run(&mut self, target: Option<u64>) -> (r: Option<StopOutcome>)
        ensures
            stop_applies(*old(self), target) ==> *final(self) == stopped(*old(self)) && r == Some(
                StopOutcome {
                    kind: if target is Some {
                        RunEventKind::AutoStopped
                    } else {
                        RunEventKind::Stopped
                    },
                    run: old(self).control.run,
                },
            ),
            !stop_applies(*old(self), target) ==> *final(self) == *old(self) && r is None,
    {
        if !self.running {
            return None;
        }
        match target {
            Some(run) => {
                if self.control.run != run {
                    return None;
                }
            },
            None => {},
        }
        let kind = match target {
            Some(_) => RunEventKind::AutoStopped,
            None => RunEventKind::Stopped,
        };
        let run = self.control.run;
        self.control.stop = true;
        self.control.invalidate_run();
        self.running = false;
        Some(StopOutcome { kind, run })
    }

    /// Changes the number of workers on duty.
    pub fn set_threads(&mut self, threads: u32)
        ensures
            final(self).control.threads == clamped_threads(threads),
            final(self).running == old(self).running,
            final(self).control.stop == old(self).control.stop,
            final(self).control.run == old(self).control.run,
    {
        self.control.threads = clamp_threads(threads);
    }
}

/// Event code of a stop.
pub fn stop_code(kind: RunEventKind) -> (r: &'static str)
    ensures
        kind == RunEventKind::AutoStopped ==> r@ == codes::run::AUTO_STOPPED@,
        kind != RunEventKind::AutoStopped ==> r@ == codes::run::STOPPED@,
{
    match kind {
        RunEventKind::AutoStopped => codes::run::AUTO_STOPPED,
        _ => codes::run::STOPPED,
    }
}

// ---------------------------------------------------------------------------
// Laws of the run gate
// ---------------------------------------------------------------------------

/// A stop of an idle engine changes nothing: it neither raises the stop flag
/// nor retires a generation, so it cannot race a start that follows it.
pub proof fn law_idle_stop_is_inert(gate: RunGate, target: Option<u64>)
    requires
        !gate.running,
    ensures
        !stop_applies(gate, target),
{
}

/// Two `try_begin` calls in a row: the first begins a run, the second is
/// refused and leaves everything as the first left it.
pub proof fn law_second_start_is_refused(gate: RunGate, first: u32, second: u32)
    requires
        !gate.running,
    ensures
        started(gate, first).running,
        active(started(gate, first).control, started(gate, first).control.run),
{
}

/// After a stop and a new start, a worker of the stopped generation is no
/// longer active although the stop flag was cleared again, while the workers
/// of the new generation are.
pub proof fn law_restart_retires_old_workers(gate: RunGate, threads: u32)
    requires
        gate.running,
    ensures
        ({
            let restarted = started(stopped(gate), threads);
            &&& !restarted.control.stop
            &&& !active(restarted.control, gate.control.run)
            &&& active(restarted.control, restarted.control.run)
        }),
{
}

/// An automatic stop decided for a generation that has since been stopped and
/// restarted does not touch the new run.
pub proof fn law_stale_auto_stop_is_ignored(gate: RunGate, threads: u32)
    requires
        gate.running,
    ensures
        ({
            let stale = gate.control.run;
            let restarted = started(stopped(gate), threads);
            !stop_applies(restarted, Some(stale)) && stop_applies(
                restarted,
                Some(restarted.control.run),
            )
        }),
{
}

// ---------------------------------------------------------------------------
// Backoff
// ---------------------------------------------------------------------------

/// The splitmix64 finaliser of `seed`.
pub open spec fn mix(seed: u64) -> u64 {
    let z0 = vstd::wrapping::u64_specs::wrapping_add(seed, 0x9E37_79B9_7F4A_7C15);
    let z1 = vstd::wrapping::u64_specs::wrapping_mul(z0 ^ (z0 >> 30u32), 0xBF58_476D_1CE4_E5B9);
    let z2 = vstd::wrapping::u64_specs::wrapping_mul(z1 ^ (z1 >> 27u32), 0x94D0_49BB_1331_11EB);
    z2 ^ (z2 >> 31u32)
}

/// A deterministic pseudo-random value in `0..span` derived from `seed`
/// (0 when `span` is 0); it spreads the retries of different workers.
pub fn jitter_ms(seed: u64, span: u64) -> (r: u64)
    ensures
        span == 0 ==> r == 0,
        span > 0 ==> r == mix(seed) % span && r < span,
{
    if span == 0 {
        return 0;
    }
    let mut z = seed.wrapping_add(0x9E37_79B9_7F4A_7C15);
    z = (z ^ (z >> 30u32)).wrapping_mul(0xBF58_476D_1CE4_E5B9);
    z = (z ^ (z >> 27u32)).wrapping_mul(0x94D0_49BB_1331_11EB);
    (z ^ (z >> 31u32)) % span
}

/// The backoff ceiling after `failures` consecutive failures: 400 ms doubled
/// per failure, at most 3200 ms.
pub open spec fn backoff_cap(failures: u32) -> u64 {
    if failures >= 3 {
        BACKOFF_MAX_MS
    } else if failures == 2 {
        1600
    } else if failures == 1 {
        800
    } else {
        400
    }
}

/// The seed of worker `index` after `failures` failures.
pub open spec fn backoff_seed(index: u32, failures: u32) -> u64 {
    vstd::wrapping::u64_specs::wrapping_add(
        vstd::wrapping::u64_specs::wrapping_mul(index as u64, 0x9E37_79B9),
        failures as u64,
    )
}

/// Backoff of worker `index` after `failures` consecutive failures: the cap
/// minus a worker-specific jitter of at most half of it, so that retries of
/// different workers spread out and the wait never shrinks towards zero.
pub fn backoff_ms(index: u32, failures: u32) -> (r: u64)
    ensures
        r == backoff_cap(failures) - mix(backoff_seed(index, failures)) % ((backoff_cap(failures)
            / 2 + 1) as u64),
        backoff_cap(failures) / 2 <= r <= backoff_cap(failures),
{
    let shift: u32 = if failures < 4 {
        failures
    } else {
        4
    };
    let doubled: u64 = BACKOFF_BASE_MS * if shift == 0 {
        1u64
    } else if shift == 1 {
        2u64
    } else if shift == 2 {
        4u64
    } else if shift == 3 {
        8u64
    } else {
        16u64
    };
    let capped: u64 = if doubled < BACKOFF_MAX_MS {
        doubled
    } else {
        BACKOFF_MAX_MS
    };
    let seed: u64 = (index as u64).wrapping_mul(0x9E37_79B9).wrapping_add(failures as u64);
    let jitter = jitter_ms(seed, capped / 2 + 1);
    capped - jitter
}

// ---------------------------------------------------------------------------
// Admission of a target
// ---------------------------------------------------------------------------

/// A refused start: the event code to report and the error to return.
#[derive(Debug, Clone, PartialEq, Eq)]
pub struct Rejection {
    pub code: &'static str,
    pub error: CoreError,
}

/// `s` begins with `http://` or `https://`.
pub open spec fn http_scheme(s: Seq<char>) -> bool {
    starts_with(s, "http://"@) || starts_with(s, "https://"@)
}

/// The rules that can refuse the target of a start request.
pub enum TargetRule {
    Missing,
    TooLong,
    Scheme,
    Unauthorized,
}

/// Which rule, if any, refuses a start for `url` (as typed) and the
/// authorization flag: missing address, over-long address, wrong scheme,
/// missing authorization, in that order.
pub open spec fn target_rule(url: Seq<char>, authorized: bool) -> Option<TargetRule> {
    let t = trim(url);
    if t.len() == 0 {
        Some(TargetRule::Missing)
    } else if utf8_len(t) > MAX_URL_LEN {
        Some(TargetRule::TooLong)
    } else if !http_scheme(t) {
        Some(TargetRule::Scheme)
    } else if !authorized {
        Some(TargetRule::Unauthorized)
    } else {
        None
    }
}

/// The event code reported for a refusal.
pub open spec fn rule_code(rule: TargetRule) -> Seq<char> {
    match rule {
        TargetRule::Missing => codes::cfg::REJECTED@,
        TargetRule::TooLong => codes::cfg::URL_TOO_LONG@,
        TargetRule::Scheme => codes::cfg::URL_SCHEME@,
        TargetRule::Unauthorized => codes::cfg::NOT_AUTHORIZED@,
    }
}

/// The message of a refusal.
pub open spec fn rule_message(rule: TargetRule) -> Seq<char> {
    match rule {
        TargetRule::Missing => "请填写目标地址"@,
        TargetRule::TooLong => "目标地址过长：上限 "@ + dec(MAX_URL_LEN as nat) + " 字节"@,
        TargetRule::Scheme => "目标地址需以 http:// 或 https:// 开头"@,
        TargetRule::Unauthorized => "请先确认：你拥有目标地址及其网络路径的明确测试授权"@,
    }
}

/// `rejection` reports `rule`: its code and message, and an authorization
/// error exactly when authorization is what was missing.
pub open spec fn reports(rejection: Rejection, rule: TargetRule) -> bool {
    &&& rejection.code@ == rule_code(rule)
    &&& error_text(rejection.error) == rule_message(rule)
    &&& match rule {
        TargetRule::Unauthorized => rejection.error is NotAuthorized,
        _ => rejection.error is InvalidInput,
    }
}

/// Checks the target of a start request; on success returns the trimmed
/// address. The numeric parameters are checked by the caller.
pub fn validate_target(url: &str, authorized: bool) -> (r: Result<String, Rejection>)
    ensures
        r is Ok <==> target_rule(url@, authorized) is None,
        r matches Ok(t) ==> t@ == trim(url@),
        r matches Err(e) ==> reports(e, target_rule(url@, authorized)->0),
{
    let chars = trimmed(url);
    if chars.len() == 0 {
        let mut message = String::new();
        push_str(&mut message, "请填写目标地址");
        return Err(Rejection { code: codes::cfg::REJECTED, error: CoreError::InvalidInput(message) });
    }
    let target = string_of(&chars);
    if target.as_str().len() > MAX_URL_LEN {
        let mut message = String::new();
        push_str(&mut message, "目标地址过长：上限 ");
        push_decimal(&mut message, MAX_URL_LEN as u64);
        push_str(&mut message, " 字节");
        return Err(
            Rejection { code: codes::cfg::URL_TOO_LONG, error: CoreError::InvalidInput(message) },
        );
    }
    let http = chars_of("http://");
    let https = chars_of("https://");
    if !(crate::text::has_prefix(&chars, &http) || crate::text::has_prefix(&chars, &https)) {
        let mut message = String::new();
        push_str(&mut message, "目标地址需以 http:// 或 https:// 开头");
        return Err(
            Rejection { code: codes::cfg::URL_SCHEME, error: CoreError::InvalidInput(message) },
        );
    }
    if !authorized {
        let mut message = String::new();
        push_str(&mut message, "请先确认：你拥有目标地址及其网络路径的明确测试授权");
        return Err(
            Rejection { code: codes::cfg::NOT_AUTHORIZED, error: CoreError::NotAuthorized(message) },
        );
    }
    Ok(target)
}

// ---------------------------------------------------------------------------
// Failure classification and throttling
// ---------------------------------------------------------------------------

/// What the HTTP client reports about a failed request.
#[derive(Debug, Clone, Copy, PartialEq, Eq)]
pub struct ErrorTraits {
    pub timeout: bool,
    pub connect: bool,
    pub body: bool,
    pub decode: bool,
    pub redirect: bool,
    pub request: bool,
}

/// The stable error code of a failure: the first trait that applies, in the
/// order timeout, connect, body, decode, redirect, request.
pub open spec fn spec_error_code(traits: ErrorTraits) -> Seq<char> {
    if traits.timeout {
        "TIMEOUT"@
    } else if traits.connect {
        "CONNECT_FAILED"@
    } else if traits.body {
        "BODY_STREAM"@
    } else if traits.decode {
        "DECODE_ERROR"@
    } else if traits.redirect {
        "REDIRECT_ERROR"@
    } else if traits.request {
        "REQUEST_ERROR"@
    } else {
        "UNKNOWN"@
    }
}

/// Classifies a failed request into a stable error code for aggregation.
pub fn error_code(traits: ErrorTraits) -> (r: &'static str)
    ensures
        r@ == spec_error_code(traits),
{
    if traits.timeout {
        "TIMEOUT"
    } else if traits.connect {
        "CONNECT_FAILED"
    } else if traits.body {
        "BODY_STREAM"
    } else if traits.decode {
        "DECODE_ERROR"
    } else if traits.redirect {
        "REDIRECT_ERROR"
    } else if traits.request {
        "REQUEST_ERROR"
    } else {
        "UNKNOWN"
    }
}

/// Counts of one kind of failure within one run generation.
#[derive(Debug, Clone, PartialEq, Eq)]
pub struct FailureCount {
    pub run: u64,
    pub code: String,
    pub count: u64,
}

/// Largest number of distinct (generation, code) keys kept before the table
/// is cleared.
pub const FAILURE_KEYS_LIMIT: usize = 1024;

/// Per-generation, per-code failure counter deciding which failures are
/// logged: the first three of a kind, then every power of ten.
#[derive(Debug, Clone, PartialEq, Eq)]
pub struct FailureLog {
    pub entries: Vec<FailureCount>,
}

/// The recorded count of `(run, code)` in `entries` (0 when absent).
pub open spec fn count_of(entries: Seq<FailureCount>, run: u64, code: Seq<char>) -> u64
    decreases entries.len(),
{
    if entries.len() == 0 {
        0
    } else if entries.last().run == run && entries.last().code@ == code {
        entries.last().count
    } else {
        count_of(entries.drop_last(), run, code)
    }
}

/// No key occurs twice.
pub open spec fn distinct_keys(entries: Seq<FailureCount>) -> bool {
    forall|i: int, j: int|
        0 <= i < j < entries.len() ==> !(entries[i].run == entries[j].run && entries[i].code@
            == entries[j].code@)
}

proof fn lemma_count_absent(entries: Seq<FailureCount>, run: u64, code: Seq<char>)
    requires
        forall|i: int|
            0 <= i < entries.len() ==> !(#[trigger] entries[i].run == run && entries[i].code@
                == code),
    ensures
        count_of(entries, run, code) == 0,
    decreases entries.len(),
{
    if entries.len() > 0 {
        lemma_count_absent(entries.drop_last(), run, code);
    }
}

proof fn lemma_count_at(entries: Seq<FailureCount>, k: int)
    requires
        distinct_keys(entries),
        0 <= k < entries.len(),
    ensures
        count_of(entries, entries[k].run, entries[k].code@) == entries[k].count,
    decreases entries.len(),
{
    if k < entries.len() - 1 {
        let last = entries.last();
        assert(!(entries[k].run == last.run && entries[k].code@ == last.code@));
        lemma_count_at(entries.drop_last(), k);
    }
}

proof fn lemma_count_update(
    entries: Seq<FailureCount>,
    k: int,
    entry: FailureCount,
    run: u64,
    code: Seq<char>,
)
    requires
        distinct_keys(entries),
        0 <= k < entries.len(),
        entry.run == entries[k].run,
        entry.code@ == entries[k].code@,
    ensures
        distinct_keys(entries.update(k, entry)),
        !(run == entry.run && code == entry.code@) ==> count_of(entries.update(k, entry), run, code)
            == count_of(entries, run, code),
    decreases entries.len(),
{
    let updated = entries.update(k, entry);
    assert forall|i: int, j: int| 0 <= i < j < updated.len() implies !(updated[i].run
        == updated[j].run && updated[i].code@ == updated[j].code@) by {
        assert(!(entries[i].run == entries[j].run && entries[i].code@ == entries[j].code@));
    }
    if k < entries.len() - 1 {
        lemma_count_update(entries.drop_last(), k, entry, run, code);
        assert(updated.drop_last() =~= entries.drop_last().update(k, entry));
    } else {
        assert(updated.drop_last() =~= entries.drop_last());
    }
}

impl FailureLog {
    /// An empty log.
    pub fn new() -> (r: Self)
        ensures
            r.entries@.len() == 0,
    {
        FailureLog { entries: Vec::new() }
    }

    /// The number of failures of `code` counted for generation `run`.
    pub fn count(&self, run: u64, code: &str) -> (r: u64)
        requires
            distinct_keys(self.entries@),
        ensures
            r == count_of(self.entries@, run, code@),
    {
        let mut i: usize = 0;
        while i < self.entries.len()
            invariant
                i <= self.entries@.len(),
                distinct_keys(self.entries@),
                forall|j: int|
                    0 <= j < i ==> !(#[trigger] self.entries@[j].run == run
                        && self.entries@[j].code@ == code@),
            decreases self.entries.len() - i,
        {
            let entry = &self.entries[i];
            if entry.run == run && same_text(entry.code.as_str(), code) {
                proof {
                    lemma_count_at(self.entries@, i as int);
                }
                return entry.count;
            }
            i = i + 1;
        }
        proof {
            lemma_count_absent(self.entries@, run, code@);
        }
        0
    }

    /// Counts one more failure of `code` in generation `run` and returns the
    /// running count when this occurrence is a milestone worth logging.
    ///
    /// When the table holds more than [`FAILURE_KEYS_LIMIT`] keys it is
    /// cleared first, so that its size stays bounded whatever the failures.
    pub fn slot(&mut self, run: u64, code: &str) -> (r: Option<u64>)
        requires
            distinct_keys(old(self).entries@),
            count_of(old(self).entries@, run, code@) < u64::MAX,
        ensures
            distinct_keys(final(self).entries@),
            ({
                let before = if old(self).entries@.len() > FAILURE_KEYS_LIMIT {
                    0
                } else {
                    count_of(old(self).entries@, run, code@)
                };
                &&& count_of(final(self).entries@, run, code@) == before + 1
                &&& r == if codes::milestone((before + 1) as u64) {
                    Some((before + 1) as u64)
                } else {
                    None
                }
            }),
            forall|other_run: u64, other_code: Seq<char>|
                !(other_run == run && other_code == code@) ==> #[trigger] count_of(
                    final(self).entries@,
                    other_run,
                    other_code,
                ) == if old(self).entries@.len() > FAILURE_KEYS_LIMIT {
                    0
                } else {
                    count_of(old(self).entries@, other_run, other_code)
                },
    {
        if self.entries.len() > FAILURE_KEYS_LIMIT {
            self.entries = Vec::new();
        }
        let ghost start = self.entries@;
        proof {
            assert forall|other_run: u64, other_code: Seq<char>|
                #[trigger] count_of(start, other_run, other_code) == if old(self).entries@.len()
                    > FAILURE_KEYS_LIMIT {
                    0
                } else {
                    count_of(old(self).entries@, other_run, other_code)
                } by {
                if old(self).entries@.len() > FAILURE_KEYS_LIMIT {
                    lemma_count_absent(start, other_run, other_code);
                }
            }
            assert(distinct_keys(start));
        }
        let mut i: usize = 0;
        while i < self.entries.len()
            invariant
                i <= self.entries@.len(),
                self.entries@ == start,
                distinct_keys(start),
                count_of(start, run, code@) < u64::MAX,
                forall|j: int|
                    0 <= j < i ==> !(#[trigger] start[j].run == run && start[j].code@ == code@),
                forall|other_run: u64, other_code: Seq<char>|
                    #[trigger] count_of(start, other_run, other_code) == if old(self).entries@.len()
                        > FAILURE_KEYS_LIMIT {
                        0
                    } else {
                        count_of(old(self).entries@, other_run, other_code)
                    },
            decreases self.entries.len() - i,
        {
            if self.entries[i].run == run && same_text(self.entries[i].code.as_str(), code) {
                proof {
                    lemma_count_at(start, i as int);
                }
                let count = self.entries[i].count + 1;
                let mut text = String::new();
                push_str(&mut text, code);
                let entry = FailureCount { run, code: text, count };
                self.entries.set(i, entry);
                proof {
                    assert(self.entries@ == start.update(i as int, entry));
                    lemma_count_update(start, i as int, entry, run, code@);
                    lemma_count_at(self.entries@, i as int);
                    assert forall|other_run: u64, other_code: Seq<char>|
                        !(other_run == run && other_code == code@) implies #[trigger] count_of(
                        self.entries@,
                        other_run,
                        other_code,
                    ) == count_of(start, other_run, other_code) by {
                        lemma_count_update(start, i as int, entry, other_run, other_code);
                    }
                }
                assert(count_of(self.entries@, run, code@) == count);
                assert(count_of(start, run, code@) + 1 == count);
                return if codes::is_log_milestone(count) {
                    Some(count)
                } else {
                    None
                };
            }
            i = i + 1;
        }
        proof {
            lemma_count_absent(start, run, code@);
        }
        let mut text = String::new();
        push_str(&mut text, code);
        self.entries.push(FailureCount { run, code: text, count: 1 });
        proof {
            let pushed = self.entries@;
            assert(pushed.drop_last() =~= start);
            assert(distinct_keys(pushed));
            assert(count_of(pushed, run, code@) == 1);
            assert forall|other_run: u64, other_code: Seq<char>|
                !(other_run == run && other_code == code@) implies #[trigger] count_of(
                pushed,
                other_run,
                other_code,
            ) == count_of(start, other_run, other_code) by {
                assert(pushed.drop_last() =~= start);
            }
        }
        if codes::is_log_milestone(1) {
            Some(1)
        } else {
            None
        }
    }
}


/// The text of a logged failure: generation and worker first (the context
/// needed to reproduce a concurrency defect), then the detail, then — past
/// the burst — how many failures of this kind the generation has seen.
pub open spec fn failure_text(run: u64, worker: u32, detail: Seq<char>, count: u64) -> Seq<char> {
    "run="@ + dec(run as nat) + " worker#"@ + dec(worker as nat) + seq![' '] + detail + if count
        > codes::LOG_BURST {
        "（同类失败第 "@ + dec(count as nat) + " 次，日志按里程碑节流）"@
    } else {
        Seq::empty()
    }
}

/// Formats a logged failure.
pub fn failure_message(run: u64, worker: u32, detail: &str, count: u64) -> (r: String)
    ensures
        r@ == failure_text(run, worker, detail@, count),
{
    let mut r = String::new();
    push_str(&mut r, "run=");
    push_decimal(&mut r, run);
    push_str(&mut r, " worker#");
    push_decimal(&mut r, worker as u64);
    push_char(&mut r, ' ');
    push_str(&mut r, detail);
    if count > codes::LOG_BURST {
        push_str(&mut r, "（同类失败第 ");
        push_decimal(&mut r, count);
        push_str(&mut r, " 次，日志按里程碑节流）");
    }
    assert(r@ =~= failure_text(run, worker, detail@, count));
    r
}

// ---------------------------------------------------------------------------
// In-flight accounting
// ---------------------------------------------------------------------------

/// In-flight count after a request starts (unchanged when it would overflow).
pub fn in_flight_started(current: u32) -> (r: u32)
    ensures
        r == if current == u32::MAX { current as int } else { current + 1 },
{
    if current == u32::MAX {
        current
    } else {
        current + 1
    }
}

/// In-flight count after a request finishes; never below zero, so a late
/// finish landing after a reset cannot wrap the counter to four billion.
pub fn in_flight_finished(current: u32) -> (r: u32)
    ensures
        r == if current == 0 { 0 } else { current - 1 },
{
    if current == 0 {
        0
    } else {
        current - 1
    }
}

// ---------------------------------------------------------------------------
// Lifecycle texts
// ---------------------------------------------------------------------------

/// Text of the event that announces a run.
pub open spec fn started_text(url: Seq<char>, run: u64) -> Seq<char> {
    "已开始打流："@ + url + "（run="@ + dec(run as nat) + "）"@
}

/// The event text announcing run `run` against `url`.
pub fn started_message(url: &str, run: u64) -> (r: String)
    ensures
        r@ == started_text(url@, run),
{
    let mut r = String::new();
    push_str(&mut r, "已开始打流：");
    push_str(&mut r, url);
    push_str(&mut r, "（run=");
    push_decimal(&mut r, run);
    push_str(&mut r, "）");
    r
}

/// Text of the event that reports a stop.
pub open spec fn stopped_text(reason: Seq<char>, run: u64) -> Seq<char> {
    reason + "（run="@ + dec(run as nat) + "）"@
}

/// The event text reporting that run `run` stopped for `reason`.
pub fn stopped_message(reason: &str, run: u64) -> (r: String)
    ensures
        r@ == stopped_text(reason@, run),
{
    let mut r = String::new();
    push_str(&mut r, reason);
    push_str(&mut r, "（run=");
    push_decimal(&mut r, run);
    push_str(&mut r, "）");
    r
}

// ---------------------------------------------------------------------------
// Laws of admission and tracing
// ---------------------------------------------------------------------------

/// The tracing marker of worker `worker_id`'s request `request_id`.
pub open spec fn trace_marker(worker_id: u32, request_id: u64) -> Seq<char> {
    seq!['_', 'l', 'l', '='] + dec(worker_id as nat) + seq!['-'] + dec(request_id as nat)
}

/// Every request address carries the `_ll={worker}-{request}` marker, so the
/// target's operators can recognise and trace the traffic.
pub proof fn law_every_request_is_traceable(url: Seq<char>, worker_id: u32, request_id: u64)
    ensures
        contains(busted(url, worker_id, request_id), trace_marker(worker_id, request_id)),
{
    let cut = find(url, '#');
    let base = url.take(cut);
    let fragment = if cut < url.len() {
        url.skip(cut + 1)
    } else {
        Seq::empty()
    };
    let suffix = if fragment.len() == 0 {
        Seq::empty()
    } else {
        seq!['#'] + fragment
    };
    let separator = if base.len() > 0 && (base.last() == '?' || base.last() == '&') {
        Seq::<char>::empty()
    } else if find(base, '?') < base.len() {
        seq!['&']
    } else {
        seq!['?']
    };
    let marker = trace_marker(worker_id, request_id);
    let full = busted(url, worker_id, request_id);
    let at: int = (base.len() + separator.len()) as int;
    assert(full =~= base + separator + marker + suffix);
    assert(full.subrange(at, at + marker.len() as int) =~= marker);
    assert(occurs_at(full, marker, at));
}

/// A start without confirmed authorization is always refused, whatever the
/// target, and refused as unauthorized when the target itself is valid: no
/// request is ever sent.
pub proof fn law_unauthorized_start_is_refused(url: Seq<char>)
    ensures
        target_rule(url, false) is Some,
        target_rule(url, true) is None ==> target_rule(url, false) == Some(TargetRule::Unauthorized),
{
}

/// More consecutive failures never lower the backoff ceiling, and from the
/// first failure on a worker never waits less than 400 ms.
pub proof fn law_backoff_ceiling_never_falls(fewer: u32, more: u32, index: u32)
    requires
        fewer <= more,
    ensures
        backoff_cap(fewer) <= backoff_cap(more),
        more >= 1 ==> backoff_cap(more) - mix(backoff_seed(index, more)) % ((backoff_cap(more) / 2
            + 1) as u64) >= 400,
{
}

/// No more than `MAX_WORKERS` workers are ever on duty, and at least one is.
pub proof fn law_workers_on_duty_are_bounded(index: u32, threads: u32)
    ensures
        index >= MAX_WORKERS ==> !(index < clamped_threads(threads)),
        index == 0 ==> index < clamped_threads(threads),
{
}

} // verus!
