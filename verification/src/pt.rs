//! Real BitTorrent load runs: the bounds a request must respect before the
//! sidecar is launched, and how each line of the sidecar's JSON protocol moves
//! the run's phase, status text and last error.
//!
//! The sidecar itself, its process and the parsing of its JSON stay with the
//! application shell, which hands each parsed line to [`apply_line`].
use vstd::prelude::*;

use crate::contract::{error_text, CoreError, PressureLevel, PtPhase};
use crate::text::{push_char, push_str, same_text, starts_with, string_of, trim, trimmed, utf8_len};

verus! {

/// Longest accepted torrent source, in bytes.
pub const MAX_SOURCE_LEN: usize = 65_536;

/// Status shown while the engine waits.
pub const IDLE_STATUS: &'static str = "真实 PT 引擎待机";

/// How payload bytes are handled: kept in RAM until verified, then dropped.
pub const PAYLOAD_PERSISTENCE: &'static str = "ram-verify-discard";

/// Longest excerpt of a sidecar error line, in characters.
pub const STDERR_EXCERPT_CHARS: usize = 500;

/// A torrent source the sidecar accepts: a magnet URI or an HTTP(S) URL.
pub open spec fn source_accepted(source: Seq<char>) -> bool {
    let s = trim(source);
    utf8_len(s) <= MAX_SOURCE_LEN && (starts_with(s, "magnet:?"@) || starts_with(s, "https://"@)
        || starts_with(s, "http://"@))
}

/// The first integer rule a PT request breaks, with its message, in the order
/// authorization, source, connections, RAM, duration and stall window.
pub open spec fn request_problem(
    authorized: bool,
    source: Seq<char>,
    max_connections: u32,
    ram_mib: u32,
    duration_secs: u32,
    stalled_peer_secs: u32,
) -> Option<(bool, Seq<char>)> {
    if !authorized {
        Some((true, "请确认仅使用合法公开或已获授权的 torrent"@))
    } else if !source_accepted(source) {
        Some((false, "PT 来源必须是 magnet URI 或 HTTP(S) .torrent URL"@))
    } else if !(8 <= max_connections <= 500) {
        Some((false, "PT 最大连接数必须在 8..=500"@))
    } else if !(64 <= ram_mib <= 4096) {
        Some((false, "PT RAM 上限必须在 64..=4096 MiB"@))
    } else if duration_secs > 86_400 || !(5 <= stalled_peer_secs <= 120) {
        Some((false, "PT 时长或死链判定窗口超出允许范围"@))
    } else {
        None
    }
}

/// Checks the integer bounds of a PT request before anything is launched.
/// The first rule broken is reported: a missing authorization as
/// `NotAuthorized`, every other rule as `InvalidInput`.
pub fn check_request(
    authorized: bool,
    source: &str,
    max_connections: u32,
    ram_mib: u32,
    duration_secs: u32,
    stalled_peer_secs: u32,
) -> (r: Result<(), CoreError>)
    ensures
        match request_problem(
            authorized,
            source@,
            max_connections,
            ram_mib,
            duration_secs,
            stalled_peer_secs,
        ) {
            None => r is Ok,
            Some((unauthorized, message)) => r matches Err(e) && (if unauthorized {
                e is NotAuthorized
            } else {
                e is InvalidInput
            }) && error_text(e) == message,
        },
        r is Ok ==> authorized && source_accepted(source@) && 8 <= max_connections <= 500 && 64
            <= ram_mib <= 4096 && duration_secs <= 86_400 && 5 <= stalled_peer_secs <= 120,
        authorized && source_accepted(source@) && 8 <= max_connections <= 500 && !(64 <= ram_mib
            <= 4096) ==> (r matches Err(e) && e is InvalidInput && error_text(e)
            == "PT RAM 上限必须在 64..=4096 MiB"@),
{
    if !authorized {
        return Err(CoreError::NotAuthorized(text("请确认仅使用合法公开或已获授权的 torrent")));
    }
    let chars = trimmed(source);
    let s = string_of(&chars);
    let magnet = chars_start(&chars, "magnet:?");
    let https = chars_start(&chars, "https://");
    let http = chars_start(&chars, "http://");
    if s.as_str().len() > MAX_SOURCE_LEN || !(magnet || https || http) {
        return Err(CoreError::InvalidInput(text("PT 来源必须是 magnet URI 或 HTTP(S) .torrent URL")));
    }
    if !(8 <= max_connections && max_connections <= 500) {
        return Err(CoreError::InvalidInput(text("PT 最大连接数必须在 8..=500")));
    }
    if !(64 <= ram_mib && ram_mib <= 4096) {
        return Err(CoreError::InvalidInput(text("PT RAM 上限必须在 64..=4096 MiB")));
    }
    if duration_secs > 86_400 || !(5 <= stalled_peer_secs && stalled_peer_secs <= 120) {
        return Err(CoreError::InvalidInput(text("PT 时长或死链判定窗口超出允许范围")));
    }
    Ok(())
}

/// An owned copy of a literal.
fn text(s: &str) -> (r: String)
    ensures
        r@ == s@,
{
    let mut r = String::new();
    push_str(&mut r, s);
    r
}

/// Whether `chars` starts with `prefix`.
fn chars_start(chars: &Vec<char>, prefix: &str) -> (r: bool)
    ensures
        r == starts_with(chars@, prefix@),
{
    let p = crate::text::chars_of(prefix);
    crate::text::has_prefix(chars, &p)
}

/// Pressure level named by the sidecar: `warning`, `critical`, anything else
/// is normal.
pub open spec fn spec_pressure_level(name: Seq<char>) -> PressureLevel {
    if name == "warning"@ {
        PressureLevel::Warning
    } else if name == "critical"@ {
        PressureLevel::Critical
    } else {
        PressureLevel::Normal
    }
}

/// Pressure level named by the sidecar.
pub fn pressure_level(name: &str) -> (r: PressureLevel)
    ensures
        r == spec_pressure_level(name@),
{
    if same_text(name, "warning") {
        PressureLevel::Warning
    } else if same_text(name, "critical") {
        PressureLevel::Critical
    } else {
        PressureLevel::Normal
    }
}

/// What the protocol decides of a run: its phase, the status line and the
/// last error (the numbers of a metrics frame travel beside it).
#[derive(Debug, Clone, PartialEq, Eq)]
pub struct PtStatus {
    pub phase: PtPhase,
    pub status: String,
    pub last_error: String,
}

/// One line of the sidecar protocol, as parsed by the shell.
#[derive(Debug, Clone, PartialEq, Eq)]
pub enum SidecarLine {
    /// The line is not JSON of the protocol; `error` is the parser's message.
    Invalid { error: String },
    /// The engine started and is discovering peers and metadata.
    Ready,
    /// A log record; `None` when its fields did not parse.
    Log { record: Option<SidecarLog> },
    /// A fatal error; `None` when its fields did not parse.
    Fatal { record: Option<SidecarLog> },
    /// A metrics frame; `parsed` tells whether its fields parsed.
    Metrics { parsed: bool },
    /// The download completed; the reason, when one was given.
    Completed { reason: Option<String> },
    /// The sidecar stopped on request; the reason, when one was given.
    Stopped { reason: Option<String> },
    /// A line of another type.
    Other,
}

/// A log or fatal record of the sidecar.
#[derive(Debug, Clone, PartialEq, Eq)]
pub struct SidecarLog {
    pub level: String,
    pub code: String,
    pub message: String,
}

/// What handling a line did: whether it ended the run, and whether the
/// snapshot changed and must be published.
#[derive(Debug, Clone, Copy, PartialEq, Eq, Structural)]
pub struct LineEffect {
    pub terminal: bool,
    pub publish: bool,
}

/// Status while a metrics frame streams in.
pub open spec fn downloading_text() -> Seq<char> {
    "真实 PT swarm 下载中 · piece 校验后立即丢弃"@
}

/// The status after `line`, and what it did.
pub open spec fn line_step(before: (PtPhase, Seq<char>, Seq<char>), line: SidecarLine) -> (
    (PtPhase, Seq<char>, Seq<char>),
    LineEffect,
) {
    let (phase, status, last_error) = before;
    let quiet = LineEffect { terminal: false, publish: false };
    let shown = LineEffect { terminal: false, publish: true };
    let ended = LineEffect { terminal: true, publish: true };
    match line {
        SidecarLine::Invalid { error } => (
            (phase, status, "PT sidecar JSON 无效："@ + error@),
            shown,
        ),
        SidecarLine::Ready => (
            (PtPhase::Metadata, "正在通过 Tracker / DHT / PEX 发现 Peer 与元数据"@, last_error),
            shown,
        ),
        SidecarLine::Log { record } => match record {
            Some(log) => (
                (
                    phase,
                    log.message@,
                    if log.level@ == "error"@ {
                        log.code@ + seq![' '] + log.message@
                    } else {
                        last_error
                    },
                ),
                shown,
            ),
            None => (before, quiet),
        },
        SidecarLine::Fatal { record } => (
            (
                PtPhase::Failed,
                "PT 压测失败"@,
                match record {
                    Some(log) => log.code@ + seq![' '] + log.message@,
                    None => "PT sidecar 报告致命错误"@,
                },
            ),
            ended,
        ),
        SidecarLine::Metrics { parsed } => if parsed {
            ((PtPhase::Downloading, downloading_text(), Seq::empty()), shown)
        } else {
            (before, quiet)
        },
        SidecarLine::Completed { reason } => (
            (
                PtPhase::Completed,
                match reason {
                    Some(r) => r@,
                    None => "PT 压测已结束"@,
                },
                last_error,
            ),
            ended,
        ),
        SidecarLine::Stopped { reason } => (
            (
                PtPhase::Idle,
                match reason {
                    Some(r) => r@,
                    None => "PT 压测已结束"@,
                },
                last_error,
            ),
            ended,
        ),
        SidecarLine::Other => (before, quiet),
    }
}

/// The status as a plain triple.
pub open spec fn status_of(s: PtStatus) -> (PtPhase, Seq<char>, Seq<char>) {
    (s.phase, s.status@, s.last_error@)
}

/// Applies one protocol line to the run's status.
pub fn apply_line(status: &mut PtStatus, line: SidecarLine) -> (r: LineEffect)
    ensures
        (status_of(*final(status)), r) == line_step(status_of(*old(status)), line),
{
    let quiet = LineEffect { terminal: false, publish: false };
    let shown = LineEffect { terminal: false, publish: true };
    let ended = LineEffect { terminal: true, publish: true };
    match line {
        SidecarLine::Invalid { error } => {
            let mut message = text("PT sidecar JSON 无效：");
            push_str(&mut message, error.as_str());
            status.last_error = message;
            shown
        },
        SidecarLine::Ready => {
            status.phase = PtPhase::Metadata;
            status.status = text("正在通过 Tracker / DHT / PEX 发现 Peer 与元数据");
            shown
        },
        SidecarLine::Log { record } => match record {
            Some(log) => {
                if same_text(log.level.as_str(), "error") {
                    status.last_error = joined(&log.code, &log.message);
                }
                status.status = log.message;
                shown
            },
            None => quiet,
        },
        SidecarLine::Fatal { record } => {
            let message = match record {
                Some(log) => joined(&log.code, &log.message),
                None => text("PT sidecar 报告致命错误"),
            };
            status.phase = PtPhase::Failed;
            status.status = text("PT 压测失败");
            status.last_error = message;
            ended
        },
        SidecarLine::Metrics { parsed } => {
            if parsed {
                status.phase = PtPhase::Downloading;
                status.status = text("真实 PT swarm 下载中 · piece 校验后立即丢弃");
                status.last_error = String::new();
                shown
            } else {
                quiet
            }
        },
        SidecarLine::Completed { reason } => {
            status.phase = PtPhase::Completed;
            status.status = match reason {
                Some(r) => r,
                None => text("PT 压测已结束"),
            };
            ended
        },
        SidecarLine::Stopped { reason } => {
            status.phase = PtPhase::Idle;
            status.status = match reason {
                Some(r) => r,
                None => text("PT 压测已结束"),
            };
            ended
        },
        SidecarLine::Other => quiet,
    }
}

/// `code message`.
fn joined(code: &String, message: &String) -> (r: String)
    ensures
        r@ == code@ + seq![' '] + message@,
{
    let mut r = text(code.as_str());
    push_char(&mut r, ' ');
    push_str(&mut r, message.as_str());
    r
}

/// The status once the sidecar's output ended. A run that ended without a
/// terminal line, and had not failed already, failed: its last error names the
/// exit status when it could be read.
pub open spec fn ended_step(before: (PtPhase, Seq<char>, Seq<char>), terminal: bool, exit: Option<Seq<char>>) -> (PtPhase, Seq<char>, Seq<char>) {
    if !terminal && before.0 != PtPhase::Failed {
        (
            PtPhase::Failed,
            "PT sidecar 意外退出"@,
            match exit {
                Some(code) => "sidecar exit="@ + code,
                None => "无法读取 sidecar 退出状态"@,
            },
        )
    } else {
        before
    }
}

/// Closes a run whose output ended; `exit` is the process's exit status as
/// text, when it could be read.
pub fn output_ended(status: &mut PtStatus, terminal: bool, exit: Option<String>)
    ensures
        status_of(*final(status)) == ended_step(status_of(*old(status)), terminal, match exit {
            Some(e) => Some(e@),
            None => None,
        }),
{
    if !terminal && status.phase != PtPhase::Failed {
        status.phase = PtPhase::Failed;
        status.status = text("PT sidecar 意外退出");
        status.last_error = match exit {
            Some(code) => {
                let mut message = text("sidecar exit=");
                push_str(&mut message, code.as_str());
                message
            },
            None => text("无法读取 sidecar 退出状态"),
        };
    }
}

/// Marks the run failed because its metrics channel broke.
pub fn channel_failed(status: &mut PtStatus, message: String)
    ensures
        status_of(*final(status)) == (PtPhase::Failed, "PT 指标通道失败"@, message@),
{
    status.phase = PtPhase::Failed;
    status.status = text("PT 指标通道失败");
    status.last_error = message;
}

/// What a line of the sidecar's error output leaves as last error: the line
/// trimmed and cut to [`STDERR_EXCERPT_CHARS`] characters; blank lines leave
/// nothing.
pub open spec fn excerpt(line: Seq<char>) -> Option<Seq<char>> {
    let t = trim(line);
    if t.len() == 0 {
        None
    } else if t.len() > STDERR_EXCERPT_CHARS {
        Some(t.take(STDERR_EXCERPT_CHARS as int))
    } else {
        Some(t)
    }
}

/// The excerpt of a line of the sidecar's error output.
pub fn stderr_excerpt(line: &str) -> (r: Option<String>)
    ensures
        match excerpt(line@) {
            Some(t) => r matches Some(s) && s@ == t,
            None => r is None,
        },
{
    let chars = trimmed(line);
    if chars.len() == 0 {
        return None;
    }
    let mut kept: Vec<char> = Vec::new();
    let mut i: usize = 0;
    while i < chars.len() && i < STDERR_EXCERPT_CHARS
        invariant
            i <= chars@.len(),
            i <= STDERR_EXCERPT_CHARS,
            kept@ == chars@.take(i as int),
        decreases chars.len() - i,
    {
        kept.push(chars[i]);
        i = i + 1;
        assert(kept@ =~= chars@.take(i as int));
    }
    assert(chars@.len() <= STDERR_EXCERPT_CHARS ==> chars@.take(i as int) =~= chars@);
    Some(string_of(&kept))
}

/// An authorized request with an accepted source and 8 to 500 connections
/// passes only with a RAM cap of 64 to 4096 MiB; a cap outside that range,
/// 0 included, is refused as invalid input with the RAM message.
pub proof fn law_ram_cap_is_bounded(
    source: Seq<char>,
    max_connections: u32,
    ram_mib: u32,
    duration_secs: u32,
    stalled_peer_secs: u32,
)
    requires
        source_accepted(source),
        8 <= max_connections <= 500,
    ensures
        request_problem(true, source, max_connections, ram_mib, duration_secs, stalled_peer_secs)
            is None ==> 64 <= ram_mib <= 4096,
        ram_mib < 64 || ram_mib > 4096 ==> request_problem(
            true,
            source,
            max_connections,
            ram_mib,
            duration_secs,
            stalled_peer_secs,
        ) == Some((false, "PT RAM 上限必须在 64..=4096 MiB"@)),
{
}

/// A fatal error, a completion or a stop ends the run; no other line does,
/// and a line that changes nothing is not published.
pub proof fn law_terminal_lines_end_the_run(before: (PtPhase, Seq<char>, Seq<char>), line: SidecarLine)
    ensures
        line_step(before, line).1.terminal <==> (line is Fatal || line is Completed
            || line is Stopped),
        !line_step(before, line).1.publish ==> line_step(before, line).0 == before,
{
}

} // verus!
