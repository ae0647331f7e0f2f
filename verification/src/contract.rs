//! The data exchanged between the engine, the NIC monitor and their callers.
//!
//! These are the plain forms of the wire types: the serialisable copies (with
//! their JSON field names) live with the application shell, which converts to
//! and from these one field at a time.
use vstd::prelude::*;

use crate::nicmon::AdapterClass;
use crate::text::push_str;

verus! {

/// Traffic model. `LocalPt` only accepts loopback or private peers.
#[derive(Debug, Clone, Copy, PartialEq, Eq, Structural)]
pub enum TrafficProfile {
    HttpDownload,
    LocalPt,
}

impl Default for TrafficProfile {
    fn default() -> (r: Self)
        ensures
            r == TrafficProfile::HttpDownload,
    {
        TrafficProfile::HttpDownload
    }
}

/// A failure tally for one error code.
#[derive(Debug, Clone, PartialEq, Eq)]
pub struct ErrorCount {
    pub code: String,
    pub count: u64,
}

/// Run phase.
#[derive(Debug, Clone, Copy, PartialEq, Eq, Structural)]
pub enum RunPhase {
    Idle,
    Running,
}

/// Pressure level. `Critical` stops the run, `Warning` only reports.
#[derive(Debug, Clone, Copy, PartialEq, Eq, Structural)]
pub enum PressureLevel {
    Normal,
    Warning,
    Critical,
}

impl Default for PressureLevel {
    fn default() -> (r: Self)
        ensures
            r == PressureLevel::Normal,
    {
        PressureLevel::Normal
    }
}

/// Phase of the BitTorrent sidecar.
#[derive(Debug, Clone, Copy, PartialEq, Eq, Structural)]
pub enum PtPhase {
    Idle,
    Starting,
    Metadata,
    Downloading,
    Completed,
    Failed,
}

impl Default for PtPhase {
    fn default() -> (r: Self)
        ensures
            r == PtPhase::Idle,
    {
        PtPhase::Idle
    }
}

/// Log level.
#[derive(Debug, Clone, Copy, PartialEq, Eq, Structural)]
pub enum LogLevel {
    Info,
    Warn,
    Error,
}

/// One log record.
#[derive(Debug, Clone, PartialEq, Eq)]
pub struct LogEntry {
    pub level: LogLevel,
    /// Stable event code (see `codes`), such as `NET-002`; empty means none.
    pub code: String,
    /// The code location (`file:line`) that produced the record.
    pub source: String,
    pub message: String,
    /// Milliseconds since the producer started.
    pub at_ms: u64,
}

/// Lifecycle event kind.
#[derive(Debug, Clone, Copy, PartialEq, Eq, Structural)]
pub enum RunEventKind {
    Started,
    Stopped,
    AutoStopped,
    Rejected,
}

/// Lifecycle event.
#[derive(Debug, Clone, PartialEq, Eq)]
pub struct RunEvent {
    pub kind: RunEventKind,
    pub code: String,
    pub source: String,
    pub message: String,
    pub at_ms: u64,
}

/// Error returned by a command.
#[derive(Debug, Clone, PartialEq, Eq)]
pub enum CoreError {
    InvalidInput(String),
    NotAuthorized(String),
    AlreadyRunning(String),
    Internal(String),
}

/// The text that a `CoreError` displays: the message it carries.
pub open spec fn error_text(error: CoreError) -> Seq<char> {
    match error {
        CoreError::InvalidInput(m) => m@,
        CoreError::NotAuthorized(m) => m@,
        CoreError::AlreadyRunning(m) => m@,
        CoreError::Internal(m) => m@,
    }
}

impl CoreError {
    /// The displayed text of the error (its message, without a prefix).
    pub fn message(&self) -> (r: String)
        ensures
            r@ == error_text(*self),
    {
        let mut r = String::new();
        match self {
            CoreError::InvalidInput(m) => push_str(&mut r, m.as_str()),
            CoreError::NotAuthorized(m) => push_str(&mut r, m.as_str()),
            CoreError::AlreadyRunning(m) => push_str(&mut r, m.as_str()),
            CoreError::Internal(m) => push_str(&mut r, m.as_str()),
        }
        r
    }
}

/// Adapter class on the wire (mirrors `nicmon::AdapterClass`).
#[derive(Debug, Clone, Copy, PartialEq, Eq, Structural)]
pub enum NicAdapterClass {
    Physical,
    Virtual,
    Loopback,
    Tunnel,
    Other,
}

/// The wire class of an adapter class: the variant of the same name.
pub open spec fn wire_class(class: AdapterClass) -> NicAdapterClass {
    match class {
        AdapterClass::Physical => NicAdapterClass::Physical,
        AdapterClass::Virtual => NicAdapterClass::Virtual,
        AdapterClass::Loopback => NicAdapterClass::Loopback,
        AdapterClass::Tunnel => NicAdapterClass::Tunnel,
        AdapterClass::Other => NicAdapterClass::Other,
    }
}

impl From<AdapterClass> for NicAdapterClass {
    fn from(class: AdapterClass) -> (r: Self) {
        match class {
            AdapterClass::Physical => NicAdapterClass::Physical,
            AdapterClass::Virtual => NicAdapterClass::Virtual,
            AdapterClass::Loopback => NicAdapterClass::Loopback,
            AdapterClass::Tunnel => NicAdapterClass::Tunnel,
            AdapterClass::Other => NicAdapterClass::Other,
        }
    }
}

impl vstd::std_specs::convert::FromSpecImpl<AdapterClass> for NicAdapterClass {
    open spec fn obeys_from_spec() -> bool {
        true
    }

    open spec fn from_spec(class: AdapterClass) -> NicAdapterClass {
        wire_class(class)
    }
}

/// Link state that a user can act on.
#[derive(Debug, Clone, Copy, PartialEq, Eq, Structural)]
pub enum NicLinkState {
    Connected,
    Disconnected,
    Dormant,
    NotPresent,
    Unknown,
}

/// NIC monitoring event kind.
#[derive(Debug, Clone, Copy, PartialEq, Eq, Structural)]
pub enum NicEventKind {
    LinkUp,
    LinkDown,
    SpeedChange,
    CounterReset,
    DiscardSpike,
    ErrorSpike,
    QueueBacklog,
    AdapterAdded,
    AdapterRemoved,
    Selection,
}

/// One NIC monitoring event (same code as the log line it mirrors).
#[derive(Debug, Clone, PartialEq, Eq)]
pub struct NicEvent {
    pub at_ms: u64,
    pub adapter_id: String,
    pub adapter: String,
    pub kind: NicEventKind,
    pub code: String,
    /// Whether this is the closing record of an episode.
    pub resolved: bool,
    pub message: String,
}

} // verus!
