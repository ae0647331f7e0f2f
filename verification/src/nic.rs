//! NIC link monitoring decisions: what a new sample means for one adapter
//! (link lost or restored, negotiated speed changed, counters reset, discard /
//! error / send-queue episodes), how each finding is coded and reported, which
//! adapters are watched, and the bounded event list.
//!
//! Every function here is pure: times and thresholds come from the caller, so
//! a recorded sequence of samples can be replayed frame by frame. Rates are
//! measured by the caller, which hands over whether each rate is above its
//! threshold and keeps the floating-point peaks.
use vstd::prelude::*;

use crate::codes;
use crate::contract::{error_text, CoreError, LogLevel, NicEvent, NicEventKind, NicLinkState};
use crate::nicmon::{
    spec_link_speed, spec_link_up, AdapterClass, RawAdapter, IF_OPER_DORMANT, IF_OPER_DOWN,
    IF_OPER_NOT_PRESENT, IF_OPER_UP, MEDIA_CONNECT_DISCONNECTED,
};
use crate::text::{dec, push_decimal, push_str, same_text, string_of, trim, trimmed, utf8_len, views};

verus! {

/// Sampling period in milliseconds.
pub const NIC_SAMPLE_MS: u32 = 500;
/// History points kept per adapter (500 ms × 240 ≈ two minutes).
pub const NIC_HISTORY_LEN: usize = 240;
/// Most recent events kept for the screen (the log keeps all of them).
pub const NIC_EVENT_LIMIT: usize = 200;
/// Most adapters a selection may name.
pub const MAX_SELECTION: usize = 64;
/// Longest adapter identifier, in bytes.
pub const MAX_ID_LEN: usize = 128;
/// Send-queue depth (packets) from which the queue counts as backed up.
pub const QUEUE_BACKLOG_PACKETS: u64 = 16;
/// `NET_IF_ADMIN_STATUS_UP`.
pub const ADMIN_STATUS_UP: u32 = 1;

/// What can and cannot be observed on consumer hardware, stated up front.
pub const CAPABILITY_NOTE: &'static str = "可获得：链路通断与协商速率、收发速率与利用率、收发丢弃 / 错误、发送队列长度（OutQLen）。不可获得：网卡温度、收发缓冲区占用率、光模块功率 —— 这些属于驱动私有数据，消费级设备读不到，本页不猜也不编。";

/// Kind of a sustained anomaly.
#[derive(Debug, Clone, Copy, PartialEq, Eq, Structural)]
pub enum Spike {
    Discards,
    Errors,
    Queue,
}

/// A fact established by one sample (before it is worded and coded).
#[derive(Debug, Clone, Copy, PartialEq, Eq, Structural)]
pub enum Finding {
    LinkDown,
    LinkUp { down_ms: u64 },
    SpeedChange { from_bps: u64, to_bps: u64 },
    CounterReset,
    SpikeStarted { spike: Spike },
    SpikeEnded { spike: Spike, duration_ms: u64, samples: u64 },
}

/// One sustained anomaly in progress.
#[derive(Debug, Clone, Copy, PartialEq, Eq, Structural)]
pub struct Episode {
    pub active: bool,
    pub started_ms: u64,
    pub samples: u64,
}

/// No anomaly in progress.
pub open spec fn quiet() -> Episode {
    Episode { active: false, started_ms: 0, samples: 0 }
}

impl Episode {
    /// No anomaly in progress.
    pub fn quiet() -> (r: Self)
        ensures
            r == quiet(),
    {
        Episode { active: false, started_ms: 0, samples: 0 }
    }
}

/// What is remembered of an adapter's previous sample.
#[derive(Debug, Clone, Copy, PartialEq, Eq, Structural)]
pub struct Memory {
    pub link_up: bool,
    pub link_speed_bps: u64,
    pub down_since_ms: Option<u64>,
    pub discards: Episode,
    pub errors: Episode,
    pub queue: Episode,
}

/// One frame of an episode: two consecutive frames above the threshold start
/// it, falling back ends it with its duration and frame count.
pub open spec fn episode_step(episode: Episode, spike: Spike, above: bool, now_ms: u64) -> (
    Episode,
    Seq<Finding>,
) {
    if above {
        if episode.active {
            let next = Episode { samples: (episode.samples + 1) as u64, ..episode };
            (
                next,
                if next.samples == 2 {
                    seq![Finding::SpikeStarted { spike }]
                } else {
                    Seq::empty()
                },
            )
        } else {
            (Episode { active: true, started_ms: now_ms, samples: 1 }, Seq::empty())
        }
    } else if !episode.active {
        (episode, Seq::empty())
    } else {
        (
            quiet(),
            seq![
                Finding::SpikeEnded {
                    spike,
                    duration_ms: if now_ms >= episode.started_ms {
                        (now_ms - episode.started_ms) as u64
                    } else {
                        0
                    },
                    samples: episode.samples,
                },
            ],
        )
    }
}

/// Advances one episode by a frame and appends what it found.
pub fn push_episode(
    episode: &mut Episode,
    spike: Spike,
    above: bool,
    now_ms: u64,
    findings: &mut Vec<Finding>,
)
    requires
        old(episode).samples < u64::MAX,
    ensures
        (*final(episode), final(findings)@) == ({
            let (next, found) = episode_step(*old(episode), spike, above, now_ms);
            (next, old(findings)@ + found)
        }),
{
    if above {
        if episode.active {
            episode.samples = episode.samples + 1;
            if episode.samples == 2 {
                findings.push(Finding::SpikeStarted { spike });
            }
        } else {
            *episode = Episode { active: true, started_ms: now_ms, samples: 1 };
        }
        assert(findings@ =~= old(findings)@ + episode_step(*old(episode), spike, above, now_ms).1);
        return;
    }
    if !episode.active {
        assert(findings@ =~= old(findings)@ + Seq::<Finding>::empty());
        return;
    }
    findings.push(
        Finding::SpikeEnded {
            spike,
            duration_ms: now_ms.saturating_sub(episode.started_ms),
            samples: episode.samples,
        },
    );
    *episode = Episode::quiet();
}

/// The link and counter findings of a frame, given the remembered state.
pub open spec fn link_findings(memory: Memory, link_up: bool, speed: u64, counter_reset: bool, now_ms: u64) -> Seq<Finding> {
    let transition = if memory.link_up && !link_up {
        seq![Finding::LinkDown]
    } else if !memory.link_up && link_up {
        seq![
            Finding::LinkUp {
                down_ms: match memory.down_since_ms {
                    Some(since) => if now_ms >= since {
                        (now_ms - since) as u64
                    } else {
                        0
                    },
                    None => 0,
                },
            },
        ]
    } else {
        Seq::empty()
    };
    let speed_change = if memory.link_up && link_up && memory.link_speed_bps > 0 && speed > 0
        && memory.link_speed_bps != speed {
        seq![Finding::SpeedChange { from_bps: memory.link_speed_bps, to_bps: speed }]
    } else {
        Seq::empty()
    };
    let reset = if counter_reset {
        seq![Finding::CounterReset]
    } else {
        Seq::empty()
    };
    transition + speed_change + reset
}

/// The memory of a frame that has nothing remembered yet: the baseline.
pub open spec fn baseline(link_up: bool, speed: u64, now_ms: u64) -> Memory {
    Memory {
        link_up,
        link_speed_bps: speed,
        down_since_ms: if link_up {
            None
        } else {
            Some(now_ms)
        },
        discards: quiet(),
        errors: quiet(),
        queue: quiet(),
    }
}

/// The queue counts as backed up.
pub open spec fn queue_backed_up(adapter: RawAdapter) -> bool {
    adapter.counters.out_queue_len >= QUEUE_BACKLOG_PACKETS
}

/// One frame for one adapter: the new memory and the findings, in the order
/// link transition, speed change, counter reset, discard, error and queue
/// episodes. A first frame (`memory == None`) only sets the baseline.
pub open spec fn advance_spec(
    memory: Option<Memory>,
    adapter: RawAdapter,
    counter_reset: bool,
    discards_above: bool,
    errors_above: bool,
    now_ms: u64,
) -> (Memory, Seq<Finding>) {
    let link_up = spec_link_up(adapter);
    let speed = spec_link_speed(adapter);
    let state = match memory {
        Some(m) => m,
        None => baseline(link_up, speed, now_ms),
    };
    let first = match memory {
        Some(m) => link_findings(m, link_up, speed, counter_reset, now_ms),
        None => Seq::empty(),
    };
    let (discards, f1) = episode_step(state.discards, Spike::Discards, discards_above, now_ms);
    let (errors, f2) = episode_step(state.errors, Spike::Errors, errors_above, now_ms);
    let (queue, f3) = episode_step(state.queue, Spike::Queue, queue_backed_up(adapter), now_ms);
    (
        Memory {
            link_up,
            link_speed_bps: speed,
            down_since_ms: if link_up {
                None
            } else {
                match state.down_since_ms {
                    Some(since) => Some(since),
                    None => Some(now_ms),
                }
            },
            discards,
            errors,
            queue,
        },
        first + f1 + f2 + f3,
    )
}

/// Episode sample counts stay far from overflow.
pub open spec fn counts_bounded(memory: Option<Memory>) -> bool {
    match memory {
        Some(m) => m.discards.samples < u64::MAX && m.errors.samples < u64::MAX
            && m.queue.samples < u64::MAX,
        None => true,
    }
}

/// Advances an adapter's memory by one sample and reports what happened.
///
/// `counter_reset`, `discards_above` and `errors_above` are the caller's
/// measurements between this sample and the previous one: whether the byte
/// counters went backwards, and whether the discard and error rates reached
/// their thresholds.
pub fn advance(
    memory: Option<Memory>,
    current: &RawAdapter,
    counter_reset: bool,
    discards_above: bool,
    errors_above: bool,
    now_ms: u64,
) -> (r: (Memory, Vec<Finding>))
    requires
        counts_bounded(memory),
    ensures
        (r.0, r.1@) == advance_spec(memory, *current, counter_reset, discards_above, errors_above, now_ms),
{
    let mut findings: Vec<Finding> = Vec::new();
    let link_up = current.link_up();
    let speed_bps = current.link_speed_bps();
    let fresh = memory.is_none();
    let mut state = match memory {
        Some(m) => m,
        None => Memory {
            link_up,
            link_speed_bps: speed_bps,
            down_since_ms: if link_up {
                None
            } else {
                Some(now_ms)
            },
            discards: Episode::quiet(),
            errors: Episode::quiet(),
            queue: Episode::quiet(),
        },
    };
    if !fresh {
        if state.link_up && !link_up {
            findings.push(Finding::LinkDown);
        } else if !state.link_up && link_up {
            let since = match state.down_since_ms {
                Some(since) => since,
                None => now_ms,
            };
            findings.push(Finding::LinkUp { down_ms: now_ms.saturating_sub(since) });
        }
        if state.link_up && link_up && state.link_speed_bps > 0 && speed_bps > 0
            && state.link_speed_bps != speed_bps {
            findings.push(
                Finding::SpeedChange { from_bps: state.link_speed_bps, to_bps: speed_bps },
            );
        }
        if counter_reset {
            findings.push(Finding::CounterReset);
        }
    }
    assert(findings@ =~= match memory {
        Some(m) => link_findings(m, link_up, speed_bps, counter_reset, now_ms),
        None => Seq::empty(),
    });
    let ghost first = findings@;
    push_episode(&mut state.discards, Spike::Discards, discards_above, now_ms, &mut findings);
    let ghost after_discards = findings@;
    push_episode(&mut state.errors, Spike::Errors, errors_above, now_ms, &mut findings);
    let ghost after_errors = findings@;
    let backed_up = current.counters.out_queue_len >= QUEUE_BACKLOG_PACKETS;
    push_episode(&mut state.queue, Spike::Queue, backed_up, now_ms, &mut findings);
    state.link_up = link_up;
    state.link_speed_bps = speed_bps;
    state.down_since_ms = if link_up {
        None
    } else {
        match state.down_since_ms {
            Some(since) => Some(since),
            None => Some(now_ms),
        }
    };
    proof {
        let spec = advance_spec(memory, *current, counter_reset, discards_above, errors_above, now_ms);
        assert(findings@ =~= spec.1);
    }
    (state, findings)
}

// ---------------------------------------------------------------------------
// Laws of the frame analysis
// ---------------------------------------------------------------------------

/// The first frame of an adapter only sets the baseline: it reports nothing,
/// whatever the adapter looks like.
pub proof fn law_first_frame_is_silent(
    adapter: RawAdapter,
    counter_reset: bool,
    discards_above: bool,
    errors_above: bool,
    now_ms: u64,
)
    ensures
        advance_spec(None, adapter, counter_reset, discards_above, errors_above, now_ms).1.len()
            == 0,
{
}

/// A link that stays down is reported once: a frame that finds it down again
/// reports no new `LinkDown`.
pub proof fn law_outage_reported_once(
    memory: Memory,
    adapter: RawAdapter,
    counter_reset: bool,
    discards_above: bool,
    errors_above: bool,
    now_ms: u64,
)
    requires
        !memory.link_up,
        !spec_link_up(adapter),
    ensures
        !advance_spec(Some(memory), adapter, counter_reset, discards_above, errors_above, now_ms).1.contains(
            Finding::LinkDown,
        ),
{
    let found = advance_spec(Some(memory), adapter, counter_reset, discards_above, errors_above, now_ms).1;
    assert(!found.contains(Finding::LinkDown)) by {
        if found.contains(Finding::LinkDown) {
            let i = choose|i: int| 0 <= i < found.len() && found[i] == Finding::LinkDown;
        }
    }
}

/// A link that comes back reports how long it was down: from the first frame
/// that saw it down to this one.
pub proof fn law_restore_reports_outage(
    memory: Memory,
    adapter: RawAdapter,
    since: u64,
    counter_reset: bool,
    discards_above: bool,
    errors_above: bool,
    now_ms: u64,
)
    requires
        !memory.link_up,
        memory.down_since_ms == Some(since),
        since <= now_ms,
        spec_link_up(adapter),
    ensures
        advance_spec(Some(memory), adapter, counter_reset, discards_above, errors_above, now_ms).1[0]
            == (Finding::LinkUp { down_ms: (now_ms - since) as u64 }),
{
}

/// A single frame above a threshold is not an episode start: the episode is
/// reported as started only on its second consecutive frame.
pub proof fn law_spike_needs_two_frames(spike: Spike, now_ms: u64, later_ms: u64)
    ensures
        episode_step(quiet(), spike, true, now_ms).1.len() == 0,
        episode_step(episode_step(quiet(), spike, true, now_ms).0, spike, true, later_ms).1
            == seq![Finding::SpikeStarted { spike }],
{
}

/// A single-frame blip ends with a record of one frame, which is kept out of
/// the log.
pub proof fn law_blip_is_not_logged(spike: Spike, now_ms: u64, later_ms: u64)
    requires
        now_ms <= later_ms,
    ensures
        ({
            let ended = episode_step(episode_step(quiet(), spike, true, now_ms).0, spike, false, later_ms).1;
            &&& ended.len() == 1
            &&& ended[0] == (Finding::SpikeEnded {
                spike,
                duration_ms: (later_ms - now_ms) as u64,
                samples: 1,
            })
            &&& !spec_worth_logging(ended[0])
        }),
{
}

/// Between two frames with the link up and a known speed, any change of the
/// negotiated speed is reported, a rise as well as a drop, from the
/// remembered speed to the new one (the larger of the two directions).
pub proof fn law_every_speed_change_is_reported(
    memory: Memory,
    adapter: RawAdapter,
    new_speed: u64,
    counter_reset: bool,
    discards_above: bool,
    errors_above: bool,
    now_ms: u64,
)
    requires
        memory.link_up,
        memory.link_speed_bps > 0,
        adapter.oper_status == IF_OPER_UP,
        adapter.connect_state != MEDIA_CONNECT_DISCONNECTED,
        !adapter.not_media_connected,
        new_speed == adapter.transmit_speed_bps || new_speed == adapter.receive_speed_bps,
        new_speed >= adapter.transmit_speed_bps,
        new_speed >= adapter.receive_speed_bps,
        new_speed > 0,
        new_speed != memory.link_speed_bps,
    ensures
        advance_spec(Some(memory), adapter, counter_reset, discards_above, errors_above, now_ms).1.contains(
            Finding::SpeedChange { from_bps: memory.link_speed_bps, to_bps: new_speed },
        ),
{
    let found = advance_spec(Some(memory), adapter, counter_reset, discards_above, errors_above, now_ms).1;
    assert(found[0] == Finding::SpeedChange { from_bps: memory.link_speed_bps, to_bps: new_speed });
}

/// A negotiated speed change is reported only between two frames that both
/// know the speed: a driver that has not reported one yet (0) is no slowdown.
pub proof fn law_speed_change_needs_known_speeds(
    memory: Memory,
    adapter: RawAdapter,
    counter_reset: bool,
    discards_above: bool,
    errors_above: bool,
    now_ms: u64,
)
    requires
        memory.link_speed_bps == 0 || spec_link_speed(adapter) == 0,
    ensures
        forall|i: int|
            0 <= i < advance_spec(
                Some(memory),
                adapter,
                counter_reset,
                discards_above,
                errors_above,
                now_ms,
            ).1.len() ==> !(#[trigger] advance_spec(
                Some(memory),
                adapter,
                counter_reset,
                discards_above,
                errors_above,
                now_ms,
            ).1[i] is SpeedChange),
{
    let found = advance_spec(Some(memory), adapter, counter_reset, discards_above, errors_above, now_ms).1;
    assert forall|i: int| 0 <= i < found.len() implies !(#[trigger] found[i] is SpeedChange) by {
    }
}

// ---------------------------------------------------------------------------
// Wording of findings
// ---------------------------------------------------------------------------

/// Event code of a finding.
pub open spec fn spec_code_of(finding: Finding) -> Seq<char> {
    match finding {
        Finding::LinkDown => codes::nic::LINK_DOWN@,
        Finding::LinkUp { .. } => codes::nic::LINK_UP@,
        Finding::SpeedChange { .. } => codes::nic::SPEED_CHANGED@,
        Finding::CounterReset => codes::nic::COUNTER_RESET@,
        Finding::SpikeStarted { spike } => match spike {
            Spike::Discards => codes::nic::DISCARD_SPIKE@,
            Spike::Errors => codes::nic::ERROR_SPIKE@,
            Spike::Queue => codes::nic::QUEUE_BACKLOG@,
        },
        Finding::SpikeEnded { spike, .. } => match spike {
            Spike::Discards => codes::nic::DISCARD_SPIKE_END@,
            Spike::Errors => codes::nic::ERROR_SPIKE_END@,
            Spike::Queue => codes::nic::QUEUE_BACKLOG_END@,
        },
    }
}

/// Event code of a finding.
pub fn code_of(finding: &Finding) -> (r: &'static str)
    ensures
        r@ == spec_code_of(*finding),
{
    match finding {
        Finding::LinkDown => codes::nic::LINK_DOWN,
        Finding::LinkUp { .. } => codes::nic::LINK_UP,
        Finding::SpeedChange { .. } => codes::nic::SPEED_CHANGED,
        Finding::CounterReset => codes::nic::COUNTER_RESET,
        Finding::SpikeStarted { spike } => match spike {
            Spike::Discards => codes::nic::DISCARD_SPIKE,
            Spike::Errors => codes::nic::ERROR_SPIKE,
            Spike::Queue => codes::nic::QUEUE_BACKLOG,
        },
        Finding::SpikeEnded { spike, .. } => match spike {
            Spike::Discards => codes::nic::DISCARD_SPIKE_END,
            Spike::Errors => codes::nic::ERROR_SPIKE_END,
            Spike::Queue => codes::nic::QUEUE_BACKLOG_END,
        },
    }
}

/// Log level of a finding: losses, speed changes and discard / error spikes
/// warn; a backed-up queue is recorded without alarm; everything else is
/// information.
pub open spec fn spec_level_of(finding: Finding) -> LogLevel {
    match finding {
        Finding::LinkDown => LogLevel::Warn,
        Finding::SpeedChange { .. } => LogLevel::Warn,
        Finding::SpikeStarted { spike } => match spike {
            Spike::Queue => LogLevel::Info,
            _ => LogLevel::Warn,
        },
        _ => LogLevel::Info,
    }
}

/// Log level of a finding.
pub fn level_of(finding: &Finding) -> (r: LogLevel)
    ensures
        r == spec_level_of(*finding),
{
    match finding {
        Finding::LinkDown => LogLevel::Warn,
        Finding::SpeedChange { .. } => LogLevel::Warn,
        Finding::SpikeStarted { spike } => match spike {
            Spike::Queue => LogLevel::Info,
            _ => LogLevel::Warn,
        },
        _ => LogLevel::Info,
    }
}

/// Event kind of a finding.
pub open spec fn spec_kind_of(finding: Finding) -> NicEventKind {
    match finding {
        Finding::LinkDown => NicEventKind::LinkDown,
        Finding::LinkUp { .. } => NicEventKind::LinkUp,
        Finding::SpeedChange { .. } => NicEventKind::SpeedChange,
        Finding::CounterReset => NicEventKind::CounterReset,
        Finding::SpikeStarted { spike } => spike_kind(spike),
        Finding::SpikeEnded { spike, .. } => spike_kind(spike),
    }
}

/// Event kind of an episode.
pub open spec fn spike_kind(spike: Spike) -> NicEventKind {
    match spike {
        Spike::Discards => NicEventKind::DiscardSpike,
        Spike::Errors => NicEventKind::ErrorSpike,
        Spike::Queue => NicEventKind::QueueBacklog,
    }
}

/// Event kind of a finding.
pub fn kind_of(finding: &Finding) -> (r: NicEventKind)
    ensures
        r == spec_kind_of(*finding),
{
    let spike = match finding {
        Finding::LinkDown => return NicEventKind::LinkDown,
        Finding::LinkUp { .. } => return NicEventKind::LinkUp,
        Finding::SpeedChange { .. } => return NicEventKind::SpeedChange,
        Finding::CounterReset => return NicEventKind::CounterReset,
        Finding::SpikeStarted { spike } => *spike,
        Finding::SpikeEnded { spike, .. } => *spike,
    };
    match spike {
        Spike::Discards => NicEventKind::DiscardSpike,
        Spike::Errors => NicEventKind::ErrorSpike,
        Spike::Queue => NicEventKind::QueueBacklog,
    }
}

/// Whether a finding closes an episode.
pub fn is_resolved(finding: &Finding) -> (r: bool)
    ensures
        r == (*finding is SpikeEnded),
{
    match finding {
        Finding::SpikeEnded { .. } => true,
        _ => false,
    }
}

/// Whether a finding is written to the log: everything except the end of a
/// one-frame blip (which never had a logged start).
pub open spec fn spec_worth_logging(finding: Finding) -> bool {
    match finding {
        Finding::SpikeEnded { samples, .. } => samples >= 2,
        _ => true,
    }
}

/// Whether a finding is written to the log.
pub fn worth_logging(finding: &Finding) -> (r: bool)
    ensures
        r == spec_worth_logging(*finding),
{
    match finding {
        Finding::SpikeEnded { samples, .. } => *samples >= 2,
        _ => true,
    }
}

// ---------------------------------------------------------------------------
// Adapter state and scope
// ---------------------------------------------------------------------------

/// Link state of an adapter: absent devices first, then connected, dormant,
/// disconnected, and unknown for anything else.
pub open spec fn spec_link_state(adapter: RawAdapter) -> NicLinkState {
    if adapter.oper_status == IF_OPER_NOT_PRESENT {
        NicLinkState::NotPresent
    } else if spec_link_up(adapter) {
        NicLinkState::Connected
    } else if adapter.oper_status == IF_OPER_DORMANT {
        NicLinkState::Dormant
    } else if adapter.oper_status == IF_OPER_DOWN || adapter.connect_state
        == MEDIA_CONNECT_DISCONNECTED || adapter.not_media_connected {
        NicLinkState::Disconnected
    } else {
        NicLinkState::Unknown
    }
}

/// Link state of an adapter.
pub fn link_state_of(adapter: &RawAdapter) -> (r: NicLinkState)
    ensures
        r == spec_link_state(*adapter),
{
    if adapter.oper_status == IF_OPER_NOT_PRESENT {
        return NicLinkState::NotPresent;
    }
    if adapter.link_up() {
        return NicLinkState::Connected;
    }
    if adapter.oper_status == IF_OPER_DORMANT {
        return NicLinkState::Dormant;
    }
    if adapter.oper_status == IF_OPER_DOWN || adapter.connect_state == MEDIA_CONNECT_DISCONNECTED
        || adapter.not_media_connected {
        return NicLinkState::Disconnected;
    }
    NicLinkState::Unknown
}

/// Watched by default: a physical adapter that is present (Windows keeps the
/// entries of adapters that were once plugged in, reporting them as absent).
pub open spec fn spec_monitored_by_default(adapter: RawAdapter) -> bool {
    adapter.class == AdapterClass::Physical && adapter.oper_status != IF_OPER_NOT_PRESENT
}

/// Whether an adapter is watched when the user selected nothing.
pub fn monitored_by_default(adapter: &RawAdapter) -> (r: bool)
    ensures
        r == spec_monitored_by_default(*adapter),
{
    adapter.class == AdapterClass::Physical && adapter.oper_status != IF_OPER_NOT_PRESENT
}

/// Whether the administrator enabled the adapter.
pub fn admin_enabled(adapter: &RawAdapter) -> (r: bool)
    ensures
        r == (adapter.admin_status == ADMIN_STATUS_UP),
{
    adapter.admin_status == ADMIN_STATUS_UP
}

/// An adapter is watched when the selection names it, or, with an empty
/// selection, when it is watched by default.
pub open spec fn spec_is_monitored(selection: Seq<Seq<char>>, adapter: RawAdapter) -> bool {
    if selection.len() == 0 {
        spec_monitored_by_default(adapter)
    } else {
        selection.contains(adapter.id@)
    }
}

/// Whether `selection` names `id`.
pub fn selection_contains(selection: &Vec<String>, id: &String) -> (r: bool)
    ensures
        r == views(selection@).contains(id@),
{
    let mut i: usize = 0;
    while i < selection.len()
        invariant
            i <= selection@.len(),
            forall|j: int| 0 <= j < i ==> selection@[j]@ != id@,
        decreases selection.len() - i,
    {
        if same_text(selection[i].as_str(), id.as_str()) {
            assert(views(selection@)[i as int] == id@);
            return true;
        }
        i = i + 1;
    }
    assert(!views(selection@).contains(id@)) by {
        if views(selection@).contains(id@) {
            let k = choose|k: int| 0 <= k < views(selection@).len() && views(selection@)[k] == id@;
            assert(selection@[k]@ == id@);
        }
    }
    false
}

/// Whether an adapter is watched under the current selection.
pub fn is_monitored(selection: &Vec<String>, adapter: &RawAdapter) -> (r: bool)
    ensures
        r == spec_is_monitored(views(selection@), *adapter),
{
    if selection.len() == 0 {
        monitored_by_default(adapter)
    } else {
        selection_contains(selection, &adapter.id)
    }
}

/// One step of cleaning a selection: blank identifiers are skipped, an
/// over-long one refuses the whole selection (`None`), repeats are dropped.
pub open spec fn clean_step(kept: Seq<Seq<char>>, id: Seq<char>) -> Option<Seq<Seq<char>>> {
    let t = trim(id);
    if t.len() == 0 {
        Some(kept)
    } else if utf8_len(t) > MAX_ID_LEN {
        None
    } else if kept.contains(t) {
        Some(kept)
    } else {
        Some(kept.push(t))
    }
}

/// The cleaned form of a whole selection, or `None` when an identifier is too long.
pub open spec fn cleaned(ids: Seq<Seq<char>>) -> Option<Seq<Seq<char>>>
    decreases ids.len(),
{
    if ids.len() == 0 {
        Some(Seq::empty())
    } else {
        match cleaned(ids.drop_last()) {
            Some(kept) => clean_step(kept, ids.last()),
            None => None,
        }
    }
}

/// Message for an over-long identifier.
pub open spec fn id_too_long_text() -> Seq<char> {
    "网卡标识过长：上限 "@ + dec(MAX_ID_LEN as nat) + " 字节"@
}

/// Message for a selection naming too many adapters.
pub open spec fn too_many_text(count: nat) -> Seq<char> {
    "一次最多监测 "@ + dec(MAX_SELECTION as nat) + " 块网卡（收到 "@ + dec(count) + "）"@
}

/// Cleans a requested monitoring selection: identifiers are trimmed, blanks
/// skipped and repeats dropped (first occurrence kept, order preserved). An
/// identifier over `MAX_ID_LEN` bytes, or more than `MAX_SELECTION` distinct
/// identifiers, refuse the request instead of being silently cut.
pub fn clean_selection(ids: &Vec<String>) -> (r: Result<Vec<String>, CoreError>)
    ensures
        cleaned(views(ids@)) is None ==> (r matches Err(e) && e is InvalidInput && error_text(e)
            == id_too_long_text()),
        cleaned(views(ids@)) matches Some(kept) ==> (if kept.len() > MAX_SELECTION {
            (r matches Err(e) && e is InvalidInput && error_text(e) == too_many_text(kept.len()))
        } else {
            (r matches Ok(v) && views(v@) == kept)
        }),
{
    let mut kept: Vec<String> = Vec::new();
    let mut i: usize = 0;
    while i < ids.len()
        invariant
            i <= ids@.len(),
            cleaned(views(ids@).take(i as int)) == Some(views(kept@)),
        decreases ids.len() - i,
    {
        proof {
            assert(views(ids@).take(i + 1).drop_last() =~= views(ids@).take(i as int));
            assert(views(ids@).take(i + 1).last() == ids@[i as int]@);
        }
        let chars = trimmed(ids[i].as_str());
        if chars.len() > 0 {
            let id = string_of(&chars);
            if id.as_str().len() > MAX_ID_LEN {
                proof {
                    lemma_cleaned_none_extends(views(ids@), i as int + 1);
                }
                let mut message = String::new();
                push_str(&mut message, "网卡标识过长：上限 ");
                push_decimal(&mut message, MAX_ID_LEN as u64);
                push_str(&mut message, " 字节");
                return Err(CoreError::InvalidInput(message));
            }
            if !selection_contains(&kept, &id) {
                let ghost before = kept@;
                kept.push(id);
                assert(views(kept@) =~= views(before).push(chars@));
            }
        }
        i = i + 1;
    }
    assert(views(ids@).take(ids@.len() as int) =~= views(ids@));
    if kept.len() > MAX_SELECTION {
        let mut message = String::new();
        push_str(&mut message, "一次最多监测 ");
        push_decimal(&mut message, MAX_SELECTION as u64);
        push_str(&mut message, " 块网卡（收到 ");
        push_decimal(&mut message, kept.len() as u64);
        push_str(&mut message, "）");
        return Err(CoreError::InvalidInput(message));
    }
    Ok(kept)
}

proof fn lemma_cleaned_none_extends(ids: Seq<Seq<char>>, i: int)
    requires
        0 < i <= ids.len(),
        cleaned(ids.take(i)) is None,
    ensures
        cleaned(ids) is None,
    decreases ids.len() - i,
{
    if i < ids.len() {
        assert(ids.take(i + 1).drop_last() =~= ids.take(i));
        lemma_cleaned_none_extends(ids, i + 1);
    } else {
        assert(ids.take(i) =~= ids);
    }
}

/// No identifier appears twice, and none is blank.
pub open spec fn distinct_ids(kept: Seq<Seq<char>>) -> bool {
    &&& forall|i: int, j: int| 0 <= i < j < kept.len() ==> kept[i] != kept[j]
    &&& forall|i: int| 0 <= i < kept.len() ==> (#[trigger] kept[i]).len() > 0
}

/// A cleaned selection names each adapter once and holds no blank entry,
/// however the request repeated or padded its identifiers.
pub proof fn law_cleaned_selection_is_distinct(ids: Seq<Seq<char>>)
    ensures
        cleaned(ids) matches Some(kept) ==> distinct_ids(kept),
    decreases ids.len(),
{
    if ids.len() > 0 {
        law_cleaned_selection_is_distinct(ids.drop_last());
        match cleaned(ids.drop_last()) {
            Some(kept) => {
                let t = trim(ids.last());
                if t.len() > 0 && utf8_len(t) <= MAX_ID_LEN && !kept.contains(t) {
                    let next = kept.push(t);
                    assert forall|i: int, j: int| 0 <= i < j < next.len() implies next[i]
                        != next[j] by {
                        if j == kept.len() {
                            assert(next[i] == kept[i]);
                        }
                    }
                }
            },
            None => {},
        }
    }
}

// ---------------------------------------------------------------------------
// Event list
// ---------------------------------------------------------------------------

/// Puts a new event in front of the list and drops the oldest beyond
/// `NIC_EVENT_LIMIT`.
pub fn push_event(events: &mut Vec<NicEvent>, event: NicEvent)
    requires
        old(events)@.len() <= NIC_EVENT_LIMIT,
    ensures
        final(events)@ == if old(events)@.len() < NIC_EVENT_LIMIT {
            seq![event] + old(events)@
        } else {
            (seq![event] + old(events)@).take(NIC_EVENT_LIMIT as int)
        },
{
    events.insert(0, event);
    if events.len() > NIC_EVENT_LIMIT {
        events.truncate(NIC_EVENT_LIMIT);
    }
    assert(final_events_shape(events@, event, old(events)@));
}

spec fn final_events_shape(now: Seq<NicEvent>, event: NicEvent, before: Seq<NicEvent>) -> bool {
    now =~= if before.len() < NIC_EVENT_LIMIT {
        seq![event] + before
    } else {
        (seq![event] + before).take(NIC_EVENT_LIMIT as int)
    }
}

} // verus!
