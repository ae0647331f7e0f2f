//! The NIC report that a user pastes to a maintainer: platform and scope,
//! the capability boundary, every watched adapter with its readings and
//! counters, and the latest events.
//!
//! Rates, utilisations and link speeds are measured in floating point by the
//! caller, which hands them over already rendered.
use vstd::prelude::*;

use crate::contract::NicEvent;
use crate::nic::{CAPABILITY_NOTE, NIC_SAMPLE_MS};
use crate::nicmon::{class_label, oper_status_label, spec_oper_status_label, RawAdapter};
use crate::text::{dec, occurs_at, push_decimal, push_str};

verus! {

/// How many events the report lists (the newest ones).
pub const REPORT_EVENTS: usize = 20;

/// One watched adapter with its rendered readings.
#[derive(Debug, Clone)]
pub struct ReportRow {
    pub adapter: RawAdapter,
    /// Negotiated transmit speed, rendered.
    pub transmit_speed: String,
    /// Negotiated receive speed, rendered.
    pub receive_speed: String,
    /// Receive rate in MB/s, rendered.
    pub rx_mbps: String,
    /// Receive utilisation in percent, rendered.
    pub rx_utilization: String,
    /// Transmit rate in MB/s, rendered.
    pub tx_mbps: String,
    /// Transmit utilisation in percent, rendered.
    pub tx_utilization: String,
}

/// The report's opening: platform, sampling, scope, the last sampling error
/// when there is one, and the capability boundary.
pub open spec fn header_text(
    platform: Seq<char>,
    supported: bool,
    samples: u64,
    selected: nat,
    last_error: Seq<char>,
) -> Seq<char> {
    platform_line(platform, supported) + sampling_line(samples, selected) + error_line(last_error)
        + boundary_line()
}

/// `LoadLoom 网卡报告`, the platform and whether it can read counters.
pub open spec fn platform_line(platform: Seq<char>, supported: bool) -> Seq<char> {
    "LoadLoom 网卡报告\n平台："@ + platform + "（支持读取："@ + (if supported {
        "是"@
    } else {
        "否"@
    }) + "）\n"@
}

/// Sampling period, samples taken and scope.
pub open spec fn sampling_line(samples: u64, selected: nat) -> Seq<char> {
    "采样周期："@ + dec(NIC_SAMPLE_MS as nat) + " ms · 已采样 "@ + dec(samples as nat) + " 次 · 监测范围："@
        + scope_words(selected)
}

/// The scope: the default, or how many adapters were selected.
pub open spec fn scope_words(selected: nat) -> Seq<char> {
    if selected == 0 {
        "默认（全部物理网卡）\n"@
    } else {
        dec(selected) + " 块网卡（显式勾选）\n"@
    }
}

/// The last sampling error, when there is one.
pub open spec fn error_line(last_error: Seq<char>) -> Seq<char> {
    if last_error.len() > 0 {
        "最近一次采样错误："@ + last_error + "\n"@
    } else {
        Seq::empty()
    }
}

/// The capability boundary.
pub open spec fn boundary_line() -> Seq<char> {
    "能力边界："@ + CAPABILITY_NOTE@ + "\n"@
}

/// The block of one watched adapter.
pub open spec fn row_text(row: ReportRow) -> Seq<char> {
    row_head(row) + row_numbers(row)
}

/// Name, class, medium, driver and link of a watched adapter.
pub open spec fn row_head(row: ReportRow) -> Seq<char> {
    row_title(row.adapter) + row_driver(row.adapter) + row_link(row) + row_address(row.adapter)
}

/// Live readings and cumulative counters of a watched adapter.
pub open spec fn row_numbers(row: ReportRow) -> Seq<char> {
    row_live(row) + row_queue(row) + row_volume(row.adapter) + row_faults(row.adapter)
}

pub open spec fn row_title(a: RawAdapter) -> Seq<char> {
    "\n● "@ + a.name@ + " ["@ + class_label(a.class) + "] "@ + a.media@
}

pub open spec fn row_driver(a: RawAdapter) -> Seq<char> {
    "\n  驱动："@ + if a.description@.len() == 0 {
        "（驱动未提供）"@
    } else {
        a.description@
    }
}

pub open spec fn row_link(row: ReportRow) -> Seq<char> {
    "\n  链路："@ + spec_oper_status_label(row.adapter.oper_status) + " · 协商速率 发 "@
        + row.transmit_speed@ + " / 收 "@ + row.receive_speed@
}

pub open spec fn row_address(a: RawAdapter) -> Seq<char> {
    " · MTU "@ + dec(a.mtu as nat) + " · MAC "@ + if a.mac@.len() == 0 {
        "（无）"@
    } else {
        a.mac@
    }
}

pub open spec fn row_live(row: ReportRow) -> Seq<char> {
    "\n  实时：收 "@ + row.rx_mbps@ + " MB/s（"@ + row.rx_utilization@ + "%）· 发 "@
}

pub open spec fn row_queue(row: ReportRow) -> Seq<char> {
    row.tx_mbps@ + " MB/s（"@ + row.tx_utilization@ + "%）· 发送队列 "@ + dec(
        row.adapter.counters.out_queue_len as nat,
    ) + " 包\n"@
}

pub open spec fn row_volume(a: RawAdapter) -> Seq<char> {
    "  累计：收 "@ + dec(a.counters.in_octets as nat) + " / 发 "@ + dec(a.counters.out_octets as nat)
        + " 字节"@
}

pub open spec fn row_faults(a: RawAdapter) -> Seq<char> {
    " · 丢弃 收 "@ + dec(a.counters.in_discards as nat) + " / 发 "@ + dec(
        a.counters.out_discards as nat,
    ) + " · 错误 收 "@ + dec(a.counters.in_errors as nat) + " / 发 "@ + dec(
        a.counters.out_errors as nat,
    ) + " · 未知协议 "@ + dec(a.counters.in_unknown_protos as nat) + "\n"@
}

/// The line of one event.
pub open spec fn event_text(event: NicEvent) -> Seq<char> {
    "["@ + dec(event.at_ms as nat) + " ms] ("@ + event.code@ + ") "@ + event.adapter@ + " · "@
        + event.message@ + "\n"@
}

/// The blocks of the first `k` rows.
pub open spec fn rows_text(rows: Seq<ReportRow>, k: int) -> Seq<char>
    decreases k,
{
    if k <= 0 {
        Seq::empty()
    } else {
        rows_text(rows, k - 1) + row_text(rows[k - 1])
    }
}

/// The lines of the first `k` events.
pub open spec fn events_text(events: Seq<NicEvent>, k: int) -> Seq<char>
    decreases k,
{
    if k <= 0 {
        Seq::empty()
    } else {
        events_text(events, k - 1) + event_text(events[k - 1])
    }
}

/// The whole report.
pub open spec fn report_text(
    platform: Seq<char>,
    supported: bool,
    samples: u64,
    selected: nat,
    last_error: Seq<char>,
    rows: Seq<ReportRow>,
    events: Seq<NicEvent>,
) -> Seq<char> {
    header_text(platform, supported, samples, selected, last_error) + "\n--- 正在监测的网卡 ---\n"@ + (
    if rows.len() == 0 {
        "（无）\n"@
    } else {
        Seq::empty()
    }) + rows_text(rows, rows.len() as int) + "\n--- 最近事件（新的在前）---\n"@ + (if events.len()
        == 0 {
        "（暂无）\n"@
    } else {
        Seq::empty()
    }) + events_text(
        events,
        if events.len() < REPORT_EVENTS {
            events.len() as int
        } else {
            REPORT_EVENTS as int
        },
    )
}

/// The lines of the first `k` events lead the lines of the first `m`.
proof fn lemma_events_prefix(events: Seq<NicEvent>, k: int, m: int)
    requires
        0 <= k <= m,
    ensures
        events_text(events, k).len() <= events_text(events, m).len(),
        events_text(events, m).subrange(0, events_text(events, k).len() as int) == events_text(
            events,
            k,
        ),
    decreases m - k,
{
    if k < m {
        lemma_events_prefix(events, k, m - 1);
        let short = events_text(events, m - 1);
        assert(events_text(events, m) == short + event_text(events[m - 1]));
        assert(events_text(events, m).subrange(0, events_text(events, k).len() as int)
            =~= short.subrange(0, events_text(events, k).len() as int));
    } else {
        assert(events_text(events, m).subrange(0, events_text(events, m).len() as int)
            =~= events_text(events, m));
    }
}

/// How many of `n` events the report lists.
pub open spec fn listed_count(n: nat) -> int {
    if n < REPORT_EVENTS {
        n as int
    } else {
        REPORT_EVENTS as int
    }
}

/// The lines of `events[0..m]` stand in `r` at `offsets`, each starting
/// where the one before ends, the last one closing `r`.
pub open spec fn lines_at(r: Seq<char>, events: Seq<NicEvent>, m: int, offsets: Seq<int>) -> bool {
    &&& offsets.len() == m
    &&& forall|k: int| 0 <= k < m ==> occurs_at(r, event_text(events[k]), #[trigger] offsets[k])
    &&& forall|k: int|
        0 <= k < m - 1 ==> offsets[k + 1] == #[trigger] offsets[k] + event_text(events[k]).len()
    &&& m > 0 ==> offsets[m - 1] + event_text(events[m - 1]).len() == r.len()
}

/// The report ends with the lines of the newest events, at most
/// [`REPORT_EVENTS`] of them, in the order of the list (newest first): the
/// line of `events[k]` starts where the line of `events[k - 1]` ends, and the
/// last listed line closes the report.
pub proof fn law_events_follow_the_list_order(
    platform: Seq<char>,
    supported: bool,
    samples: u64,
    selected: nat,
    last_error: Seq<char>,
    rows: Seq<ReportRow>,
    events: Seq<NicEvent>,
)
    ensures
        ({
            let r = report_text(platform, supported, samples, selected, last_error, rows, events);
            let m = listed_count(events.len());
            exists|offsets: Seq<int>| #[trigger] lines_at(r, events, m, offsets)
        }),
{
    let r = report_text(platform, supported, samples, selected, last_error, rows, events);
    let m = listed_count(events.len());
    let all = events_text(events, m);
    let base = r.len() - all.len();
    assert(base >= 0);
    assert(r.subrange(base, r.len() as int) =~= all);
    let offsets = Seq::new(m as nat, |k: int| base + events_text(events, k).len());
    assert forall|k: int| 0 <= k < m implies occurs_at(r, event_text(events[k]), #[trigger] offsets[k])
        by {
        lemma_events_prefix(events, k + 1, m);
        let before = events_text(events, k);
        let upto = events_text(events, k + 1);
        assert(upto == before + event_text(events[k]));
        let line = event_text(events[k]);
        assert(upto.subrange(before.len() as int, upto.len() as int) =~= line);
        assert(all.subrange(before.len() as int, upto.len() as int) =~= line) by {
            assert(all.subrange(0, upto.len() as int) == upto);
            assert forall|j: int| 0 <= j < line.len() implies all.subrange(
                before.len() as int,
                upto.len() as int,
            )[j] == line[j] by {
                assert(all.subrange(0, upto.len() as int)[before.len() + j] == upto[before.len()
                    + j]);
            }
        }
        assert forall|j: int| 0 <= j < line.len() implies r.subrange(
            offsets[k],
            offsets[k] + line.len(),
        )[j] == line[j] by {
            assert(r.subrange(base, r.len() as int)[before.len() + j] == all[before.len() + j]);
            assert(all.subrange(before.len() as int, upto.len() as int)[j] == all[before.len()
                + j]);
        }
        assert(r.subrange(offsets[k], offsets[k] + line.len()) =~= line);
    }
    assert forall|k: int| 0 <= k < m - 1 implies offsets[k + 1] == #[trigger] offsets[k]
        + event_text(events[k]).len() by {
        assert(events_text(events, k + 1) == events_text(events, k) + event_text(events[k]));
    }
    if m > 0 {
        assert(events_text(events, m) == events_text(events, m - 1) + event_text(events[m - 1]));
    }
    assert(lines_at(r, events, m, offsets));
}

fn push_header(
    r: &mut String,
    platform: &str,
    supported: bool,
    samples: u64,
    selected: usize,
    last_error: &str,
)
    ensures
        final(r)@ == old(r)@ + header_text(platform@, supported, samples, selected as nat, last_error@),
{
    push_str(r, "LoadLoom 网卡报告\n平台：");
    push_str(r, platform);
    push_str(r, "（支持读取：");
    if supported {
        push_str(r, "是");
    } else {
        push_str(r, "否");
    }
    push_str(r, "）\n");
    let ghost first = r@;
    assert(first =~= old(r)@ + platform_line(platform@, supported));
    push_str(r, "采样周期：");
    push_decimal(r, NIC_SAMPLE_MS as u64);
    push_str(r, " ms · 已采样 ");
    push_decimal(r, samples);
    push_str(r, " 次 · 监测范围：");
    if selected == 0 {
        push_str(r, "默认（全部物理网卡）\n");
    } else {
        push_decimal(r, selected as u64);
        push_str(r, " 块网卡（显式勾选）\n");
    }
    let ghost second = r@;
    assert(second =~= first + sampling_line(samples, selected as nat));
    if crate::text::chars_of(last_error).len() > 0 {
        push_str(r, "最近一次采样错误：");
        push_str(r, last_error);
        push_str(r, "\n");
    }
    let ghost third = r@;
    assert(third =~= second + error_line(last_error@));
    push_str(r, "能力边界：");
    push_str(r, CAPABILITY_NOTE);
    push_str(r, "\n");
    assert(r@ =~= third + boundary_line());
    assert(r@ =~= old(r)@ + header_text(platform@, supported, samples, selected as nat, last_error@));
}

fn push_row_head(r: &mut String, row: &ReportRow)
    ensures
        final(r)@ == old(r)@ + row_head(*row),
{
    let a = &row.adapter;
    push_str(r, "\n● ");
    push_str(r, a.name.as_str());
    push_str(r, " [");
    push_str(r, a.class.label());
    push_str(r, "] ");
    push_str(r, a.media.as_str());
    let ghost first = r@;
    assert(first =~= old(r)@ + row_title(*a));
    push_str(r, "\n  驱动：");
    if crate::text::chars_of(a.description.as_str()).len() == 0 {
        push_str(r, "（驱动未提供）");
    } else {
        push_str(r, a.description.as_str());
    }
    let ghost second = r@;
    assert(second =~= first + row_driver(*a));
    push_str(r, "\n  链路：");
    push_str(r, oper_status_label(a.oper_status));
    push_str(r, " · 协商速率 发 ");
    push_str(r, row.transmit_speed.as_str());
    push_str(r, " / 收 ");
    push_str(r, row.receive_speed.as_str());
    let ghost third = r@;
    assert(third =~= second + row_link(*row));
    push_str(r, " · MTU ");
    push_decimal(r, a.mtu as u64);
    push_str(r, " · MAC ");
    if crate::text::chars_of(a.mac.as_str()).len() == 0 {
        push_str(r, "（无）");
    } else {
        push_str(r, a.mac.as_str());
    }
    assert(r@ =~= third + row_address(*a));
    assert(r@ =~= old(r)@ + row_head(*row));
}

fn push_row_numbers(r: &mut String, row: &ReportRow)
    ensures
        final(r)@ == old(r)@ + row_numbers(*row),
{
    let c = &row.adapter.counters;
    push_str(r, "\n  实时：收 ");
    push_str(r, row.rx_mbps.as_str());
    push_str(r, " MB/s（");
    push_str(r, row.rx_utilization.as_str());
    push_str(r, "%）· 发 ");
    let ghost first = r@;
    assert(first =~= old(r)@ + row_live(*row));
    push_str(r, row.tx_mbps.as_str());
    push_str(r, " MB/s（");
    push_str(r, row.tx_utilization.as_str());
    push_str(r, "%）· 发送队列 ");
    push_decimal(r, c.out_queue_len);
    push_str(r, " 包\n");
    let ghost second = r@;
    assert(second =~= first + row_queue(*row));
    push_str(r, "  累计：收 ");
    push_decimal(r, c.in_octets);
    push_str(r, " / 发 ");
    push_decimal(r, c.out_octets);
    push_str(r, " 字节");
    let ghost third = r@;
    assert(third =~= second + row_volume(row.adapter));
    push_str(r, " · 丢弃 收 ");
    push_decimal(r, c.in_discards);
    push_str(r, " / 发 ");
    push_decimal(r, c.out_discards);
    push_str(r, " · 错误 收 ");
    push_decimal(r, c.in_errors);
    push_str(r, " / 发 ");
    push_decimal(r, c.out_errors);
    push_str(r, " · 未知协议 ");
    push_decimal(r, c.in_unknown_protos);
    push_str(r, "\n");
    assert(r@ =~= third + row_faults(row.adapter));
    assert(r@ =~= old(r)@ + row_numbers(*row));
}

fn push_row(r: &mut String, row: &ReportRow)
    ensures
        final(r)@ == old(r)@ + row_text(*row),
{
    push_row_head(r, row);
    push_row_numbers(r, row);
    assert(r@ =~= old(r)@ + row_text(*row));
}

fn push_event_line(r: &mut String, event: &NicEvent)
    ensures
        final(r)@ == old(r)@ + event_text(*event),
{
    push_str(r, "[");
    push_decimal(r, event.at_ms);
    push_str(r, " ms] (");
    push_str(r, event.code.as_str());
    push_str(r, ") ");
    push_str(r, event.adapter.as_str());
    push_str(r, " · ");
    push_str(r, event.message.as_str());
    push_str(r, "\n");
    assert(r@ =~= old(r)@ + event_text(*event));
}

/// Renders the report. It states the capability boundary, so that a reader
/// knows that temperature and buffer occupancy are missing because consumer
/// hardware does not expose them, not because sampling failed.
pub fn render_report(
    platform: &str,
    supported: bool,
    samples: u64,
    selected: usize,
    last_error: &str,
    rows: &Vec<ReportRow>,
    events: &Vec<NicEvent>,
) -> (r: String)
    ensures
        r@ == report_text(
            platform@,
            supported,
            samples,
            selected as nat,
            last_error@,
            rows@,
            events@,
        ),
{
    let mut r = String::new();
    push_header(&mut r, platform, supported, samples, selected, last_error);
    push_str(&mut r, "\n--- 正在监测的网卡 ---\n");
    if rows.len() == 0 {
        push_str(&mut r, "（无）\n");
    }
    let ghost start = r@;
    let mut i: usize = 0;
    while i < rows.len()
        invariant
            i <= rows@.len(),
            r@ == start + rows_text(rows@, i as int),
        decreases rows.len() - i,
    {
        push_row(&mut r, &rows[i]);
        i = i + 1;
    }
    push_str(&mut r, "\n--- 最近事件（新的在前）---\n");
    if events.len() == 0 {
        push_str(&mut r, "（暂无）\n");
    }
    let ghost middle = r@;
    let mut k: usize = 0;
    while k < events.len() && k < REPORT_EVENTS
        invariant
            k <= events@.len(),
            k <= REPORT_EVENTS,
            r@ == middle + events_text(events@, k as int),
        decreases events.len() - k,
    {
        push_event_line(&mut r, &events[k]);
        k = k + 1;
    }
    assert(r@ =~= report_text(
        platform@,
        supported,
        samples,
        selected as nat,
        last_error@,
        rows@,
        events@,
    ));
    r
}

} // verus!
