//! Bookkeeping of the NIC monitor around the per-frame analysis: which
//! adapters stay watched when the scope changes, and the log lines that tell
//! what the monitor saw and did (start banner, first-sample inventory, scope
//! changes, vanished adapters, throttled sampling failures).
use vstd::prelude::*;

use crate::codes;
use crate::contract::LogLevel;
use crate::nic::{selection_contains, Memory, CAPABILITY_NOTE, NIC_SAMPLE_MS};
use crate::nicmon::{class_label, AdapterClass, RawAdapter};
use crate::text::{chars_of, dec, join, joined, push_char, push_decimal, push_str, views};

verus! {

/// How many watched adapters the inventory names before summarising.
pub const INVENTORY_NAMES: usize = 8;

/// What the monitor keeps of one adapter between frames, besides the rates.
#[derive(Debug, Clone, Copy, PartialEq, Eq, Structural)]
pub struct Watch {
    /// The analysis memory (`None`: the next frame sets a new baseline).
    pub memory: Option<Memory>,
    pub monitored: bool,
}

/// Applies a new scope decision to an adapter. An adapter that stops being
/// watched loses its baseline: should it be watched again, the counters that
/// grew meanwhile must not read as one interval's traffic. Returns whether
/// the baseline was dropped (its rates then read zero too).
pub fn rescope(watch: &mut Watch, monitored: bool) -> (dropped: bool)
    ensures
        dropped == (old(watch).monitored && !monitored),
        final(watch).monitored == monitored,
        final(watch).memory == if dropped {
            None
        } else {
            old(watch).memory
        },
{
    let dropped = watch.monitored && !monitored;
    if dropped {
        watch.memory = None;
    }
    watch.monitored = monitored;
    dropped
}

/// The identifiers of `selection` absent from `known`, in selection order.
pub open spec fn missing(selection: Seq<Seq<char>>, known: Seq<Seq<char>>) -> Seq<Seq<char>>
    decreases selection.len(),
{
    if selection.len() == 0 {
        Seq::empty()
    } else {
        let rest = missing(selection.drop_last(), known);
        if known.contains(selection.last()) {
            rest
        } else {
            rest.push(selection.last())
        }
    }
}

/// The selected identifiers that no listed adapter carries right now.
pub fn missing_ids(selection: &Vec<String>, known: &Vec<String>) -> (r: Vec<String>)
    ensures
        views(r@) == missing(views(selection@), views(known@)),
{
    let mut r: Vec<String> = Vec::new();
    let mut i: usize = 0;
    while i < selection.len()
        invariant
            i <= selection@.len(),
            views(r@) == missing(views(selection@).take(i as int), views(known@)),
        decreases selection.len() - i,
    {
        proof {
            assert(views(selection@).take(i + 1).drop_last() =~= views(selection@).take(i as int));
        }
        if !selection_contains(known, &selection[i]) {
            let mut id = String::new();
            push_str(&mut id, selection[i].as_str());
            let ghost before = r@;
            r.push(id);
            assert(views(r@) =~= views(before).push(selection@[i as int]@));
        }
        i = i + 1;
    }
    assert(views(selection@).take(selection@.len() as int) =~= views(selection@));
    r
}

/// Text of the note on selected adapters that are not listed right now.
pub open spec fn missing_text(ids: Seq<Seq<char>>) -> Seq<char> {
    "以下网卡当前不在接口列表里（可能已拔出 / 已禁用），插回后会自动恢复监测："@ + joined(ids, "、"@)
}

/// The note on selected adapters that are not listed right now (`None` when
/// every selected adapter is listed). They stay selected: an adapter that was
/// unplugged is watched again as soon as it comes back.
pub fn missing_note(selection: &Vec<String>, known: &Vec<String>) -> (r: Option<String>)
    ensures
        ({
            let gone = missing(views(selection@), views(known@));
            if gone.len() == 0 {
                r is None
            } else {
                r matches Some(text) && text@ == missing_text(gone)
            }
        }),
{
    let gone = missing_ids(selection, known);
    if gone.len() == 0 {
        return None;
    }
    let mut text = String::new();
    push_str(&mut text, "以下网卡当前不在接口列表里（可能已拔出 / 已禁用），插回后会自动恢复监测：");
    let list = join(&gone, "、");
    push_str(&mut text, list.as_str());
    Some(text)
}

/// Text of the scope-change line.
pub open spec fn scope_text(count: nat) -> Seq<char> {
    "监测范围已更新："@ + if count == 0 {
        "默认（全部物理网卡）"@
    } else {
        dec(count) + " 块网卡"@
    }
}

/// The scope-change line for a selection of `count` adapters.
pub fn scope_message(count: usize) -> (r: String)
    ensures
        r@ == scope_text(count as nat),
{
    let mut r = String::new();
    push_str(&mut r, "监测范围已更新：");
    if count == 0 {
        push_str(&mut r, "默认（全部物理网卡）");
    } else {
        push_decimal(&mut r, count as u64);
        push_str(&mut r, " 块网卡");
    }
    r
}

/// Text of the line for an adapter that left the interface list.
pub open spec fn vanished_text(name: Seq<char>) -> Seq<char> {
    "网卡「"@ + name + "」已从接口列表消失（拔出 / 禁用 / 驱动卸载）；勾选会保留，插回后自动恢复监测"@
}

/// The line for an adapter that left the interface list.
pub fn vanished_message(name: &str) -> (r: String)
    ensures
        r@ == vanished_text(name@),
{
    let mut r = String::new();
    push_str(&mut r, "网卡「");
    push_str(&mut r, name);
    push_str(&mut r, "」已从接口列表消失（拔出 / 禁用 / 驱动卸载）；勾选会保留，插回后自动恢复监测");
    r
}

/// Text of a logged sampling failure.
pub open spec fn sample_failed_text(samples: u64, detail: Seq<char>) -> Seq<char> {
    "网卡采样失败（第 "@ + dec(samples as nat) + " 次，按里程碑节流）："@ + detail
}

/// The log line of the `samples`-th sample when it failed with `detail`:
/// only milestones are written, so that a broken driver cannot push every
/// earlier line out of the rotating log.
pub fn sample_failure(samples: u64, detail: &str) -> (r: Option<String>)
    ensures
        codes::milestone(samples) ==> (r matches Some(text) && text@ == sample_failed_text(
            samples,
            detail@,
        )),
        !codes::milestone(samples) ==> r is None,
{
    if !codes::is_log_milestone(samples) {
        return None;
    }
    let mut r = String::new();
    push_str(&mut r, "网卡采样失败（第 ");
    push_decimal(&mut r, samples);
    push_str(&mut r, " 次，按里程碑节流）：");
    push_str(&mut r, detail);
    Some(r)
}

/// The start banner: level, code and text. An unsupported platform warns.
pub open spec fn banner_line(supported: bool, platform: Seq<char>) -> (LogLevel, Seq<char>, Seq<char>) {
    if supported {
        (
            LogLevel::Info,
            codes::nic::MONITOR_READY@,
            "网卡监测已启动 · 平台 "@ + platform + " · 采样 "@ + dec(NIC_SAMPLE_MS as nat) + " ms · "@
                + CAPABILITY_NOTE@,
        )
    } else {
        (
            LogLevel::Warn,
            codes::nic::UNSUPPORTED@,
            "网卡监测在当前平台不可用（"@ + platform + "）："@ + CAPABILITY_NOTE@,
        )
    }
}

/// The start banner of the monitor.
pub fn banner(supported: bool, platform: &str) -> (r: (LogLevel, &'static str, String))
    ensures
        (r.0, r.1@, r.2@) == banner_line(supported, platform@),
{
    let mut text = String::new();
    if supported {
        push_str(&mut text, "网卡监测已启动 · 平台 ");
        push_str(&mut text, platform);
        push_str(&mut text, " · 采样 ");
        push_decimal(&mut text, NIC_SAMPLE_MS as u64);
        push_str(&mut text, " ms · ");
        push_str(&mut text, CAPABILITY_NOTE);
        (LogLevel::Info, codes::nic::MONITOR_READY, text)
    } else {
        push_str(&mut text, "网卡监测在当前平台不可用（");
        push_str(&mut text, platform);
        push_str(&mut text, "）：");
        push_str(&mut text, CAPABILITY_NOTE);
        (LogLevel::Warn, codes::nic::UNSUPPORTED, text)
    }
}

/// Text of the error recorded when the platform cannot read counters.
pub open spec fn unsupported_text(platform: Seq<char>) -> Seq<char> {
    "当前平台（"@ + platform + "）不支持读取网卡计数器"@
}

/// The error recorded when the platform cannot read counters.
pub fn unsupported_error(platform: &str) -> (r: String)
    ensures
        r@ == unsupported_text(platform@),
{
    let mut r = String::new();
    push_str(&mut r, "当前平台（");
    push_str(&mut r, platform);
    push_str(&mut r, "）不支持读取网卡计数器");
    r
}

// ---------------------------------------------------------------------------
// First-sample inventory
// ---------------------------------------------------------------------------

/// How many adapters of `class` the list holds.
pub open spec fn class_count(adapters: Seq<RawAdapter>, class: AdapterClass) -> nat
    decreases adapters.len(),
{
    if adapters.len() == 0 {
        0
    } else {
        class_count(adapters.drop_last(), class) + if adapters.last().class == class {
            1nat
        } else {
            0nat
        }
    }
}

/// `label count` for a class present in the list, nothing otherwise.
pub open spec fn class_part(adapters: Seq<RawAdapter>, class: AdapterClass) -> Seq<Seq<char>> {
    let n = class_count(adapters, class);
    if n > 0 {
        seq![class_label(class) + seq![' '] + dec(n)]
    } else {
        Seq::empty()
    }
}

/// The per-class counts, physical adapters first.
pub open spec fn class_parts(adapters: Seq<RawAdapter>) -> Seq<Seq<char>> {
    class_part(adapters, AdapterClass::Physical) + class_part(adapters, AdapterClass::Virtual)
        + class_part(adapters, AdapterClass::Tunnel) + class_part(adapters, AdapterClass::Loopback)
        + class_part(adapters, AdapterClass::Other)
}

/// Names of the watched adapters, in list order.
pub open spec fn watched_names(adapters: Seq<RawAdapter>, watched: Seq<bool>) -> Seq<Seq<char>>
    decreases adapters.len(),
{
    if adapters.len() == 0 {
        Seq::empty()
    } else {
        let rest = watched_names(adapters.drop_last(), watched.take(adapters.len() - 1));
        if watched[adapters.len() - 1] {
            rest.push(adapters.last().name@)
        } else {
            rest
        }
    }
}

/// The inventory line of the first sample: how many interfaces of each class
/// were found and which are watched by default (the first
/// [`INVENTORY_NAMES`], then how many in all).
pub open spec fn inventory_text(adapters: Seq<RawAdapter>, watched: Seq<bool>) -> Seq<char> {
    let names = watched_names(adapters, watched);
    let shown = joined(names.take(
        if names.len() < INVENTORY_NAMES {
            names.len() as int
        } else {
            INVENTORY_NAMES as int
        },
    ), "、"@);
    "首次采样：发现 "@ + dec(adapters.len()) + " 个接口（"@ + joined(class_parts(adapters), " / "@)
        + "）· 默认监测 "@ + if shown.len() == 0 {
        "（无）"@
    } else if names.len() > INVENTORY_NAMES {
        shown + " 等 "@ + dec(names.len()) + " 块"@
    } else {
        shown
    }
}

/// Counts the adapters of one class.
fn count_class(adapters: &Vec<RawAdapter>, class: AdapterClass) -> (r: usize)
    ensures
        r == class_count(adapters@, class),
{
    let mut n: usize = 0;
    let mut i: usize = 0;
    while i < adapters.len()
        invariant
            i <= adapters@.len(),
            n == class_count(adapters@.take(i as int), class),
            n <= i,
        decreases adapters.len() - i,
    {
        proof {
            assert(adapters@.take(i + 1).drop_last() =~= adapters@.take(i as int));
        }
        if adapters[i].class == class {
            n = n + 1;
        }
        i = i + 1;
    }
    assert(adapters@.take(adapters@.len() as int) =~= adapters@);
    n
}

/// Appends the part of one class.
fn push_class_part(parts: &mut Vec<String>, adapters: &Vec<RawAdapter>, class: AdapterClass)
    ensures
        views(final(parts)@) == views(old(parts)@) + class_part(adapters@, class),
{
    let n = count_class(adapters, class);
    if n > 0 {
        let mut part = String::new();
        push_str(&mut part, class.label());
        push_char(&mut part, ' ');
        push_decimal(&mut part, n as u64);
        assert(part@ =~= class_label(class) + seq![' '] + dec(n as nat));
        assert(class_part(adapters@, class) == seq![part@]);
        let ghost before = parts@;
        parts.push(part);
        assert(views(parts@) =~= views(before) + class_part(adapters@, class));
    } else {
        assert(views(parts@) =~= views(parts@) + class_part(adapters@, class));
    }
}

/// The inventory line of the first sample; `watched[i]` tells whether
/// `adapters[i]` is watched.
pub fn inventory_message(adapters: &Vec<RawAdapter>, watched: &Vec<bool>) -> (r: String)
    requires
        watched@.len() == adapters@.len(),
    ensures
        r@ == inventory_text(adapters@, watched@),
{
    let mut parts: Vec<String> = Vec::new();
    push_class_part(&mut parts, adapters, AdapterClass::Physical);
    push_class_part(&mut parts, adapters, AdapterClass::Virtual);
    push_class_part(&mut parts, adapters, AdapterClass::Tunnel);
    push_class_part(&mut parts, adapters, AdapterClass::Loopback);
    push_class_part(&mut parts, adapters, AdapterClass::Other);
    assert(views(parts@) =~= class_parts(adapters@));
    let mut names: Vec<String> = Vec::new();
    let mut i: usize = 0;
    while i < adapters.len()
        invariant
            i <= adapters@.len(),
            watched@.len() == adapters@.len(),
            views(names@) == watched_names(adapters@.take(i as int), watched@.take(i as int)),
            names@.len() <= i,
        decreases adapters.len() - i,
    {
        proof {
            assert(adapters@.take(i + 1).drop_last() =~= adapters@.take(i as int));
            assert(watched@.take(i + 1).take(i as int) =~= watched@.take(i as int));
        }
        if watched[i] {
            let mut name = String::new();
            push_str(&mut name, adapters[i].name.as_str());
            let ghost before = names@;
            names.push(name);
            assert(views(names@) =~= views(before).push(adapters@[i as int].name@));
        }
        i = i + 1;
    }
    assert(adapters@.take(adapters@.len() as int) =~= adapters@);
    assert(watched@.take(watched@.len() as int) =~= watched@);
    let mut first: Vec<String> = Vec::new();
    let mut k: usize = 0;
    while k < names.len() && k < INVENTORY_NAMES
        invariant
            k <= names@.len(),
            k <= INVENTORY_NAMES,
            views(first@) == views(names@).take(k as int),
        decreases names.len() - k,
    {
        let mut name = String::new();
        push_str(&mut name, names[k].as_str());
        let ghost before = first@;
        assert(name@ == views(names@)[k as int]);
        first.push(name);
        assert(views(first@) =~= views(before).push(views(names@)[k as int]));
        assert(views(first@) =~= views(names@).take(k + 1));
        k = k + 1;
    }
    let shown = join(&first, "、");
    let mut r = String::new();
    push_str(&mut r, "首次采样：发现 ");
    push_decimal(&mut r, adapters.len() as u64);
    push_str(&mut r, " 个接口（");
    let listed = join(&parts, " / ");
    push_str(&mut r, listed.as_str());
    push_str(&mut r, "）· 默认监测 ");
    if chars_of(shown.as_str()).len() == 0 {
        push_str(&mut r, "（无）");
    } else if names.len() > INVENTORY_NAMES {
        push_str(&mut r, shown.as_str());
        push_str(&mut r, " 等 ");
        push_decimal(&mut r, names.len() as u64);
        push_str(&mut r, " 块");
    } else {
        push_str(&mut r, shown.as_str());
    }
    r
}

} // verus!
