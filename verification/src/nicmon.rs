//! NIC facts as the operating system reports them: adapter classes, the raw
//! counters, link signals, status labels and the classification of an
//! interface from its name and driver flags.
//!
//! Reading the interface table itself is platform I/O and happens outside the
//! library; everything that turns what was read into a decision lives here.
use vstd::prelude::*;

use crate::text::{
    chars_lt, chars_of, contains, contains_chars, dec, hex, lemma_lex_irreflexive,
    lemma_lex_total, lemma_lex_transitive, lex_lt, lower, lower_chars, push_char, push_decimal,
    push_hex_padded, push_str, zero_pad,
};

verus! {

/// `IF_OPER_STATUS`: link usable.
pub const IF_OPER_UP: u32 = 1;
/// `IF_OPER_STATUS`: link down.
pub const IF_OPER_DOWN: u32 = 2;
/// `IF_OPER_STATUS`: self-test in progress.
pub const IF_OPER_TESTING: u32 = 3;
/// `IF_OPER_STATUS`: unknown.
pub const IF_OPER_UNKNOWN: u32 = 4;
/// `IF_OPER_STATUS`: dormant (waiting for dial-up or Wi-Fi association).
pub const IF_OPER_DORMANT: u32 = 5;
/// `IF_OPER_STATUS`: device not present (unplugged or disabled).
pub const IF_OPER_NOT_PRESENT: u32 = 6;
/// `IF_OPER_STATUS`: lower layer down.
pub const IF_OPER_LOWER_LAYER_DOWN: u32 = 7;

/// `NET_IF_MEDIA_CONNECT_STATE`: unknown.
pub const MEDIA_CONNECT_UNKNOWN: u32 = 0;
/// `NET_IF_MEDIA_CONNECT_STATE`: connected.
pub const MEDIA_CONNECT_CONNECTED: u32 = 1;
/// `NET_IF_MEDIA_CONNECT_STATE`: disconnected.
pub const MEDIA_CONNECT_DISCONNECTED: u32 = 2;

/// IANA `ifType`: Ethernet.
pub const IF_TYPE_ETHERNET_CSMACD: u32 = 6;
/// IANA `ifType`: software loopback.
pub const IF_TYPE_SOFTWARE_LOOPBACK: u32 = 24;
/// IANA `ifType`: IEEE 802.11.
pub const IF_TYPE_IEEE80211: u32 = 71;
/// IANA `ifType`: tunnel.
pub const IF_TYPE_TUNNEL: u32 = 131;
/// IANA `ifType`: WiMAX.
pub const IF_TYPE_IEEE80216_WMAN: u32 = 237;
/// IANA `ifType`: 3GPP mobile broadband.
pub const IF_TYPE_WWANPP: u32 = 243;

/// `NDIS_MEDIUM`: 802.3.
pub const MEDIA_802_3: u32 = 0;
/// `NDIS_MEDIUM`: wireless WAN.
pub const MEDIA_WIRELESS_WAN: u32 = 9;
/// `NDIS_MEDIUM`: tunnel.
pub const MEDIA_TUNNEL: u32 = 15;
/// `NDIS_MEDIUM`: native 802.11.
pub const MEDIA_NATIVE_802_11: u32 = 16;
/// `NDIS_MEDIUM`: loopback.
pub const MEDIA_LOOPBACK: u32 = 17;

/// Adapter class. Only `Physical` adapters are watched by default.
#[derive(Debug, Clone, Copy, PartialEq, Eq, Structural)]
pub enum AdapterClass {
    Physical,
    Virtual,
    Loopback,
    Tunnel,
    Other,
}

/// Stable wire identifier of a class.
pub open spec fn class_id(class: AdapterClass) -> Seq<char> {
    match class {
        AdapterClass::Physical => "physical"@,
        AdapterClass::Virtual => "virtual"@,
        AdapterClass::Loopback => "loopback"@,
        AdapterClass::Tunnel => "tunnel"@,
        AdapterClass::Other => "other"@,
    }
}

/// Display label of a class.
pub open spec fn class_label(class: AdapterClass) -> Seq<char> {
    match class {
        AdapterClass::Physical => "物理网卡"@,
        AdapterClass::Virtual => "虚拟网卡"@,
        AdapterClass::Loopback => "回环"@,
        AdapterClass::Tunnel => "隧道"@,
        AdapterClass::Other => "其它接口"@,
    }
}

impl AdapterClass {
    /// Stable lower-camel identifier, aligned with the wire `NicAdapterClass`.
    pub fn as_str(self) -> (r: &'static str)
        ensures
            r@ == class_id(self),
    {
        match self {
            AdapterClass::Physical => "physical",
            AdapterClass::Virtual => "virtual",
            AdapterClass::Loopback => "loopback",
            AdapterClass::Tunnel => "tunnel",
            AdapterClass::Other => "other",
        }
    }

    /// Display label.
    pub fn label(self) -> (r: &'static str)
        ensures
            r@ == class_label(self),
    {
        match self {
            AdapterClass::Physical => "物理网卡",
            AdapterClass::Virtual => "虚拟网卡",
            AdapterClass::Loopback => "回环",
            AdapterClass::Tunnel => "隧道",
            AdapterClass::Other => "其它接口",
        }
    }

    /// Whether the class is watched when the user selected nothing.
    pub fn monitored_by_default(self) -> (r: bool)
        ensures
            r == (self == AdapterClass::Physical),
    {
        match self {
            AdapterClass::Physical => true,
            _ => false,
        }
    }
}

/// Cumulative counters as read (a reinserted adapter or a reloaded driver
/// resets them to zero).
#[derive(Debug, Clone, Copy, PartialEq, Eq)]
pub struct Counters {
    pub in_octets: u64,
    pub in_ucast_pkts: u64,
    pub in_nucast_pkts: u64,
    pub in_discards: u64,
    pub in_errors: u64,
    pub in_unknown_protos: u64,
    pub out_octets: u64,
    pub out_ucast_pkts: u64,
    pub out_nucast_pkts: u64,
    pub out_discards: u64,
    pub out_errors: u64,
    /// Packets currently waiting in the send queue (`OutQLen`).
    pub out_queue_len: u64,
}

impl Default for Counters {
    fn default() -> (r: Self)
        ensures
            r.in_octets == 0 && r.in_ucast_pkts == 0 && r.in_nucast_pkts == 0 && r.in_discards == 0
                && r.in_errors == 0 && r.in_unknown_protos == 0 && r.out_octets == 0
                && r.out_ucast_pkts == 0 && r.out_nucast_pkts == 0 && r.out_discards == 0
                && r.out_errors == 0 && r.out_queue_len == 0,
    {
        Counters {
            in_octets: 0,
            in_ucast_pkts: 0,
            in_nucast_pkts: 0,
            in_discards: 0,
            in_errors: 0,
            in_unknown_protos: 0,
            out_octets: 0,
            out_ucast_pkts: 0,
            out_nucast_pkts: 0,
            out_discards: 0,
            out_errors: 0,
            out_queue_len: 0,
        }
    }
}

impl Counters {
    /// Whether the byte counters went backwards since `previous` (only a reset
    /// can make a cumulative counter shrink).
    pub fn regressed_from(&self, previous: &Counters) -> (r: bool)
        ensures
            r == (self.in_octets < previous.in_octets || self.out_octets < previous.out_octets),
    {
        self.in_octets < previous.in_octets || self.out_octets < previous.out_octets
    }

    /// What each cumulative counter grew by since `previous` (a counter that
    /// shrank grew by nothing); the send queue keeps its current length, since
    /// it is a level and not a count.
    pub fn growth_since(&self, previous: &Counters) -> (r: Counters)
        ensures
            r.in_octets == grown(self.in_octets, previous.in_octets),
            r.in_ucast_pkts == grown(self.in_ucast_pkts, previous.in_ucast_pkts),
            r.in_nucast_pkts == grown(self.in_nucast_pkts, previous.in_nucast_pkts),
            r.in_discards == grown(self.in_discards, previous.in_discards),
            r.in_errors == grown(self.in_errors, previous.in_errors),
            r.in_unknown_protos == grown(self.in_unknown_protos, previous.in_unknown_protos),
            r.out_octets == grown(self.out_octets, previous.out_octets),
            r.out_ucast_pkts == grown(self.out_ucast_pkts, previous.out_ucast_pkts),
            r.out_nucast_pkts == grown(self.out_nucast_pkts, previous.out_nucast_pkts),
            r.out_discards == grown(self.out_discards, previous.out_discards),
            r.out_errors == grown(self.out_errors, previous.out_errors),
            r.out_queue_len == self.out_queue_len,
    {
        Counters {
            in_octets: self.in_octets.saturating_sub(previous.in_octets),
            in_ucast_pkts: self.in_ucast_pkts.saturating_sub(previous.in_ucast_pkts),
            in_nucast_pkts: self.in_nucast_pkts.saturating_sub(previous.in_nucast_pkts),
            in_discards: self.in_discards.saturating_sub(previous.in_discards),
            in_errors: self.in_errors.saturating_sub(previous.in_errors),
            in_unknown_protos: self.in_unknown_protos.saturating_sub(previous.in_unknown_protos),
            out_octets: self.out_octets.saturating_sub(previous.out_octets),
            out_ucast_pkts: self.out_ucast_pkts.saturating_sub(previous.out_ucast_pkts),
            out_nucast_pkts: self.out_nucast_pkts.saturating_sub(previous.out_nucast_pkts),
            out_discards: self.out_discards.saturating_sub(previous.out_discards),
            out_errors: self.out_errors.saturating_sub(previous.out_errors),
            out_queue_len: self.out_queue_len,
        }
    }
}

/// The growth of a cumulative counter from `before` to `now`, 0 when it shrank.
pub open spec fn grown(now: u64, before: u64) -> u64 {
    if now >= before {
        (now - before) as u64
    } else {
        0
    }
}

/// One adapter as sampled (read-only data, nothing inferred).
#[derive(Debug, Clone, PartialEq, Eq)]
pub struct RawAdapter {
    /// Stable identifier (LUID).
    pub id: String,
    pub index: u32,
    pub luid: u64,
    pub name: String,
    pub description: String,
    pub class: AdapterClass,
    pub media: String,
    /// MAC address; empty when the adapter has no physical address.
    pub mac: String,
    pub mtu: u32,
    /// Raw `IF_OPER_STATUS`.
    pub oper_status: u32,
    /// Raw `NET_IF_ADMIN_STATUS` (1 = enabled).
    pub admin_status: u32,
    /// Raw `NET_IF_MEDIA_CONNECT_STATE`.
    pub connect_state: u32,
    pub hardware: bool,
    pub connector_present: bool,
    /// The driver's "media not connected" flag.
    pub not_media_connected: bool,
    /// Negotiated transmit speed (bit/s, 0 = unknown).
    pub transmit_speed_bps: u64,
    /// Negotiated receive speed (bit/s).
    pub receive_speed_bps: u64,
    pub counters: Counters,
}

/// The link is up: operational status up, media not reported disconnected, and
/// the driver flag does not say "not connected".
pub open spec fn spec_link_up(adapter: RawAdapter) -> bool {
    adapter.oper_status == IF_OPER_UP && adapter.connect_state != MEDIA_CONNECT_DISCONNECTED
        && !adapter.not_media_connected
}

/// Negotiated speed: the larger of the two directions.
pub open spec fn spec_link_speed(adapter: RawAdapter) -> u64 {
    if adapter.transmit_speed_bps >= adapter.receive_speed_bps {
        adapter.transmit_speed_bps
    } else {
        adapter.receive_speed_bps
    }
}

impl RawAdapter {
    /// Whether the link is connected and usable (all three signals agree).
    pub fn link_up(&self) -> (r: bool)
        ensures
            r == spec_link_up(*self),
    {
        self.oper_status == IF_OPER_UP && self.connect_state != MEDIA_CONNECT_DISCONNECTED
            && !self.not_media_connected
    }

    /// Negotiated speed (the larger direction; half-duplex reports both equal).
    pub fn link_speed_bps(&self) -> (r: u64)
        ensures
            r == spec_link_speed(*self),
    {
        if self.transmit_speed_bps >= self.receive_speed_bps {
            self.transmit_speed_bps
        } else {
            self.receive_speed_bps
        }
    }
}

/// Sampling error. It carries no event code: the caller decides the code.
#[derive(Debug, Clone, PartialEq, Eq)]
pub struct NicError {
    pub kind: NicErrorKind,
    /// Human-readable detail (with the Win32 status when there is one).
    pub detail: String,
}

/// Sampling error kind.
#[derive(Debug, Clone, Copy, PartialEq, Eq, Structural)]
pub enum NicErrorKind {
    /// Not implemented on this platform.
    Unsupported,
    /// The system call returned an error.
    CallFailed,
    /// The call succeeded but returned unusable data.
    Malformed,
}

/// Detail text of a failed `GetIfTable2` call.
pub open spec fn call_failed_detail(status: u32) -> Seq<char> {
    "GetIfTable2 返回 Win32 状态 "@ + dec(status as nat)
}

impl NicError {
    pub fn unsupported(detail: &str) -> (r: Self)
        ensures
            r.kind == NicErrorKind::Unsupported,
            r.detail@ == detail@,
    {
        let mut text = String::new();
        push_str(&mut text, detail);
        NicError { kind: NicErrorKind::Unsupported, detail: text }
    }

    pub fn call_failed(status: u32) -> (r: Self)
        ensures
            r.kind == NicErrorKind::CallFailed,
            r.detail@ == call_failed_detail(status),
    {
        let mut text = String::new();
        push_str(&mut text, "GetIfTable2 返回 Win32 状态 ");
        push_decimal(&mut text, status as u64);
        NicError { kind: NicErrorKind::CallFailed, detail: text }
    }

    pub fn malformed(detail: &str) -> (r: Self)
        ensures
            r.kind == NicErrorKind::Malformed,
            r.detail@ == detail@,
    {
        let mut text = String::new();
        push_str(&mut text, detail);
        NicError { kind: NicErrorKind::Malformed, detail: text }
    }

    /// The displayed text of the error: its detail.
    pub fn text(&self) -> (r: String)
        ensures
            r@ == self.detail@,
    {
        let mut text = String::new();
        push_str(&mut text, self.detail.as_str());
        text
    }
}

/// The raw facts that decide an adapter's class.
#[derive(Debug, Clone, Copy)]
pub struct AdapterFacts<'a> {
    pub alias: &'a str,
    pub description: &'a str,
    pub if_type: u32,
    pub media_type: u32,
    /// `TunnelType`; 0 means not a tunnel.
    pub tunnel_type: u32,
    /// The driver's hardware-interface flag.
    pub hardware: bool,
    /// Point-to-point endpoint interface (PPP / VPN endpoint).
    pub endpoint: bool,
}

/// Name fragments (lower case) of virtual and tunnelling adapters.
pub open spec fn virtual_patterns() -> Seq<Seq<char>> {
    seq![
        "hyper-v"@, "vethernet"@, "wsl"@, "docker"@, "container"@,
        "vmware"@, "virtualbox"@, "virtual adapter"@, "virtual ethernet"@, "virtio"@,
        "parallels"@, "qemu"@,
        "loopback adapter"@, "npcap"@, "winpcap"@, "microsoft km-test"@,
        "wan miniport"@, "teredo"@, "isatap"@, "6to4"@, "wi-fi direct"@, "wifi direct"@,
        "wireless host"@, "bluetooth device (personal area network)"@, "pseudo-interface"@,
        "wintun"@, "wireguard"@, "tailscale"@, "zerotier"@, "openvpn"@, "softether"@,
        "anyconnect"@, "forticlient"@, "fortinet"@, "checkpoint"@, "sonicwall"@,
        "pulse secure"@, "juniper"@, "nordlynx"@, "mullvad"@, "protonvpn"@, "hamachi"@,
        "radmin"@, "tap-windows"@,
    ]
}

fn virtual_pattern_list() -> (v: Vec<&'static str>)
    ensures
        v@.len() == virtual_patterns().len(),
        forall|i: int| 0 <= i < v@.len() ==> #[trigger] v@[i]@ == virtual_patterns()[i],
{
    let v: Vec<&'static str> = vec![
        "hyper-v", "vethernet", "wsl", "docker", "container",
        "vmware", "virtualbox", "virtual adapter", "virtual ethernet", "virtio",
        "parallels", "qemu",
        "loopback adapter", "npcap", "winpcap", "microsoft km-test",
        "wan miniport", "teredo", "isatap", "6to4", "wi-fi direct", "wifi direct",
        "wireless host", "bluetooth device (personal area network)", "pseudo-interface",
        "wintun", "wireguard", "tailscale", "zerotier", "openvpn", "softether",
        "anyconnect", "forticlient", "fortinet", "checkpoint", "sonicwall",
        "pulse secure", "juniper", "nordlynx", "mullvad", "protonvpn", "hamachi",
        "radmin", "tap-windows",
    ];
    v
}

/// `pattern` appears in the lower-cased alias or description.
pub open spec fn named_in(alias: Seq<char>, description: Seq<char>, pattern: Seq<char>) -> bool {
    contains(lower(alias), pattern) || contains(lower(description), pattern)
}

/// `pattern` appears in the lower-cased alias or description of the facts.
pub open spec fn named(facts: AdapterFacts, pattern: Seq<char>) -> bool {
    named_in(facts.alias@, facts.description@, pattern)
}

/// The class that an interface's names and driver facts decide, rule by
/// rule: loopback first, then tunnels, endpoints, known virtual names, and
/// finally the hardware flag.
pub open spec fn class_of(
    alias: Seq<char>,
    description: Seq<char>,
    if_type: u32,
    media_type: u32,
    tunnel_type: u32,
    hardware: bool,
    endpoint: bool,
) -> AdapterClass {
    if if_type == IF_TYPE_SOFTWARE_LOOPBACK || media_type == MEDIA_LOOPBACK || named_in(
        alias,
        description,
        "loopback"@,
    ) {
        AdapterClass::Loopback
    } else if tunnel_type != 0 || if_type == IF_TYPE_TUNNEL || media_type == MEDIA_TUNNEL {
        AdapterClass::Tunnel
    } else if endpoint {
        AdapterClass::Other
    } else if exists|i: int|
        0 <= i < virtual_patterns().len() && #[trigger] named_in(
            alias,
            description,
            virtual_patterns()[i],
        ) {
        AdapterClass::Virtual
    } else if !hardware {
        AdapterClass::Virtual
    } else {
        AdapterClass::Physical
    }
}

/// The class that the facts decide.
pub open spec fn spec_classify(facts: AdapterFacts) -> AdapterClass {
    class_of(
        facts.alias@,
        facts.description@,
        facts.if_type,
        facts.media_type,
        facts.tunnel_type,
        facts.hardware,
        facts.endpoint,
    )
}

/// An adapter that is neither loopback, tunnel nor endpoint and whose
/// lower-cased alias or description names a known virtual or tunnelling
/// product is virtual, whatever its hardware flag says.
pub proof fn law_known_virtual_names_are_virtual(facts: AdapterFacts, name: Seq<char>)
    requires
        seq![
            "hyper-v"@, "vethernet"@, "wsl"@, "docker"@, "container"@,
            "vmware"@, "virtualbox"@, "virtual adapter"@, "virtual ethernet"@, "virtio"@,
            "parallels"@, "qemu"@,
            "loopback adapter"@, "npcap"@, "winpcap"@, "microsoft km-test"@,
            "wan miniport"@, "teredo"@, "isatap"@, "6to4"@, "wi-fi direct"@, "wifi direct"@,
            "wireless host"@, "bluetooth device (personal area network)"@, "pseudo-interface"@,
            "wintun"@, "wireguard"@, "tailscale"@, "zerotier"@, "openvpn"@, "softether"@,
            "anyconnect"@, "forticlient"@, "fortinet"@, "checkpoint"@, "sonicwall"@,
            "pulse secure"@, "juniper"@, "nordlynx"@, "mullvad"@, "protonvpn"@, "hamachi"@,
            "radmin"@, "tap-windows"@,
        ].contains(name),
        contains(lower(facts.alias@), name) || contains(lower(facts.description@), name),
        facts.if_type != IF_TYPE_SOFTWARE_LOOPBACK,
        facts.media_type != MEDIA_LOOPBACK,
        !contains(lower(facts.alias@), "loopback"@),
        !contains(lower(facts.description@), "loopback"@),
        facts.tunnel_type == 0,
        facts.if_type != IF_TYPE_TUNNEL,
        facts.media_type != MEDIA_TUNNEL,
        !facts.endpoint,
    ensures
        spec_classify(facts) == AdapterClass::Virtual,
{
    let names = seq![
        "hyper-v"@, "vethernet"@, "wsl"@, "docker"@, "container"@,
        "vmware"@, "virtualbox"@, "virtual adapter"@, "virtual ethernet"@, "virtio"@,
        "parallels"@, "qemu"@,
        "loopback adapter"@, "npcap"@, "winpcap"@, "microsoft km-test"@,
        "wan miniport"@, "teredo"@, "isatap"@, "6to4"@, "wi-fi direct"@, "wifi direct"@,
        "wireless host"@, "bluetooth device (personal area network)"@, "pseudo-interface"@,
        "wintun"@, "wireguard"@, "tailscale"@, "zerotier"@, "openvpn"@, "softether"@,
        "anyconnect"@, "forticlient"@, "fortinet"@, "checkpoint"@, "sonicwall"@,
        "pulse secure"@, "juniper"@, "nordlynx"@, "mullvad"@, "protonvpn"@, "hamachi"@,
        "radmin"@, "tap-windows"@,
    ];
    let i = choose|i: int| 0 <= i < names.len() && names[i] == name;
    assert(virtual_patterns() =~= names);
    assert(named_in(facts.alias@, facts.description@, virtual_patterns()[i]));
}

/// Decides an adapter's class.
pub fn classify(facts: &AdapterFacts<'_>) -> (r: AdapterClass)
    ensures
        r == spec_classify(*facts),
{
    let alias = lower_chars(facts.alias);
    let description = lower_chars(facts.description);
    let loopback = chars_of("loopback");
    if facts.if_type == IF_TYPE_SOFTWARE_LOOPBACK || facts.media_type == MEDIA_LOOPBACK
        || contains_chars(&alias, &loopback) || contains_chars(&description, &loopback) {
        return AdapterClass::Loopback;
    }
    if facts.tunnel_type != 0 || facts.if_type == IF_TYPE_TUNNEL || facts.media_type
        == MEDIA_TUNNEL {
        return AdapterClass::Tunnel;
    }
    if facts.endpoint {
        return AdapterClass::Other;
    }
    let patterns = virtual_pattern_list();
    let mut i: usize = 0;
    while i < patterns.len()
        invariant
            i <= patterns@.len(),
            patterns@.len() == virtual_patterns().len(),
            forall|j: int| 0 <= j < patterns@.len() ==> #[trigger] patterns@[j]@ == virtual_patterns()[j],
            alias@ == lower(facts.alias@),
            description@ == lower(facts.description@),
            !(facts.if_type == IF_TYPE_SOFTWARE_LOOPBACK || facts.media_type == MEDIA_LOOPBACK
                || named(*facts, "loopback"@)),
            !(facts.tunnel_type != 0 || facts.if_type == IF_TYPE_TUNNEL || facts.media_type
                == MEDIA_TUNNEL),
            !facts.endpoint,
            forall|j: int| 0 <= j < i ==> !named(*facts, #[trigger] virtual_patterns()[j]),
        decreases patterns.len() - i,
    {
        let pattern = chars_of(patterns[i]);
        if contains_chars(&alias, &pattern) || contains_chars(&description, &pattern) {
            assert(named(*facts, virtual_patterns()[i as int]));
            return AdapterClass::Virtual;
        }
        i = i + 1;
    }
    if !facts.hardware {
        return AdapterClass::Virtual;
    }
    AdapterClass::Physical
}

/// Medium label: the IANA `ifType` first, falling back to `NDIS_MEDIUM`.
pub open spec fn spec_media_label(if_type: u32, media_type: u32) -> Seq<char> {
    if if_type == IF_TYPE_ETHERNET_CSMACD {
        "以太网"@
    } else if if_type == IF_TYPE_IEEE80211 {
        "Wi-Fi"@
    } else if if_type == IF_TYPE_IEEE80216_WMAN {
        "WiMAX"@
    } else if if_type == IF_TYPE_WWANPP {
        "移动宽带"@
    } else if if_type == IF_TYPE_SOFTWARE_LOOPBACK {
        "回环"@
    } else if if_type == IF_TYPE_TUNNEL {
        "隧道"@
    } else if media_type == MEDIA_802_3 {
        "以太网"@
    } else if media_type == MEDIA_NATIVE_802_11 || media_type == MEDIA_WIRELESS_WAN {
        "无线"@
    } else if media_type == MEDIA_TUNNEL {
        "隧道"@
    } else if media_type == MEDIA_LOOPBACK {
        "回环"@
    } else {
        "媒体类型 "@ + dec(media_type as nat)
    }
}

/// Medium label of an interface.
pub fn media_label(if_type: u32, media_type: u32) -> (r: String)
    ensures
        r@ == spec_media_label(if_type, media_type),
{
    let mut text = String::new();
    if if_type == IF_TYPE_ETHERNET_CSMACD {
        push_str(&mut text, "以太网");
    } else if if_type == IF_TYPE_IEEE80211 {
        push_str(&mut text, "Wi-Fi");
    } else if if_type == IF_TYPE_IEEE80216_WMAN {
        push_str(&mut text, "WiMAX");
    } else if if_type == IF_TYPE_WWANPP {
        push_str(&mut text, "移动宽带");
    } else if if_type == IF_TYPE_SOFTWARE_LOOPBACK {
        push_str(&mut text, "回环");
    } else if if_type == IF_TYPE_TUNNEL {
        push_str(&mut text, "隧道");
    } else if media_type == MEDIA_802_3 {
        push_str(&mut text, "以太网");
    } else if media_type == MEDIA_NATIVE_802_11 || media_type == MEDIA_WIRELESS_WAN {
        push_str(&mut text, "无线");
    } else if media_type == MEDIA_TUNNEL {
        push_str(&mut text, "隧道");
    } else if media_type == MEDIA_LOOPBACK {
        push_str(&mut text, "回环");
    } else {
        push_str(&mut text, "媒体类型 ");
        push_decimal(&mut text, media_type as u64);
    }
    text
}

/// Label of an `IF_OPER_STATUS` value.
pub open spec fn spec_oper_status_label(status: u32) -> Seq<char> {
    if status == IF_OPER_UP {
        "已启用"@
    } else if status == IF_OPER_DOWN {
        "已断开"@
    } else if status == IF_OPER_TESTING {
        "自检中"@
    } else if status == IF_OPER_DORMANT {
        "休眠"@
    } else if status == IF_OPER_NOT_PRESENT {
        "设备不存在"@
    } else if status == IF_OPER_LOWER_LAYER_DOWN {
        "下层断开"@
    } else if status == IF_OPER_UNKNOWN {
        "未知"@
    } else {
        "未知状态"@
    }
}

/// Label of an `IF_OPER_STATUS` value.
pub fn oper_status_label(status: u32) -> (r: &'static str)
    ensures
        r@ == spec_oper_status_label(status),
{
    if status == IF_OPER_UP {
        "已启用"
    } else if status == IF_OPER_DOWN {
        "已断开"
    } else if status == IF_OPER_TESTING {
        "自检中"
    } else if status == IF_OPER_DORMANT {
        "休眠"
    } else if status == IF_OPER_NOT_PRESENT {
        "设备不存在"
    } else if status == IF_OPER_LOWER_LAYER_DOWN {
        "下层断开"
    } else if status == IF_OPER_UNKNOWN {
        "未知"
    } else {
        "未知状态"
    }
}

/// Label of a `NET_IF_MEDIA_CONNECT_STATE` value.
pub open spec fn spec_connect_state_label(state: u32) -> Seq<char> {
    if state == MEDIA_CONNECT_CONNECTED {
        "已连接"@
    } else if state == MEDIA_CONNECT_DISCONNECTED {
        "未连接"@
    } else {
        "连接状态未知"@
    }
}

/// Label of a `NET_IF_MEDIA_CONNECT_STATE` value.
pub fn connect_state_label(state: u32) -> (r: &'static str)
    ensures
        r@ == spec_connect_state_label(state),
{
    if state == MEDIA_CONNECT_CONNECTED {
        "已连接"
    } else if state == MEDIA_CONNECT_DISCONNECTED {
        "未连接"
    } else {
        "连接状态未知"
    }
}

/// Display order of a class (physical first, loopback last).
pub open spec fn spec_class_rank(class: AdapterClass) -> u8 {
    match class {
        AdapterClass::Physical => 0,
        AdapterClass::Other => 1,
        AdapterClass::Virtual => 2,
        AdapterClass::Tunnel => 3,
        AdapterClass::Loopback => 4,
    }
}

/// Display order of a class (used for listing order only, never for filtering).
pub fn class_rank(class: AdapterClass) -> (r: u8)
    ensures
        r == spec_class_rank(class),
{
    match class {
        AdapterClass::Physical => 0,
        AdapterClass::Other => 1,
        AdapterClass::Virtual => 2,
        AdapterClass::Tunnel => 3,
        AdapterClass::Loopback => 4,
    }
}

/// An SDK enumeration field as unsigned: negative values (corrupted memory)
/// read as 0 (unknown), never as four billion.
pub fn as_u32(value: i32) -> (r: u32)
    ensures
        r == if value < 0 { 0 } else { value as int },
{
    if value < 0 {
        0
    } else {
        value as u32
    }
}

/// Length of a fixed wide-character buffer up to its first NUL (the whole
/// buffer when it holds none).
pub open spec fn nul_len(units: Seq<u16>) -> int
    decreases units.len(),
{
    if units.len() == 0 {
        0
    } else if units[0] == 0 {
        0
    } else {
        1 + nul_len(units.drop_first())
    }
}

/// What `String::from_utf16_lossy` makes of a UTF-16 sequence.
pub uninterp spec fn utf16_lossy_text(units: Seq<u16>) -> Seq<char>;

/// Decodes UTF-16 (`String::from_utf16_lossy`).
///
/// Trusted: the standard library decodes the units and replaces every
/// unpaired surrogate with U+FFFD; the contract only names the result, which
/// depends on the units alone.
#[verifier::external_body]
fn utf16_lossy(units: &[u16]) -> (s: String)
    ensures
        s@ == utf16_lossy_text(units@),
{
    String::from_utf16_lossy(units)
}

proof fn lemma_nul_len(units: Seq<u16>, i: int)
    requires
        0 <= i <= units.len(),
        forall|j: int| 0 <= j < i ==> units[j] != 0,
        i == units.len() || units[i] == 0,
    ensures
        nul_len(units) == i,
    decreases i,
{
    if i > 0 {
        lemma_nul_len(units.drop_first(), i - 1);
    }
}

/// Position of the first NUL unit (or the buffer length).
pub fn nul_terminated_len(buffer: &[u16]) -> (n: usize)
    ensures
        n == nul_len(buffer@),
        n <= buffer@.len(),
{
    let mut i: usize = 0;
    while i < buffer.len() && buffer[i] != 0
        invariant
            i <= buffer@.len(),
            forall|j: int| 0 <= j < i ==> buffer@[j] != 0,
        decreases buffer.len() - i,
    {
        i = i + 1;
    }
    proof {
        lemma_nul_len(buffer@, i as int);
    }
    i
}

/// A fixed wide-character buffer as a `String`: cut at the first NUL, with
/// unpaired surrogates replaced.
pub fn wide_to_string(buffer: &[u16]) -> (s: String)
    ensures
        s@ == utf16_lossy_text(buffer@.take(nul_len(buffer@))),
{
    let n = nul_terminated_len(buffer);
    let mut units: Vec<u16> = Vec::new();
    let mut i: usize = 0;
    while i < n
        invariant
            n == nul_len(buffer@),
            n <= buffer@.len(),
            i <= n,
            units@ == buffer@.take(i as int),
        decreases n - i,
    {
        units.push(buffer[i]);
        i = i + 1;
        assert(units@ =~= buffer@.take(i as int));
    }
    utf16_lossy(units.as_slice())
}

/// A physical address rendered as `AA-BB-CC-DD-EE-FF`.
pub open spec fn mac_text(bytes: Seq<u8>) -> Seq<char>
    decreases bytes.len(),
{
    if bytes.len() == 0 {
        Seq::empty()
    } else if bytes.len() == 1 {
        zero_pad(hex(bytes[0] as nat), 2)
    } else {
        mac_text(bytes.drop_last()) + seq!['-'] + zero_pad(hex(bytes.last() as nat), 2)
    }
}

/// The declared length of a physical address, capped by the buffer size.
pub open spec fn mac_len(address: Seq<u8>, declared: u32) -> int {
    if declared as int <= address.len() {
        declared as int
    } else {
        address.len() as int
    }
}

/// Renders the first `declared` bytes of `address` (at most the whole buffer)
/// as `AA-BB-…`; an adapter without a physical address gives an empty string.
pub fn physical_address(address: &[u8], declared: u32) -> (s: String)
    ensures
        s@ == mac_text(address@.take(mac_len(address@, declared))),
{
    let length: usize = if (declared as usize) <= address.len() {
        declared as usize
    } else {
        address.len()
    };
    let mut text = String::new();
    let mut i: usize = 0;
    while i < length
        invariant
            length == mac_len(address@, declared),
            length <= address@.len(),
            i <= length,
            text@ == mac_text(address@.take(i as int)),
        decreases length - i,
    {
        if i > 0 {
            push_char(&mut text, '-');
        }
        push_hex_padded(&mut text, address[i] as u64, 2);
        i = i + 1;
        assert(address@.take(i as int).drop_last() =~= address@.take(i - 1));
    }
    text
}

// ---------------------------------------------------------------------------
// Interface rows
// ---------------------------------------------------------------------------

/// One row of the interface table (`MIB_IF_ROW2`) as plain values: what the
/// library reads to describe an adapter.
#[derive(Debug, Clone, PartialEq, Eq)]
pub struct InterfaceRow {
    pub luid: u64,
    pub index: u32,
    /// `Alias`, a NUL-terminated wide buffer.
    pub alias: Vec<u16>,
    /// `Description`, a NUL-terminated wide buffer.
    pub description: Vec<u16>,
    pub physical_address_length: u32,
    pub physical_address: Vec<u8>,
    pub mtu: u32,
    pub if_type: u32,
    pub tunnel_type: i32,
    pub media_type: i32,
    /// `InterfaceAndOperStatusFlags`: bit 0 hardware interface, bit 2
    /// connector present, bit 4 media not connected, bit 7 endpoint.
    pub flags: u8,
    pub oper_status: i32,
    pub admin_status: i32,
    pub media_connect_state: i32,
    pub transmit_link_speed: u64,
    pub receive_link_speed: u64,
    pub counters: Counters,
}

/// An SDK enumeration value read as unsigned (negative reads as 0).
pub open spec fn unsigned(value: i32) -> u32 {
    if value < 0 {
        0
    } else {
        value as u32
    }
}

/// The text of a wide buffer up to its first NUL.
pub open spec fn wide_text(units: Seq<u16>) -> Seq<char> {
    utf16_lossy_text(units.take(nul_len(units)))
}

/// The identifier of an interface: `luid-` and its LUID as sixteen lower-case
/// hexadecimal digits.
pub open spec fn luid_id(luid: u64) -> Seq<char> {
    "luid-"@ + lower(zero_pad(hex(luid as nat), 16))
}

/// `adapter` is what `row` describes: names decoded, class decided, medium
/// and address rendered, statuses read as unsigned, the flag bits split out,
/// speeds and counters as read.
pub open spec fn describes(adapter: RawAdapter, row: InterfaceRow) -> bool {
    let name = wide_text(row.alias@);
    let description = wide_text(row.description@);
    &&& adapter.id@ == luid_id(row.luid)
    &&& adapter.index == row.index
    &&& adapter.luid == row.luid
    &&& adapter.name@ == name
    &&& adapter.description@ == description
    &&& adapter.class == class_of(
        name,
        description,
        row.if_type,
        unsigned(row.media_type),
        unsigned(row.tunnel_type),
        row.flags & 1 != 0,
        row.flags & 0x80 != 0,
    )
    &&& adapter.media@ == spec_media_label(row.if_type, unsigned(row.media_type))
    &&& adapter.mac@ == mac_text(
        row.physical_address@.take(mac_len(row.physical_address@, row.physical_address_length)),
    )
    &&& adapter.mtu == row.mtu
    &&& adapter.oper_status == unsigned(row.oper_status)
    &&& adapter.admin_status == unsigned(row.admin_status)
    &&& adapter.connect_state == unsigned(row.media_connect_state)
    &&& adapter.hardware == (row.flags & 1 != 0)
    &&& adapter.connector_present == (row.flags & 4 != 0)
    &&& adapter.not_media_connected == (row.flags & 0x10 != 0)
    &&& adapter.transmit_speed_bps == row.transmit_link_speed
    &&& adapter.receive_speed_bps == row.receive_link_speed
    &&& adapter.counters == row.counters
}

/// Describes the adapter of one interface row.
pub fn adapter_from_row(row: &InterfaceRow) -> (r: RawAdapter)
    ensures
        describes(r, *row),
{
    let hardware = row.flags & 1 != 0;
    let connector_present = row.flags & 4 != 0;
    let not_media_connected = row.flags & 0x10 != 0;
    let endpoint = row.flags & 0x80 != 0;
    let name = wide_to_string(row.alias.as_slice());
    let description = wide_to_string(row.description.as_slice());
    let media_type = as_u32(row.media_type);
    let tunnel_type = as_u32(row.tunnel_type);
    let class = classify(
        &AdapterFacts {
            alias: name.as_str(),
            description: description.as_str(),
            if_type: row.if_type,
            media_type,
            tunnel_type,
            hardware,
            endpoint,
        },
    );
    let mut digits = String::new();
    push_hex_padded(&mut digits, row.luid, 16);
    let lowered = lower_chars(digits.as_str());
    let mut id = String::new();
    push_str(&mut id, "luid-");
    let mut i: usize = 0;
    while i < lowered.len()
        invariant
            i <= lowered@.len(),
            id@ == "luid-"@ + lowered@.take(i as int),
        decreases lowered.len() - i,
    {
        push_char(&mut id, lowered[i]);
        i = i + 1;
        assert(id@ =~= "luid-"@ + lowered@.take(i as int));
    }
    assert(lowered@.take(lowered@.len() as int) =~= lowered@);
    RawAdapter {
        id,
        index: row.index,
        luid: row.luid,
        name,
        description,
        class,
        media: media_label(row.if_type, media_type),
        mac: physical_address(row.physical_address.as_slice(), row.physical_address_length),
        mtu: row.mtu,
        oper_status: as_u32(row.oper_status),
        admin_status: as_u32(row.admin_status),
        connect_state: as_u32(row.media_connect_state),
        hardware,
        connector_present,
        not_media_connected,
        transmit_speed_bps: row.transmit_link_speed,
        receive_speed_bps: row.receive_link_speed,
        counters: row.counters,
    }
}

// ---------------------------------------------------------------------------
// Listing order
// ---------------------------------------------------------------------------

/// Listing order: `a` is listed before `b` when its class ranks first, or
/// the classes rank the same and its name sorts first.
pub open spec fn listed_before(a: RawAdapter, b: RawAdapter) -> bool {
    spec_class_rank(a.class) < spec_class_rank(b.class) || (spec_class_rank(a.class)
        == spec_class_rank(b.class) && lex_lt(a.name@, b.name@))
}

/// Neither adapter is listed before the other.
pub open spec fn same_place(a: RawAdapter, b: RawAdapter) -> bool {
    !listed_before(a, b) && !listed_before(b, a)
}

/// `order` maps each position of `sorted` to a distinct position of
/// `given` holding the same adapter, keeping the given order among
/// adapters of the same place.
pub open spec fn stable_arrangement(
    sorted: Seq<RawAdapter>,
    given: Seq<RawAdapter>,
    order: Seq<int>,
) -> bool {
    &&& order.len() == sorted.len()
    &&& forall|i: int|
        0 <= i < order.len() ==> 0 <= #[trigger] order[i] < given.len() && sorted[i]
            == given[order[i]]
    &&& forall|i: int, j: int| 0 <= i < j < order.len() ==> order[i] != order[j]
    &&& forall|i: int, j: int|
        0 <= i < j < sorted.len() && same_place(sorted[i], sorted[j]) ==> order[i] < order[j]
}

/// `sorted` is `given` in listing order, adapters of the same place kept
/// in their given order (a stable sort).
pub open spec fn listing_of(sorted: Seq<RawAdapter>, given: Seq<RawAdapter>) -> bool {
    &&& sorted.len() == given.len()
    &&& forall|i: int, j: int| 0 <= i < j < sorted.len() ==> !listed_before(sorted[j], sorted[i])
    &&& exists|order: Seq<int>| stable_arrangement(sorted, given, order)
}

proof fn lemma_listed_order(a: RawAdapter, b: RawAdapter, c: RawAdapter)
    ensures
        !listed_before(a, a),
        listed_before(a, b) ==> !listed_before(b, a),
        listed_before(a, b) && listed_before(b, c) ==> listed_before(a, c),
        !listed_before(b, a) && !listed_before(c, b) ==> !listed_before(c, a),
        !listed_before(a, b) ==> listed_before(b, a) || same_place(a, b),
{
    lemma_lex_irreflexive(a.name@);
    lemma_lex_total(a.name@, b.name@);
    lemma_lex_total(b.name@, c.name@);
    lemma_lex_total(a.name@, c.name@);
    if lex_lt(a.name@, b.name@) && lex_lt(b.name@, c.name@) {
        lemma_lex_transitive(a.name@, b.name@, c.name@);
    }
    if lex_lt(c.name@, b.name@) && lex_lt(b.name@, a.name@) {
        lemma_lex_transitive(c.name@, b.name@, a.name@);
    }
    if lex_lt(c.name@, a.name@) && lex_lt(a.name@, b.name@) {
        lemma_lex_transitive(c.name@, a.name@, b.name@);
    }
    if lex_lt(b.name@, c.name@) && lex_lt(c.name@, a.name@) {
        lemma_lex_transitive(b.name@, c.name@, a.name@);
    }
}

/// Whether `a` is listed before `b`.
fn lists_before(a: &RawAdapter, b: &RawAdapter) -> (r: bool)
    ensures
        r == listed_before(*a, *b),
{
    let ra = class_rank(a.class);
    let rb = class_rank(b.class);
    if ra != rb {
        return ra < rb;
    }
    let an = chars_of(a.name.as_str());
    let bn = chars_of(b.name.as_str());
    chars_lt(&an, &bn)
}

/// What the sort keeps after taking the last `n - k` adapters of `given`.
spec fn sort_inv(sorted: Seq<RawAdapter>, given: Seq<RawAdapter>, k: int, order: Seq<int>) -> bool {
    &&& sorted.len() == given.len() - k
    &&& order.len() == sorted.len()
    &&& forall|i: int|
        0 <= i < order.len() ==> k <= #[trigger] order[i] < given.len() && sorted[i]
            == given[order[i]]
    &&& forall|i: int, j: int| 0 <= i < j < order.len() ==> order[i] != order[j]
    &&& forall|i: int, j: int|
        0 <= i < j < sorted.len() && same_place(sorted[i], sorted[j]) ==> order[i] < order[j]
    &&& forall|i: int, j: int| 0 <= i < j < sorted.len() ==> !listed_before(sorted[j], sorted[i])
}

proof fn lemma_sort_step(
    sorted: Seq<RawAdapter>,
    given: Seq<RawAdapter>,
    k: int,
    order: Seq<int>,
    p: int,
)
    requires
        0 < k <= given.len(),
        sort_inv(sorted, given, k, order),
        0 <= p <= sorted.len(),
        forall|i: int| 0 <= i < p ==> listed_before(#[trigger] sorted[i], given[k - 1]),
        p < sorted.len() ==> !listed_before(sorted[p], given[k - 1]),
    ensures
        sort_inv(sorted.insert(p, given[k - 1]), given, k - 1, order.insert(p, k - 1)),
{
    let x = given[k - 1];
    let s1 = sorted.insert(p, x);
    let o1 = order.insert(p, k - 1);
    assert forall|i: int| p <= i < sorted.len() implies !listed_before(#[trigger] sorted[i], x) by {
        if i > p {
            lemma_listed_order(x, sorted[p], sorted[i]);
        }
    }
    assert forall|i: int| 0 <= i < o1.len() implies k - 1 <= #[trigger] o1[i] < given.len()
        && s1[i] == given[o1[i]] by {
        if i > p {
            assert(o1[i] == order[i - 1]);
            assert(s1[i] == sorted[i - 1]);
        }
    }
    assert forall|i: int, j: int| 0 <= i < j < o1.len() implies o1[i] != o1[j] by {
        if i < p && j > p {
            assert(o1[j] == order[j - 1]);
        } else if i > p {
            assert(o1[i] == order[i - 1]);
            assert(o1[j] == order[j - 1]);
        } else if i == p {
            assert(o1[j] == order[j - 1]);
        }
    }
    assert forall|i: int, j: int| 0 <= i < j < s1.len() implies !listed_before(s1[j], s1[i]) by {
        if j < p {
        } else if j == p {
            lemma_listed_order(s1[i], x, x);
        } else if i == p {
            assert(s1[j] == sorted[j - 1]);
        } else if i < p {
            assert(s1[j] == sorted[j - 1]);
            lemma_listed_order(s1[i], x, sorted[j - 1]);
            lemma_listed_order(sorted[j - 1], x, s1[i]);
        } else {
            assert(s1[i] == sorted[i - 1]);
            assert(s1[j] == sorted[j - 1]);
        }
    }
    assert forall|i: int, j: int|
        0 <= i < j < s1.len() && same_place(s1[i], s1[j]) implies o1[i] < o1[j] by {
        if j < p {
        } else if j == p {
            lemma_listed_order(s1[i], x, x);
        } else if i == p {
            assert(o1[j] == order[j - 1]);
        } else if i < p {
            assert(o1[j] == order[j - 1]);
            assert(s1[j] == sorted[j - 1]);
            lemma_listed_order(s1[i], x, sorted[j - 1]);
            lemma_listed_order(sorted[j - 1], x, s1[i]);
        } else {
            assert(o1[i] == order[i - 1]);
            assert(o1[j] == order[j - 1]);
            assert(s1[i] == sorted[i - 1]);
            assert(s1[j] == sorted[j - 1]);
        }
    }
}

/// Puts adapters in listing order: physical adapters first, then by name,
/// adapters of the same place keeping their order, so that the list does
/// not shuffle between samples.
pub fn sort_adapters(adapters: Vec<RawAdapter>) -> (r: Vec<RawAdapter>)
    ensures
        listing_of(r@, adapters@),
{
    let ghost given = adapters@;
    let mut rest = adapters;
    let mut sorted: Vec<RawAdapter> = Vec::new();
    let ghost mut order: Seq<int> = Seq::empty();
    while rest.len() > 0
        invariant
            rest@ == given.take(rest@.len() as int),
            rest@.len() <= given.len(),
            sort_inv(sorted@, given, rest@.len() as int, order),
        decreases rest.len(),
    {
        let ghost k = rest@.len() as int;
        let x = rest.pop().unwrap();
        assert(x == given[k - 1]);
        let mut p: usize = 0;
        while p < sorted.len() && lists_before(&sorted[p], &x)
            invariant
                p <= sorted@.len(),
                forall|i: int| 0 <= i < p ==> listed_before(#[trigger] sorted@[i], x),
            decreases sorted.len() - p,
        {
            p = p + 1;
        }
        proof {
            lemma_sort_step(sorted@, given, k, order, p as int);
            order = order.insert(p as int, k - 1);
        }
        sorted.insert(p, x);
        assert(rest@ =~= given.take(rest@.len() as int));
    }
    assert(stable_arrangement(sorted@, given, order));
    sorted
}

/// The adapters that `rows` describe, in listing order.
pub fn adapters_from_rows(rows: &Vec<InterfaceRow>) -> (r: Vec<RawAdapter>)
    ensures
        exists|read: Seq<RawAdapter>|
            read.len() == rows@.len() && (forall|i: int|
                0 <= i < rows@.len() ==> describes(#[trigger] read[i], rows@[i])) && listing_of(
                r@,
                read,
            ),
{
    let mut read: Vec<RawAdapter> = Vec::new();
    let mut i: usize = 0;
    while i < rows.len()
        invariant
            i <= rows@.len(),
            read@.len() == i,
            forall|j: int| 0 <= j < i ==> describes(#[trigger] read@[j], rows@[j]),
        decreases rows.len() - i,
    {
        let adapter = adapter_from_row(&rows[i]);
        read.push(adapter);
        i = i + 1;
    }
    let ghost unsorted = read@;
    let r = sort_adapters(read);
    assert(unsorted.len() == rows@.len() && (forall|j: int|
        0 <= j < rows@.len() ==> describes(#[trigger] unsorted[j], rows@[j])) && listing_of(r@, unsorted));
    r
}

/// Text of the error of a platform without a counter reader.
pub open spec fn unsupported_detail(os: Seq<char>) -> Seq<char> {
    "网卡计数器读取目前只有 Windows 实现（当前平台 "@ + os + "）"@
}

/// The error of a platform without a counter reader: said plainly, rather
/// than an empty list that would read as "this machine has no adapters".
pub fn unsupported_platform(os: &str) -> (r: NicError)
    ensures
        r.kind == NicErrorKind::Unsupported,
        r.detail@ == unsupported_detail(os@),
{
    let mut detail = String::new();
    push_str(&mut detail, "网卡计数器读取目前只有 Windows 实现（当前平台 ");
    push_str(&mut detail, os);
    push_str(&mut detail, "）");
    NicError::unsupported(detail.as_str())
}

} // verus!
