use loadloom::nicmon::{
    as_u32, class_rank, classify, connect_state_label, media_label, nul_terminated_len,
    oper_status_label, physical_address, wide_to_string, AdapterClass, AdapterFacts, Counters,
    NicError, NicErrorKind, RawAdapter, IF_OPER_DORMANT, IF_OPER_UP, IF_TYPE_ETHERNET_CSMACD,
    IF_TYPE_IEEE80211, IF_TYPE_SOFTWARE_LOOPBACK, MEDIA_802_3, MEDIA_CONNECT_CONNECTED,
    MEDIA_CONNECT_DISCONNECTED, MEDIA_CONNECT_UNKNOWN, MEDIA_LOOPBACK, MEDIA_NATIVE_802_11,
};

fn facts<'a>(alias: &'a str, description: &'a str) -> AdapterFacts<'a> {
    AdapterFacts {
        alias,
        description,
        if_type: IF_TYPE_ETHERNET_CSMACD,
        media_type: MEDIA_802_3,
        tunnel_type: 0,
        hardware: true,
        endpoint: false,
    }
}

#[test]
fn real_ethernet_and_wifi_are_physical() {
    assert_eq!(
        classify(&facts("以太网", "Intel(R) Ethernet Controller I225-V")),
        AdapterClass::Physical
    );
    let mut wifi = facts("WLAN", "Intel(R) Wi-Fi 6 AX200 160MHz");
    wifi.if_type = IF_TYPE_IEEE80211;
    wifi.media_type = MEDIA_NATIVE_802_11;
    assert_eq!(classify(&wifi), AdapterClass::Physical);
}

#[test]
fn hyper_v_and_vendor_virtual_adapters_are_virtual() {
    assert_eq!(
        classify(&facts("vEthernet (Default Switch)", "Hyper-V Virtual Ethernet Adapter")),
        AdapterClass::Virtual
    );
    assert_eq!(
        classify(&facts("以太网 2", "VMware Virtual Ethernet Adapter for VMnet8")),
        AdapterClass::Virtual
    );
    let mut wireguard = facts("wg0", "WireGuard Tunnel");
    wireguard.hardware = false;
    assert_eq!(classify(&wireguard), AdapterClass::Virtual);
}

#[test]
fn hardware_flag_decides_when_the_name_looks_real() {
    let mut fake = facts("Ethernet 5", "Some Virtual NIC");
    fake.hardware = false;
    assert_eq!(classify(&fake), AdapterClass::Virtual);
}

#[test]
fn loopback_tunnel_and_endpoint_get_their_own_classes() {
    let mut loopback = facts("Loopback Pseudo-Interface 1", "Software Loopback Interface 1");
    loopback.if_type = IF_TYPE_SOFTWARE_LOOPBACK;
    loopback.media_type = MEDIA_LOOPBACK;
    assert_eq!(classify(&loopback), AdapterClass::Loopback);

    let mut tunnel = facts("本地连接* 1", "Microsoft Teredo Tunneling Adapter");
    tunnel.tunnel_type = 12;
    assert_eq!(classify(&tunnel), AdapterClass::Tunnel);

    let mut endpoint = facts("宽带连接", "WAN Miniport (PPPOE)");
    endpoint.endpoint = true;
    assert_eq!(classify(&endpoint), AdapterClass::Other);
}

#[test]
fn a_virtual_name_wins_over_the_hardware_flag_in_any_case() {
    assert_eq!(classify(&facts("Ethernet", "TAP-Windows Adapter V9")), AdapterClass::Virtual);
    assert_eq!(classify(&facts("ZeroTier One [abc]", "x")), AdapterClass::Virtual);
    assert_eq!(classify(&facts("MyLOOPBACK", "x")), AdapterClass::Loopback);
}

#[test]
fn counter_regression_is_detected() {
    let previous = Counters { in_octets: 1_000, out_octets: 2_000, ..Counters::default() };
    assert!(!previous.regressed_from(&previous));
    let bigger = Counters { in_octets: 1_500, out_octets: 2_500, ..Counters::default() };
    assert!(!bigger.regressed_from(&previous));
    let reset = Counters { in_octets: 0, out_octets: 10, ..Counters::default() };
    assert!(reset.regressed_from(&previous));
}

#[test]
fn growth_counts_what_was_added_and_never_wraps() {
    let previous = Counters {
        in_octets: 1_000,
        out_octets: 2_000,
        in_discards: 7,
        out_errors: 3,
        out_queue_len: 40,
        ..Counters::default()
    };
    let now = Counters {
        in_octets: 1_500,
        out_octets: 2_600,
        in_discards: 9,
        out_errors: 1,
        out_queue_len: 12,
        ..Counters::default()
    };
    let grown = now.growth_since(&previous);
    assert_eq!(grown.in_octets, 500);
    assert_eq!(grown.out_octets, 600);
    assert_eq!(grown.in_discards, 2);
    // A counter that shrank grew by nothing.
    assert_eq!(grown.out_errors, 0);
    assert_eq!(grown.in_errors, 0);
    // The queue is a level: it keeps the current length.
    assert_eq!(grown.out_queue_len, 12);
}

#[test]
fn link_up_requires_all_three_signals() {
    let mut adapter = RawAdapter {
        id: "luid-1".to_owned(),
        index: 1,
        luid: 1,
        name: "以太网".to_owned(),
        description: "test".to_owned(),
        class: AdapterClass::Physical,
        media: "以太网".to_owned(),
        mac: "AA-BB".to_owned(),
        mtu: 1500,
        oper_status: IF_OPER_UP,
        admin_status: 1,
        connect_state: MEDIA_CONNECT_CONNECTED,
        hardware: true,
        connector_present: true,
        not_media_connected: false,
        transmit_speed_bps: 1_000_000_000,
        receive_speed_bps: 1_000_000_000,
        counters: Counters::default(),
    };
    assert!(adapter.link_up());
    adapter.not_media_connected = true;
    assert!(!adapter.link_up(), "the driver flag says disconnected");
    adapter.not_media_connected = false;
    adapter.connect_state = MEDIA_CONNECT_DISCONNECTED;
    assert!(!adapter.link_up());
    assert_eq!(adapter.link_speed_bps(), 1_000_000_000);
    adapter.transmit_speed_bps = 300;
    adapter.receive_speed_bps = 200;
    assert_eq!(adapter.link_speed_bps(), 300, "the faster direction counts");
}

#[test]
fn labels_never_claim_a_status_we_cannot_see() {
    assert_eq!(oper_status_label(IF_OPER_DORMANT), "休眠");
    assert_eq!(oper_status_label(999), "未知状态");
    assert_eq!(connect_state_label(MEDIA_CONNECT_UNKNOWN), "连接状态未知");
    assert_eq!(media_label(IF_TYPE_IEEE80211, MEDIA_NATIVE_802_11), "Wi-Fi");
    assert_eq!(media_label(0, 42), "媒体类型 42");
    assert!(AdapterClass::Physical.monitored_by_default());
    assert!(!AdapterClass::Virtual.monitored_by_default());
}

#[test]
fn class_names_and_ranks_are_stable() {
    assert_eq!(AdapterClass::Physical.as_str(), "physical");
    assert_eq!(AdapterClass::Loopback.as_str(), "loopback");
    assert_eq!(AdapterClass::Virtual.label(), "虚拟网卡");
    assert!(class_rank(AdapterClass::Physical) < class_rank(AdapterClass::Virtual));
    assert!(class_rank(AdapterClass::Tunnel) < class_rank(AdapterClass::Loopback));
}

#[test]
fn errors_carry_their_kind_and_a_readable_detail() {
    let unsupported = NicError::unsupported("no counters here");
    assert_eq!(unsupported.kind, NicErrorKind::Unsupported);
    assert_eq!(unsupported.text(), "no counters here");
    let failed = NicError::call_failed(87);
    assert_eq!(failed.kind, NicErrorKind::CallFailed);
    assert!(failed.text().contains("87"), "{}", failed.text());
    let malformed = NicError::malformed("short table");
    assert_eq!(malformed.kind, NicErrorKind::Malformed);
    assert!(malformed.text().contains("short table"), "{}", malformed.text());
}

#[test]
fn wide_strings_stop_at_the_nul_terminator() {
    let mut buffer = [0_u16; 257];
    for (index, unit) in "以太网".encode_utf16().enumerate() {
        buffer[index] = unit;
    }
    assert_eq!(wide_to_string(&buffer), "以太网");
    assert_eq!(nul_terminated_len(&buffer), 3);
}

#[test]
fn wide_strings_never_panic_on_garbage() {
    let buffer = [0x41_u16; 257];
    assert_eq!(wide_to_string(&buffer).chars().count(), 257);
    let mut lone = [0_u16; 257];
    lone[0] = 0xD800;
    assert!(!wide_to_string(&lone).is_empty());
}

#[test]
fn negative_enum_values_become_unknown_not_four_billion() {
    assert_eq!(as_u32(-1), 0);
    assert_eq!(as_u32(1), 1);
}

#[test]
fn hardware_addresses_are_dash_separated_hex_within_the_buffer() {
    let bytes = [0xAA_u8, 0xBB, 0x0C, 0xDD, 0xEE, 0x0F, 0, 0];
    assert_eq!(physical_address(&bytes, 6), "AA-BB-0C-DD-EE-0F");
    assert_eq!(physical_address(&bytes, 0), "");
    assert_eq!(physical_address(&bytes[..2], 40), "AA-BB");
}

fn wide(text: &str) -> Vec<u16> {
    let mut units = vec![0_u16; 257];
    for (index, unit) in text.encode_utf16().enumerate() {
        units[index] = unit;
    }
    units
}

fn row(luid: u64, alias: &str, description: &str, flags: u8) -> loadloom::nicmon::InterfaceRow {
    loadloom::nicmon::InterfaceRow {
        luid,
        index: 7,
        alias: wide(alias),
        description: wide(description),
        physical_address_length: 6,
        physical_address: vec![0x00, 0x1A, 0x2B, 0x3C, 0x4D, 0x5E, 0, 0],
        mtu: 1500,
        if_type: IF_TYPE_ETHERNET_CSMACD,
        tunnel_type: 0,
        media_type: 0,
        flags,
        oper_status: 1,
        admin_status: 1,
        media_connect_state: 1,
        transmit_link_speed: 1_000_000_000,
        receive_link_speed: 100_000_000,
        counters: Counters { in_octets: 5, out_queue_len: 2, ..Counters::default() },
    }
}

#[test]
fn an_interface_row_becomes_a_described_adapter() {
    let adapter = loadloom::nicmon::adapter_from_row(&row(
        0x0006_0000_0100_00AB,
        "以太网",
        "Intel(R) Ethernet Controller I225-V",
        0b0000_0101,
    ));
    assert_eq!(adapter.id, "luid-00060000010000ab");
    assert_eq!(adapter.name, "以太网");
    assert_eq!(adapter.description, "Intel(R) Ethernet Controller I225-V");
    assert_eq!(adapter.class, AdapterClass::Physical);
    assert_eq!(adapter.media, "以太网");
    assert_eq!(adapter.mac, "00-1A-2B-3C-4D-5E");
    assert!(adapter.hardware && adapter.connector_present && !adapter.not_media_connected);
    assert!(adapter.link_up());
    assert_eq!(adapter.link_speed_bps(), 1_000_000_000);
    assert_eq!(adapter.counters.out_queue_len, 2);

    let mut odd = row(1, "vEthernet (WSL)", "Hyper-V Virtual Ethernet Adapter", 0b1001_0001);
    odd.oper_status = -3;
    odd.media_type = -1;
    let adapter = loadloom::nicmon::adapter_from_row(&odd);
    assert_eq!(adapter.id, "luid-0000000000000001");
    assert_eq!(adapter.oper_status, 0);
    assert!(adapter.not_media_connected);
    assert_eq!(adapter.class, AdapterClass::Other, "the endpoint bit decides before the name");
}

#[test]
fn adapters_are_listed_physical_first_then_by_name_and_stably() {
    let rows = vec![
        row(1, "vEthernet", "Hyper-V Virtual Ethernet Adapter", 1),
        row(2, "WLAN", "Intel(R) Wi-Fi 6", 1),
        row(3, "Loopback Pseudo-Interface 1", "Software Loopback Interface 1", 0),
        row(4, "Ethernet", "Realtek PCIe GbE", 1),
        row(5, "Ethernet", "Realtek USB GbE", 1),
    ];
    let listed = loadloom::nicmon::adapters_from_rows(&rows);
    let order: Vec<u64> = listed.iter().map(|adapter| adapter.luid).collect();
    assert_eq!(order, vec![4, 5, 2, 1, 3]);
    let again = loadloom::nicmon::sort_adapters(listed.clone());
    assert_eq!(again, listed, "sorting a listing changes nothing");
}

#[test]
fn other_platforms_say_that_they_cannot_read_counters() {
    let error = loadloom::nicmon::unsupported_platform("linux");
    assert_eq!(error.kind, NicErrorKind::Unsupported);
    assert_eq!(error.detail, "网卡计数器读取目前只有 Windows 实现（当前平台 linux）");
}
