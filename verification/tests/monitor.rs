use loadloom::codes;
use loadloom::contract::LogLevel;
use loadloom::monitor::{
    banner, inventory_message, missing_ids, missing_note, rescope, sample_failure,
    scope_message, unsupported_error, vanished_message, Watch,
};
use loadloom::nic::{advance, CAPABILITY_NOTE};
use loadloom::text::join;
use loadloom::nicmon::{AdapterClass, Counters, RawAdapter, IF_OPER_UP, MEDIA_CONNECT_CONNECTED};

fn adapter(id: &str, name: &str, class: AdapterClass) -> RawAdapter {
    RawAdapter {
        id: id.to_owned(),
        index: 1,
        luid: 1,
        name: name.to_owned(),
        description: "Test NIC".to_owned(),
        class,
        media: "以太网".to_owned(),
        mac: "AA-BB-CC-DD-EE-FF".to_owned(),
        mtu: 1500,
        oper_status: IF_OPER_UP,
        admin_status: 1,
        connect_state: MEDIA_CONNECT_CONNECTED,
        hardware: true,
        connector_present: true,
        not_media_connected: false,
        transmit_speed_bps: 1_000_000_000,
        receive_speed_bps: 1_000_000_000,
        counters: Counters::default(),
    }
}

#[test]
fn leaving_the_scope_drops_the_baseline() {
    let (memory, _) = advance(None, &adapter("a", "以太网", AdapterClass::Physical), false, false, false, 0);
    let mut watch = Watch { memory: Some(memory), monitored: true };
    assert!(!rescope(&mut watch, true));
    assert_eq!(watch.memory, Some(memory));
    assert!(rescope(&mut watch, false));
    assert_eq!(watch, Watch { memory: None, monitored: false });
    assert!(!rescope(&mut watch, true));
    assert!(watch.monitored);
}

#[test]
fn missing_selections_are_named_in_order() {
    let selection = vec!["x".to_owned(), "a".to_owned(), "y".to_owned()];
    let known = vec!["a".to_owned(), "b".to_owned()];
    assert_eq!(missing_ids(&selection, &known), vec!["x".to_owned(), "y".to_owned()]);
    assert_eq!(
        missing_note(&selection, &known).expect("two are missing"),
        "以下网卡当前不在接口列表里（可能已拔出 / 已禁用），插回后会自动恢复监测：x、y"
    );
    assert_eq!(missing_note(&vec!["a".to_owned()], &known), None);
}

#[test]
fn scope_and_removal_lines_read_as_the_monitor_words_them() {
    assert_eq!(scope_message(0), "监测范围已更新：默认（全部物理网卡）");
    assert_eq!(scope_message(3), "监测范围已更新：3 块网卡");
    assert_eq!(
        vanished_message("WLAN"),
        "网卡「WLAN」已从接口列表消失（拔出 / 禁用 / 驱动卸载）；勾选会保留，插回后自动恢复监测"
    );
    assert_eq!(unsupported_error("Linux"), "当前平台（Linux）不支持读取网卡计数器");
    assert_eq!(join(&vec![], "、"), "");
    assert_eq!(join(&vec!["a".to_owned()], "、"), "a");
    assert_eq!(join(&vec!["a".to_owned(), "b".to_owned(), "c".to_owned()], " / "), "a / b / c");
}

#[test]
fn sampling_failures_are_logged_at_milestones_only() {
    assert_eq!(
        sample_failure(1, "GetIfTable2 返回 Win32 状态 87").as_deref(),
        Some("网卡采样失败（第 1 次，按里程碑节流）：GetIfTable2 返回 Win32 状态 87")
    );
    assert_eq!(sample_failure(4, "x"), None);
    assert!(sample_failure(10, "x").is_some());
    assert_eq!(sample_failure(11, "x"), None);
}

#[test]
fn the_banner_states_platform_period_and_capability() {
    let (level, code, text) = banner(true, "Windows");
    assert_eq!(level, LogLevel::Info);
    assert_eq!(code, codes::nic::MONITOR_READY);
    assert_eq!(text, format!("网卡监测已启动 · 平台 Windows · 采样 500 ms · {CAPABILITY_NOTE}"));
    let (level, code, text) = banner(false, "Linux");
    assert_eq!(level, LogLevel::Warn);
    assert_eq!(code, codes::nic::UNSUPPORTED);
    assert_eq!(text, format!("网卡监测在当前平台不可用（Linux）：{CAPABILITY_NOTE}"));
}

#[test]
fn the_first_sample_inventory_counts_classes_and_names_watched_adapters() {
    let adapters = vec![
        adapter("p", "以太网", AdapterClass::Physical),
        adapter("v", "vEthernet", AdapterClass::Virtual),
        adapter("l", "Loopback", AdapterClass::Loopback),
        adapter("w", "WLAN", AdapterClass::Physical),
    ];
    assert_eq!(
        inventory_message(&adapters, &vec![true, false, false, true]),
        "首次采样：发现 4 个接口（物理网卡 2 / 虚拟网卡 1 / 回环 1）· 默认监测 以太网、WLAN"
    );
    assert_eq!(
        inventory_message(&adapters, &vec![false; 4]),
        "首次采样：发现 4 个接口（物理网卡 2 / 虚拟网卡 1 / 回环 1）· 默认监测 （无）"
    );
    let many: Vec<RawAdapter> =
        (0..10).map(|i| adapter(&format!("p{i}"), &format!("N{i}"), AdapterClass::Physical)).collect();
    assert_eq!(
        inventory_message(&many, &vec![true; 10]),
        "首次采样：发现 10 个接口（物理网卡 10）· 默认监测 N0、N1、N2、N3、N4、N5、N6、N7 等 10 块"
    );
    assert_eq!(inventory_message(&vec![], &vec![]), "首次采样：发现 0 个接口（）· 默认监测 （无）");
}
