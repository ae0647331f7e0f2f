use loadloom::contract::{NicEvent, NicEventKind};
use loadloom::nic::CAPABILITY_NOTE;
use loadloom::nicmon::{AdapterClass, Counters, RawAdapter, IF_OPER_UP, MEDIA_CONNECT_CONNECTED};
use loadloom::report::{render_report, ReportRow, REPORT_EVENTS};

fn adapter() -> RawAdapter {
    RawAdapter {
        id: "luid-p".to_owned(),
        index: 1,
        luid: 1,
        name: "以太网".to_owned(),
        description: "Test NIC".to_owned(),
        class: AdapterClass::Physical,
        media: "以太网".to_owned(),
        mac: "AA-BB-CC-DD-EE-FF".to_owned(),
        mtu: 1500,
        oper_status: IF_OPER_UP,
        admin_status: 1,
        connect_state: MEDIA_CONNECT_CONNECTED,
        hardware: true,
        connector_present: true,
        not_media_connected: false,
        transmit_speed_bps: 1_000_000_000,
        receive_speed_bps: 1_000_000_000,
        counters: Counters {
            in_octets: 1000,
            out_octets: 2000,
            in_discards: 1,
            out_discards: 2,
            in_errors: 3,
            out_errors: 4,
            in_unknown_protos: 5,
            out_queue_len: 6,
            ..Counters::default()
        },
    }
}

fn row() -> ReportRow {
    ReportRow {
        adapter: adapter(),
        transmit_speed: "1.00 Gbps".to_owned(),
        receive_speed: "1.00 Gbps".to_owned(),
        rx_mbps: "0.00".to_owned(),
        rx_utilization: "0.0".to_owned(),
        tx_mbps: "1.50".to_owned(),
        tx_utilization: "1.3".to_owned(),
    }
}

fn event(at_ms: u64) -> NicEvent {
    NicEvent {
        at_ms,
        adapter_id: "luid-p".to_owned(),
        adapter: "以太网".to_owned(),
        kind: NicEventKind::LinkDown,
        code: "NIC-LINK-DOWN".to_owned(),
        resolved: false,
        message: "链路断开".to_owned(),
    }
}

#[test]
fn the_report_states_the_capability_boundary_and_the_numbers() {
    let text = render_report("Windows", true, 1, 0, "", &vec![row()], &vec![]);
    assert!(text.contains("以太网"), "{text}");
    assert!(text.contains("能力边界"), "{text}");
    assert!(text.contains("不可获得"), "{text}");
    assert!(text.contains("温度"), "{text}");
    assert!(text.contains("1.00 Gbps"), "{text}");
}

#[test]
fn report_text_is_exact() {
    let text = render_report("Windows", true, 3, 0, "", &vec![row()], &vec![event(1500)]);
    let expected = format!(
        "LoadLoom 网卡报告\n平台：Windows（支持读取：是）\n采样周期：500 ms · 已采样 3 次 · 监测范围：默认（全部物理网卡）\n能力边界：{CAPABILITY_NOTE}\n\
         \n--- 正在监测的网卡 ---\n\
         \n● 以太网 [物理网卡] 以太网\n  驱动：Test NIC\n  链路：已启用 · 协商速率 发 1.00 Gbps / 收 1.00 Gbps · MTU 1500 · MAC AA-BB-CC-DD-EE-FF\n  实时：收 0.00 MB/s（0.0%）· 发 1.50 MB/s（1.3%）· 发送队列 6 包\n  累计：收 1000 / 发 2000 字节 · 丢弃 收 1 / 发 2 · 错误 收 3 / 发 4 · 未知协议 5\n\
         \n--- 最近事件（新的在前）---\n[1500 ms] (NIC-LINK-DOWN) 以太网 · 链路断开\n"
    );
    assert_eq!(text, expected);
}

#[test]
fn an_empty_report_says_so() {
    let text = render_report("其他平台", false, 0, 2, "Win32 状态 5", &vec![], &vec![]);
    assert!(text.contains("平台：其他平台（支持读取：否）"), "{text}");
    assert!(text.contains("监测范围：2 块网卡（显式勾选）\n"), "{text}");
    assert!(text.contains("最近一次采样错误：Win32 状态 5\n"), "{text}");
    assert!(text.contains("\n--- 正在监测的网卡 ---\n（无）\n"), "{text}");
    assert!(text.ends_with("\n--- 最近事件（新的在前）---\n（暂无）\n"), "{text}");
}

#[test]
fn a_report_without_driver_text_or_mac_marks_them() {
    let mut r = row();
    r.adapter.description = String::new();
    r.adapter.mac = String::new();
    let text = render_report("Windows", true, 1, 0, "", &vec![r], &vec![]);
    assert!(text.contains("驱动：（驱动未提供）"), "{text}");
    assert!(text.contains("MAC （无）"), "{text}");
    assert!(!text.contains("最近一次采样错误"), "{text}");
}

#[test]
fn the_report_lists_at_most_the_newest_events() {
    let events: Vec<NicEvent> = (0..30u64).map(event).collect();
    let text = render_report("Windows", true, 1, 0, "", &vec![], &events);
    assert_eq!(text.matches("NIC-LINK-DOWN").count(), REPORT_EVENTS);
    assert!(text.contains("[19 ms]"), "{text}");
    assert!(!text.contains("[20 ms]"), "{text}");
}
