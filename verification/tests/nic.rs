use loadloom::codes;
use loadloom::contract::{CoreError, LogLevel, NicEvent, NicEventKind, NicLinkState};
use loadloom::nic::{
    admin_enabled, advance, clean_selection, code_of, is_monitored, is_resolved, kind_of,
    level_of, link_state_of, monitored_by_default, push_event, selection_contains, worth_logging,
    Finding, Spike, MAX_ID_LEN, MAX_SELECTION, NIC_EVENT_LIMIT,
};
use loadloom::nicmon::{
    AdapterClass, Counters, RawAdapter, IF_OPER_DORMANT, IF_OPER_DOWN, IF_OPER_NOT_PRESENT,
    IF_OPER_UP, MEDIA_CONNECT_CONNECTED, MEDIA_CONNECT_DISCONNECTED, MEDIA_CONNECT_UNKNOWN,
};

/// An online 1 Gbps Ethernet adapter with fresh counters.
fn base() -> RawAdapter {
    RawAdapter {
        id: "luid-test".to_owned(),
        index: 3,
        luid: 3,
        name: "以太网".to_owned(),
        description: "Test NIC".to_owned(),
        class: AdapterClass::Physical,
        media: "以太网".to_owned(),
        mac: "AA-BB-CC-DD-EE-FF".to_owned(),
        mtu: 1500,
        oper_status: IF_OPER_UP,
        admin_status: 1,
        connect_state: MEDIA_CONNECT_CONNECTED,
        hardware: true,
        connector_present: true,
        not_media_connected: false,
        transmit_speed_bps: 1_000_000_000,
        receive_speed_bps: 1_000_000_000,
        counters: Counters::default(),
    }
}

#[test]
fn link_down_then_up_reports_the_outage_duration() {
    let live = base();
    let (state, findings) = advance(None, &live, false, false, false, 1_000);
    assert!(findings.is_empty(), "the first frame only sets the baseline: {findings:?}");

    let mut down = base();
    down.oper_status = IF_OPER_DOWN;
    down.connect_state = MEDIA_CONNECT_DISCONNECTED;
    down.not_media_connected = true;
    let (state, findings) = advance(Some(state), &down, false, false, false, 1_500);
    assert_eq!(findings, vec![Finding::LinkDown]);
    assert_eq!(code_of(&findings[0]), codes::nic::LINK_DOWN);
    assert_eq!(level_of(&findings[0]), LogLevel::Warn);

    // A link that stays down is not announced again each frame.
    let (state, findings) = advance(Some(state), &down, false, false, false, 2_000);
    assert!(findings.is_empty());

    let (_, findings) = advance(Some(state), &live, false, false, false, 4_500);
    assert_eq!(findings, vec![Finding::LinkUp { down_ms: 3_000 }]);
    assert_eq!(code_of(&findings[0]), codes::nic::LINK_UP);
    assert_eq!(kind_of(&findings[0]), NicEventKind::LinkUp);
}

#[test]
fn speed_change_needs_two_frames_that_both_report_a_speed() {
    let (state, _) = advance(None, &base(), false, false, false, 0);
    let mut slow = base();
    slow.transmit_speed_bps = 100_000_000;
    slow.receive_speed_bps = 100_000_000;
    let (state, findings) = advance(Some(state), &slow, false, false, false, 500);
    assert_eq!(
        findings,
        vec![Finding::SpeedChange { from_bps: 1_000_000_000, to_bps: 100_000_000 }]
    );

    // A driver that has not reported a speed yet (0) is no slowdown.
    let mut unknown = base();
    unknown.transmit_speed_bps = 0;
    unknown.receive_speed_bps = 0;
    let (_, findings) = advance(Some(state), &unknown, false, false, false, 1_000);
    assert!(findings.is_empty(), "{findings:?}");
}

#[test]
fn a_sustained_discard_spike_has_a_start_and_an_end_with_the_peak() {
    let live = base();
    let (state, _) = advance(None, &live, false, false, false, 0);
    let (state, first) = advance(Some(state), &live, false, true, false, 500);
    assert!(first.is_empty(), "a single frame is no spike");

    let (state, second) = advance(Some(state), &live, false, true, false, 1_000);
    assert_eq!(second, vec![Finding::SpikeStarted { spike: Spike::Discards }]);
    assert_eq!(level_of(&second[0]), LogLevel::Warn);
    assert_eq!(code_of(&second[0]), codes::nic::DISCARD_SPIKE);

    // While it lasts, the start is not repeated.
    let (state, ongoing) = advance(Some(state), &live, false, true, false, 1_500);
    assert!(ongoing.is_empty());

    let (_, ended) = advance(Some(state), &live, false, false, false, 2_000);
    assert_eq!(
        ended,
        vec![Finding::SpikeEnded { spike: Spike::Discards, duration_ms: 1_500, samples: 3 }]
    );
    assert!(is_resolved(&ended[0]));
    assert!(worth_logging(&ended[0]));
    assert_eq!(code_of(&ended[0]), codes::nic::DISCARD_SPIKE_END);
}

#[test]
fn a_single_frame_blip_only_touches_the_event_stream() {
    let live = base();
    let (state, _) = advance(None, &live, false, false, false, 0);
    let (state, findings) = advance(Some(state), &live, false, false, true, 500);
    assert!(findings.is_empty());
    let (_, findings) = advance(Some(state), &live, false, false, false, 1_000);
    assert_eq!(findings.len(), 1);
    assert!(!worth_logging(&findings[0]), "a one-frame blip stays out of the log");
    assert!(!is_resolved(&Finding::LinkDown));
}

#[test]
fn queue_backlog_episode_reports_the_peak_depth() {
    let mut loaded = base();
    loaded.counters.out_queue_len = 24;
    let (state, _) = advance(None, &loaded, false, false, false, 0);
    let (state, findings) = advance(Some(state), &loaded, false, false, false, 500);
    assert_eq!(findings, vec![Finding::SpikeStarted { spike: Spike::Queue }]);
    assert_eq!(level_of(&findings[0]), LogLevel::Info, "a backlog is recorded, not alarmed");

    let mut deeper = loaded.clone();
    deeper.counters.out_queue_len = 90;
    let (state, _) = advance(Some(state), &deeper, false, false, false, 1_000);
    let (_, findings) = advance(Some(state), &base(), false, false, false, 1_500);
    assert_eq!(
        findings,
        vec![Finding::SpikeEnded { spike: Spike::Queue, duration_ms: 1_500, samples: 3 }]
    );
}

#[test]
fn findings_of_one_frame_come_in_a_fixed_order() {
    let (state, _) = advance(None, &base(), false, true, true, 0);
    let mut down = base();
    down.oper_status = IF_OPER_DOWN;
    down.counters.out_queue_len = 16;
    let (state, findings) = advance(Some(state), &down, true, true, true, 400);
    assert_eq!(
        findings,
        vec![
            Finding::LinkDown,
            Finding::CounterReset,
            Finding::SpikeStarted { spike: Spike::Discards },
            Finding::SpikeStarted { spike: Spike::Errors },
        ]
    );
    assert_eq!(state.down_since_ms, Some(400));
    assert!(!state.link_up);
    let codes_seen: Vec<&str> = findings.iter().map(code_of).collect();
    assert_eq!(
        codes_seen,
        vec![
            codes::nic::LINK_DOWN,
            codes::nic::COUNTER_RESET,
            codes::nic::DISCARD_SPIKE,
            codes::nic::ERROR_SPIKE
        ]
    );
    assert_eq!(kind_of(&findings[1]), NicEventKind::CounterReset);
    assert_eq!(level_of(&findings[1]), LogLevel::Info);
}

#[test]
fn a_link_first_seen_down_reports_its_outage_from_that_frame() {
    let mut down = base();
    down.oper_status = IF_OPER_DOWN;
    let (state, findings) = advance(None, &down, false, false, false, 700);
    assert!(findings.is_empty());
    assert_eq!(state.down_since_ms, Some(700));
    let (state, _) = advance(Some(state), &down, false, false, false, 1_200);
    assert_eq!(state.down_since_ms, Some(700), "the outage start is kept");
    let (state, findings) = advance(Some(state), &base(), false, false, false, 2_000);
    assert_eq!(findings, vec![Finding::LinkUp { down_ms: 1_300 }]);
    assert_eq!(state.down_since_ms, None);
}

#[test]
fn link_state_mapping_distinguishes_absent_from_disconnected() {
    let mut adapter = base();
    assert_eq!(link_state_of(&adapter), NicLinkState::Connected);
    adapter.oper_status = IF_OPER_DOWN;
    assert_eq!(link_state_of(&adapter), NicLinkState::Disconnected);
    adapter.oper_status = IF_OPER_DORMANT;
    adapter.connect_state = MEDIA_CONNECT_UNKNOWN;
    assert_eq!(link_state_of(&adapter), NicLinkState::Dormant);
    adapter.oper_status = IF_OPER_NOT_PRESENT;
    assert_eq!(link_state_of(&adapter), NicLinkState::NotPresent);
    assert!(admin_enabled(&adapter));

    let mut virtual_nic = base();
    virtual_nic.class = AdapterClass::Virtual;
    assert!(!monitored_by_default(&virtual_nic));
    assert!(monitored_by_default(&base()));
    let mut ghost = base();
    ghost.oper_status = IF_OPER_NOT_PRESENT;
    assert!(!monitored_by_default(&ghost), "leftover entries are not watched by default");
}

#[test]
fn an_adapter_in_an_unknown_state_is_not_called_disconnected() {
    let mut adapter = base();
    adapter.oper_status = 3;
    adapter.connect_state = MEDIA_CONNECT_UNKNOWN;
    assert_eq!(link_state_of(&adapter), NicLinkState::Unknown);
    adapter.admin_status = 2;
    assert!(!admin_enabled(&adapter));
}

#[test]
fn selection_rejects_absurd_payloads_instead_of_truncating_silently() {
    assert!(clean_selection(&vec!["x".repeat(MAX_ID_LEN + 1)]).is_err());
    let too_many: Vec<String> = (0..=MAX_SELECTION).map(|index| format!("id-{index}")).collect();
    assert!(clean_selection(&too_many).is_err());
    let cleaned = clean_selection(&vec![" a ".to_owned(), "a".to_owned(), "   ".to_owned()])
        .expect("valid once cleaned");
    assert_eq!(cleaned, vec!["a".to_owned()]);
}

#[test]
fn selection_errors_state_the_limit() {
    match clean_selection(&vec!["x".repeat(MAX_ID_LEN + 1)]) {
        Err(CoreError::InvalidInput(message)) => assert_eq!(message, "网卡标识过长：上限 128 字节"),
        other => panic!("expected an invalid-input error, got {other:?}"),
    }
    let too_many: Vec<String> = (0..=MAX_SELECTION).map(|index| format!("id-{index}")).collect();
    match clean_selection(&too_many) {
        Err(CoreError::InvalidInput(message)) => {
            assert_eq!(message, "一次最多监测 64 块网卡（收到 65）")
        }
        other => panic!("expected an invalid-input error, got {other:?}"),
    }
    let exact: Vec<String> = (0..MAX_SELECTION).map(|index| format!("id-{index}")).collect();
    assert_eq!(clean_selection(&exact).expect("the limit itself is allowed").len(), MAX_SELECTION);
    assert_eq!(clean_selection(&vec!["x".repeat(MAX_ID_LEN)]).expect("at the limit").len(), 1);
}

#[test]
fn an_explicit_selection_overrides_the_default_scope() {
    let physical = base();
    let mut virtual_nic = base();
    virtual_nic.id = "luid-v".to_owned();
    virtual_nic.class = AdapterClass::Virtual;
    let nothing: Vec<String> = Vec::new();
    assert!(is_monitored(&nothing, &physical));
    assert!(!is_monitored(&nothing, &virtual_nic));
    let only_virtual = vec!["luid-v".to_owned()];
    assert!(!is_monitored(&only_virtual, &physical));
    assert!(is_monitored(&only_virtual, &virtual_nic));
    assert!(selection_contains(&only_virtual, &"luid-v".to_owned()));
    assert!(!selection_contains(&only_virtual, &"luid".to_owned()));
}

fn event(at_ms: u64) -> NicEvent {
    NicEvent {
        at_ms,
        adapter_id: "luid-test".to_owned(),
        adapter: "以太网".to_owned(),
        kind: NicEventKind::LinkDown,
        code: codes::nic::LINK_DOWN.to_owned(),
        resolved: false,
        message: "down".to_owned(),
    }
}

#[test]
fn the_event_list_keeps_the_newest_first_and_stays_bounded() {
    let mut events = Vec::new();
    for at in 0..(NIC_EVENT_LIMIT as u64 + 5) {
        push_event(&mut events, event(at));
    }
    assert_eq!(events.len(), NIC_EVENT_LIMIT);
    assert_eq!(events[0].at_ms, NIC_EVENT_LIMIT as u64 + 4);
    assert_eq!(events[NIC_EVENT_LIMIT - 1].at_ms, 5);
}
