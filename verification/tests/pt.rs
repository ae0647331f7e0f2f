use loadloom::contract::{CoreError, PressureLevel, PtPhase};
use loadloom::pt::{
    apply_line, channel_failed, check_request, output_ended, pressure_level, stderr_excerpt,
    LineEffect, PtStatus, SidecarLine, SidecarLog, MAX_SOURCE_LEN,
};

const MAGNET: &str = "magnet:?xt=urn:btih:0123456789012345678901234567890123456789";

#[test]
fn request_validation_enforces_safe_bounds() {
    assert!(check_request(true, MAGNET, 180, 512, 600, 15).is_ok());
    assert!(check_request(true, MAGNET, 501, 512, 600, 15).is_err());
    assert!(check_request(false, MAGNET, 180, 512, 600, 15).is_err());
}

#[test]
fn each_request_bound_has_its_own_message() {
    match check_request(false, "", 0, 0, 0, 0) {
        Err(CoreError::NotAuthorized(message)) => {
            assert_eq!(message, "请确认仅使用合法公开或已获授权的 torrent")
        }
        other => panic!("authorization comes first: {other:?}"),
    }
    for source in ["ftp://x", "", "  magnet:x"] {
        match check_request(true, source, 180, 512, 600, 15) {
            Err(CoreError::InvalidInput(message)) => {
                assert_eq!(message, "PT 来源必须是 magnet URI 或 HTTP(S) .torrent URL")
            }
            other => panic!("{source:?} must be refused: {other:?}"),
        }
    }
    assert!(check_request(true, "  https://example.test/a.torrent  ", 8, 64, 86_400, 5).is_ok());
    assert!(check_request(true, "http://example.test/a.torrent", 500, 4096, 0, 120).is_ok());
    let long = format!("https://{}", "a".repeat(MAX_SOURCE_LEN));
    assert!(check_request(true, &long, 180, 512, 600, 15).is_err());
    assert!(matches!(
        check_request(true, MAGNET, 7, 512, 600, 15),
        Err(CoreError::InvalidInput(m)) if m == "PT 最大连接数必须在 8..=500"
    ));
    assert!(matches!(
        check_request(true, MAGNET, 180, 4097, 600, 15),
        Err(CoreError::InvalidInput(m)) if m == "PT RAM 上限必须在 64..=4096 MiB"
    ));
    assert!(matches!(
        check_request(true, MAGNET, 180, 512, 86_401, 15),
        Err(CoreError::InvalidInput(m)) if m == "PT 时长或死链判定窗口超出允许范围"
    ));
    assert!(check_request(true, MAGNET, 180, 512, 600, 4).is_err());
}

#[test]
fn pressure_levels_default_to_normal() {
    assert_eq!(pressure_level("warning"), PressureLevel::Warning);
    assert_eq!(pressure_level("critical"), PressureLevel::Critical);
    assert_eq!(pressure_level("Warning"), PressureLevel::Normal);
    assert_eq!(pressure_level(""), PressureLevel::Normal);
}

fn starting() -> PtStatus {
    PtStatus {
        phase: PtPhase::Starting,
        status: "正在启动 Go PT 引擎".to_owned(),
        last_error: String::new(),
    }
}

fn log(level: &str, code: &str, message: &str) -> Option<SidecarLog> {
    Some(SidecarLog { level: level.to_owned(), code: code.to_owned(), message: message.to_owned() })
}

#[test]
fn protocol_lines_drive_the_phase_and_the_status() {
    let mut status = starting();
    let effect = apply_line(&mut status, SidecarLine::Ready);
    assert_eq!(effect, LineEffect { terminal: false, publish: true });
    assert_eq!(status.phase, PtPhase::Metadata);
    assert_eq!(status.status, "正在通过 Tracker / DHT / PEX 发现 Peer 与元数据");

    apply_line(&mut status, SidecarLine::Log { record: log("info", "PT-1", "tracker ok") });
    assert_eq!(status.status, "tracker ok");
    assert_eq!(status.last_error, "");
    apply_line(&mut status, SidecarLine::Log { record: log("error", "PT-9", "dht down") });
    assert_eq!(status.last_error, "PT-9 dht down");

    let effect = apply_line(&mut status, SidecarLine::Metrics { parsed: true });
    assert_eq!(effect, LineEffect { terminal: false, publish: true });
    assert_eq!(status.phase, PtPhase::Downloading);
    assert_eq!(status.status, "真实 PT swarm 下载中 · piece 校验后立即丢弃");
    assert_eq!(status.last_error, "", "a metrics frame replaces the whole snapshot");

    let before = status.clone();
    assert_eq!(
        apply_line(&mut status, SidecarLine::Metrics { parsed: false }),
        LineEffect { terminal: false, publish: false }
    );
    assert_eq!(apply_line(&mut status, SidecarLine::Log { record: None }).publish, false);
    assert_eq!(apply_line(&mut status, SidecarLine::Other).publish, false);
    assert_eq!(status, before);

    let effect = apply_line(&mut status, SidecarLine::Completed { reason: Some("done".to_owned()) });
    assert_eq!(effect, LineEffect { terminal: true, publish: true });
    assert_eq!(status.phase, PtPhase::Completed);
    assert_eq!(status.status, "done");
}

#[test]
fn fatal_invalid_and_stopped_lines_are_reported() {
    let mut status = starting();
    apply_line(&mut status, SidecarLine::Invalid { error: "expected value".to_owned() });
    assert_eq!(status.last_error, "PT sidecar JSON 无效：expected value");
    assert_eq!(status.phase, PtPhase::Starting);

    let effect = apply_line(&mut status, SidecarLine::Fatal { record: log("error", "PT-3", "disk") });
    assert!(effect.terminal);
    assert_eq!(status.phase, PtPhase::Failed);
    assert_eq!(status.status, "PT 压测失败");
    assert_eq!(status.last_error, "PT-3 disk");
    apply_line(&mut status, SidecarLine::Fatal { record: None });
    assert_eq!(status.last_error, "PT sidecar 报告致命错误");

    let mut stopped = starting();
    assert!(apply_line(&mut stopped, SidecarLine::Stopped { reason: None }).terminal);
    assert_eq!(stopped.phase, PtPhase::Idle);
    assert_eq!(stopped.status, "PT 压测已结束");
}

#[test]
fn an_output_that_ends_without_a_terminal_line_is_a_failure() {
    let mut status = starting();
    output_ended(&mut status, false, Some("exit status: 2".to_owned()));
    assert_eq!(status.phase, PtPhase::Failed);
    assert_eq!(status.status, "PT sidecar 意外退出");
    assert_eq!(status.last_error, "sidecar exit=exit status: 2");

    let mut unknown = starting();
    output_ended(&mut unknown, false, None);
    assert_eq!(unknown.last_error, "无法读取 sidecar 退出状态");

    let mut finished = starting();
    apply_line(&mut finished, SidecarLine::Completed { reason: None });
    let before = finished.clone();
    output_ended(&mut finished, true, None);
    assert_eq!(finished, before);

    let mut broken = starting();
    channel_failed(&mut broken, "读取 PT 指标失败：eof".to_owned());
    assert_eq!(broken.phase, PtPhase::Failed);
    assert_eq!(broken.status, "PT 指标通道失败");
    let before = broken.clone();
    output_ended(&mut broken, false, None);
    assert_eq!(broken, before, "an already failed run keeps its own error");
}

#[test]
fn stderr_lines_are_trimmed_and_cut() {
    assert_eq!(stderr_excerpt("   "), None);
    assert_eq!(stderr_excerpt("  panic: boom \n").as_deref(), Some("panic: boom"));
    let long = "错".repeat(700);
    let cut = stderr_excerpt(&long).expect("non-blank");
    assert_eq!(cut.chars().count(), 500);
}
