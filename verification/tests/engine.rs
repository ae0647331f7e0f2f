use loadloom::codes;
use loadloom::contract::{CoreError, RunEventKind};
use loadloom::engine::{
    backoff_ms, cache_busted_url, clamp_threads, error_code, failure_message, in_flight_finished,
    in_flight_started, jitter_ms, stop_code, validate_target, worker_on_duty, Control,
    ErrorTraits, FailureLog, RunGate, BACKOFF_BASE_MS, BACKOFF_MAX_MS, MAX_URL_LEN, MAX_WORKERS,
};

#[test]
fn cache_buster_preserves_query_and_fragment() {
    assert_eq!(
        cache_busted_url("https://example.test/file?a=1#part", 2, 3),
        "https://example.test/file?a=1&_ll=2-3#part"
    );
    assert_eq!(
        cache_busted_url("https://example.test/file", 0, 1),
        "https://example.test/file?_ll=0-1"
    );
}

#[test]
fn cache_buster_handles_an_empty_query_string() {
    assert_eq!(
        cache_busted_url("https://example.test/file?", 0, 1),
        "https://example.test/file?_ll=0-1"
    );
    assert_eq!(
        cache_busted_url("https://example.test/file?a=1&", 0, 1),
        "https://example.test/file?a=1&_ll=0-1"
    );
}

#[test]
fn cache_buster_only_looks_at_the_first_fragment_mark() {
    assert_eq!(
        cache_busted_url("http://h/p#a#b", 4, 18_446_744_073_709_551_615),
        "http://h/p?_ll=4-18446744073709551615#a#b"
    );
}

#[test]
fn a_new_run_invalidates_the_previous_generation() {
    let mut control = Control::new();
    let first = control.begin_run();
    assert!(control.is_active(first));

    control.stop = true;
    control.invalidate_run();
    assert!(!control.is_active(first));

    // Clearing the stop flag for the next start must not revive the old
    // generation's workers.
    control.stop = false;
    assert!(
        !control.is_active(first),
        "a worker of the old generation must not come back when stop is cleared"
    );

    let second = control.begin_run();
    assert_ne!(first, second);
    assert!(control.is_active(second), "the new generation's workers are on duty");
}

#[test]
fn jitter_is_bounded_and_worker_specific() {
    assert_eq!(jitter_ms(7, 0), 0);
    for seed in 0..8u64 {
        assert!(jitter_ms(seed, 101) < 101);
    }
    let spread: std::collections::BTreeSet<u64> =
        (0..32u64).map(|id| jitter_ms(id, 1000)).collect();
    assert!(spread.len() > 1, "every worker drew the same jitter: no desynchronisation");
}

#[test]
fn jitter_values_are_fixed_by_the_mix() {
    assert_eq!(jitter_ms(0, 1000), 535);
    assert_eq!(jitter_ms(1, 1000), 465);
    assert_eq!(jitter_ms(12345, 101), 39);
    assert_eq!(jitter_ms(12345, 1), 0);
}

#[test]
fn stop_while_idle_does_not_touch_control_state() {
    let mut gate = RunGate::new();
    assert!(!gate.control.stop);
    let run_before = gate.control.run;

    assert_eq!(gate.stop_run(None), None);

    assert!(!gate.control.stop, "an idle stop must not leave the stop flag raised");
    assert_eq!(gate.control.run, run_before, "an idle stop must not retire a generation");
    assert!(!gate.running);
}

#[test]
fn stale_auto_stop_cannot_kill_a_newer_run() {
    let mut gate = RunGate::new();
    let stale_run = gate.try_begin(2).expect("the first start is admitted");
    assert!(gate.stop_run(None).is_some());
    gate.try_begin(2).expect("a restart is admitted");

    assert_eq!(gate.stop_run(Some(stale_run)), None, "a stale generation cannot stop the live run");
    assert!(gate.running, "the new run survives the stale automatic stop");

    let current = gate.control.run;
    let outcome = gate.stop_run(Some(current)).expect("the live generation stops");
    assert_eq!(outcome.kind, RunEventKind::AutoStopped);
    assert_eq!(outcome.run, current);
    assert!(!gate.running);
}

#[test]
fn a_second_start_is_refused_while_a_run_is_live() {
    let mut gate = RunGate::new();
    let first = gate.try_begin(4);
    assert_eq!(first, Some(1));
    let before = gate;
    assert_eq!(gate.try_begin(8), None);
    assert_eq!(gate, before, "a refused start changes nothing");
    let outcome = gate.stop_run(None).expect("a manual stop ends the live run");
    assert_eq!(outcome.kind, RunEventKind::Stopped);
    assert_eq!(stop_code(outcome.kind), codes::run::STOPPED);
    assert_eq!(stop_code(RunEventKind::AutoStopped), codes::run::AUTO_STOPPED);
    assert!(gate.control.stop);
    assert_eq!(gate.control.run, 2);
}

#[test]
fn repeated_failures_are_throttled_but_keep_the_first_site() {
    let mut log = FailureLog::new();
    let mut kept = Vec::new();
    for _ in 0..105 {
        if let Some(count) = log.slot(7, codes::net::REQUEST_FAILED) {
            kept.push(failure_message(7, 3, "连接超时", count));
        }
    }
    assert_eq!(kept.len(), 5, "105 failures keep only the 1st/2nd/3rd/10th/100th");
    assert!(kept[0].contains("run=7 worker#3"), "the first line names generation and worker: {}", kept[0]);
    assert!(
        kept.last().expect("at least one line").contains("第 100 次"),
        "a milestone line states the running count"
    );
    assert_eq!(log.count(7, codes::net::REQUEST_FAILED), 105);
    assert_eq!(log.count(8, codes::net::REQUEST_FAILED), 0);
}

#[test]
fn failure_messages_are_counted_per_generation_and_worded_exactly() {
    let mut log = FailureLog::new();
    assert_eq!(log.slot(1, "NET-001"), Some(1));
    assert_eq!(log.slot(2, "NET-001"), Some(1), "a new generation starts its own count");
    assert_eq!(log.slot(1, "NET-002"), Some(1), "another code has its own count");
    assert_eq!(log.slot(1, "NET-001"), Some(2));
    assert_eq!(failure_message(7, 3, "boom", 3), "run=7 worker#3 boom");
    assert_eq!(
        failure_message(7, 3, "boom", 10),
        "run=7 worker#3 boom（同类失败第 10 次，日志按里程碑节流）"
    );
}

#[test]
fn the_failure_table_is_cleared_past_its_key_limit() {
    let mut log = FailureLog::new();
    for run in 0..1025u64 {
        assert_eq!(log.slot(run, "NET-002"), Some(1));
    }
    assert_eq!(log.entries.len(), 1025);
    assert_eq!(log.slot(0, "NET-002"), Some(1), "the table was cleared before counting");
    assert_eq!(log.entries.len(), 1);
}

#[test]
fn in_flight_accounting_never_underflows() {
    let mut in_flight = in_flight_finished(0);
    assert_eq!(in_flight, 0);
    in_flight = in_flight_started(in_flight);
    in_flight = in_flight_started(in_flight);
    in_flight = in_flight_finished(in_flight);
    assert_eq!(in_flight, 1);
    in_flight = in_flight_finished(in_flight);
    in_flight = in_flight_finished(in_flight);
    assert_eq!(in_flight, 0);
    assert_eq!(in_flight_started(u32::MAX), u32::MAX);
}

#[test]
fn worker_counts_are_clamped_to_the_supported_range() {
    assert_eq!(clamp_threads(0), 1);
    assert_eq!(clamp_threads(7), 7);
    assert_eq!(clamp_threads(1_000), MAX_WORKERS);
    assert!(worker_on_duty(0, 0));
    assert!(!worker_on_duty(1, 0));
    assert!(worker_on_duty(31, 99));
    assert!(!worker_on_duty(32, 99));
    let mut gate = RunGate::new();
    gate.set_threads(64);
    assert_eq!(gate.control.threads, MAX_WORKERS);
}

#[test]
fn backoff_doubles_up_to_its_cap_and_adds_worker_jitter() {
    for failures in 0..12u32 {
        let wait = backoff_ms(5, failures);
        let cap = BACKOFF_MAX_MS.min(BACKOFF_BASE_MS << failures.min(4));
        assert!(wait >= cap / 2, "failures={failures} wait={wait}");
        assert!(wait <= cap, "failures={failures} wait={wait}");
    }
    assert_eq!(backoff_ms(5, 0), 225);
    assert_eq!(backoff_ms(5, 3), 1691);
    assert_eq!(backoff_ms(0, 1), 552);
}

#[test]
fn a_failing_worker_waits_at_least_the_base_backoff() {
    for index in 0..8u32 {
        for failures in 1..12u32 {
            assert!(backoff_ms(index, failures) >= BACKOFF_BASE_MS, "index={index} failures={failures}");
        }
    }
}

#[test]
fn target_validation_names_each_rejection() {
    assert_eq!(
        validate_target("  https://example.test/file  ", true).expect("valid"),
        "https://example.test/file"
    );
    let empty = validate_target("   ", true).unwrap_err();
    assert_eq!(empty.code, codes::cfg::REJECTED);
    assert!(matches!(empty.error, CoreError::InvalidInput(_)));
    let scheme = validate_target("ftp://example.test/file", true).unwrap_err();
    assert_eq!(scheme.code, codes::cfg::URL_SCHEME);
    let long = format!("https://example.test/{}", "a".repeat(MAX_URL_LEN));
    let too_long = validate_target(&long, true).unwrap_err();
    assert_eq!(too_long.code, codes::cfg::URL_TOO_LONG);
    let refused = validate_target("https://example.test/file", false).unwrap_err();
    assert_eq!(refused.code, codes::cfg::NOT_AUTHORIZED);
    assert!(matches!(refused.error, CoreError::NotAuthorized(_)));
}

#[test]
fn request_errors_are_classified_in_priority_order() {
    let none = ErrorTraits {
        timeout: false,
        connect: false,
        body: false,
        decode: false,
        redirect: false,
        request: false,
    };
    assert_eq!(error_code(none), "UNKNOWN");
    assert_eq!(error_code(ErrorTraits { timeout: true, connect: true, ..none }), "TIMEOUT");
    assert_eq!(error_code(ErrorTraits { connect: true, body: true, ..none }), "CONNECT_FAILED");
    assert_eq!(error_code(ErrorTraits { request: true, ..none }), "REQUEST_ERROR");
}

#[test]
fn lifecycle_events_name_the_run() {
    assert_eq!(
        loadloom::engine::started_message("https://example.test/file", 4),
        "已开始打流：https://example.test/file（run=4）"
    );
    assert_eq!(loadloom::engine::stopped_message("用户停止", 4), "用户停止（run=4）");
}
