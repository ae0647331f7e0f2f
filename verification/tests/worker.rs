use loadloom::codes;
use loadloom::worker::{BodyAction, BodyEvent, BodyOutcome, Transfer, Worker};

#[test]
fn an_off_duty_worker_issues_nothing() {
    let mut worker = Worker::new(3, 9);
    assert_eq!(worker.next_target("https://example.test/f", 3), None);
    assert_eq!(worker.request_id, 0);
    assert_eq!(
        worker.next_target("https://example.test/f", 4).as_deref(),
        Some("https://example.test/f?_ll=3-1")
    );
    assert_eq!(
        worker.next_target("https://example.test/f?a=1#x", 4).as_deref(),
        Some("https://example.test/f?a=1&_ll=3-2#x")
    );
    let mut first = Worker::new(0, 1);
    assert!(first.next_target("http://h/", 0).is_some(), "at least one worker is on duty");
}

#[test]
fn refused_statuses_are_counted_in_a_streak_that_a_success_clears() {
    let mut worker = Worker::new(1, 2);
    let failure = worker.on_status(503).expect("503 is a failure");
    assert_eq!(failure.error_code, "HTTP 503");
    assert_eq!(failure.error_message, "服务器返回 HTTP 503");
    assert_eq!(failure.log_code, codes::net::HTTP_STATUS);
    assert_eq!(failure.log_detail, "服务器返回 HTTP 503（连续失败 1 次）");
    let failure = worker.on_status(404).expect("404 is a failure");
    assert_eq!(failure.log_detail, "服务器返回 HTTP 404（连续失败 2 次）");
    assert_eq!(worker.consecutive_failures, 2);
    assert_eq!(worker.on_status(206), None);
    assert_eq!(worker.consecutive_failures, 0);
    assert!(worker.on_status(199).is_some());
    assert!(worker.on_status(300).is_some());
}

#[test]
fn a_request_without_response_is_a_failure_with_its_class() {
    let mut worker = Worker::new(0, 1);
    worker.consecutive_failures = u32::MAX;
    let failure = worker.on_send_error("TIMEOUT", "operation timed out");
    assert_eq!(worker.consecutive_failures, u32::MAX, "the streak saturates");
    assert_eq!(failure.error_code, "TIMEOUT");
    assert_eq!(failure.error_message, "请求失败：operation timed out");
    assert_eq!(failure.log_code, codes::net::REQUEST_FAILED);
    assert_eq!(failure.log_detail, "请求失败（TIMEOUT）：operation timed out");
}

#[test]
fn a_body_read_to_its_end_completes_the_request() {
    let mut body = Transfer::new();
    assert_eq!(body.on_event(BodyEvent::Data { length: 10 }), BodyAction::Take { bytes: 10, first: true });
    assert_eq!(body.on_event(BodyEvent::Data { length: 0 }), BodyAction::Take { bytes: 0, first: false });
    assert_eq!(body.on_event(BodyEvent::End), BodyAction::Leave);
    assert_eq!(body.finish(), BodyOutcome { record_latency: false, completed: true });

    let empty = Transfer::new();
    assert_eq!(empty.finish(), BodyOutcome { record_latency: true, completed: true });
}

#[test]
fn stops_breaks_and_scale_downs_do_not_complete() {
    let mut stopped = Transfer::new();
    assert_eq!(stopped.on_event(BodyEvent::Stopped), BodyAction::Leave);
    assert_eq!(stopped.finish(), BodyOutcome { record_latency: false, completed: false });

    let mut scaled = Transfer::new();
    scaled.on_event(BodyEvent::Data { length: 5 });
    assert_eq!(scaled.on_event(BodyEvent::ScaledDown), BodyAction::Leave);
    assert_eq!(scaled.finish(), BodyOutcome { record_latency: false, completed: false });

    let mut broken = Transfer::new();
    match broken.on_event(BodyEvent::Broken { code: "BODY_STREAM".to_owned(), error: "reset".to_owned() }) {
        BodyAction::Fail { failure } => {
            assert_eq!(failure.error_code, "BODY_STREAM");
            assert_eq!(failure.error_message, "响应流中断：reset");
            assert_eq!(failure.log_code, codes::net::STREAM_BROKEN);
            assert_eq!(failure.log_detail, "响应流中断（BODY_STREAM）：reset");
        }
        other => panic!("expected a failure, got {other:?}"),
    }
    assert_eq!(broken.finish(), BodyOutcome { record_latency: false, completed: false });
}

#[test]
fn a_backoff_line_states_the_streak_and_the_wait() {
    assert_eq!(loadloom::worker::backoff_message(3, 1691), "连续失败 3 次，退避 1691ms 后重试");
}
