use loadloom::contract::LogLevel;
use loadloom::logging::{
    civil_from_days, format_line, level_label, rotation_due, sanitize, timestamp, Ledger,
    MAX_MESSAGE_CHARS,
};

#[test]
fn timestamp_reports_utc_with_milliseconds() {
    assert_eq!(timestamp(0, 0), "1970-01-01 00:00:00.000Z");
    assert_eq!(timestamp(0, 123), "1970-01-01 00:00:00.123Z");
    assert_eq!(timestamp(86_399, 999), "1970-01-01 23:59:59.999Z");
    assert_eq!(timestamp(1_000_000_000, 0), "2001-09-09 01:46:40.000Z");
    // Leap day: 29 February exists and does not spill into 1 March.
    assert_eq!(timestamp(1_709_164_800, 0), "2024-02-29 00:00:00.000Z");
    // The other side of the "divisible by 400" century rule.
    assert_eq!(timestamp(951_868_800, 0), "2000-03-01 00:00:00.000Z");
}

#[test]
fn control_characters_cannot_forge_extra_log_lines() {
    assert_eq!(
        sanitize("请求失败：boom\n2026-01-01 00:00:00.000Z [ERROR] 伪造的崩溃"),
        "请求失败：boom\\n2026-01-01 00:00:00.000Z [ERROR] 伪造的崩溃"
    );
    assert_eq!(sanitize("a\r\nb"), "a\\r\\nb");
    assert_eq!(sanitize("tab\there"), "tab\\there");
    assert_eq!(sanitize("bell\u{7}"), "bell\\u{0007}");
    assert_eq!(sanitize("正常 one two 🚀"), "正常 one two 🚀");
}

#[test]
fn an_overlong_message_is_truncated_to_one_bounded_line() {
    let huge = "x".repeat(MAX_MESSAGE_CHARS * 3);
    let sanitized = sanitize(&huge);
    assert_eq!(sanitized.chars().count(), MAX_MESSAGE_CHARS + 1);
    assert!(sanitized.ends_with('…'));
    assert!(!sanitized.contains('\n'));

    let line = format_line(0, 0, LogLevel::Error, &sanitize("boom\nboom"));
    assert_eq!(line.matches('\n').count(), 1);
    assert!(line.ends_with("boom\\nboom\n"));
}

#[test]
fn level_labels_share_one_width_so_columns_align() {
    for level in [LogLevel::Info, LogLevel::Warn, LogLevel::Error] {
        assert_eq!(
            level_label(level).len(),
            "ERROR".len(),
            "{level:?} label width differs from the others; log columns would not align"
        );
    }
}

#[test]
fn formatted_line_layout_is_stable() {
    assert_eq!(format_line(0, 0, LogLevel::Error, "boom"), "1970-01-01 00:00:00.000Z [ERROR] boom\n");
    assert_eq!(format_line(0, 0, LogLevel::Info, "ok"), "1970-01-01 00:00:00.000Z [INFO ] ok\n");
}

#[test]
fn a_message_at_the_limit_is_kept_whole() {
    let exact = "y".repeat(MAX_MESSAGE_CHARS);
    assert_eq!(sanitize(&exact), exact);
    let escaped = "\n".repeat(MAX_MESSAGE_CHARS);
    let out = sanitize(&escaped);
    assert_eq!(out.chars().count(), 2 * MAX_MESSAGE_CHARS, "the limit counts input characters");
    assert!(!out.ends_with('…'));
    assert_eq!(sanitize("del\u{7f}"), "del\\u{007F}");
}

#[test]
fn civil_dates_cover_both_sides_of_the_epoch() {
    assert_eq!(civil_from_days(0), (1970, 1, 1));
    assert_eq!(civil_from_days(-1), (1969, 12, 31));
    assert_eq!(civil_from_days(19_782), (2024, 2, 29));
    assert_eq!(civil_from_days(11_016), (2000, 2, 29));
    assert_eq!(civil_from_days(-719_468), (0, 3, 1));
}

#[test]
fn late_timestamps_keep_their_full_year() {
    assert_eq!(timestamp(253_402_300_799, 999), "9999-12-31 23:59:59.999Z");
    assert_eq!(timestamp(253_402_300_800, 0), "10000-01-01 00:00:00.000Z");
}

#[test]
fn rotation_is_due_once_the_limit_would_be_crossed() {
    assert!(!rotation_due(10, 80, 100));
    assert!(rotation_due(30, 80, 100));
    assert!(!rotation_due(20, 80, 100));
    assert!(rotation_due(1, u64::MAX, u64::MAX));
}

#[test]
fn the_ledger_rotates_before_a_line_would_cross_the_limit() {
    let mut ledger = Ledger::new(90, 100);
    assert!(!ledger.must_rotate(10));
    assert!(ledger.must_rotate(11));
    ledger.rotated(true, 999);
    assert_eq!(ledger.written, 0);
    ledger.wrote(40);
    assert_eq!(ledger, Ledger { written: 40, limit: 100 });
    ledger.rotated(false, 140);
    assert_eq!(ledger.written, 140, "a failed archive keeps counting the same file");
    assert_eq!(loadloom::logging::MAX_LOG_BYTES, 4 * 1024 * 1024);
}
