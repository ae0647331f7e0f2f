use loadloom::metrics::{ErrorTally, ERROR_PANEL_LEN};

#[test]
fn error_snapshot_is_sorted_by_count_desc_and_capped_at_twelve() {
    let mut tally = ErrorTally::new();
    for index in 0..15u64 {
        let code = format!("E{index:02}");
        for _ in 0..=index {
            tally.add(&code, "boom".to_owned());
        }
    }
    let snapshot = tally.panel();
    assert_eq!(snapshot.len(), 12);
    assert_eq!(snapshot[0].code, "E14");
    assert_eq!(snapshot[0].count, 15);
    assert!(snapshot.windows(2).all(|pair| pair[0].count >= pair[1].count));
    assert_eq!(tally.last_error(), "boom");
}

#[test]
fn reset_clears_counters_and_error_state() {
    let mut tally = ErrorTally::new();
    tally.add("TIMEOUT", "timed out".to_owned());
    tally.reset();
    assert!(tally.panel().is_empty());
    assert!(tally.last_error().is_empty());
    assert_eq!(tally.count("TIMEOUT"), 0);
}

#[test]
fn equal_counts_are_listed_by_code_and_the_panel_stops_at_its_length() {
    let mut tally = ErrorTally::new();
    for code in ["b", "a", "c", "TIMEOUT", "CONNECT_FAILED"] {
        tally.add(code, format!("failure {code}"));
    }
    tally.add("c", "again".to_owned());
    let panel = tally.panel();
    let order: Vec<(&str, u64)> = panel.iter().map(|row| (row.code.as_str(), row.count)).collect();
    assert_eq!(
        order,
        vec![("c", 2), ("CONNECT_FAILED", 1), ("TIMEOUT", 1), ("a", 1), ("b", 1)]
    );
    assert_eq!(tally.last_error(), "again");
    assert_eq!(tally.count("c"), 2);
    assert_eq!(tally.count("missing"), 0);

    let mut many = ErrorTally::new();
    for index in 0..40u32 {
        many.add(&format!("X{index:02}"), String::new());
    }
    let panel = many.panel();
    assert_eq!(panel.len(), ERROR_PANEL_LEN);
    assert_eq!(panel[0].code, "X00");
    assert_eq!(panel[11].code, "X11");
}

#[test]
fn a_stop_summary_names_the_three_most_frequent_errors() {
    let mut tally = ErrorTally::new();
    assert_eq!(loadloom::metrics::error_summary(&tally.panel()), "无");
    for (code, times) in [("TIMEOUT", 4), ("HTTP 503", 2), ("CONNECT_FAILED", 2), ("BODY_STREAM", 1)] {
        for _ in 0..times {
            tally.add(code, String::new());
        }
    }
    assert_eq!(
        loadloom::metrics::error_summary(&tally.panel()),
        "TIMEOUT×4、CONNECT_FAILED×2、HTTP 503×2"
    );
}
