use loadloom::codes::{is_log_milestone, ALL};

/// Event codes are a stable interface: `DOMAIN-NNN`, never repeated.
#[test]
fn codes_are_unique_and_follow_the_domain_number_scheme() {
    let mut seen = std::collections::BTreeSet::new();
    for code in ALL.iter() {
        let (domain, number) = code
            .split_once('-')
            .unwrap_or_else(|| panic!("event code without a domain separator: {code}"));
        assert_eq!(domain.len(), 3, "domain must be three capitals: {code}");
        assert!(
            domain.chars().all(|c| c.is_ascii_uppercase()),
            "domain must be three capitals: {code}"
        );
        assert_eq!(number.len(), 3, "number must be three digits: {code}");
        assert!(
            number.chars().all(|c| c.is_ascii_digit()),
            "number must be three digits: {code}"
        );
        assert!(seen.insert(*code), "repeated event code: {code}");
    }
}

#[test]
fn milestones_cover_the_burst_then_powers_of_ten() {
    for count in [1_u64, 2, 3] {
        assert!(is_log_milestone(count), "{count} is within the burst");
    }
    for count in [4_u64, 5, 9, 11, 99, 101] {
        assert!(!is_log_milestone(count), "{count} must be throttled");
    }
    for count in [10_u64, 100, 1000, 10_000] {
        assert!(is_log_milestone(count), "{count} is an order of magnitude");
    }
}

#[test]
fn the_largest_power_of_ten_and_the_saturated_counter_are_milestones() {
    assert!(is_log_milestone(10_000_000_000_000_000_000));
    assert!(!is_log_milestone(10_000_000_000_000_000_001));
    assert!(is_log_milestone(u64::MAX));
    assert!(is_log_milestone(0), "zero lies within the burst bound");
}
