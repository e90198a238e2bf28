use amax_updater_client::version::{needs_update, update_decision};

#[test]
fn newer_remote_needs_update() {
    assert!(needs_update("2.0.0.0", Some("1.0.0.0")));
    assert!(needs_update("1.0.0.1", Some("1.0.0.0")));
    assert!(needs_update("1", Some("0.1")));
}

#[test]
fn older_remote_needs_no_update() {
    assert!(!needs_update("1.0.0.0", Some("2.0.0.0")));
    assert!(!needs_update("0.9.9.9", Some("1.0.0.0")));
    assert!(!needs_update("1.2.3", Some("1.2.4")));
}

#[test]
fn same_version_needs_no_update() {
    assert!(!needs_update("1.0.0.0", Some("1.0.0.0")));
    assert!(!needs_update("2.5", Some("2.5")));
    assert!(!needs_update("", Some("")));
    assert!(!needs_update("not a version", Some("not a version")));
}

#[test]
fn numbers_are_compared_as_numbers() {
    assert!(needs_update("1.10", Some("1.9")));
    assert!(!needs_update("1.9", Some("1.10")));
    assert!(needs_update("10.0", Some("9.9")));
    assert!(!needs_update("1.02", Some("1.2")));
    assert!(!needs_update("1.2", Some("1.02")));
}

#[test]
fn missing_components_count_as_zero() {
    assert!(!needs_update("1.0", Some("1")));
    assert!(!needs_update("1", Some("1.0.0")));
    assert!(needs_update("1.0.1", Some("1")));
    assert!(!needs_update("1", Some("1.0.1")));
    assert!(needs_update("1.1", Some("1.0.9.9")));
}

#[test]
fn largest_component_is_still_a_number() {
    assert!(needs_update("2147483647", Some("2147483646")));
    assert!(!needs_update("2147483646", Some("2147483647")));
}

#[test]
fn component_beyond_the_largest_is_no_number() {
    assert!(!needs_update("2147483648", Some("1")));
    assert!(!needs_update("99999999999", Some("1")));
    assert!(!needs_update("1.2147483648", Some("1.0")));
}

#[test]
fn absent_local_version_always_needs_update() {
    assert!(needs_update("2.0.0.0", None));
    assert!(needs_update("0.0.0.0", None));
    assert!(needs_update("", None));
    assert!(needs_update("not a version", None));
}

#[test]
fn unreadable_versions_need_no_update() {
    assert!(!needs_update("abc", Some("1.0")));
    assert!(!needs_update("1.0", Some("abc")));
}

#[test]
fn update_decision_table() {
    assert!(update_decision(false, false, None));
    assert!(update_decision(false, true, Some(false)));
    assert!(update_decision(true, true, Some(true)));
    assert!(!update_decision(true, true, Some(false)));
    assert!(!update_decision(true, true, None));
    assert!(!update_decision(true, false, Some(true)));
}

/// The numbers of a version made of digits and dots.
fn numbers(version: &str) -> Vec<u64> {
    version.split('.').map(|part| part.parse().unwrap()).collect()
}

/// Whether `a` holds the greater number at the first position where the
/// two differ, a missing number counting as zero.
fn newer(a: &[u64], b: &[u64]) -> bool {
    for i in 0..a.len().max(b.len()) {
        let x = a.get(i).copied().unwrap_or(0);
        let y = b.get(i).copied().unwrap_or(0);
        if x != y {
            return x > y;
        }
    }
    false
}

#[test]
fn needs_update_agrees_with_the_numeric_order() {
    let versions = [
        "0", "0.0", "0.0.0.0", "0.1", "1", "1.0", "1.0.0.0", "1.0.0.1", "1.2", "1.2.0", "1.02",
        "1.10", "1.9", "2", "2.0.0.0", "10", "10.0.1", "9.99.999", "2147483647", "2147483646.9",
        "007", "7.0.0.0.0.0.1",
    ];
    for a in versions {
        for b in versions {
            assert_eq!(
                needs_update(a, Some(b)),
                newer(&numbers(a), &numbers(b)),
                "{} against {}",
                a,
                b
            );
        }
    }
}
