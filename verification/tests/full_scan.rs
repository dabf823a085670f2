use sloppy_joe::full_scan::{FullScanFingerprintCache, FullScanRecommendationReason, full_scan_recommendation_reasons};

fn fingerprint(timestamp: u64, state: u64, policy: u64, binding: u64) -> FullScanFingerprintCache {
    FullScanFingerprintCache { timestamp, project_state_hash: state, policy_hash: policy, binding_hash: binding }
}

#[test]
fn no_recorded_full_scan_is_the_only_reason() {
    assert_eq!(
        full_scan_recommendation_reasons(None, fingerprint(0, 1, 2, 3), 100),
        vec![FullScanRecommendationReason::NoSuccessfulFullScan]
    );
}

#[test]
fn fresh_unchanged_full_scan_needs_nothing() {
    assert!(full_scan_recommendation_reasons(Some(fingerprint(1000, 1, 2, 3)), fingerprint(0, 1, 2, 3), 1000 + 86399).is_empty());
}

#[test]
fn stale_and_changed_fingerprints_are_all_reported() {
    assert_eq!(
        full_scan_recommendation_reasons(Some(fingerprint(1000, 1, 2, 3)), fingerprint(0, 9, 2, 8), 1000 + 86400),
        vec![
            FullScanRecommendationReason::LastFullScanStale,
            FullScanRecommendationReason::DependencyStateChanged,
            FullScanRecommendationReason::ManagerBindingChanged,
        ]
    );
    assert_eq!(
        full_scan_recommendation_reasons(Some(fingerprint(5000, 1, 2, 3)), fingerprint(0, 1, 7, 3), 10),
        vec![FullScanRecommendationReason::PolicyChanged]
    );
}
