//! When a fast scan should recommend a full one: no full scan has
//! succeeded yet, the last one is too old, or what it covered has changed.
use vstd::prelude::*;

verus! {

/// How long a successful full scan stays fresh, in seconds.
pub const FULL_SCAN_TTL_SECS: u64 = 86400;

/// What a successful full scan recorded: when it ran, and the hashes of
/// the dependency state, the policy and the manager bindings it covered.
#[derive(Clone, Copy, Debug, PartialEq, Eq, Structural)]
pub struct FullScanFingerprintCache {
    pub timestamp: u64,
    pub project_state_hash: u64,
    pub policy_hash: u64,
    pub binding_hash: u64,
}

/// Why a full scan is recommended.
#[derive(Clone, Copy, Debug, PartialEq, Eq, Structural)]
pub enum FullScanRecommendationReason {
    NoSuccessfulFullScan,
    LastFullScanStale,
    DependencyStateChanged,
    PolicyChanged,
    ManagerBindingChanged,
}

pub open spec fn reason_if(b: bool, r: FullScanRecommendationReason) -> Seq<FullScanRecommendationReason> {
    if b {
        seq![r]
    } else {
        Seq::empty()
    }
}

/// The reasons, in order: without a recorded full scan, only that; else
/// each of staleness (at least a day old), a changed dependency state, a
/// changed policy and changed bindings that holds.
pub open spec fn spec_reasons(
    previous: Option<FullScanFingerprintCache>,
    current: FullScanFingerprintCache,
    now_epoch: u64,
) -> Seq<FullScanRecommendationReason> {
    match previous {
        None => seq![FullScanRecommendationReason::NoSuccessfulFullScan],
        Some(p) => reason_if(
            (if now_epoch >= p.timestamp {
                now_epoch - p.timestamp
            } else {
                0
            }) >= FULL_SCAN_TTL_SECS,
            FullScanRecommendationReason::LastFullScanStale,
        ) + reason_if(p.project_state_hash != current.project_state_hash, FullScanRecommendationReason::DependencyStateChanged)
            + reason_if(p.policy_hash != current.policy_hash, FullScanRecommendationReason::PolicyChanged)
            + reason_if(p.binding_hash != current.binding_hash, FullScanRecommendationReason::ManagerBindingChanged),
    }
}

/// Why a full scan is recommended (see `spec_reasons`), given the last
/// recorded full scan, if any, and the fingerprint of the projects now.
pub fn full_scan_recommendation_reasons(
    previous: Option<FullScanFingerprintCache>,
    current: FullScanFingerprintCache,
    now_epoch: u64,
) -> (r: Vec<FullScanRecommendationReason>)
    ensures
        r@ == spec_reasons(previous, current, now_epoch),
{
    let p = match previous {
        None => {
            let mut r = Vec::new();
            r.push(FullScanRecommendationReason::NoSuccessfulFullScan);
            assert(r@ =~= seq![FullScanRecommendationReason::NoSuccessfulFullScan]);
            return r;
        },
        Some(p) => p,
    };
    let mut reasons: Vec<FullScanRecommendationReason> = Vec::new();
    let ghost a = reason_if(
        (if now_epoch >= p.timestamp {
            now_epoch - p.timestamp
        } else {
            0
        }) >= FULL_SCAN_TTL_SECS,
        FullScanRecommendationReason::LastFullScanStale,
    );
    if now_epoch.saturating_sub(p.timestamp) >= FULL_SCAN_TTL_SECS {
        reasons.push(FullScanRecommendationReason::LastFullScanStale);
    }
    assert(reasons@ =~= a);
    let ghost b = reason_if(p.project_state_hash != current.project_state_hash, FullScanRecommendationReason::DependencyStateChanged);
    if p.project_state_hash != current.project_state_hash {
        reasons.push(FullScanRecommendationReason::DependencyStateChanged);
    }
    assert(reasons@ =~= a + b);
    let ghost c = reason_if(p.policy_hash != current.policy_hash, FullScanRecommendationReason::PolicyChanged);
    if p.policy_hash != current.policy_hash {
        reasons.push(FullScanRecommendationReason::PolicyChanged);
    }
    assert(reasons@ =~= a + b + c);
    let ghost d = reason_if(p.binding_hash != current.binding_hash, FullScanRecommendationReason::ManagerBindingChanged);
    if p.binding_hash != current.binding_hash {
        reasons.push(FullScanRecommendationReason::ManagerBindingChanged);
    }
    assert(reasons@ =~= a + b + c + d);
    reasons
}

/// A full scan is recommended for no reason exactly when one is recorded,
/// it is less than a day old, and the projects, policy and bindings are
/// those it covered.
pub proof fn lemma_no_reason_iff_fresh_and_unchanged(
    previous: Option<FullScanFingerprintCache>,
    current: FullScanFingerprintCache,
    now_epoch: u64,
)
    ensures
        spec_reasons(previous, current, now_epoch).len() == 0 <==> (previous matches Some(p) && (if now_epoch
            >= p.timestamp {
            now_epoch - p.timestamp
        } else {
            0
        }) < FULL_SCAN_TTL_SECS && p.project_state_hash == current.project_state_hash && p.policy_hash
            == current.policy_hash && p.binding_hash == current.binding_hash),
{
}

} // verus!
