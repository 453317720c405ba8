use switchyard_route::config::{FailureMode, Tier};
use switchyard_route::failure::{failure_action, FailureAction, FailureApply, FailureApplyKind};

#[test]
fn closed_always_rejects_even_with_remembered_tier() {
    let action = failure_action(FailureMode::Closed, true, Some(Tier::Weak));
    assert_eq!(action, FailureAction::Reject, "closed must ignore the session map");
}

#[test]
fn closed_rejects_when_rewrite_is_not_allowed() {
    assert_eq!(
        failure_action(FailureMode::Closed, false, None),
        FailureAction::Reject,
        "closed still 503s on unroutable bodies"
    );
}

#[test]
fn open_reuses_remembered_weak_or_strong() {
    let weak = failure_action(FailureMode::Open, true, Some(Tier::Weak));
    assert_eq!(
        weak,
        FailureAction::Apply(FailureApply {
            tier: Tier::Weak,
            kind: FailureApplyKind::Reuse,
        }),
        "open + map hit must reuse Weak"
    );
    let strong = failure_action(FailureMode::Open, true, Some(Tier::Strong));
    assert_eq!(
        strong,
        FailureAction::Apply(FailureApply {
            tier: Tier::Strong,
            kind: FailureApplyKind::Reuse,
        }),
        "open + map hit must reuse Strong"
    );
}

#[test]
fn open_defaults_strong_when_map_misses() {
    let action = failure_action(FailureMode::Open, true, None);
    assert_eq!(
        action,
        FailureAction::Apply(FailureApply {
            tier: Tier::Strong,
            kind: FailureApplyKind::DefaultStrong,
        }),
        "empty store under open must default Strong"
    );
}

#[test]
fn open_stays_unrouted_when_rewrite_is_not_allowed() {
    assert_eq!(
        failure_action(FailureMode::Open, false, Some(Tier::Strong)),
        FailureAction::Unrouted,
        "wrong path / bad JSON must not apply a sticky tier"
    );
}

#[test]
fn apply_kind_metadata_tokens_are_stable() {
    assert_eq!(FailureApplyKind::Reuse.metadata(), "reuse");
    assert_eq!(FailureApplyKind::DefaultStrong.metadata(), "default_strong");
}
