use yah::funnel::run_rules::effect_blocks;

#[test]
fn a_reconciling_effect_blocks_a_success_close() {
    assert!(effect_blocks(Some("reconciling"), None).is_some());
    assert!(effect_blocks(Some("dispatched"), None).is_some());
    assert!(effect_blocks(Some("prepared"), None).is_some());
}

#[test]
fn a_settled_known_outcome_does_not_block() {
    for t in ["succeeded", "failed", "cancelled", "compensated"] {
        assert!(
            effect_blocks(Some("settled"), Some(t)).is_none(),
            "settled/{t} should not block"
        );
    }
}

#[test]
fn a_settled_unknown_still_blocks() {
    assert!(
        effect_blocks(Some("settled"), Some("unknown")).is_some(),
        "reaching a terminal is not the same as having proved an outcome"
    );
}

#[test]
fn an_unreadable_state_blocks() {
    assert!(effect_blocks(None, None).is_some());
    assert!(effect_blocks(Some("settled"), None).is_some());
}
