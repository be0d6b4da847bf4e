use yah::effect::fake::{FakeEffectBackend, FakeEffectError, Observation, ScriptedOutcome};
use yah::effect::{
    EffectError, EffectIntent, EffectState, EffectTerminal, RetryClass, ReversibilityClass,
    TargetEnumeration, TargetObservation, TargetState,
};
use yah::ids::{AttemptEpoch, AuthorityEpoch, Digest, Stamp, Uuid7};

fn intent_with_key(key: &str, epoch: u64) -> EffectIntent {
    let digest = Digest::of_bytes(b"req");
    EffectIntent {
        effect_intent_id: Uuid7::mint(epoch, epoch as u128),
        version: 1,
        unit_id: "u-test".into(),
        attempt_epoch: AttemptEpoch(epoch),
        stamp: Stamp(0),
        authority_epoch: AuthorityEpoch(1),
        adapter_id: "fake".into(),
        adapter_version: "0".into(),
        operation_key: key.into(),
        logical_operation_id: Uuid7::mint(1, 4),
        request_digest: digest.clone(),
        retry_class: RetryClass::SafeWithOperationKey,
        reversibility_class: ReversibilityClass::Bufferable,
        approval_ref: None,
        policy_snapshot_digest: digest,
        state: EffectState::Prepared,
        terminal: None,
        target_enumeration: TargetEnumeration::PostHoc,
        targets: vec![],
        decomposable: false,
        parent_effect_intent_id: None,
        compensation_intent_id: None,
        dispatched_at: None,
        settled_at: None,
        next_reconcile_at: None,
    }
}

#[test]
fn all_five_terminal_states_are_scriptable() {
    let mut backend = FakeEffectBackend::new();
    for (i, t) in [
        EffectTerminal::Succeeded,
        EffectTerminal::Failed,
        EffectTerminal::Cancelled,
        EffectTerminal::Compensated,
        EffectTerminal::Unknown,
    ]
    .into_iter()
    .enumerate()
    {
        let key = format!("k{i}");
        backend.script(&key, ScriptedOutcome::Immediate(t));
        backend.dispatch(&intent_with_key(&key, 1)).unwrap();
        assert_eq!(backend.observe(&key), Observation::Terminal(t));
    }
}

#[test]
fn undispatched_operations_are_unrecognized_not_pending() {
    let mut backend = FakeEffectBackend::new();
    assert_eq!(backend.observe("ghost"), Observation::Unrecognized);
    assert_eq!(backend.reconcile("ghost"), Observation::Unrecognized);
    backend.script("k", ScriptedOutcome::Withheld(EffectTerminal::Succeeded));
    assert_eq!(backend.observe("k"), Observation::Unrecognized);
    assert_eq!(backend.reconcile("k"), Observation::Unrecognized);
    backend.dispatch(&intent_with_key("k", 1)).unwrap();
    assert_eq!(backend.observe("k"), Observation::Pending);
}

#[test]
fn rescripting_a_key_reseals_its_outcome() {
    let mut backend = FakeEffectBackend::new();
    backend.script("k", ScriptedOutcome::Withheld(EffectTerminal::Succeeded));
    backend.dispatch(&intent_with_key("k", 1)).unwrap();
    assert_eq!(
        backend.reconcile("k"),
        Observation::Terminal(EffectTerminal::Succeeded)
    );
    backend.script("k", ScriptedOutcome::Withheld(EffectTerminal::Failed));
    assert_eq!(backend.observe("k"), Observation::Pending);
    assert_eq!(
        backend.reconcile("k"),
        Observation::Terminal(EffectTerminal::Failed)
    );
}

#[test]
fn withheld_outcome_is_pending_until_the_explicit_reconcile() {
    let mut backend = FakeEffectBackend::new();
    backend.script("k", ScriptedOutcome::Withheld(EffectTerminal::Succeeded));
    backend.dispatch(&intent_with_key("k", 1)).unwrap();
    assert_eq!(backend.observe("k"), Observation::Pending);
    assert_eq!(
        backend.reconcile("k"),
        Observation::Terminal(EffectTerminal::Succeeded)
    );
    assert_eq!(
        backend.observe("k"),
        Observation::Terminal(EffectTerminal::Succeeded)
    );
}

#[test]
fn never_resolving_effect_stays_pending_through_reconcile() {
    let mut backend = FakeEffectBackend::new();
    backend.script("k", ScriptedOutcome::Never);
    backend.dispatch(&intent_with_key("k", 1)).unwrap();
    assert_eq!(backend.reconcile("k"), Observation::Pending);
}

#[test]
fn redispatch_across_epochs_observes_one_operation_key() {
    let mut backend = FakeEffectBackend::new();
    backend.script(
        "stable",
        ScriptedOutcome::Withheld(EffectTerminal::Succeeded),
    );
    backend.dispatch(&intent_with_key("stable", 1)).unwrap();
    backend.dispatch(&intent_with_key("stable", 2)).unwrap();
    assert_eq!(backend.dispatch_count("stable"), 2);
    assert_eq!(backend.distinct_keys(), vec!["stable"]);
}

#[test]
fn compound_per_target_outcomes_script_the_a5_shape() {
    let mut backend = FakeEffectBackend::new();
    backend.script(
        "compound",
        ScriptedOutcome::ImmediateTargets(vec![
            ("t1".into(), TargetState::Applied),
            ("t2".into(), TargetState::Applied),
            ("t3".into(), TargetState::Applied),
            ("t4".into(), TargetState::NotApplied),
            ("t5".into(), TargetState::NotApplied),
        ]),
    );
    backend.dispatch(&intent_with_key("compound", 1)).unwrap();
    let Observation::PerTarget(targets) = backend.observe("compound") else {
        panic!("expected per-target observation");
    };
    assert_eq!(targets.len(), 5);
    assert_eq!(
        targets
            .iter()
            .filter(|(_, s)| *s == TargetState::Applied)
            .count(),
        3
    );
}

#[test]
fn unscripted_dispatch_is_loud_and_still_recorded() {
    let mut backend = FakeEffectBackend::new();
    assert_eq!(
        backend.dispatch(&intent_with_key("ghost", 1)),
        Err(FakeEffectError::UnscriptedKey("ghost".into()))
    );
    assert_eq!(backend.dispatch_count("ghost"), 1);
    assert_eq!(backend.distinct_keys(), vec!["ghost"]);
}

#[test]
fn compound_children_attribute_through_the_dispatch_log() {
    let mut backend = FakeEffectBackend::new();
    backend.script(
        "child-a",
        ScriptedOutcome::Immediate(EffectTerminal::Succeeded),
    );
    backend.script(
        "child-b",
        ScriptedOutcome::Immediate(EffectTerminal::Failed),
    );
    let parent = Uuid7::mint(9, 9);
    let mut a = intent_with_key("child-a", 1);
    a.parent_effect_intent_id = Some(parent);
    let mut b = intent_with_key("child-b", 2);
    b.parent_effect_intent_id = Some(parent);
    backend.dispatch(&a).unwrap();
    backend.dispatch(&b).unwrap();
    assert_eq!(backend.distinct_keys(), vec!["child-a", "child-b"]);
    let ids: Vec<Uuid7> = backend
        .dispatches()
        .iter()
        .map(|d| d.effect_intent_id)
        .collect();
    assert_eq!(ids, vec![a.effect_intent_id, b.effect_intent_id]);
    assert_eq!(
        backend.observe("child-a"),
        Observation::Terminal(EffectTerminal::Succeeded)
    );
    assert_eq!(
        backend.observe("child-b"),
        Observation::Terminal(EffectTerminal::Failed)
    );
}

fn target(id: &str, state: TargetState) -> TargetObservation {
    TargetObservation {
        target_id: id.to_owned(),
        expected_digest: Some(Digest::of_bytes(b"after")),
        pre_digest: Some(Digest::of_bytes(b"before")),
        observed_digest: None,
        observed_at: None,
        state,
    }
}

#[test]
fn operation_keys_ignore_attempts_and_follow_the_request() {
    let op = Uuid7::mint(1, 4);
    let digest = Digest::of_bytes(b"req");
    let key = EffectIntent::derive_operation_key("wi-1", op, &digest);
    let preimage = format!(
        "{{\"logical_operation_id\":\"{}\",\"request_digest\":\"{}\",\"work_item_id\":\"wi-1\"}}",
        op.to_string(),
        digest.as_str()
    );
    assert_eq!(key, Digest::of_bytes(preimage.as_bytes()).into_string());
    assert_ne!(key, EffectIntent::derive_operation_key("wi-2", op, &digest));
    assert_ne!(
        key,
        EffectIntent::derive_operation_key("wi-1", op, &Digest::of_bytes(b"other"))
    );
}

#[test]
fn a_terminal_is_written_once_and_only_where_the_targets_allow_it() {
    let mut intent = intent_with_key("k", 1);
    intent.targets = vec![target("t1", TargetState::Applied), target("t2", TargetState::Unknown)];
    assert!(matches!(
        intent.settle(EffectTerminal::Succeeded),
        Err(EffectError::SucceededWithUnappliedTarget { target_id }) if target_id == "t2"
    ));
    assert!(matches!(
        intent.settle(EffectTerminal::Failed),
        Err(EffectError::FailedWithUnknownTarget { target_id }) if target_id == "t2"
    ));
    assert!(intent.terminal.is_none());
    intent.settle(EffectTerminal::Unknown).unwrap();
    assert_eq!(intent.terminal, Some(EffectTerminal::Unknown));
    assert!(matches!(
        intent.settle(EffectTerminal::Succeeded),
        Err(EffectError::TerminalAlreadySet { existing: EffectTerminal::Unknown })
    ));
}

#[test]
fn declared_targets_are_classified_by_their_digests() {
    let mut t = target("t", TargetState::Applied);
    t.classify_declared();
    assert_eq!(t.state, TargetState::Unknown);
    t.observed_digest = Some(Digest::of_bytes(b"after"));
    t.classify_declared();
    assert_eq!(t.state, TargetState::Applied);
    t.observed_digest = Some(Digest::of_bytes(b"before"));
    t.classify_declared();
    assert_eq!(t.state, TargetState::NotApplied);
    t.observed_digest = Some(Digest::of_bytes(b"else"));
    t.classify_declared();
    assert_eq!(t.state, TargetState::Unknown);
}
