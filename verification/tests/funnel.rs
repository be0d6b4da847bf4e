use yah::cancel::{
    Attachment, CancelKind, CancelPolicy, CancelReason, DeliveryOutcome, MemberInput,
};
use yah::effect::{
    EffectTerminal, RetryClass, ReversibilityClass, TargetEnumeration, TargetObservation,
    TargetState,
};
use yah::error::ErrorKind;
use yah::funnel::command::{
    Command, EffectSpec, Method, PrincipalKind, RunOutcome, ScopeKind, SettleEvidence, Submission,
};
use yah::funnel::receipt::{address_is_valid, replay_stored, token_from_result, StoredReceipt};
use yah::funnel::submit::CommitOutcome;
use yah::funnel::Funnel;
use yah::ids::{Digest, Uuid7};
use yah::json::{is_plain, parse_json, Json};
use yah::store::{AttemptTokenClaims, Store};

fn funnel() -> Funnel {
    Funnel::new(Store::create_project("kernel-t", "p-1"), 1_000).unwrap()
}

fn command(f: &Funnel, id: &str, method: Method, expected_version: Option<u64>) -> Command {
    Command {
        command_id: id.to_owned(),
        scope_kind: ScopeKind::Global,
        scope_id: "g".to_owned(),
        request_digest: Digest::of_bytes(id.as_bytes()),
        expected_version,
        principal_kind: PrincipalKind::Daemon,
        principal_id: "daemon-local".to_owned(),
        authority_epoch: Some(f.store().authority_epoch()),
        attempt_token: None,
        causation_id: None,
        correlation_id: None,
        method,
    }
}

fn held(f: &Funnel, id: &str, token: &AttemptTokenClaims, method: Method, version: u64) -> Command {
    let mut c = command(f, id, method, Some(version));
    c.scope_kind = ScopeKind::Unit;
    c.scope_id = token.unit_id.clone();
    c.principal_kind = PrincipalKind::Agent;
    c.principal_id = token.holder_id.clone();
    c.attempt_token = Some(token.clone());
    c
}

fn done(f: &mut Funnel, c: &Command) -> serde_json::Value {
    match f.submit(c, CommitOutcome::Committed) {
        Submission::Completed { result } => result,
        other => panic!("{} was not completed: {other:?}", c.command_id),
    }
}

fn refused(f: &mut Funnel, c: &Command) -> (ErrorKind, String) {
    match f.submit(c, CommitOutcome::Committed) {
        Submission::Rejected { kind, detail, replayed: false } => (kind, detail),
        other => panic!("{} was not refused: {other:?}", c.command_id),
    }
}

fn work_item(f: &mut Funnel) {
    let c = command(
        f,
        "c-wi",
        Method::WorkItemCreate {
            work_item_id: "wi-1".to_owned(),
            acceptance_contract_digest: Digest::of_bytes(b"c"),
            declared_write_scope: vec!["src".to_owned()],
        },
        None,
    );
    done(f, &c);
}

fn open_run(f: &mut Funnel) {
    work_item(f);
    let c = command(
        f,
        "c-run",
        Method::RunOpen { run_id: "run-1".to_owned(), goal_work_item_id: "wi-1".to_owned() },
        None,
    );
    done(f, &c);
}

fn admission(f: &mut Funnel) {
    open_run(f);
    let c = command(
        f,
        "c-admission",
        Method::UnitAdmit {
            unit_id: "u-1".to_owned(),
            work_item_id: "wi-1".to_owned(),
            run_id: "run-1".to_owned(),
        },
        None,
    );
    done(f, &c);
}

fn dispatch(f: &mut Funnel, id: &str, holder: &str, version: u64) -> AttemptTokenClaims {
    let c = command(
        f,
        id,
        Method::UnitDispatch { unit_id: "u-1".to_owned(), holder_id: holder.to_owned() },
        Some(version),
    );
    token_from_result(&done(f, &c)).unwrap()
}

fn version_of(result: &serde_json::Value) -> u64 {
    result.get("version").and_then(|v| v.as_u64()).unwrap()
}

fn progress(f: &Funnel, id: &str, token: &AttemptTokenClaims, version: u64) -> Command {
    held(f, id, token, Method::ProgressReport { unit_id: "u-1".to_owned() }, version)
}

/// A poisoned funnel answers `unavailable` to everything, including a
/// replay of an already-completed command.
#[test]
fn poisoned_funnel_rejects_every_submit_unavailable() {
    let mut funnel = Funnel::new(Store::create("kernel-t"), 1_000).unwrap();
    let cmd = Command {
        command_id: Uuid7::mint(1, 1).to_string(),
        scope_kind: ScopeKind::Global,
        scope_id: "g".into(),
        request_digest: Digest::of_bytes(b"create wi-1"),
        principal_kind: PrincipalKind::Daemon,
        principal_id: "daemon-local".into(),
        expected_version: None,
        authority_epoch: Some(funnel.store().authority_epoch()),
        attempt_token: None,
        causation_id: None,
        correlation_id: None,
        method: Method::WorkItemCreate {
            work_item_id: "wi-1".into(),
            acceptance_contract_digest: Digest::of_bytes(b"c"),
            declared_write_scope: vec![],
        },
    };
    assert!(matches!(
        funnel.submit(&cmd, CommitOutcome::Committed),
        Submission::Completed { .. }
    ));

    funnel.gate = Some("injected".into());
    match funnel.submit(&cmd, CommitOutcome::Committed) {
        Submission::Rejected {
            kind: ErrorKind::Unavailable,
            replayed: false,
            ..
        } => {}
        other => panic!("expected Unavailable, got {other:?}"),
    }
}

#[test]
fn malformed_stored_result_fails_closed() {
    let command = Command {
        command_id: "command-1".into(),
        scope_kind: ScopeKind::Project,
        scope_id: "project-1".into(),
        request_digest: Digest::of_bytes(b"request"),
        expected_version: None,
        principal_kind: PrincipalKind::Daemon,
        principal_id: "daemon-local".into(),
        authority_epoch: None,
        attempt_token: None,
        causation_id: None,
        correlation_id: None,
        method: Method::ProgressReport {
            unit_id: "unit-1".into(),
        },
    };
    let stored = Some(StoredReceipt {
        request_digest: Some(command.request_digest.as_str().to_owned()),
        principal_kind: Some("daemon".into()),
        principal_id: Some("daemon-local".into()),
        status: Some("completed".into()),
        result: Some("{".into()),
    });
    assert!(matches!(
        replay_stored(&command, stored),
        Submission::Rejected {
            kind: ErrorKind::Internal,
            ..
        }
    ));
}

#[test]
fn funnel_rejects_an_unrepresentable_clock_tick() {
    let store = Store::create("clock-test");
    let mut funnel = Funnel::new(store, 0).unwrap();
    assert!(funnel.tick(u64::MAX).is_err());
}

#[test]
fn funnel_rejects_year_ten_thousand() {
    let store = Store::create("clock-test");
    assert!(Funnel::new(store, 253_402_300_800_000).is_err());
}

#[test]
fn the_clock_never_runs_back() {
    let mut f = funnel();
    f.tick(500).unwrap();
    assert_eq!(f.clock_ms, 1_000);
    f.tick(2_000).unwrap();
    assert_eq!(f.clock_ms, 2_000);
}

#[test]
fn a_completed_command_replays_and_another_request_conflicts() {
    let mut f = funnel();
    work_item(&mut f);
    let again = command(
        &f,
        "c-wi",
        Method::WorkItemCreate {
            work_item_id: "wi-1".to_owned(),
            acceptance_contract_digest: Digest::of_bytes(b"c"),
            declared_write_scope: vec!["src".to_owned()],
        },
        None,
    );
    let events = f.store().tables.events.len();
    match f.submit(&again, CommitOutcome::Committed) {
        Submission::Replayed { result } => {
            assert_eq!(result.get("work_item_id").unwrap().as_str().unwrap(), "wi-1")
        }
        other => panic!("expected a replay, got {other:?}"),
    }
    assert_eq!(f.store().tables.events.len(), events);

    let mut other = again;
    other.request_digest = Digest::of_bytes(b"something else");
    assert_eq!(refused(&mut f, &other).0, ErrorKind::IdempotencyConflict);
}

#[test]
fn refusals_that_are_kept_replay_and_passing_ones_do_not() {
    let mut f = funnel();
    let mut c = command(
        &f,
        "c-1",
        Method::RunOpen { run_id: "run-1".to_owned(), goal_work_item_id: "wi-1".to_owned() },
        None,
    );
    c.authority_epoch = None;
    let (kind, detail) = refused(&mut f, &c);
    assert_eq!(kind, ErrorKind::InvalidRequest);
    match f.submit(&c, CommitOutcome::Committed) {
        Submission::Rejected { kind: k, detail: d, replayed: true } => {
            assert_eq!((k, d), (kind, detail))
        }
        other => panic!("expected the kept refusal, got {other:?}"),
    }

    admission(&mut f);
    let stale = command(
        &f,
        "c-2",
        Method::UnitDispatch { unit_id: "u-1".to_owned(), holder_id: "h-1".to_owned() },
        Some(9),
    );
    assert_eq!(refused(&mut f, &stale).0, ErrorKind::VersionConflict);
    let mut retried = stale;
    retried.expected_version = Some(1);
    done(&mut f, &retried);
}

#[test]
fn an_uncertain_commit_poisons_and_a_new_lifetime_resolves_it() {
    let mut f = funnel();
    let c = command(
        &f,
        "c-wi",
        Method::WorkItemCreate {
            work_item_id: "wi-1".to_owned(),
            acceptance_contract_digest: Digest::of_bytes(b"c"),
            declared_write_scope: vec![],
        },
        None,
    );
    match f.submit(&c, CommitOutcome::CommitUnknown("lost ack".to_owned())) {
        Submission::Rejected { kind, detail, .. } => {
            assert_eq!(kind, ErrorKind::OutcomeUnknown);
            assert_eq!(detail, "commit outcome uncertain: lost ack");
        }
        other => panic!("expected an unknown outcome, got {other:?}"),
    }
    assert_eq!(
        refused(&mut f, &c),
        (
            ErrorKind::Unavailable,
            "funnel poisoned by uncertain commit: lost ack".to_owned()
        )
    );
    let store = Store::recover(f.into_store().tables, "kernel-u", "p-1").unwrap();
    let mut g = Funnel::new(store, 2_000).unwrap();
    let mut retry = command(&g, "c-wi", c.method, None);
    retry.authority_epoch = Some(g.store().authority_epoch());
    done(&mut g, &retry);
}

#[test]
fn a_refused_write_is_internal_and_leaves_nothing() {
    let mut f = funnel();
    let c = command(
        &f,
        "c-wi",
        Method::WorkItemCreate {
            work_item_id: "wi-1".to_owned(),
            acceptance_contract_digest: Digest::of_bytes(b"c"),
            declared_write_scope: vec![],
        },
        None,
    );
    match f.submit(&c, CommitOutcome::StagingFailed("duplicate key".to_owned())) {
        Submission::Rejected { kind: ErrorKind::Internal, detail, replayed: false } => {
            assert_eq!(detail, "duplicate key")
        }
        other => panic!("expected an internal refusal, got {other:?}"),
    }
    assert!(f.store().tables.receipts.get("global/g/c-wi").is_none());
    done(&mut f, &c);
}

#[test]
fn dispatch_and_stamp_bump_end_earlier_tokens() {
    let mut f = funnel();
    admission(&mut f);
    let first = dispatch(&mut f, "c-d1", "h-1", 1);
    let c = progress(&f, "c-p1", &first, 2);
    let reported = done(&mut f, &c);
    let version = version_of(&reported);

    let second = dispatch(&mut f, "c-d2", "h-2", version);
    assert_eq!(second.attempt_epoch.0, first.attempt_epoch.0 + 1);
    let c = progress(&f, "c-p2", &first, version + 1);
    assert_eq!(refused(&mut f, &c).0, ErrorKind::FenceRejected);

    let bump = command(
        &f,
        "c-b",
        Method::StampBump { unit_id: "u-1".to_owned() },
        Some(version + 1),
    );
    done(&mut f, &bump);
    let c = progress(&f, "c-p3", &second, version + 2);
    let (kind, detail) = refused(&mut f, &c);
    assert_eq!(kind, ErrorKind::FenceRejected);
    assert!(detail.starts_with("stamp "), "{detail}");
}

#[test]
fn authority_methods_refuse_agents_and_foreign_epochs() {
    let mut f = funnel();
    open_run(&mut f);
    let admission = |f: &Funnel, id: &str| {
        command(
            f,
            id,
            Method::UnitAdmit {
                unit_id: "u-1".to_owned(),
                work_item_id: "wi-1".to_owned(),
                run_id: "run-1".to_owned(),
            },
            None,
        )
    };
    let mut c = admission(&f, "c-1");
    c.principal_kind = PrincipalKind::Agent;
    assert_eq!(refused(&mut f, &c).0, ErrorKind::InvalidRequest);
    let mut c = admission(&f, "c-2");
    c.authority_epoch = Some(yah::ids::AuthorityEpoch(9));
    let (kind, detail) = refused(&mut f, &c);
    assert_eq!(kind, ErrorKind::FenceRejected);
    assert!(detail.contains("ahead of current 1"), "{detail}");
    let c = command(
        &f,
        "c-3",
        Method::UnitDispatch { unit_id: "u-9".to_owned(), holder_id: "h".to_owned() },
        Some(1),
    );
    assert_eq!(refused(&mut f, &c).0, ErrorKind::NotFound);
}

fn spec(op: u64, reversibility: ReversibilityClass, approval: Option<Uuid7>) -> EffectSpec {
    EffectSpec {
        logical_operation_id: Uuid7::mint(1, op as u128),
        request_digest: Digest::of_bytes(b"effect"),
        adapter_id: "fake".to_owned(),
        adapter_version: "1".to_owned(),
        retry_class: RetryClass::SafeWithOperationKey,
        reversibility_class: reversibility,
        target_enumeration: TargetEnumeration::PostHoc,
        approval_ref: approval,
        policy_snapshot_digest: Digest::of_bytes(b"policy"),
        declared_targets: vec![],
        decomposable: false,
        compensation_intent_id: None,
    }
}

fn prepare(f: &Funnel, id: &str, token: &AttemptTokenClaims, spec: EffectSpec, version: u64) -> Command {
    held(
        f,
        id,
        token,
        Method::EffectPrepare { unit_id: "u-1".to_owned(), spec },
        version,
    )
}

fn key_of(result: &serde_json::Value) -> String {
    result.get("operation_key").unwrap().as_str().unwrap().to_owned()
}

#[test]
fn an_effect_runs_from_intent_to_terminal_once() {
    let mut f = funnel();
    admission(&mut f);
    let token = dispatch(&mut f, "c-d1", "h-1", 1);
    let c = prepare(&f, "c-e1", &token, spec(7, ReversibilityClass::Bufferable, None), 2);
    let prepared = done(&mut f, &c);
    let key = key_of(&prepared);

    let settle = |f: &Funnel, id: &str, terminal: EffectTerminal, version: u64| {
        command(
            f,
            id,
            Method::EffectSettle {
                unit_id: "u-1".to_owned(),
                operation_key: key.clone(),
                terminal,
                targets: vec![TargetObservation {
                    target_id: "t".to_owned(),
                    expected_digest: Some(Digest::of_bytes(b"after")),
                    pre_digest: None,
                    observed_digest: Some(Digest::of_bytes(b"after")),
                    observed_at: Some(5),
                    state: TargetState::Applied,
                }],
                evidence: SettleEvidence { clean_wait_status: true, target_reported_cancellation: false },
                settled_at: 9,
            },
            Some(version),
        )
    };
    let row_version = |f: &Funnel| f.store().tables.effects.get(&key).unwrap().version;

    let c = held(
        &f,
        "c-e2",
        &token,
        Method::EffectDispatch { unit_id: "u-1".to_owned(), operation_key: key.clone() },
        row_version(&f),
    );
    done(&mut f, &c);
    let c = held(
        &f,
        "c-e3",
        &token,
        Method::EffectRecordDispatched {
            unit_id: "u-1".to_owned(),
            operation_key: key.clone(),
            dispatched_at: 4,
        },
        row_version(&f),
    );
    done(&mut f, &c);
    let c = settle(&f, "c-e4", EffectTerminal::Succeeded, row_version(&f));
    done(&mut f, &c);
    let c = settle(&f, "c-e5", EffectTerminal::Failed, row_version(&f));
    let (kind, detail) = refused(&mut f, &c);
    assert_eq!(kind, ErrorKind::InvalidRequest, "{detail}");
}

#[test]
fn irreversible_effects_need_an_approval() {
    let mut f = funnel();
    admission(&mut f);
    let token = dispatch(&mut f, "c-d1", "h-1", 1);
    let c = prepare(
        &f,
        "c-e1",
        &token,
        spec(7, ReversibilityClass::Irreversible, None),
        2,
    );
    let key = key_of(&done(&mut f, &c));
    let c = held(
        &f,
        "c-e2",
        &token,
        Method::EffectDispatch { unit_id: "u-1".to_owned(), operation_key: key },
        1,
    );
    assert_eq!(refused(&mut f, &c).0, ErrorKind::ApprovalRequired);
    let c = prepare(
        &f,
        "c-e3",
        &token,
        spec(8, ReversibilityClass::Irreversible, Some(Uuid7::mint(1, 99))),
        2,
    );
    let key = key_of(&done(&mut f, &c));
    let c = held(
        &f,
        "c-e4",
        &token,
        Method::EffectDispatch { unit_id: "u-1".to_owned(), operation_key: key },
        1,
    );
    done(&mut f, &c);
}

#[test]
fn preparing_the_same_operation_again_gives_the_same_intent() {
    let mut f = funnel();
    admission(&mut f);
    let token = dispatch(&mut f, "c-d1", "h-1", 1);
    let c = prepare(&f, "c-e1", &token, spec(7, ReversibilityClass::Bufferable, None), 2);
    let first = done(&mut f, &c);
    let version = f.store().tables.units.get("u-1").unwrap().version;
    let c = prepare(&f, "c-e2", &token, spec(7, ReversibilityClass::Bufferable, None), version);
    let second = done(&mut f, &c);
    assert_eq!(key_of(&first), key_of(&second));
    assert_eq!(f.store().tables.effects.len(), 1);
}

#[test]
fn a_success_close_waits_for_open_work() {
    let mut f = funnel();
    admission(&mut f);
    let version = f.store().tables.runs.get("run-1").unwrap().version;
    let close = |f: &Funnel, id: &str, outcome: RunOutcome| {
        command(
            f,
            id,
            Method::RunClose { run_id: "run-1".to_owned(), outcome },
            Some(version),
        )
    };
    let token = dispatch(&mut f, "c-d1", "h-1", 1);
    let c = prepare(&f, "c-e1", &token, spec(7, ReversibilityClass::Bufferable, None), 2);
    done(&mut f, &c);
    let c = close(&f, "c-close-1", RunOutcome::ClosedSuccess);
    let (kind, detail) = refused(&mut f, &c);
    assert_eq!(kind, ErrorKind::InvalidRequest);
    assert!(detail.contains("cannot close success while members are unresolved"), "{detail}");
    let c = close(&f, "c-close-2", RunOutcome::ClosedFailure);
    done(&mut f, &c);
    assert_eq!(f.store().tables.runs.get("run-1").unwrap().status, "closed_failure");
    let again = command(
        &f,
        "c-close-3",
        Method::RunClose { run_id: "run-1".to_owned(), outcome: RunOutcome::Cancelled },
        Some(version + 1),
    );
    assert_ne!(refused(&mut f, &again).0, ErrorKind::Internal);
}

#[test]
fn a_cancelled_unit_blocks_new_children_until_it_settles() {
    let mut f = funnel();
    admission(&mut f);
    let token = dispatch(&mut f, "c-d1", "h-1", 1);
    let attempt_id = f
        .store()
        .tables
        .attempts
        .get("u-1/1")
        .unwrap()
        .attempt_id
        .clone();
    let version = f.store().tables.units.get("u-1").unwrap().version;
    let c = command(
        &f,
        "c-cancel",
        Method::CancelRequest {
            root_kind: CancelKind::ExecutionUnit,
            root_id: "u-1".to_owned(),
            reason: CancelReason::OwnerRequest,
            policy: CancelPolicy::AttachedCascade,
            proposed: vec![MemberInput {
                member_kind: CancelKind::Attempt,
                member_id: attempt_id.clone(),
                attachment: Attachment::Attached,
            }],
        },
        Some(version),
    );
    let answer = f.submit(&c, CommitOutcome::Committed);
    let request_id = match &answer {
        Submission::Completed { result } => result
            .get("cancel_request_id")
            .unwrap()
            .as_str()
            .unwrap()
            .to_owned(),
        other => panic!("{other:?}"),
    };
    let c = prepare(&f, "c-e1", &token, spec(7, ReversibilityClass::Bufferable, None), version);
    let (kind, detail) = refused(&mut f, &c);
    assert_ne!(kind, ErrorKind::Internal, "{detail}");

    let delivery = |f: &Funnel, id: &str| {
        command(
            f,
            id,
            Method::CancelRecordDelivery {
                cancel_request_id: request_id.clone(),
                member_id: attempt_id.clone(),
                delivered_at: 3,
                observed_at: Some(4),
                outcome: DeliveryOutcome::ObservedStopped,
            },
            Some(1),
        )
    };
    let c = delivery(&f, "c-del-1");
    done(&mut f, &c);
    assert_eq!(
        f.store().tables.requests.get(&request_id).unwrap().status,
        "settled"
    );
    let c = delivery(&f, "c-del-2");
    refused(&mut f, &c);
}

#[test]
fn outside_refusals_are_kept_and_replay() {
    let mut f = funnel();
    let c = command(&f, "c-1", Method::StampBump { unit_id: "u-1".to_owned() }, Some(1));
    let kept = f.reject_keyed(&c, ErrorKind::InvalidRequest, "bad shape", CommitOutcome::Committed);
    assert!(matches!(
        kept,
        Submission::Rejected { kind: ErrorKind::InvalidRequest, detail, replayed: false }
            if detail == "bad shape"
    ));
    // The key is taken: another refusal of the same request gives the first one back.
    let again = f.reject_keyed(&c, ErrorKind::Internal, "other", CommitOutcome::Committed);
    assert!(matches!(
        again,
        Submission::Rejected { kind: ErrorKind::InvalidRequest, detail, replayed: true }
            if detail == "bad shape"
    ));
}

#[test]
fn outside_refusals_that_are_not_durable_say_so() {
    let mut f = funnel();
    let c = command(&f, "c-1", Method::StampBump { unit_id: "u-1".to_owned() }, Some(1));
    let staging = CommitOutcome::StagingFailed("full".to_owned());
    assert!(matches!(
        f.reject_keyed(&c, ErrorKind::InvalidRequest, "bad shape", staging),
        Submission::Rejected { kind: ErrorKind::Internal, detail, replayed: false }
            if detail == "cannot stage protocol rejection: full"
    ));
    let failed = CommitOutcome::CommitFailed("closed".to_owned());
    assert!(matches!(
        f.reject_keyed(&c, ErrorKind::InvalidRequest, "bad shape", failed),
        Submission::Rejected { kind: ErrorKind::Internal, detail, replayed: false }
            if detail == "protocol rejection commit failed before durability"
    ));
    // An uncertain commit answers with the refusal and poisons the funnel.
    let unknown = CommitOutcome::CommitUnknown("fsync".to_owned());
    assert!(matches!(
        f.reject_keyed(&c, ErrorKind::InvalidRequest, "bad shape", unknown),
        Submission::Rejected { kind: ErrorKind::InvalidRequest, detail, replayed: false }
            if detail == "bad shape"
    ));
    assert!(matches!(
        f.reject_keyed(&c, ErrorKind::InvalidRequest, "bad shape", CommitOutcome::Committed),
        Submission::Rejected { kind: ErrorKind::Unavailable, detail, replayed: false }
            if detail == "funnel poisoned by uncertain commit: fsync"
    ));
}

#[test]
fn addresses_fit_their_methods() {
    let f = funnel();
    let mut c = command(&f, "c-1", Method::ProgressReport { unit_id: "u-1".to_owned() }, Some(1));
    assert!(!address_is_valid(&c, "p-1"));
    c.scope_kind = ScopeKind::Unit;
    c.scope_id = "u-1".to_owned();
    assert!(address_is_valid(&c, "p-1"));
    c.scope_id = "u-2".to_owned();
    assert!(!address_is_valid(&c, "p-1"));
    let mut w = command(
        &f,
        "c-2",
        Method::WorkItemCreate {
            work_item_id: "wi-1".to_owned(),
            acceptance_contract_digest: Digest::of_bytes(b"c"),
            declared_write_scope: vec!["src".to_owned()],
        },
        None,
    );
    assert!(address_is_valid(&w, "p-1"));
    w.scope_kind = ScopeKind::Project;
    w.scope_id = "p-1".to_owned();
    assert!(address_is_valid(&w, "p-1"));
    assert!(!address_is_valid(&w, "p-2"));
}

fn reissue(f: &Funnel, id: &str, token: &AttemptTokenClaims) -> Command {
    let mut c = held(f, id, token, Method::TokenReissue { unit_id: "u-1".to_owned() }, 0);
    c.expected_version = None;
    c
}

#[test]
fn a_stale_stamp_is_forgiven_by_a_reissue_alone() {
    let mut f = funnel();
    admission(&mut f);
    let token = dispatch(&mut f, "c-d", "h-1", 1);
    let bump = command(&f, "c-b", Method::StampBump { unit_id: "u-1".to_owned() }, Some(2));
    done(&mut f, &bump);
    let events = f.store().tables.events.len();
    let c = progress(&f, "c-p1", &token, 3);
    assert_eq!(refused(&mut f, &c).0, ErrorKind::FenceRejected);

    let c = reissue(&f, "c-r1", &token);
    let result = done(&mut f, &c);
    assert_eq!(version_of(&result), 3);
    let fresh = token_from_result(&result).unwrap();
    assert_eq!(fresh.stamp.0, token.stamp.0 + 1);
    assert_eq!(fresh.attempt_epoch.0, token.attempt_epoch.0);
    assert_eq!(fresh.holder_id, "h-1");
    assert_ne!(fresh.nonce, token.nonce);
    assert_eq!(f.store().tables.events.len(), events);

    // The new token passes the fence, and the unit is at the version it was at.
    let c = progress(&f, "c-p2", &fresh, 3);
    assert_eq!(version_of(&done(&mut f, &c)), 3);
}

#[test]
fn a_reissue_forgives_nothing_else() {
    let mut f = funnel();
    admission(&mut f);
    let first = dispatch(&mut f, "c-d1", "h-1", 1);
    let second = dispatch(&mut f, "c-d2", "h-1", 2);
    let c = reissue(&f, "c-r1", &first);
    let (kind, detail) = refused(&mut f, &c);
    assert_eq!(kind, ErrorKind::FenceRejected);
    assert!(detail.starts_with("attempt epoch "), "{detail}");

    let mut ahead = second.clone();
    ahead.stamp.0 += 1;
    let c = reissue(&f, "c-r2", &ahead);
    assert!(refused(&mut f, &c).1.starts_with("stamp "));

    let mut c = reissue(&f, "c-r3", &second);
    c.principal_id = "h-2".to_owned();
    assert_eq!(refused(&mut f, &c).0, ErrorKind::Unauthorized);

    let mut c = reissue(&f, "c-r4", &second);
    c.attempt_token = None;
    assert_eq!(refused(&mut f, &c).0, ErrorKind::InvalidRequest);
}

#[test]
fn a_refused_plan_numbers_no_event() {
    let mut f = funnel();
    let c = command(
        &f,
        "c-wi",
        Method::WorkItemCreate {
            work_item_id: "wi-1".to_owned(),
            acceptance_contract_digest: Digest::of_bytes(b"c"),
            declared_write_scope: vec![],
        },
        None,
    );
    let next = f.store().next_cursor;
    assert!(matches!(
        f.submit(&c, CommitOutcome::PlanFailed("duplicate key".to_owned())),
        Submission::Rejected { kind: ErrorKind::Internal, detail, replayed: false }
            if detail == "duplicate key"
    ));
    assert_eq!(f.store().next_cursor, next);
    f.submit(&c, CommitOutcome::StagingFailed("duplicate key".to_owned()));
    assert_eq!(f.store().next_cursor, next + 1);
    done(&mut f, &c);
}

#[test]
fn missing_things_can_be_asked_for_again() {
    let mut f = funnel();
    let c = command(
        &f,
        "c-admit",
        Method::UnitAdmit {
            unit_id: "u-1".to_owned(),
            work_item_id: "wi-1".to_owned(),
            run_id: "run-1".to_owned(),
        },
        None,
    );
    assert_eq!(refused(&mut f, &c).0, ErrorKind::NotFound);
    open_run(&mut f);
    done(&mut f, &c);
}

#[test]
fn private_names_are_not_plain() {
    let name = "$serde_json::private::RawValue";
    let value = Json::Object(vec![(name.to_owned(), Json::Str("1".to_owned()))]);
    assert!(!is_plain(&value, 8));
    assert!(!is_plain(&Json::Array(vec![value]), 8));
    assert!(is_plain(&Json::Object(vec![("a".to_owned(), Json::Str("1".to_owned()))]), 8));
    // Such an object is read as the value in its text.
    let text = format!("{{\"{name}\":\"1\"}}");
    assert_eq!(parse_json(&text).unwrap(), Json::Uint(1));
}
