//! Effect-ledger methods. Prepare, dispatch and the record of a dispatch are of the holder
//! class; settle and park are of the authority class, so that a known outcome of a superseded
//! attempt can still be recorded.
//!
//! `prepared -> dispatching` is a committed transition of its own: the adapter must not act
//! unless it committed, which makes the approval predicate a gate.
use crate::effect::{
    settled, EffectError, EffectErrorView, EffectIntent, EffectIntentView, EffectState,
    EffectTerminal, RetryClass, ReversibilityClass, TargetEnumeration, TargetObservation,
    TargetObservationView,
};
use crate::error::ErrorKind;
use crate::funnel::command::{
    refusal, refuse, Command, EffectSpec, Method, Rejection, RejectionView, SettleEvidence,
};
use crate::funnel::effect_rules::{
    check_target_list, classify_settle_targets, declared_at_prepare, declared_rows, rows_of,
    settle_legality, settled_targets, state_wire, target_list_fault, terminal_wire, unlawful,
};
use crate::funnel::plan::{
    fault_of, no_events, one_event, verdict, writable, Accepted, AcceptedView, EventDraft,
    EventDraftView, Plan, PlanView,
};
use crate::funnel::pre::{PreRead, PreReadView};
use crate::funnel::validate::{
    is_small, admission_bars, authority_fault, holder_fault, increment, name_blockers, named, next_of,
};
use crate::funnel::{fresh, Funnel, FunnelView};
use crate::ids::{same_digest, same_uuid, uuid_text};
use crate::json::{
    names_are_ordinary, object, object1, object2, object3, put, text_value, Json, JsonView,
};
use crate::store::{
    AttemptTokenClaimsView, EffectRow, EffectRowView, IntentRecord, IntentRecordView,
};
use crate::text::{dec, decimal, same};
use vstd::prelude::*;
use vstd::string::*;

verus! {

/// The fault of an intent that belongs to another unit than the method names.
pub open spec fn binding_fault(intent: EffectIntentView, unit_id: Seq<char>) -> Option<
    RejectionView,
> {
    if intent.unit_id != unit_id {
        Some(
            refuse(
                ErrorKind::InvalidRequest,
                "effect belongs to unit "@ + intent.unit_id + ", method targets "@ + unit_id,
                true,
            ),
        )
    } else {
        None
    }
}

/// The fault of the expected version, on the effect's own axis.
pub open spec fn effect_version_fault(cmd: Command, version: u64) -> Option<RejectionView> {
    match cmd.expected_version {
        Some(expected) => if expected != version {
            Some(
                refuse(
                    ErrorKind::VersionConflict,
                    "expected effect version "@ + dec(expected as nat) + ", actual "@ + dec(
                        version as nat,
                    ),
                    false,
                ),
            )
        } else {
            None
        },
        None => Some(
            refuse(ErrorKind::InvalidRequest, "effect mutation requires expected_version"@, true),
        ),
    }
}

/// The fault of an intent that has its terminal.
pub open spec fn settled_fault(intent: EffectIntentView, key: Seq<char>) -> Option<RejectionView> {
    if intent.terminal is Some {
        Some(refuse(ErrorKind::InvalidRequest, "effect "@ + key + " already settled"@, true))
    } else {
        None
    }
}

/// What the record of an effect reads as.
pub open spec fn readable(record: IntentRecordView) -> Result<EffectIntentView, RejectionView> {
    match record {
        IntentRecordView::Readable(intent) => Ok(intent),
        IntentRecordView::Unreadable(error) => Err(
            refuse(ErrorKind::Internal, "effect record unreadable: "@ + error, false),
        ),
    }
}

/// The intent that an effect method works on: it exists, can be read, belongs to the unit, is
/// of the expected version, and has no terminal. Binding comes before the version, so that
/// nothing of a foreign intent shows in a refusal.
pub open spec fn open_intent(
    cmd: Command,
    pre: PreReadView,
    unit_id: Seq<char>,
    key: Seq<char>,
) -> Result<(EffectRowView, EffectIntentView), RejectionView> {
    match pre.effect {
        None => Err(refuse(ErrorKind::NotFound, "effect "@ + key, false)),
        Some(row) => match readable(row.record) {
            Err(e) => Err(e),
            Ok(intent) => match binding_fault(intent, unit_id) {
                Some(e) => Err(e),
                None => match effect_version_fault(cmd, row.version) {
                    Some(e) => Err(e),
                    None => match settled_fault(intent, key) {
                        Some(e) => Err(e),
                        None => Ok((row, intent)),
                    },
                },
            },
        },
    }
}

/// The accepted form of an update of an intent.
pub open spec fn accept_update(
    row: EffectRowView,
    intent: EffectIntentView,
    terminal: Option<EffectTerminal>,
    event_kind: Seq<char>,
    payload: JsonView,
) -> AcceptedView {
    AcceptedView {
        plan: PlanView::UpdateEffect {
            operation_key: row.operation_key,
            new_version: intent.version,
            state: intent.state,
            terminal,
            intent,
        },
        events: seq![
            EventDraftView {
                aggregate_kind: "effect"@,
                aggregate_id: uuid_text(intent.effect_intent_id),
                aggregate_version: intent.version,
                event_kind,
                payload,
            },
        ],
        result: JsonView::Object(
            Map::empty().insert("operation_key"@, JsonView::Str(intent.operation_key)).insert(
                "version"@,
                JsonView::Uint(intent.version),
            ).insert("state"@, JsonView::Str(intent.state.wire_text())),
        ),
        minted: 0,
    }
}

/// The decision on recording that the adapter was invoked.
pub open spec fn decide_record_dispatched(
    f: FunnelView,
    cmd: Command,
    pre: PreReadView,
    unit_id: Seq<char>,
    key: Seq<char>,
    dispatched_at: u64,
) -> Result<AcceptedView, RejectionView> {
    match holder_fault(f.store.epoch, cmd, pre, unit_id) {
        Some(e) => Err(e),
        None => match open_intent(cmd, pre, unit_id, key) {
            Err(e) => Err(e),
            Ok((row, intent)) => if intent.state != EffectState::Dispatching {
                Err(
                    refuse(
                        ErrorKind::InvalidRequest,
                        "record_dispatched needs state dispatching, found "@
                            + intent.state.debug_name_text(),
                        false,
                    ),
                )
            } else {
                match next_of(row.version, "effect version"@) {
                    Err(e) => Err(e),
                    Ok(version) => Ok(
                        accept_update(
                            row,
                            EffectIntentView {
                                state: EffectState::Dispatched,
                                dispatched_at: Some(dispatched_at),
                                version,
                                ..intent
                            },
                            None,
                            "effect.dispatched"@,
                            JsonView::Object(
                                Map::empty().insert("dispatched_at"@, JsonView::Uint(dispatched_at)),
                            ),
                        ),
                    ),
                }
            },
        },
    }
}

/// The refusal of an outcome that the targets do not support.
pub open spec fn settle_refusal(e: EffectErrorView) -> RejectionView {
    refuse(
        ErrorKind::InvalidRequest,
        match e {
            EffectErrorView::TerminalAlreadySet { existing } => "terminal already set to "@
                + existing.debug_name_text(),
            EffectErrorView::SucceededWithUnappliedTarget { target_id } =>
                "succeeded with unapplied target "@ + target_id,
            EffectErrorView::FailedWithUnknownTarget { target_id } =>
                "failed would mask unknown target "@ + target_id,
        },
        true,
    )
}

/// The decision on settling an effect: the lifecycle allows the terminal, the targets are
/// classified from the observations, and they support the terminal.
pub open spec fn decide_settle(
    f: FunnelView,
    cmd: Command,
    pre: PreReadView,
    unit_id: Seq<char>,
    key: Seq<char>,
    terminal: EffectTerminal,
    targets: Seq<TargetObservationView>,
    evidence: SettleEvidence,
    settled_at: u64,
) -> Result<AcceptedView, RejectionView> {
    match authority_fault(f.store.epoch, cmd) {
        Some(e) => Err(e),
        None => match open_intent(cmd, pre, unit_id, key) {
            Err(e) => Err(e),
            Ok((row, intent)) => match target_list_fault(targets) {
                Some(e) => Err(e),
                None => match unlawful(intent, terminal, evidence) {
                    Some(reason) => Err(refuse(ErrorKind::InvalidRequest, reason, false)),
                    None => match settled_targets(intent, targets, evidence) {
                        Err(e) => Err(e),
                        Ok(rows) => match settled(
                            EffectIntentView { targets: rows, ..intent },
                            terminal,
                        ) {
                            Err(e) => Err(settle_refusal(e)),
                            Ok(done) => match next_of(row.version, "effect version"@) {
                                Err(e) => Err(e),
                                Ok(version) => Ok(
                                    accept_update(
                                        row,
                                        EffectIntentView {
                                            settled_at: Some(settled_at),
                                            version,
                                            ..done
                                        },
                                        Some(terminal),
                                        "effect.settled"@,
                                        JsonView::Object(
                                            Map::empty().insert(
                                                "terminal"@,
                                                JsonView::Str(terminal.wire_text()),
                                            ).insert(
                                                "targets"@,
                                                JsonView::Uint(targets.len() as u64),
                                            ),
                                        ),
                                    ),
                                ),
                            },
                        },
                    },
                },
            },
        },
    }
}

/// Whether an intent can be parked: only one that may have touched the world.
pub open spec fn parkable(state: EffectState) -> bool {
    ||| state == EffectState::Dispatching
    ||| state == EffectState::Dispatched
    ||| state == EffectState::Observing
    ||| state == EffectState::Reconciling
}

/// The decision on parking an effect for reconciliation.
pub open spec fn decide_park(
    f: FunnelView,
    cmd: Command,
    pre: PreReadView,
    unit_id: Seq<char>,
    key: Seq<char>,
    next_reconcile_at: u64,
) -> Result<AcceptedView, RejectionView> {
    match authority_fault(f.store.epoch, cmd) {
        Some(e) => Err(e),
        None => match open_intent(cmd, pre, unit_id, key) {
            Err(e) => Err(e),
            Ok((row, intent)) => if !parkable(intent.state) {
                Err(
                    refuse(
                        ErrorKind::InvalidRequest,
                        "cannot park state "@ + intent.state.debug_name_text()
                            + " at reconciling"@,
                        false,
                    ),
                )
            } else {
                match next_of(row.version, "effect version"@) {
                    Err(e) => Err(e),
                    Ok(version) => Ok(
                        accept_update(
                            row,
                            EffectIntentView {
                                state: EffectState::Reconciling,
                                next_reconcile_at: Some(next_reconcile_at),
                                version,
                                ..intent
                            },
                            None,
                            "effect.reconciling"@,
                            JsonView::Object(
                                Map::empty().insert(
                                    "next_reconcile_at"@,
                                    JsonView::Uint(next_reconcile_at),
                                ),
                            ),
                        ),
                    ),
                }
            },
        },
    }
}

/// The decision on authorizing the adapter to act. A prepared intent under a committed
/// cancellation settles cancelled instead; an irreversible one needs its approval; a class
/// without retry is never dispatched again.
pub open spec fn decide_dispatch(
    f: FunnelView,
    cmd: Command,
    pre: PreReadView,
    unit_id: Seq<char>,
    key: Seq<char>,
) -> Result<AcceptedView, RejectionView> {
    match holder_fault(f.store.epoch, cmd, pre, unit_id) {
        Some(e) => Err(e),
        None => match open_intent(cmd, pre, unit_id, key) {
            Err(e) => Err(e),
            Ok((row, intent)) => {
                let fresh_intent = intent.state == EffectState::Prepared;
                if !fresh_intent && intent.retry_class == RetryClass::NoRetry {
                    Err(
                        refuse(
                            ErrorKind::InvalidRequest,
                            "retry_class no_retry refuses re-dispatch of "@ + key,
                            true,
                        ),
                    )
                } else if !fresh_intent && intent.state != EffectState::Dispatched && intent.state
                    != EffectState::Reconciling {
                    Err(
                        refuse(
                            ErrorKind::InvalidRequest,
                            "cannot dispatch from state "@ + intent.state.debug_name_text(),
                            false,
                        ),
                    )
                } else if fresh_intent && admission_bars(pre).len() > 0 {
                    match next_of(row.version, "effect version"@) {
                        Err(e) => Err(e),
                        Ok(version) => Ok(
                            accept_update(
                                row,
                                EffectIntentView {
                                    terminal: Some(EffectTerminal::Cancelled),
                                    state: EffectState::Settled,
                                    settled_at: Some(f.clock_ms),
                                    version,
                                    ..intent
                                },
                                Some(EffectTerminal::Cancelled),
                                "effect.settled"@,
                                JsonView::Object(
                                    Map::empty().insert(
                                        "terminal"@,
                                        JsonView::Str("cancelled"@),
                                    ).insert("settled_at"@, JsonView::Uint(f.clock_ms)).insert(
                                        "rule_4"@,
                                        JsonView::Bool(true),
                                    ),
                                ),
                            ),
                        ),
                    }
                } else if intent.reversibility_class == ReversibilityClass::Irreversible
                    && intent.approval_ref is None {
                    Err(
                        refuse(
                            ErrorKind::ApprovalRequired,
                            "irreversible effect "@ + key + " has no committed approval_ref"@,
                            false,
                        ),
                    )
                } else {
                    match next_of(row.version, "effect version"@) {
                        Err(e) => Err(e),
                        Ok(version) => Ok(
                            accept_update(
                                row,
                                EffectIntentView {
                                    state: EffectState::Dispatching,
                                    version,
                                    ..intent
                                },
                                None,
                                "effect.dispatching"@,
                                JsonView::Object(
                                    Map::empty().insert("operation_key"@, JsonView::Str(key)),
                                ),
                            ),
                        ),
                    }
                }
            },
        },
    }
}

/// Whether the targets of an intent are those that a spec declares, by identity and digests.
pub open spec fn same_declaration(
    held: Seq<TargetObservationView>,
    declared: Seq<TargetObservationView>,
) -> bool {
    &&& held.len() == declared.len()
    &&& forall|i: int|
        0 <= i < held.len() ==> {
            &&& (#[trigger] held[i]).target_id == declared[i].target_id
            &&& held[i].expected_digest == declared[i].expected_digest
            &&& held[i].pre_digest == declared[i].pre_digest
        }
}

/// Whether a spec agrees with an intent on every declared axis.
pub open spec fn agrees(intent: EffectIntentView, spec: EffectSpec) -> bool {
    &&& intent.adapter_id == spec.adapter_id@
    &&& intent.adapter_version == spec.adapter_version@
    &&& intent.retry_class == spec.retry_class
    &&& intent.reversibility_class == spec.reversibility_class
    &&& intent.policy_snapshot_digest == spec.policy_snapshot_digest@
    &&& intent.decomposable == spec.decomposable
    &&& intent.compensation_intent_id == crate::ids::opt_uuid(spec.compensation_intent_id)
    &&& intent.approval_ref == crate::ids::opt_uuid(spec.approval_ref)
    &&& intent.target_enumeration == spec.target_enumeration
    &&& same_declaration(intent.targets, declared_rows(rows_of(spec.declared_targets@)))
}

/// The intent that a prepare records.
pub open spec fn prepared_intent(
    f: FunnelView,
    token: AttemptTokenClaimsView,
    unit_id: Seq<char>,
    key: Seq<char>,
    spec: EffectSpec,
) -> EffectIntentView {
    EffectIntentView {
        effect_intent_id: fresh(f, 1),
        version: 1,
        unit_id,
        attempt_epoch: token.attempt_epoch,
        stamp: token.stamp,
        authority_epoch: token.authority_epoch,
        adapter_id: spec.adapter_id@,
        adapter_version: spec.adapter_version@,
        operation_key: key,
        logical_operation_id: spec.logical_operation_id@,
        request_digest: spec.request_digest@,
        retry_class: spec.retry_class,
        reversibility_class: spec.reversibility_class,
        approval_ref: crate::ids::opt_uuid(spec.approval_ref),
        policy_snapshot_digest: spec.policy_snapshot_digest@,
        state: EffectState::Prepared,
        terminal: None,
        target_enumeration: spec.target_enumeration,
        targets: declared_rows(rows_of(spec.declared_targets@)),
        decomposable: spec.decomposable,
        parent_effect_intent_id: None,
        compensation_intent_id: crate::ids::opt_uuid(spec.compensation_intent_id),
        dispatched_at: None,
        settled_at: None,
        next_reconcile_at: None,
    }
}

/// The accepted form of a first prepare.
pub open spec fn accept_prepare(
    f: FunnelView,
    token: AttemptTokenClaimsView,
    unit_id: Seq<char>,
    key: Seq<char>,
    spec: EffectSpec,
) -> AcceptedView {
    let id = uuid_text(fresh(f, 1));
    AcceptedView {
        plan: PlanView::CreateEffect {
            operation_key: key,
            intent: prepared_intent(f, token, unit_id, key, spec),
        },
        events: seq![
            EventDraftView {
                aggregate_kind: "effect"@,
                aggregate_id: id,
                aggregate_version: 1,
                event_kind: "effect.prepared"@,
                payload: JsonView::Object(
                    Map::empty().insert("effect_intent_id"@, JsonView::Str(id)).insert(
                        "adapter_id"@,
                        JsonView::Str(spec.adapter_id@),
                    ).insert("retry_class"@, JsonView::Str(spec.retry_class.wire_text())).insert(
                        "reversibility_class"@,
                        JsonView::Str(spec.reversibility_class.wire_text()),
                    ).insert(
                        "target_enumeration"@,
                        JsonView::Str(spec.target_enumeration.wire_text()),
                    ),
                ),
            },
        ],
        result: JsonView::Object(
            Map::empty().insert("operation_key"@, JsonView::Str(key)).insert(
                "effect_intent_id"@,
                JsonView::Str(id),
            ).insert("version"@, JsonView::Uint(1)).insert("existing"@, JsonView::Bool(false)),
        ),
        minted: 1,
    }
}

/// The accepted form of preparing an intent again: the one that exists, unchanged.
pub open spec fn accept_existing(key: Seq<char>, intent: EffectIntentView) -> AcceptedView {
    AcceptedView {
        plan: PlanView::Nothing,
        events: Seq::empty(),
        result: JsonView::Object(
            Map::empty().insert("operation_key"@, JsonView::Str(key)).insert(
                "effect_intent_id"@,
                JsonView::Str(uuid_text(intent.effect_intent_id)),
            ).insert("version"@, JsonView::Uint(intent.version)).insert(
                "existing"@,
                JsonView::Bool(true),
            ),
        ),
        minted: 0,
    }
}

/// The fault of a declaration that does not match its enumeration mode.
pub open spec fn enumeration_fault(spec: EffectSpec) -> Option<RejectionView> {
    if spec.target_enumeration == TargetEnumeration::Declared && spec.declared_targets@.len()
        == 0 {
        Some(
            refuse(
                ErrorKind::InvalidRequest,
                "target_enumeration=declared requires a non-empty declared_targets"@,
                true,
            ),
        )
    } else if spec.target_enumeration == TargetEnumeration::PostHoc && spec.declared_targets@.len()
        != 0 {
        Some(
            refuse(
                ErrorKind::InvalidRequest,
                "target_enumeration=post_hoc must not declare targets"@,
                true,
            ),
        )
    } else {
        None
    }
}

/// The decision on preparing an effect.
pub open spec fn decide_prepare(
    f: FunnelView,
    cmd: Command,
    pre: PreReadView,
    unit_id: Seq<char>,
    spec: EffectSpec,
) -> Result<AcceptedView, RejectionView> {
    match holder_fault(f.store.epoch, cmd, pre, unit_id) {
        Some(e) => Err(e),
        None => if admission_bars(pre).len() > 0 {
            Err(
                refuse(
                    ErrorKind::InvalidRequest,
                    "prepare barred by committed cancellation: "@ + named(admission_bars(pre)),
                    true,
                ),
            )
        } else {
            match target_list_fault(rows_of(spec.declared_targets@)) {
                Some(e) => Err(e),
                None => match enumeration_fault(spec) {
                    Some(e) => Err(e),
                    None => {
                        let key = pre.effect_key->0;
                        match pre.effect {
                            None => Ok(
                                accept_prepare(f, cmd.attempt_token->0@, unit_id, key, spec),
                            ),
                            Some(row) => match readable(row.record) {
                                Err(e) => Err(e),
                                Ok(intent) => match binding_fault(intent, unit_id) {
                                    Some(e) => Err(e),
                                    None => if agrees(intent, spec) {
                                        Ok(accept_existing(key, intent))
                                    } else {
                                        Err(
                                            refuse(
                                                ErrorKind::InvalidRequest,
                                                "divergent re-prepare of existing intent "@ + key,
                                                true,
                                            ),
                                        )
                                    },
                                },
                            },
                        }
                    },
                },
            }
        },
    }
}

/// The decision on an effect method.
pub open spec fn decide_effect(f: FunnelView, cmd: Command, pre: PreReadView) -> Result<
    AcceptedView,
    RejectionView,
> {
    match cmd.method {
        Method::EffectPrepare { unit_id, spec } => decide_prepare(f, cmd, pre, unit_id@, spec),
        Method::EffectDispatch { unit_id, operation_key } => decide_dispatch(
            f,
            cmd,
            pre,
            unit_id@,
            operation_key@,
        ),
        Method::EffectRecordDispatched { unit_id, operation_key, dispatched_at } =>
            decide_record_dispatched(f, cmd, pre, unit_id@, operation_key@, dispatched_at),
        Method::EffectSettle {
            unit_id,
            operation_key,
            terminal,
            targets,
            evidence,
            settled_at,
        } => decide_settle(
            f,
            cmd,
            pre,
            unit_id@,
            operation_key@,
            terminal,
            rows_of(targets@),
            evidence,
            settled_at,
        ),
        Method::EffectParkReconciling { unit_id, operation_key, next_reconcile_at } => decide_park(
            f,
            cmd,
            pre,
            unit_id@,
            operation_key@,
            next_reconcile_at,
        ),
        _ => Err(refuse(ErrorKind::Internal, "not an effect method"@, false)),
    }
}

/// The fault of an intent that belongs to another unit.
pub fn intent_binds(intent: &EffectIntent, unit_id: &str) -> (r: Result<(), Rejection>)
    ensures
        fault_of(r) == binding_fault(intent@, unit_id@),
{
    if !same(&intent.unit_id, unit_id) {
        let mut detail = "effect belongs to unit ".to_owned();
        detail.append(&intent.unit_id);
        detail.append(", method targets ");
        detail.append(unit_id);
        return Err(Rejection { kind: ErrorKind::InvalidRequest, detail, persist: true });
    }
    Ok(())
}

fn expected_effect_version(cmd: &Command, row: &EffectRow) -> (r: Result<(), Rejection>)
    ensures
        fault_of(r) == effect_version_fault(*cmd, row@.version),
{
    match cmd.expected_version {
        Some(expected) => {
            if expected != row.version {
                let mut detail = "expected effect version ".to_owned();
                detail.append(&decimal(expected));
                detail.append(", actual ");
                detail.append(&decimal(row.version));
                return Err(
                    Rejection { kind: ErrorKind::VersionConflict, detail, persist: false },
                );
            }
            Ok(())
        },
        None => Err(
            refusal(ErrorKind::InvalidRequest, "effect mutation requires expected_version", true),
        ),
    }
}

/// The fault of an intent that has its terminal.
pub fn already_settled(intent: &EffectIntent, operation_key: &str) -> (r: Result<(), Rejection>)
    ensures
        fault_of(r) == settled_fault(intent@, operation_key@),
{
    if intent.terminal.is_some() {
        let mut detail = "effect ".to_owned();
        detail.append(operation_key);
        detail.append(" already settled");
        return Err(Rejection { kind: ErrorKind::InvalidRequest, detail, persist: true });
    }
    Ok(())
}

/// The next version of an effect.
pub fn next_version(version: u64) -> (r: Result<u64, Rejection>)
    ensures
        match r {
            Ok(v) => next_of(version, "effect version"@) == Ok::<u64, RejectionView>(v),
            Err(e) => next_of(version, "effect version"@) == Err::<u64, RejectionView>(e@),
        },
{
    increment(version, "effect version")
}

fn parse_record(row: &EffectRow) -> (r: Result<EffectIntent, Rejection>)
    ensures
        match r {
            Ok(intent) => readable(row@.record) == Ok::<EffectIntentView, RejectionView>(intent@),
            Err(e) => readable(row@.record) == Err::<EffectIntentView, RejectionView>(e@),
        },
{
    match &row.record {
        IntentRecord::Readable(intent) => Ok(intent.clone()),
        IntentRecord::Unreadable(error) => {
            let mut detail = "effect record unreadable: ".to_owned();
            detail.append(error);
            Err(Rejection { kind: ErrorKind::Internal, detail, persist: false })
        },
    }
}

/// The opening that every method on an existing intent shares: resolve, read, bind to the
/// unit, compare the version, and refuse a settled one.
fn resolve_bound<'p>(cmd: &Command, pre: &'p PreRead, unit_id: &str, operation_key: &str) -> (r:
    Result<(&'p EffectRow, EffectIntent), Rejection>)
    ensures
        match r {
            Ok((row, intent)) => open_intent(*cmd, pre@, unit_id@, operation_key@) == Ok::<
                (EffectRowView, EffectIntentView),
                RejectionView,
            >((row@, intent@)) && intent@.terminal is None,
            Err(e) => open_intent(*cmd, pre@, unit_id@, operation_key@) == Err::<
                (EffectRowView, EffectIntentView),
                RejectionView,
            >(e@),
        },
{
    let row = match &pre.effect {
        Some(row) => row,
        None => {
            let mut detail = "effect ".to_owned();
            detail.append(operation_key);
            return Err(Rejection { kind: ErrorKind::NotFound, detail, persist: false });
        },
    };
    let intent = match parse_record(row) {
        Ok(intent) => intent,
        Err(e) => {
            return Err(e);
        },
    };
    if let Err(e) = intent_binds(&intent, unit_id) {
        return Err(e);
    }
    if let Err(e) = expected_effect_version(cmd, row) {
        return Err(e);
    }
    if let Err(e) = already_settled(&intent, operation_key) {
        return Err(e);
    }
    Ok((row, intent))
}

fn update_accepted(
    row: &EffectRow,
    intent: EffectIntent,
    terminal: Option<EffectTerminal>,
    event_kind: &'static str,
    payload: Json,
) -> (r: Accepted)
    requires
        crate::json::plain(payload@, 8),
    ensures
        r@ == accept_update(row@, intent@, terminal, event_kind@, payload@),
        writable(r@),
{
    proof {
        names_are_ordinary();
    }
    let state = intent.state;
    let version: u64 = intent.version;
    let result = object3(
        "operation_key",
        text_value(&intent.operation_key),
        "version",
        Json::Uint(version),
        "state",
        text_value(state_wire(state)),
    );
    let aggregate_id = intent.effect_intent_id.to_string();
    Accepted {
        plan: Plan::UpdateEffect {
            operation_key: row.operation_key.clone(),
            new_version: version,
            state,
            terminal,
            intent,
        },
        events: one_event(
            EventDraft {
                aggregate_kind: "effect",
                aggregate_id,
                aggregate_version: version,
                event_kind,
                payload,
            },
        ),
        result,
        minted: 0,
    }
}

impl Funnel {
    fn validate_record_dispatched(
        &self,
        cmd: &Command,
        pre: &PreRead,
        unit_id: &str,
        operation_key: &str,
        dispatched_at: u64,
    ) -> (r: Result<Accepted, Rejection>)
        ensures
            verdict(r) == decide_record_dispatched(
                self@,
                *cmd,
                pre@,
                unit_id@,
                operation_key@,
                dispatched_at,
            ),
            r is Ok ==> writable(r->Ok_0@),
    {
        proof {
            names_are_ordinary();
        }
        if let Err(e) = self.holder_gate(cmd, pre, unit_id) {
            return Err(e);
        }
        let (row, mut intent) = match resolve_bound(cmd, pre, unit_id, operation_key) {
            Ok(p) => p,
            Err(e) => {
                return Err(e);
            },
        };
        if intent.state != EffectState::Dispatching {
            let mut detail = "record_dispatched needs state dispatching, found ".to_owned();
            detail.append(intent.state.debug_name());
            return Err(Rejection { kind: ErrorKind::InvalidRequest, detail, persist: false });
        }
        let version: u64 = match next_version(row.version) {
            Ok(v) => v,
            Err(e) => {
                return Err(e);
            },
        };
        intent.state = EffectState::Dispatched;
        intent.dispatched_at = Some(dispatched_at);
        intent.version = version;
        let payload = object1("dispatched_at", Json::Uint(dispatched_at));
        Ok(update_accepted(row, intent, None, "effect.dispatched", payload))
    }

    fn validate_settle(
        &self,
        cmd: &Command,
        pre: &PreRead,
        unit_id: &str,
        operation_key: &str,
        terminal: EffectTerminal,
        targets: &Vec<TargetObservation>,
        evidence: SettleEvidence,
        settled_at: u64,
    ) -> (r: Result<Accepted, Rejection>)
        ensures
            verdict(r) == decide_settle(
                self@,
                *cmd,
                pre@,
                unit_id@,
                operation_key@,
                terminal,
                rows_of(targets@),
                evidence,
                settled_at,
            ),
            r is Ok ==> writable(r->Ok_0@),
    {
        proof {
            names_are_ordinary();
        }
        if let Err(e) = self.authority_gate(cmd) {
            return Err(e);
        }
        let (row, mut intent) = match resolve_bound(cmd, pre, unit_id, operation_key) {
            Ok(p) => p,
            Err(e) => {
                return Err(e);
            },
        };
        if let Err(e) = check_target_list(targets) {
            return Err(e);
        }
        if let Some(reason) = settle_legality(&intent, terminal, evidence) {
            return Err(
                Rejection { kind: ErrorKind::InvalidRequest, detail: reason, persist: false },
            );
        }
        let ghost read = intent@;
        let rows = match classify_settle_targets(&intent, targets, evidence) {
            Ok(rows) => rows,
            Err(e) => {
                return Err(e);
            },
        };
        intent.targets = rows;
        proof {
            assert(intent@ == EffectIntentView { targets: rows_of(rows@), ..read });
        }
        if let Err(e) = intent.settle(terminal) {
            let detail = match e {
                EffectError::TerminalAlreadySet { existing } => {
                    let mut d = "terminal already set to ".to_owned();
                    d.append(existing.debug_name());
                    d
                },
                EffectError::SucceededWithUnappliedTarget { target_id } => {
                    let mut d = "succeeded with unapplied target ".to_owned();
                    d.append(&target_id);
                    d
                },
                EffectError::FailedWithUnknownTarget { target_id } => {
                    let mut d = "failed would mask unknown target ".to_owned();
                    d.append(&target_id);
                    d
                },
            };
            return Err(Rejection { kind: ErrorKind::InvalidRequest, detail, persist: true });
        }
        let version: u64 = match next_version(row.version) {
            Ok(v) => v,
            Err(e) => {
                return Err(e);
            },
        };
        intent.settled_at = Some(settled_at);
        intent.version = version;
        let payload = object2(
            "terminal",
            text_value(terminal_wire(terminal)),
            "targets",
            Json::Uint(targets.len() as u64),
        );
        Ok(update_accepted(row, intent, Some(terminal), "effect.settled", payload))
    }

    fn validate_park(
        &self,
        cmd: &Command,
        pre: &PreRead,
        unit_id: &str,
        operation_key: &str,
        next_reconcile_at: u64,
    ) -> (r: Result<Accepted, Rejection>)
        ensures
            verdict(r) == decide_park(
                self@,
                *cmd,
                pre@,
                unit_id@,
                operation_key@,
                next_reconcile_at,
            ),
            r is Ok ==> writable(r->Ok_0@),
    {
        proof {
            names_are_ordinary();
        }
        if let Err(e) = self.authority_gate(cmd) {
            return Err(e);
        }
        let (row, mut intent) = match resolve_bound(cmd, pre, unit_id, operation_key) {
            Ok(p) => p,
            Err(e) => {
                return Err(e);
            },
        };
        if !matches!(
            intent.state,
            EffectState::Dispatching
                | EffectState::Dispatched
                | EffectState::Observing
                | EffectState::Reconciling
        ) {
            let mut detail = "cannot park state ".to_owned();
            detail.append(intent.state.debug_name());
            detail.append(" at reconciling");
            return Err(Rejection { kind: ErrorKind::InvalidRequest, detail, persist: false });
        }
        let version: u64 = match next_version(row.version) {
            Ok(v) => v,
            Err(e) => {
                return Err(e);
            },
        };
        intent.state = EffectState::Reconciling;
        intent.next_reconcile_at = Some(next_reconcile_at);
        intent.version = version;
        let payload = object1("next_reconcile_at", Json::Uint(next_reconcile_at));
        Ok(update_accepted(row, intent, None, "effect.reconciling", payload))
    }

    /// The transition that authorizes the adapter to act. Every predicate that must hold
    /// before the world is touched is enforced here.
    pub fn validate_dispatch(
        &self,
        cmd: &Command,
        pre: &PreRead,
        unit_id: &str,
        operation_key: &str,
    ) -> (r: Result<Accepted, Rejection>)
        ensures
            verdict(r) == decide_dispatch(self@, *cmd, pre@, unit_id@, operation_key@),
            r is Ok ==> writable(r->Ok_0@),
    {
        proof {
            names_are_ordinary();
        }
        if let Err(e) = self.holder_gate(cmd, pre, unit_id) {
            return Err(e);
        }
        let (row, mut intent) = match resolve_bound(cmd, pre, unit_id, operation_key) {
            Ok(p) => p,
            Err(e) => {
                return Err(e);
            },
        };
        if intent.state != EffectState::Prepared {
            if intent.retry_class == RetryClass::NoRetry {
                let mut detail = "retry_class no_retry refuses re-dispatch of ".to_owned();
                detail.append(operation_key);
                return Err(Rejection { kind: ErrorKind::InvalidRequest, detail, persist: true });
            }
            if !matches!(intent.state, EffectState::Dispatched | EffectState::Reconciling) {
                let mut detail = "cannot dispatch from state ".to_owned();
                detail.append(intent.state.debug_name());
                return Err(Rejection { kind: ErrorKind::InvalidRequest, detail, persist: false });
            }
        }
        let barred = match &pre.cancel {
            Some(c) => c.admission_blockers.len() > 0,
            None => false,
        };
        if intent.state == EffectState::Prepared && barred {
            let version: u64 = match next_version(row.version) {
                Ok(v) => v,
                Err(e) => {
                    return Err(e);
                },
            };
            intent.terminal = Some(EffectTerminal::Cancelled);
            intent.state = EffectState::Settled;
            intent.settled_at = Some(self.clock_ms);
            intent.version = version;
            let payload = object3(
                "terminal",
                text_value("cancelled"),
                "settled_at",
                Json::Uint(self.clock_ms),
                "rule_4",
                Json::Bool(true),
            );
            return Ok(
                update_accepted(
                    row,
                    intent,
                    Some(EffectTerminal::Cancelled),
                    "effect.settled",
                    payload,
                ),
            );
        }
        if intent.reversibility_class == ReversibilityClass::Irreversible
            && intent.approval_ref.is_none() {
            let mut detail = "irreversible effect ".to_owned();
            detail.append(operation_key);
            detail.append(" has no committed approval_ref");
            return Err(Rejection { kind: ErrorKind::ApprovalRequired, detail, persist: false });
        }
        let version: u64 = match next_version(row.version) {
            Ok(v) => v,
            Err(e) => {
                return Err(e);
            },
        };
        intent.state = EffectState::Dispatching;
        intent.version = version;
        let payload = object1("operation_key", text_value(operation_key));
        Ok(update_accepted(row, intent, None, "effect.dispatching", payload))
    }

    /// Records an intent, or returns the one that exists. A spec that disagrees with it on any
    /// declared axis is a contradiction, not a retry.
    pub fn validate_prepare(
        &self,
        cmd: &Command,
        pre: &PreRead,
        unit_id: &String,
        spec: &EffectSpec,
    ) -> (r: Result<Accepted, Rejection>)
        requires
            self@.mint_seq <= u64::MAX - 2,
            pre@.unit is Some ==> pre@.effect_key is Some,
        ensures
            verdict(r) == decide_prepare(self@, *cmd, pre@, unit_id@, *spec),
            r is Ok ==> writable(r->Ok_0@),
    {
        proof {
            names_are_ordinary();
        }
        let token = match self.holder_gate(cmd, pre, unit_id) {
            Ok(token) => token,
            Err(e) => {
                return Err(e);
            },
        };
        if let Some(c) = &pre.cancel {
            if c.admission_blockers.len() > 0 {
                let mut detail = "prepare barred by committed cancellation: ".to_owned();
                detail.append(&name_blockers(&c.admission_blockers));
                return Err(Rejection { kind: ErrorKind::InvalidRequest, detail, persist: true });
            }
        }
        if let Err(e) = check_target_list(&spec.declared_targets) {
            return Err(e);
        }
        match spec.target_enumeration {
            TargetEnumeration::Declared => {
                if spec.declared_targets.len() == 0 {
                    return Err(
                        refusal(
                            ErrorKind::InvalidRequest,
                            "target_enumeration=declared requires a non-empty declared_targets",
                            true,
                        ),
                    );
                }
            },
            TargetEnumeration::PostHoc => {
                if spec.declared_targets.len() != 0 {
                    return Err(
                        refusal(
                            ErrorKind::InvalidRequest,
                            "target_enumeration=post_hoc must not declare targets",
                            true,
                        ),
                    );
                }
            },
        }
        let key = match &pre.effect_key {
            Some(key) => key.clone(),
            None => {
                return Err(refusal(ErrorKind::Internal, "no operation key", false));
            },
        };
        let targets = declared_at_prepare(&spec.declared_targets);
        if let Some(existing) = &pre.effect {
            let intent = match parse_record(existing) {
                Ok(intent) => intent,
                Err(e) => {
                    return Err(e);
                },
            };
            if let Err(e) = intent_binds(&intent, unit_id) {
                return Err(e);
            }
            let agreeing = same(&intent.adapter_id, &spec.adapter_id) && same(
                &intent.adapter_version,
                &spec.adapter_version,
            ) && intent.retry_class == spec.retry_class && intent.reversibility_class
                == spec.reversibility_class && intent.policy_snapshot_digest.same_as(
                &spec.policy_snapshot_digest,
            ) && intent.decomposable == spec.decomposable && same_uuid(
                &intent.compensation_intent_id,
                &spec.compensation_intent_id,
            ) && same_uuid(&intent.approval_ref, &spec.approval_ref) && intent.target_enumeration
                == spec.target_enumeration && same_targets(&intent.targets, &targets);
            if !agreeing {
                let mut detail = "divergent re-prepare of existing intent ".to_owned();
                detail.append(&key);
                return Err(Rejection { kind: ErrorKind::InvalidRequest, detail, persist: true });
            }
            let result = crate::json::object4(
                "operation_key",
                text_value(&key),
                "effect_intent_id",
                Json::Str(intent.effect_intent_id.to_string()),
                "version",
                Json::Uint(intent.version),
                "existing",
                Json::Bool(true),
            );
            return Ok(Accepted { plan: Plan::Nothing, events: no_events(), result, minted: 0 });
        }
        let effect_intent_id = self.id_after(1);
        let id_text = effect_intent_id.to_string();
        let intent = EffectIntent {
            effect_intent_id,
            version: 1,
            unit_id: unit_id.clone(),
            attempt_epoch: token.attempt_epoch,
            stamp: token.stamp,
            authority_epoch: token.authority_epoch,
            adapter_id: spec.adapter_id.clone(),
            adapter_version: spec.adapter_version.clone(),
            operation_key: key.clone(),
            logical_operation_id: spec.logical_operation_id,
            request_digest: spec.request_digest.clone(),
            retry_class: spec.retry_class,
            reversibility_class: spec.reversibility_class,
            approval_ref: spec.approval_ref,
            policy_snapshot_digest: spec.policy_snapshot_digest.clone(),
            state: EffectState::Prepared,
            terminal: None,
            target_enumeration: spec.target_enumeration,
            targets,
            decomposable: spec.decomposable,
            parent_effect_intent_id: None,
            compensation_intent_id: spec.compensation_intent_id,
            dispatched_at: None,
            settled_at: None,
            next_reconcile_at: None,
        };
        let mut members: Vec<(String, Json)> = Vec::new();
        put(&mut members, "effect_intent_id", text_value(&id_text));
        put(&mut members, "adapter_id", text_value(&spec.adapter_id));
        put(&mut members, "retry_class", text_value(spec.retry_class.wire()));
        put(&mut members, "reversibility_class", text_value(spec.reversibility_class.wire()));
        put(&mut members, "target_enumeration", text_value(spec.target_enumeration.wire()));
        let payload = object(members);
        let result = crate::json::object4(
            "operation_key",
            text_value(&key),
            "effect_intent_id",
            text_value(&id_text),
            "version",
            Json::Uint(1),
            "existing",
            Json::Bool(false),
        );
        Ok(
            Accepted {
                plan: Plan::CreateEffect { operation_key: key, intent },
                events: one_event(
                    EventDraft {
                        aggregate_kind: "effect",
                        aggregate_id: id_text,
                        aggregate_version: 1,
                        event_kind: "effect.prepared",
                        payload,
                    },
                ),
                result,
                minted: 1,
            },
        )
    }

    /// The decision on an effect method; any other method is refused.
    pub fn validate_effect(&self, cmd: &Command, pre: &PreRead) -> (r: Result<Accepted, Rejection>)
        requires
            self@.mint_seq <= u64::MAX - 2,
            cmd.method is EffectPrepare && pre@.unit is Some ==> pre@.effect_key is Some,
        ensures
            verdict(r) == decide_effect(self@, *cmd, pre@),
            r is Ok ==> writable(r->Ok_0@),
    {
        match &cmd.method {
            Method::EffectPrepare { unit_id, spec } => self.validate_prepare(
                cmd,
                pre,
                unit_id,
                spec,
            ),
            Method::EffectDispatch { unit_id, operation_key } => self.validate_dispatch(
                cmd,
                pre,
                unit_id,
                operation_key,
            ),
            Method::EffectRecordDispatched { unit_id, operation_key, dispatched_at } =>
                self.validate_record_dispatched(cmd, pre, unit_id, operation_key, *dispatched_at),
            Method::EffectSettle {
                unit_id,
                operation_key,
                terminal,
                targets,
                evidence,
                settled_at,
            } => self.validate_settle(
                cmd,
                pre,
                unit_id,
                operation_key,
                *terminal,
                targets,
                *evidence,
                *settled_at,
            ),
            Method::EffectParkReconciling { unit_id, operation_key, next_reconcile_at } =>
                self.validate_park(cmd, pre, unit_id, operation_key, *next_reconcile_at),
            _ => Err(refusal(ErrorKind::Internal, "not an effect method", false)),
        }
    }
}

fn same_targets(held: &Vec<TargetObservation>, declared: &Vec<TargetObservation>) -> (r: bool)
    ensures
        r == same_declaration(rows_of(held@), rows_of(declared@)),
{
    let ghost a = rows_of(held@);
    let ghost b = rows_of(declared@);
    if held.len() != declared.len() {
        return false;
    }
    let mut i: usize = 0;
    while i < held.len()
        invariant
            i <= held.len() == declared.len(),
            a == rows_of(held@),
            b == rows_of(declared@),
            forall|k: int|
                0 <= k < i ==> {
                    &&& (#[trigger] a[k]).target_id == b[k].target_id
                    &&& a[k].expected_digest == b[k].expected_digest
                    &&& a[k].pre_digest == b[k].pre_digest
                },
        decreases held.len() - i,
    {
        proof {
            assert(a[i as int] == held@[i as int]@);
            assert(b[i as int] == declared@[i as int]@);
        }
        if !(same(&held[i].target_id, &declared[i].target_id) && same_digest(
            &held[i].expected_digest,
            &declared[i].expected_digest,
        ) && same_digest(&held[i].pre_digest, &declared[i].pre_digest)) {
            return false;
        }
        i += 1;
    }
    true
}

/// An effect decision mints at most one identifier and appends at most one event.
pub proof fn effect_decisions_are_small(f: FunnelView, cmd: Command, pre: PreReadView)
    ensures
        is_small(decide_effect(f, cmd, pre)),
{
}

} // verus!
