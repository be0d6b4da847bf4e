//! What preparing and settling an effect do: which targets are taken, how they are classified, and
//! which outcome the record of an intent supports.
use crate::effect::{
    first_forbidding, EffectIntentView, EffectState, EffectTerminal, ReversibilityClass,
    TargetEnumeration, TargetObservationView, TargetState,
};
use crate::error::ErrorKind;
use crate::funnel::command::{Command, EffectSpec, SettleEvidence};
use crate::funnel::effect_laws::{
    effects_are_barred, intent_at, intents_are_written, is_intent_of, is_keyed, is_open_at,
    writes_intent,
};
use crate::funnel::effect_rules::{
    declared_rows, insert_row, merged_row, observation_of, row_fault, rows_of, settled_targets,
    sorted_rows, sorting_is_stable, target_list_fault, undeclared_from, unlawful,
};
use crate::funnel::ground::{
    answer, attempt_is_cancelled, by_daemon, by_holder, completes, completion_is_acceptance,
    daemons_pass, holders_pass, is_new, journals, no_event_is_journalled, one_event_is_journalled,
    refused_as, rows_after, unit_is_cancelled,
};
use crate::funnel::pre::rows_for;
use crate::funnel::validate::decide;
use crate::funnel::{fresh, FunnelView};
use crate::ids::{blake3_of, hex_of, uuid_text, Uuid7};
use crate::json::{canonical_of, JsonView};
use crate::store::{EffectRowView, IntentRecordView, TablesView};
use crate::table::{lookup, read_after_write, upsert};
use crate::text::text_before;
use vstd::multiset::*;
use vstd::prelude::*;
use vstd::seq_lib::*;
use vstd::string::*;
use vstd::utf8::*;

verus! {

// --- Lists of targets ----------------------------------------------------------------------------

/// Whether a list of targets is taken: at most 1024 of them, each with an id of at most 256 bytes,
/// and no id twice.
pub open spec fn is_fit_list(rows: Seq<TargetObservationView>) -> bool {
    &&& rows.len() <= 1024
    &&& forall|i: int| 0 <= i < rows.len() ==> encode_utf8((#[trigger] rows[i]).target_id).len()
        <= 256
    &&& forall|i: int, j: int|
        0 <= i < j < rows.len() ==> (#[trigger] rows[i]).target_id != (#[trigger] rows[j]).target_id
}

proof fn row_faults_show(rows: Seq<TargetObservationView>, i: int)
    requires
        0 <= i <= rows.len(),
    ensures
        row_fault(rows, i) is None <==> {
            &&& forall|k: int|
                i <= k < rows.len() ==> encode_utf8((#[trigger] rows[k]).target_id).len() <= 256
            &&& forall|j: int, k: int|
                0 <= j < k < rows.len() && i <= k ==> (#[trigger] rows[j]).target_id != (
                #[trigger] rows[k]).target_id
        },
        row_fault(rows, i) is Some ==> row_fault(rows, i)->0.kind == ErrorKind::InvalidRequest,
    decreases rows.len() - i,
{
    if i < rows.len() {
        row_faults_show(rows, i + 1);
    }
}

proof fn list_faults_show(rows: Seq<TargetObservationView>)
    ensures
        target_list_fault(rows) is None <==> is_fit_list(rows),
        target_list_fault(rows) is Some ==> target_list_fault(rows)->0.kind
            == ErrorKind::InvalidRequest,
{
    if rows.len() <= 1024 {
        row_faults_show(rows, 0);
    }
}

/// Whether a list holds just these rows, in the order of their ids.
pub open spec fn is_ordered_copy(
    out: Seq<TargetObservationView>,
    rows: Seq<TargetObservationView>,
) -> bool {
    &&& out.to_multiset() == rows.to_multiset()
    &&& forall|i: int, j: int|
        0 <= i < j < out.len() ==> !text_before(
            (#[trigger] out[j]).target_id,
            (#[trigger] out[i]).target_id,
        )
}

proof fn insertion_adds(sorted: Seq<TargetObservationView>, row: TargetObservationView)
    ensures
        insert_row(sorted, row).to_multiset() == sorted.to_multiset().insert(row),
    decreases sorted.len(),
{
    broadcast use group_to_multiset_ensures;
    if sorted.len() > 0 && text_before(row.target_id, sorted.last().target_id) {
        let front = sorted.drop_last();
        insertion_adds(front, row);
        assert(front.push(sorted.last()) =~= sorted);
        assert(insert_row(sorted, row).to_multiset() =~= sorted.to_multiset().insert(row));
    }
}

proof fn sorting_keeps(rows: Seq<TargetObservationView>)
    ensures
        is_ordered_copy(sorted_rows(rows), rows),
    decreases rows.len(),
{
    broadcast use group_to_multiset_ensures;
    sorting_is_stable(rows, Seq::empty());
    if rows.len() > 0 {
        let front = rows.drop_last();
        sorting_keeps(front);
        insertion_adds(sorted_rows(front), rows.last());
        assert(front.push(rows.last()) =~= rows);
    } else {
        assert(sorted_rows(rows) =~= rows);
    }
}

// --- Settlement ----------------------------------------------------------------------------------

/// Whether the adapter may have acted on an intent in this state.
pub open spec fn may_have_acted(state: EffectState) -> bool {
    ||| state == EffectState::Dispatching
    ||| state == EffectState::Dispatched
    ||| state == EffectState::Observing
    ||| state == EffectState::Reconciling
    ||| state == EffectState::Compensating
}

/// Whether an intent may end so: with an outcome only where the adapter may have acted; cancelled
/// where it was never dispatched, or where the target itself reported it; compensated only where it
/// can be and a compensation is registered.
pub open spec fn may_end(
    intent: EffectIntentView,
    terminal: EffectTerminal,
    evidence: SettleEvidence,
) -> bool {
    match terminal {
        EffectTerminal::Succeeded => may_have_acted(intent.state),
        EffectTerminal::Failed => may_have_acted(intent.state),
        EffectTerminal::Unknown => may_have_acted(intent.state),
        EffectTerminal::Cancelled => intent.state == EffectState::Prepared || may_have_acted(
            intent.state,
        ) && evidence.target_reported_cancellation,
        EffectTerminal::Compensated => may_have_acted(intent.state) && intent.reversibility_class
            != ReversibilityClass::Irreversible && intent.compensation_intent_id is Some,
    }
}

/// Whether a target is observed as it should be: what it is declared as stays, what is submitted of
/// it is taken, and its state follows from the digests. It is applied where the observed digest is
/// the expected one, not applied where it is the one from before, and else unknown.
pub open spec fn is_observed(
    declared: TargetObservationView,
    submitted: Seq<TargetObservationView>,
    row: TargetObservationView,
) -> bool {
    &&& row.target_id == declared.target_id
    &&& row.expected_digest == declared.expected_digest
    &&& row.pre_digest == declared.pre_digest
    &&& forall|k: int|
        0 <= k < submitted.len() && (#[trigger] submitted[k]).target_id == declared.target_id
            ==> row.observed_digest == submitted[k].observed_digest && row.observed_at
            == submitted[k].observed_at
    &&& (forall|k: int|
        0 <= k < submitted.len() ==> (#[trigger] submitted[k]).target_id != declared.target_id)
        ==> row.observed_digest is None && row.observed_at is None
    &&& row.state == TargetState::Applied <==> row.observed_digest is Some && row.observed_digest
        == row.expected_digest
    &&& row.state == TargetState::NotApplied <==> row.observed_digest is Some
        && row.observed_digest != row.expected_digest && row.observed_digest == row.pre_digest
}

/// Whether the targets of an intent that settles are these. Declared ones keep their places; those
/// found afterwards are the submitted ones in the order of their ids, applied where they were
/// observed and the process ended cleanly, and else unknown.
pub open spec fn is_classified(
    intent: EffectIntentView,
    submitted: Seq<TargetObservationView>,
    evidence: SettleEvidence,
    rows: Seq<TargetObservationView>,
) -> bool {
    match intent.target_enumeration {
        TargetEnumeration::Declared => rows.len() == intent.targets.len() && forall|i: int|
            0 <= i < rows.len() ==> is_observed(intent.targets[i], submitted, #[trigger] rows[i]),
        TargetEnumeration::PostHoc => is_ordered_copy(
            rows,
            Seq::new(
                submitted.len(),
                |i: int|
                    TargetObservationView {
                        expected_digest: None,
                        state: if evidence.clean_wait_status && submitted[i].observed_digest
                            is Some {
                            TargetState::Applied
                        } else {
                            TargetState::Unknown
                        },
                        ..submitted[i]
                    },
            ),
        ),
    }
}

/// Whether targets support an outcome: every target of a success is applied, and none of a failure
/// is unknown.
pub open spec fn supports(rows: Seq<TargetObservationView>, terminal: EffectTerminal) -> bool {
    forall|i: int|
        0 <= i < rows.len() ==> {
            &&& terminal == EffectTerminal::Succeeded ==> (#[trigger] rows[i]).state
                == TargetState::Applied
            &&& terminal == EffectTerminal::Failed ==> rows[i].state != TargetState::Unknown
        }
}

/// Whether every submitted target is declared, where an intent declares its targets.
pub open spec fn names_declared(
    intent: EffectIntentView,
    submitted: Seq<TargetObservationView>,
) -> bool {
    intent.target_enumeration == TargetEnumeration::Declared ==> forall|k: int|
        0 <= k < submitted.len() ==> exists|i: int|
            0 <= i < intent.targets.len() && (#[trigger] intent.targets[i]).target_id == (
            #[trigger] submitted[k]).target_id
}

proof fn support_shows(rows: Seq<TargetObservationView>, terminal: EffectTerminal)
    ensures
        0 <= first_forbidding(rows, terminal) <= rows.len(),
        first_forbidding(rows, terminal) == rows.len() <==> supports(rows, terminal),
    decreases rows.len(),
{
    if rows.len() > 0 {
        let front = rows.drop_last();
        support_shows(front, terminal);
        assert(rows[rows.len() - 1] == rows.last());
        if supports(rows, terminal) {
            assert forall|i: int| 0 <= i < front.len() implies {
                &&& terminal == EffectTerminal::Succeeded ==> (#[trigger] front[i]).state
                    == TargetState::Applied
                &&& terminal == EffectTerminal::Failed ==> front[i].state != TargetState::Unknown
            } by {
                assert(front[i] == rows[i]);
            }
        }
        if first_forbidding(rows, terminal) == rows.len() {
            assert forall|i: int| 0 <= i < rows.len() implies {
                &&& terminal == EffectTerminal::Succeeded ==> (#[trigger] rows[i]).state
                    == TargetState::Applied
                &&& terminal == EffectTerminal::Failed ==> rows[i].state != TargetState::Unknown
            } by {
                if i < front.len() {
                    assert(front[i] == rows[i]);
                }
            }
        }
    }
}

proof fn observations_show(submitted: Seq<TargetObservationView>, id: Seq<char>)
    ensures
        match observation_of(submitted, id) {
            Some(row) => exists|k: int|
                0 <= k < submitted.len() && #[trigger] submitted[k] == row && row.target_id == id,
            None => forall|k: int|
                0 <= k < submitted.len() ==> (#[trigger] submitted[k]).target_id != id,
        },
    decreases submitted.len(),
{
    if submitted.len() > 0 {
        let front = submitted.drop_last();
        observations_show(front, id);
        assert(submitted[submitted.len() - 1] == submitted.last());
        if submitted.last().target_id != id {
            match observation_of(front, id) {
                Some(row) => {
                    let k = choose|k: int|
                        0 <= k < front.len() && #[trigger] front[k] == row && row.target_id == id;
                    assert(submitted[k] == row);
                },
                None => {
                    assert forall|k: int| 0 <= k < submitted.len() implies (
                    #[trigger] submitted[k]).target_id != id by {
                        if k < front.len() {
                            assert(front[k] == submitted[k]);
                        }
                    }
                },
            }
        }
    }
}

proof fn undeclared_show(
    declared: Seq<TargetObservationView>,
    submitted: Seq<TargetObservationView>,
    n: int,
)
    requires
        0 <= n <= submitted.len(),
    ensures
        n <= undeclared_from(declared, submitted, n) <= submitted.len(),
        undeclared_from(declared, submitted, n) == submitted.len() <==> forall|k: int|
            n <= k < submitted.len() ==> exists|i: int|
                0 <= i < declared.len() && (#[trigger] declared[i]).target_id == (
                #[trigger] submitted[k]).target_id,
    decreases submitted.len() - n,
{
    if n < submitted.len() {
        undeclared_show(declared, submitted, n + 1);
    }
}

/// The targets of an intent that settles: every submitted one must be declared where the intent
/// declares its targets, and they are then classified from the digests alone, never from the state
/// that the caller asserts.
pub proof fn targets_are_classified(
    intent: EffectIntentView,
    submitted: Seq<TargetObservationView>,
    evidence: SettleEvidence,
)
    requires
        is_fit_list(submitted),
    ensures
        settled_targets(intent, submitted, evidence) is Ok <==> names_declared(intent, submitted),
        settled_targets(intent, submitted, evidence) is Ok ==> is_classified(
            intent,
            submitted,
            evidence,
            settled_targets(intent, submitted, evidence)->Ok_0,
        ),
{
    match intent.target_enumeration {
        TargetEnumeration::Declared => {
            undeclared_show(intent.targets, submitted, 0);
            if settled_targets(intent, submitted, evidence) is Ok {
                let rows = settled_targets(intent, submitted, evidence)->Ok_0;
                assert forall|i: int| 0 <= i < rows.len() implies is_observed(
                    intent.targets[i],
                    submitted,
                    #[trigger] rows[i],
                ) by {
                    let d = intent.targets[i];
                    assert(rows[i] == merged_row(d, submitted));
                    observations_show(submitted, d.target_id);
                    if observation_of(submitted, d.target_id) is Some {
                        let row = observation_of(submitted, d.target_id)->0;
                        let at = choose|k: int|
                            0 <= k < submitted.len() && #[trigger] submitted[k] == row
                                && row.target_id == d.target_id;
                        assert forall|k: int|
                            0 <= k < submitted.len() && (#[trigger] submitted[k]).target_id
                                == d.target_id implies submitted[k] == row by {
                            if k < at {
                                assert(submitted[k].target_id != submitted[at].target_id);
                            }
                            if at < k {
                                assert(submitted[at].target_id != submitted[k].target_id);
                            }
                        }
                    }
                }
            }
        },
        TargetEnumeration::PostHoc => {
            let wanted = submitted.map_values(
                |t: TargetObservationView| crate::funnel::effect_rules::post_hoc_row(t, evidence),
            );
            sorting_keeps(wanted);
            assert(wanted =~= Seq::new(
                submitted.len(),
                |i: int|
                    TargetObservationView {
                        expected_digest: None,
                        state: if evidence.clean_wait_status && submitted[i].observed_digest
                            is Some {
                            TargetState::Applied
                        } else {
                            TargetState::Unknown
                        },
                        ..submitted[i]
                    },
            ));
        },
    }
}

/// Settling an intent: the daemon may settle an open intent that may end so, with a list of targets
/// that is taken and supports the outcome. The record then carries the outcome, the classified
/// targets and the time, and is otherwise as it was.
#[verifier::spinoff_prover]
#[verifier::rlimit(60)]
pub proof fn intents_are_settled(f: FunnelView, cmd: Command)
    requires
        is_new(f, cmd),
        is_keyed(f.store.tables),
        cmd.method is EffectSettle,
    ensures
        ({
            let t = f.store.tables;
            let unit_id = cmd.method->EffectSettle_unit_id@;
            let key = cmd.method->EffectSettle_operation_key@;
            let terminal = cmd.method->EffectSettle_terminal;
            let given = cmd.method->EffectSettle_targets@;
            let submitted = Seq::new(given.len(), |i: int| given[i]@);
            let evidence = cmd.method->EffectSettle_evidence;
            let at = cmd.method->EffectSettle_settled_at;
            let row = lookup(t.effects, key)->0;
            let intent = intent_at(t, key);
            let ready = by_daemon(f, cmd) && is_open_at(t, cmd, unit_id, key);
            let rows = settled_targets(intent, submitted, evidence)->Ok_0;
            let word = match terminal {
                EffectTerminal::Succeeded => "succeeded"@,
                EffectTerminal::Failed => "failed"@,
                EffectTerminal::Cancelled => "cancelled"@,
                EffectTerminal::Compensated => "compensated"@,
                EffectTerminal::Unknown => "unknown"@,
            };
            let sound = {
                &&& is_fit_list(submitted)
                &&& may_end(intent, terminal, evidence)
                &&& names_declared(intent, submitted)
                &&& supports(rows, terminal)
            };
            &&& completes(f, cmd) <==> ready && sound && row.version < u64::MAX
            &&& ready && !sound ==> refused_as(f, cmd, ErrorKind::InvalidRequest)
            &&& is_fit_list(submitted) && names_declared(intent, submitted) ==> is_classified(
                intent,
                submitted,
                evidence,
                rows,
            )
            &&& completes(f, cmd) ==> writes_intent(
                f,
                cmd,
                key,
                "settled"@,
                Some(word),
                EffectIntentView {
                    targets: rows,
                    terminal: Some(terminal),
                    state: EffectState::Settled,
                    settled_at: Some(at),
                    version: (row.version + 1) as u64,
                    ..intent
                },
                "effect.settled"@,
                JsonView::Object(
                    Map::empty().insert("terminal"@, JsonView::Str(word)).insert(
                        "targets"@,
                        JsonView::Uint(given.len() as u64),
                    ),
                ),
            )
        }),
{
    completion_is_acceptance(f, cmd);
    daemons_pass(f, cmd);
    let t = f.store.tables;
    let key = cmd.method->EffectSettle_operation_key@;
    let terminal = cmd.method->EffectSettle_terminal;
    let given = cmd.method->EffectSettle_targets@;
    let submitted = Seq::new(given.len(), |i: int| given[i]@);
    assert(rows_of(given) =~= submitted);
    let evidence = cmd.method->EffectSettle_evidence;
    let row = lookup(t.effects, key)->0;
    let intent = intent_at(t, key);
    let rows = settled_targets(intent, submitted, evidence)->Ok_0;
    list_faults_show(submitted);
    if is_fit_list(submitted) {
        targets_are_classified(intent, submitted, evidence);
    }
    assert(unlawful(intent, terminal, evidence) is None <==> may_end(intent, terminal, evidence));
    support_shows(rows, terminal);
    if completes(f, cmd) {
        let done = EffectIntentView {
            targets: rows,
            terminal: Some(terminal),
            state: EffectState::Settled,
            settled_at: Some(cmd.method->EffectSettle_settled_at),
            version: (row.version + 1) as u64,
            ..intent
        };
        let payload = JsonView::Object(
            Map::empty().insert("terminal"@, JsonView::Str(terminal.wire_text())).insert(
                "targets"@,
                JsonView::Uint(given.len() as u64),
            ),
        );
        intents_are_written(f, cmd, key, done, Some(terminal), "effect.settled"@, payload);
    }
}

// --- Preparation ---------------------------------------------------------------------------------

/// An optional identifier.
pub open spec fn opt_number(o: Option<Uuid7>) -> Option<u128> {
    match o {
        Some(id) => Some(id@),
        None => None,
    }
}

/// Whether targets are declared like these, one by one.
pub open spec fn is_declared_like(
    held: Seq<TargetObservationView>,
    declared: Seq<TargetObservationView>,
) -> bool {
    &&& held.len() == declared.len()
    &&& forall|i: int|
        0 <= i < held.len() ==> (#[trigger] held[i]).target_id == declared[i].target_id
            && held[i].expected_digest == declared[i].expected_digest && held[i].pre_digest
            == declared[i].pre_digest
}

/// Whether an intent was prepared as a spec says, on every axis that a spec declares.
pub open spec fn is_prepared_as(
    intent: EffectIntentView,
    wanted: EffectSpec,
    declared: Seq<TargetObservationView>,
) -> bool {
    &&& intent.adapter_id == wanted.adapter_id@
    &&& intent.adapter_version == wanted.adapter_version@
    &&& intent.retry_class == wanted.retry_class
    &&& intent.reversibility_class == wanted.reversibility_class
    &&& intent.policy_snapshot_digest == wanted.policy_snapshot_digest@
    &&& intent.decomposable == wanted.decomposable
    &&& intent.compensation_intent_id == opt_number(wanted.compensation_intent_id)
    &&& intent.approval_ref == opt_number(wanted.approval_ref)
    &&& intent.target_enumeration == wanted.target_enumeration
    &&& is_declared_like(intent.targets, declared)
}

/// The operation key of a logical operation of a work item: the digest of the work item, the
/// operation and the request.
pub open spec fn key_for(work_item_id: Seq<char>, wanted: EffectSpec) -> Seq<char> {
    "blake3:"@ + hex_of(
        blake3_of(
            canonical_of(
                JsonView::Object(
                    Map::empty().insert("work_item_id"@, JsonView::Str(work_item_id)).insert(
                        "logical_operation_id"@,
                        JsonView::Str(uuid_text(wanted.logical_operation_id@)),
                    ).insert("request_digest"@, JsonView::Str(wanted.request_digest@)),
                ),
            ),
        ),
    )
}

/// The declared targets as they are recorded: in the order of their ids, nothing of them observed.
pub proof fn declarations_are_recorded(given: Seq<TargetObservationView>)
    ensures
        is_ordered_copy(
            declared_rows(given),
            Seq::new(
                given.len(),
                |i: int|
                    TargetObservationView {
                        observed_digest: None,
                        observed_at: None,
                        state: TargetState::Unknown,
                        ..given[i]
                    },
            ),
        ),
{
    let wanted = given.map_values(
        |t: TargetObservationView| crate::funnel::effect_rules::unobserved(t),
    );
    sorting_keeps(wanted);
    assert(wanted =~= Seq::new(
        given.len(),
        |i: int|
            TargetObservationView {
                observed_digest: None,
                observed_at: None,
                state: TargetState::Unknown,
                ..given[i]
            },
    ));
}

/// Preparing an effect: the holder may prepare one unless a committed cancellation is rooted above
/// it, with a list of targets that is taken, there exactly where the targets are to be declared. A
/// first prepare records the intent as it is declared, under the key of its operation. Preparing
/// it again changes nothing: it is answered with the intent that stands there, where that was
/// prepared as the spec says, and refused where not.
#[verifier::spinoff_prover]
#[verifier::rlimit(60)]
pub proof fn intents_are_prepared(f: FunnelView, cmd: Command)
    requires
        is_new(f, cmd),
        cmd.method is EffectPrepare,
    ensures
        ({
            let t = f.store.tables;
            let after = rows_after(f, cmd);
            let unit_id = cmd.method->EffectPrepare_unit_id@;
            let wanted = cmd.method->EffectPrepare_spec;
            let list = wanted.declared_targets@;
            let given = Seq::new(list.len(), |i: int| list[i]@);
            let declared = declared_rows(given);
            let key = key_for(lookup(t.units, unit_id)->0.work_item_id, wanted);
            let held = lookup(t.effects, key);
            let barred = unit_is_cancelled(t, unit_id) || attempt_is_cancelled(t, unit_id);
            let sound = is_fit_list(given) && (wanted.target_enumeration
                == TargetEnumeration::Declared <==> given.len() > 0);
            let ready = by_holder(f, cmd, unit_id) && !barred && sound;
            let same = is_intent_of(t, unit_id, key) && is_prepared_as(
                intent_at(t, key),
                wanted,
                declared,
            );
            let token = cmd.attempt_token->0;
            let id = uuid_text(fresh(f, 1));
            &&& completes(f, cmd) <==> ready && (held is None || same)
            &&& by_holder(f, cmd, unit_id) && barred ==> refused_as(
                f,
                cmd,
                ErrorKind::InvalidRequest,
            )
            &&& by_holder(f, cmd, unit_id) && !sound ==> refused_as(
                f,
                cmd,
                ErrorKind::InvalidRequest,
            )
            &&& ready && held is Some && held->0.record is Readable && !same ==> refused_as(
                f,
                cmd,
                ErrorKind::InvalidRequest,
            )
            &&& completes(f, cmd) && held is Some ==> {
                &&& after == (TablesView { receipts: after.receipts, ..t })
                &&& answer(f, cmd)->Completed_result == JsonView::Object(
                    Map::empty().insert("operation_key"@, JsonView::Str(key)).insert(
                        "effect_intent_id"@,
                        JsonView::Str(uuid_text(intent_at(t, key).effect_intent_id)),
                    ).insert("version"@, JsonView::Uint(intent_at(t, key).version)).insert(
                        "existing"@,
                        JsonView::Bool(true),
                    ),
                )
            }
            &&& completes(f, cmd) && held is None ==> {
                &&& after == (TablesView {
                    effects: after.effects,
                    events: after.events,
                    receipts: after.receipts,
                    ..t
                })
                &&& lookup(after.effects, key) == Some(
                    EffectRowView {
                        operation_key: key,
                        effect_intent_id: id,
                        unit_id,
                        attempt_epoch: token.attempt_epoch.0,
                        version: 1,
                        state: "prepared"@,
                        terminal: None,
                        record: IntentRecordView::Readable(
                            EffectIntentView {
                                effect_intent_id: fresh(f, 1),
                                version: 1,
                                unit_id,
                                attempt_epoch: token.attempt_epoch,
                                stamp: token.stamp,
                                authority_epoch: token.authority_epoch,
                                adapter_id: wanted.adapter_id@,
                                adapter_version: wanted.adapter_version@,
                                operation_key: key,
                                logical_operation_id: wanted.logical_operation_id@,
                                request_digest: wanted.request_digest@,
                                retry_class: wanted.retry_class,
                                reversibility_class: wanted.reversibility_class,
                                approval_ref: opt_number(wanted.approval_ref),
                                policy_snapshot_digest: wanted.policy_snapshot_digest@,
                                state: EffectState::Prepared,
                                terminal: None,
                                target_enumeration: wanted.target_enumeration,
                                targets: declared,
                                decomposable: wanted.decomposable,
                                parent_effect_intent_id: None,
                                compensation_intent_id: opt_number(wanted.compensation_intent_id),
                                dispatched_at: None,
                                settled_at: None,
                                next_reconcile_at: None,
                            },
                        ),
                    },
                )
                &&& forall|other: Seq<char>|
                    other != key ==> #[trigger] lookup(after.effects, other) == lookup(
                        t.effects,
                        other,
                    )
                &&& journals(
                    f,
                    cmd,
                    "effect"@,
                    id,
                    1,
                    "effect.prepared"@,
                    JsonView::Object(
                        Map::empty().insert("effect_intent_id"@, JsonView::Str(id)).insert(
                            "adapter_id"@,
                            JsonView::Str(wanted.adapter_id@),
                        ).insert(
                            "retry_class"@,
                            JsonView::Str(
                                match wanted.retry_class {
                                    crate::effect::RetryClass::SafeWithOperationKey =>
                                        "safe_with_operation_key"@,
                                    crate::effect::RetryClass::QueryThenRetry =>
                                        "query_then_retry"@,
                                    crate::effect::RetryClass::NoRetry => "no_retry"@,
                                },
                            ),
                        ).insert(
                            "reversibility_class"@,
                            JsonView::Str(
                                match wanted.reversibility_class {
                                    ReversibilityClass::Bufferable => "bufferable"@,
                                    ReversibilityClass::Compensable => "compensable"@,
                                    ReversibilityClass::Irreversible => "irreversible"@,
                                },
                            ),
                        ).insert(
                            "target_enumeration"@,
                            JsonView::Str(
                                match wanted.target_enumeration {
                                    TargetEnumeration::Declared => "declared"@,
                                    TargetEnumeration::PostHoc => "post_hoc"@,
                                },
                            ),
                        ),
                    ),
                )
                &&& answer(f, cmd)->Completed_result == JsonView::Object(
                    Map::empty().insert("operation_key"@, JsonView::Str(key)).insert(
                        "effect_intent_id"@,
                        JsonView::Str(id),
                    ).insert("version"@, JsonView::Uint(1)).insert(
                        "existing"@,
                        JsonView::Bool(false),
                    ),
                )
            }
        }),
{
    completion_is_acceptance(f, cmd);
    let t = f.store.tables;
    let unit_id = cmd.method->EffectPrepare_unit_id@;
    let wanted = cmd.method->EffectPrepare_spec;
    let list = wanted.declared_targets@;
    let given = Seq::new(list.len(), |i: int| list[i]@);
    assert(rows_of(list) =~= given);
    holders_pass(f, cmd, unit_id);
    effects_are_barred(f, cmd);
    list_faults_show(given);
    let u = lookup(t.units, unit_id)->0;
    let key = key_for(u.work_item_id, wanted);
    assert(key == crate::effect::operation_key_text(
        u.work_item_id,
        wanted.logical_operation_id@,
        wanted.request_digest@,
    ));
    if completes(f, cmd) {
        if lookup(t.effects, key) is Some {
            no_event_is_journalled(f, cmd);
        } else {
            one_event_is_journalled(f, cmd);
            let intent = decide(f, cmd, rows_for(cmd.method, t))->Ok_0.plan->CreateEffect_intent;
            let new = EffectRowView {
                operation_key: key,
                effect_intent_id: uuid_text(intent.effect_intent_id),
                unit_id: intent.unit_id,
                attempt_epoch: intent.attempt_epoch.0,
                version: 1,
                state: EffectState::Prepared.wire_text(),
                terminal: None,
                record: IntentRecordView::Readable(intent),
            };
            assert(rows_after(f, cmd).effects == upsert(t.effects, key, new));
            read_after_write(t.effects, key, new, key);
            assert forall|other: Seq<char>| other != key implies #[trigger] lookup(
                rows_after(f, cmd).effects,
                other,
            ) == lookup(t.effects, other) by {
                read_after_write(t.effects, key, new, other);
            }
        }
    }
}

} // verus!
