//! What the effect methods do: when each completes, which row it changes, and that an intent that
//! must not be retried is dispatched once.
use crate::cancel::CancelKind;
use crate::effect::{EffectIntentView, EffectState, EffectTerminal, RetryClass, ReversibilityClass};
use crate::error::ErrorKind;
use crate::funnel::command::{Command, Method};
use crate::funnel::ground::{
    answer, attempt_is_cancelled, by_daemon, by_holder, completes, completion_is_acceptance,
    daemons_pass, holders_pass, is_new, is_root, journals, lineages_bar, one_event_is_journalled,
    refused_as, rows_after, unit_is_cancelled,
};
use crate::funnel::pre::{attempt_key, lineage_of_child, rows_for};
use crate::funnel::validate::{admission_bars, decide};
use crate::funnel::FunnelView;
use crate::ids::uuid_text;
use crate::json::JsonView;
use crate::store::{EffectRowView, IntentRecordView, TablesView};
use crate::table::{lookup, place, place_from_rule, read_after_write, upsert};
use vstd::prelude::*;
use vstd::string::*;
use vstd::utf8::*;

verus! {

// --- One effect ----------------------------------------------------------------------------------

/// Whether every effect row is kept under its own operation key.
pub open spec fn is_keyed(t: TablesView) -> bool {
    forall|i: int| 0 <= i < t.effects.len() ==> (#[trigger] t.effects[i]).1.operation_key
        == t.effects[i].0
}

/// The intent that is recorded under an operation key.
pub open spec fn intent_at(t: TablesView, key: Seq<char>) -> EffectIntentView {
    lookup(t.effects, key)->0.record->Readable_0
}

/// Whether an intent stands under an operation key that belongs to a unit.
pub open spec fn is_intent_of(t: TablesView, unit_id: Seq<char>, key: Seq<char>) -> bool {
    &&& lookup(t.effects, key) is Some
    &&& lookup(t.effects, key)->0.record is Readable
    &&& intent_at(t, key).unit_id == unit_id
}

/// Whether a command may change the intent under an operation key: the intent belongs to the unit,
/// is of the version that the command expects, and has no terminal.
pub open spec fn is_open_at(
    t: TablesView,
    cmd: Command,
    unit_id: Seq<char>,
    key: Seq<char>,
) -> bool {
    &&& is_intent_of(t, unit_id, key)
    &&& cmd.expected_version == Some(lookup(t.effects, key)->0.version)
    &&& intent_at(t, key).terminal is None
}

/// Whether a command writes one effect row and one event, one version further on, and nothing else:
/// the row then carries this intent, and the answer its state.
pub open spec fn writes_intent(
    f: FunnelView,
    cmd: Command,
    key: Seq<char>,
    state: Seq<char>,
    terminal: Option<Seq<char>>,
    intent: EffectIntentView,
    event_kind: Seq<char>,
    payload: JsonView,
) -> bool {
    let t = f.store.tables;
    let after = rows_after(f, cmd);
    let row = lookup(t.effects, key)->0;
    let version = (row.version + 1) as u64;
    &&& after == (TablesView {
        effects: after.effects,
        events: after.events,
        receipts: after.receipts,
        ..t
    })
    &&& lookup(after.effects, key) == Some(
        EffectRowView {
            version,
            state,
            terminal: if terminal is Some {
                terminal
            } else {
                row.terminal
            },
            record: IntentRecordView::Readable(intent),
            ..row
        },
    )
    &&& forall|other: Seq<char>|
        other != key ==> #[trigger] lookup(after.effects, other) == lookup(t.effects, other)
    &&& journals(
        f,
        cmd,
        "effect"@,
        uuid_text(intent_at(t, key).effect_intent_id),
        version,
        event_kind,
        payload,
    )
    &&& answer(f, cmd)->Completed_result == JsonView::Object(
        Map::empty().insert(
            "operation_key"@,
            JsonView::Str(intent_at(t, key).operation_key),
        ).insert("version"@, JsonView::Uint(version)).insert("state"@, JsonView::Str(state)),
    )
}

pub(crate) proof fn intents_are_written(
    f: FunnelView,
    cmd: Command,
    key: Seq<char>,
    intent: EffectIntentView,
    terminal: Option<EffectTerminal>,
    event_kind: Seq<char>,
    payload: JsonView,
)
    requires
        is_new(f, cmd),
        is_keyed(f.store.tables),
        completes(f, cmd),
        lookup(f.store.tables.effects, key) is Some,
        intent.effect_intent_id == intent_at(f.store.tables, key).effect_intent_id,
        intent.operation_key == intent_at(f.store.tables, key).operation_key,
        lookup(f.store.tables.effects, key)->0.version < u64::MAX,
        intent.version == lookup(f.store.tables.effects, key)->0.version + 1,
        decide(f, cmd, rows_for(cmd.method, f.store.tables))->Ok_0
            == crate::funnel::effects::accept_update(
            lookup(f.store.tables.effects, key)->0,
            intent,
            terminal,
            event_kind,
            payload,
        ),
    ensures
        writes_intent(
            f,
            cmd,
            key,
            intent.state.wire_text(),
            match terminal {
                Some(x) => Some(x.wire_text()),
                None => None,
            },
            intent,
            event_kind,
            payload,
        ),
{
    let t = f.store.tables;
    completion_is_acceptance(f, cmd);
    place_from_rule(t.effects, key, 0);
    let row = lookup(t.effects, key)->0;
    assert(row == t.effects[place(t.effects, key)].1);
    assert(row.operation_key == key);
    one_event_is_journalled(f, cmd);
    let word = match terminal {
        Some(x) => Some(x.wire_text()),
        None => None,
    };
    let new = EffectRowView {
        version: intent.version,
        state: intent.state.wire_text(),
        terminal: if word is Some {
            word
        } else {
            row.terminal
        },
        record: IntentRecordView::Readable(intent),
        ..row
    };
    assert(rows_after(f, cmd).effects == upsert(t.effects, key, new));
    read_after_write(t.effects, key, new, key);
    assert forall|other: Seq<char>| other != key implies #[trigger] lookup(
        rows_after(f, cmd).effects,
        other,
    ) == lookup(t.effects, other) by {
        read_after_write(t.effects, key, new, other);
    }
}

/// The unit and the operation key that a method on a recorded intent names.
pub open spec fn names_intent(m: Method) -> Option<(Seq<char>, Seq<char>)> {
    match m {
        Method::EffectDispatch { unit_id, operation_key } => Some((unit_id@, operation_key@)),
        Method::EffectRecordDispatched { unit_id, operation_key, .. } => Some(
            (unit_id@, operation_key@),
        ),
        Method::EffectSettle { unit_id, operation_key, .. } => Some((unit_id@, operation_key@)),
        Method::EffectParkReconciling { unit_id, operation_key, .. } => Some(
            (unit_id@, operation_key@),
        ),
        _ => None,
    }
}

/// Whether a command on a recorded intent comes from whom its method is for: the holder of the unit
/// for what it dispatches, the daemon for what settles.
pub open spec fn may_touch(f: FunnelView, cmd: Command) -> bool {
    if cmd.method is EffectSettle || cmd.method is EffectParkReconciling {
        by_daemon(f, cmd)
    } else {
        by_holder(f, cmd, (names_intent(cmd.method)->0).0)
    }
}

/// A method on a recorded intent completes only where the intent is open to the command. A missing
/// intent is not found; one of another unit is refused before its version is looked at; another
/// version is a conflict; a terminal is final.
#[verifier::spinoff_prover]
pub proof fn only_open_intents_change(f: FunnelView, cmd: Command)
    requires
        is_new(f, cmd),
        names_intent(cmd.method) is Some,
    ensures
        ({
            let t = f.store.tables;
            let (unit_id, key) = names_intent(cmd.method)->0;
            let row = lookup(t.effects, key)->0;
            &&& completes(f, cmd) ==> may_touch(f, cmd) && is_open_at(t, cmd, unit_id, key)
                && row.version < u64::MAX
            &&& may_touch(f, cmd) && lookup(t.effects, key) is None ==> refused_as(
                f,
                cmd,
                ErrorKind::NotFound,
            )
            &&& may_touch(f, cmd) && lookup(t.effects, key) is Some && row.record is Unreadable
                ==> refused_as(f, cmd, ErrorKind::Internal)
            &&& may_touch(f, cmd) && lookup(t.effects, key) is Some && row.record is Readable
                && intent_at(t, key).unit_id != unit_id ==> refused_as(
                f,
                cmd,
                ErrorKind::InvalidRequest,
            )
            &&& may_touch(f, cmd) && is_intent_of(t, unit_id, key) && cmd.expected_version is None
                ==> refused_as(f, cmd, ErrorKind::InvalidRequest)
            &&& may_touch(f, cmd) && is_intent_of(t, unit_id, key) && cmd.expected_version is Some
                && cmd.expected_version != Some(row.version) ==> refused_as(
                f,
                cmd,
                ErrorKind::VersionConflict,
            )
            &&& may_touch(f, cmd) && is_intent_of(t, unit_id, key) && cmd.expected_version == Some(
                row.version,
            ) && intent_at(t, key).terminal is Some ==> refused_as(
                f,
                cmd,
                ErrorKind::InvalidRequest,
            )
        }),
{
    completion_is_acceptance(f, cmd);
    daemons_pass(f, cmd);
    holders_pass(f, cmd, (names_intent(cmd.method)->0).0);
}

// --- Dispatch ------------------------------------------------------------------------------------

/// Whether a committed cancellation is rooted above the intent under a key, or at the intent.
pub open spec fn intent_is_cancelled(t: TablesView, unit_id: Seq<char>, key: Seq<char>) -> bool {
    ||| unit_is_cancelled(t, unit_id)
    ||| attempt_is_cancelled(t, unit_id)
    ||| lookup(t.units, unit_id) is Some && lookup(t.effects, key) is Some && is_root(
        t,
        "effect_intent"@,
        lookup(t.effects, key)->0.effect_intent_id,
    )
}

pub(crate) proof fn effects_are_barred(f: FunnelView, cmd: Command)
    ensures
        cmd.method is EffectPrepare ==> (admission_bars(
            rows_for(cmd.method, f.store.tables),
        ).len() > 0 <==> unit_is_cancelled(f.store.tables, cmd.method->EffectPrepare_unit_id@)
            || attempt_is_cancelled(f.store.tables, cmd.method->EffectPrepare_unit_id@)),
        cmd.method is EffectDispatch ==> (admission_bars(
            rows_for(cmd.method, f.store.tables),
        ).len() > 0 <==> intent_is_cancelled(
            f.store.tables,
            cmd.method->EffectDispatch_unit_id@,
            cmd.method->EffectDispatch_operation_key@,
        )),
{
    let t = f.store.tables;
    if cmd.method is EffectPrepare || cmd.method is EffectDispatch {
        let unit_id = cmd.method.names_unit()->0;
        if lookup(t.units, unit_id) is Some {
            let pre = rows_for(cmd.method, t);
            let u = lookup(t.units, unit_id)->0;
            let line = lineage_of_child(cmd.method, t, pre.effect)->0;
            lineages_bar(t, CancelKind::EffectIntent, line);
            assert(line[0] == (CancelKind::Run, u.run_id));
            assert(line[1] == (CancelKind::ExecutionUnit, unit_id));
            let row = lookup(t.attempts, attempt_key(unit_id, u.epoch));
            let more = u.epoch > 0 && row is Some;
            let last = cmd.method is EffectDispatch && pre.effect is Some;
            if more {
                assert(line[2] == (CancelKind::Attempt, row->0.attempt_id));
                if last {
                    assert(line[3] == (CancelKind::EffectIntent, pre.effect->0.effect_intent_id));
                    assert(line.len() == 4);
                } else {
                    assert(line.len() == 3);
                }
            } else if last {
                assert(line[2] == (CancelKind::EffectIntent, pre.effect->0.effect_intent_id));
                assert(line.len() == 3);
            } else {
                assert(line.len() == 2);
            }
        }
    }
}

/// Dispatching an intent: the holder may dispatch an open intent that is prepared, or one that was
/// dispatched or is being reconciled and may be retried; an irreversible one needs its approval. A
/// prepared intent under a committed cancellation settles cancelled instead, with no dispatch.
/// Beside its state and its version the record is as it was.
#[verifier::spinoff_prover]
#[verifier::rlimit(40)]
pub proof fn intents_are_dispatched(f: FunnelView, cmd: Command)
    requires
        is_new(f, cmd),
        is_keyed(f.store.tables),
        cmd.method is EffectDispatch,
    ensures
        ({
            let t = f.store.tables;
            let unit_id = cmd.method->EffectDispatch_unit_id@;
            let key = cmd.method->EffectDispatch_operation_key@;
            let row = lookup(t.effects, key)->0;
            let intent = intent_at(t, key);
            let ready = by_holder(f, cmd, unit_id) && is_open_at(t, cmd, unit_id, key);
            let first = intent.state == EffectState::Prepared;
            let again = (intent.state == EffectState::Dispatched || intent.state
                == EffectState::Reconciling) && intent.retry_class != RetryClass::NoRetry;
            let approved = intent.reversibility_class != ReversibilityClass::Irreversible
                || intent.approval_ref is Some;
            let cancelled = first && intent_is_cancelled(t, unit_id, key);
            &&& completes(f, cmd) <==> {
                &&& ready
                &&& row.version < u64::MAX
                &&& cancelled || (first || again) && approved
            }
            &&& ready && !first && intent.retry_class == RetryClass::NoRetry ==> refused_as(
                f,
                cmd,
                ErrorKind::InvalidRequest,
            )
            &&& ready && !first && !again ==> refused_as(f, cmd, ErrorKind::InvalidRequest)
            &&& ready && !cancelled && (first || again) && !approved ==> refused_as(
                f,
                cmd,
                ErrorKind::ApprovalRequired,
            )
            &&& completes(f, cmd) && cancelled ==> writes_intent(
                f,
                cmd,
                key,
                "settled"@,
                Some("cancelled"@),
                EffectIntentView {
                    terminal: Some(EffectTerminal::Cancelled),
                    state: EffectState::Settled,
                    settled_at: Some(f.clock_ms),
                    version: (row.version + 1) as u64,
                    ..intent
                },
                "effect.settled"@,
                JsonView::Object(
                    Map::empty().insert("terminal"@, JsonView::Str("cancelled"@)).insert(
                        "settled_at"@,
                        JsonView::Uint(f.clock_ms),
                    ).insert("rule_4"@, JsonView::Bool(true)),
                ),
            )
            &&& completes(f, cmd) && !cancelled ==> writes_intent(
                f,
                cmd,
                key,
                "dispatching"@,
                None,
                EffectIntentView {
                    state: EffectState::Dispatching,
                    version: (row.version + 1) as u64,
                    ..intent
                },
                "effect.dispatching"@,
                JsonView::Object(Map::empty().insert("operation_key"@, JsonView::Str(key))),
            )
        }),
{
    completion_is_acceptance(f, cmd);
    let t = f.store.tables;
    let unit_id = cmd.method->EffectDispatch_unit_id@;
    let key = cmd.method->EffectDispatch_operation_key@;
    holders_pass(f, cmd, unit_id);
    effects_are_barred(f, cmd);
    let row = lookup(t.effects, key)->0;
    let intent = intent_at(t, key);
    if completes(f, cmd) {
        if intent.state == EffectState::Prepared && intent_is_cancelled(t, unit_id, key) {
            intents_are_written(
                f,
                cmd,
                key,
                EffectIntentView {
                    terminal: Some(EffectTerminal::Cancelled),
                    state: EffectState::Settled,
                    settled_at: Some(f.clock_ms),
                    version: (row.version + 1) as u64,
                    ..intent
                },
                Some(EffectTerminal::Cancelled),
                "effect.settled"@,
                JsonView::Object(
                    Map::empty().insert("terminal"@, JsonView::Str("cancelled"@)).insert(
                        "settled_at"@,
                        JsonView::Uint(f.clock_ms),
                    ).insert("rule_4"@, JsonView::Bool(true)),
                ),
            );
        } else {
            intents_are_written(
                f,
                cmd,
                key,
                EffectIntentView {
                    state: EffectState::Dispatching,
                    version: (row.version + 1) as u64,
                    ..intent
                },
                None,
                "effect.dispatching"@,
                JsonView::Object(Map::empty().insert("operation_key"@, JsonView::Str(key))),
            );
        }
    }
}

/// An intent without retry that is no longer prepared is never dispatched: the command is refused,
/// and every effect row stays as it was.
pub proof fn no_retry_refuses_another_dispatch(f: FunnelView, cmd: Command)
    requires
        is_new(f, cmd),
        cmd.method is EffectDispatch,
        lookup(f.store.tables.effects, cmd.method->EffectDispatch_operation_key@) is Some,
        lookup(f.store.tables.effects, cmd.method->EffectDispatch_operation_key@)->0.record
            is Readable,
        intent_at(f.store.tables, cmd.method->EffectDispatch_operation_key@).retry_class
            == RetryClass::NoRetry,
        intent_at(f.store.tables, cmd.method->EffectDispatch_operation_key@).state
            != EffectState::Prepared,
    ensures
        answer(f, cmd) is Rejected,
        rows_after(f, cmd).effects == f.store.tables.effects,
        by_holder(f, cmd, cmd.method->EffectDispatch_unit_id@) && is_open_at(
            f.store.tables,
            cmd,
            cmd.method->EffectDispatch_unit_id@,
            cmd.method->EffectDispatch_operation_key@,
        ) ==> refused_as(f, cmd, ErrorKind::InvalidRequest),
{
    completion_is_acceptance(f, cmd);
    holders_pass(f, cmd, cmd.method->EffectDispatch_unit_id@);
}

/// Recording that the adapter was invoked: the holder may record it of an open intent that is
/// dispatching, which is then dispatched at that time.
#[verifier::spinoff_prover]
pub proof fn invocations_are_recorded(f: FunnelView, cmd: Command)
    requires
        is_new(f, cmd),
        is_keyed(f.store.tables),
        cmd.method is EffectRecordDispatched,
    ensures
        ({
            let t = f.store.tables;
            let unit_id = cmd.method->EffectRecordDispatched_unit_id@;
            let key = cmd.method->EffectRecordDispatched_operation_key@;
            let at = cmd.method->EffectRecordDispatched_dispatched_at;
            let row = lookup(t.effects, key)->0;
            let intent = intent_at(t, key);
            let ready = by_holder(f, cmd, unit_id) && is_open_at(t, cmd, unit_id, key);
            &&& completes(f, cmd) <==> ready && row.version < u64::MAX && intent.state
                == EffectState::Dispatching
            &&& ready && intent.state != EffectState::Dispatching ==> refused_as(
                f,
                cmd,
                ErrorKind::InvalidRequest,
            )
            &&& completes(f, cmd) ==> writes_intent(
                f,
                cmd,
                key,
                "dispatched"@,
                None,
                EffectIntentView {
                    state: EffectState::Dispatched,
                    dispatched_at: Some(at),
                    version: (row.version + 1) as u64,
                    ..intent
                },
                "effect.dispatched"@,
                JsonView::Object(Map::empty().insert("dispatched_at"@, JsonView::Uint(at))),
            )
        }),
{
    completion_is_acceptance(f, cmd);
    let t = f.store.tables;
    let unit_id = cmd.method->EffectRecordDispatched_unit_id@;
    let key = cmd.method->EffectRecordDispatched_operation_key@;
    let at = cmd.method->EffectRecordDispatched_dispatched_at;
    holders_pass(f, cmd, unit_id);
    let row = lookup(t.effects, key)->0;
    if completes(f, cmd) {
        intents_are_written(
            f,
            cmd,
            key,
            EffectIntentView {
                state: EffectState::Dispatched,
                dispatched_at: Some(at),
                version: (row.version + 1) as u64,
                ..intent_at(t, key)
            },
            None,
            "effect.dispatched"@,
            JsonView::Object(Map::empty().insert("dispatched_at"@, JsonView::Uint(at))),
        );
    }
}

/// Parking an intent: the daemon may park an open intent that is dispatching, dispatched, observing
/// or reconciling. It is then reconciling, with the time of the next try.
#[verifier::spinoff_prover]
pub proof fn intents_are_parked(f: FunnelView, cmd: Command)
    requires
        is_new(f, cmd),
        is_keyed(f.store.tables),
        cmd.method is EffectParkReconciling,
    ensures
        ({
            let t = f.store.tables;
            let unit_id = cmd.method->EffectParkReconciling_unit_id@;
            let key = cmd.method->EffectParkReconciling_operation_key@;
            let at = cmd.method->EffectParkReconciling_next_reconcile_at;
            let row = lookup(t.effects, key)->0;
            let intent = intent_at(t, key);
            let ready = by_daemon(f, cmd) && is_open_at(t, cmd, unit_id, key);
            let touched = intent.state == EffectState::Dispatching || intent.state
                == EffectState::Dispatched || intent.state == EffectState::Observing
                || intent.state == EffectState::Reconciling;
            &&& completes(f, cmd) <==> ready && row.version < u64::MAX && touched
            &&& ready && !touched ==> refused_as(f, cmd, ErrorKind::InvalidRequest)
            &&& completes(f, cmd) ==> writes_intent(
                f,
                cmd,
                key,
                "reconciling"@,
                None,
                EffectIntentView {
                    state: EffectState::Reconciling,
                    next_reconcile_at: Some(at),
                    version: (row.version + 1) as u64,
                    ..intent
                },
                "effect.reconciling"@,
                JsonView::Object(Map::empty().insert("next_reconcile_at"@, JsonView::Uint(at))),
            )
        }),
{
    completion_is_acceptance(f, cmd);
    let t = f.store.tables;
    let key = cmd.method->EffectParkReconciling_operation_key@;
    let at = cmd.method->EffectParkReconciling_next_reconcile_at;
    daemons_pass(f, cmd);
    let row = lookup(t.effects, key)->0;
    if completes(f, cmd) {
        intents_are_written(
            f,
            cmd,
            key,
            EffectIntentView {
                state: EffectState::Reconciling,
                next_reconcile_at: Some(at),
                version: (row.version + 1) as u64,
                ..intent_at(t, key)
            },
            None,
            "effect.reconciling"@,
            JsonView::Object(Map::empty().insert("next_reconcile_at"@, JsonView::Uint(at))),
        );
    }
}

} // verus!
