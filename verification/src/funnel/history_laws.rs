//! What holds along any history of submissions: what an intent declares never changes, and an intent
//! that must not be retried is dispatched at most once.
use crate::effect::{EffectIntentView, EffectState, RetryClass};
use crate::funnel::cancel_laws::{deliveries_park_what_is_out, finds_effect};
use crate::funnel::command::{Command, Method};
use crate::funnel::effect_laws::{intent_at, is_keyed};
use crate::funnel::ground::{completes, completion_is_acceptance, is_new, rows_after};
use crate::funnel::laws::{
    keys_stay_unique, ledger_agrees, lookup_agrees, other_plans_leave_effects,
    recorded_terminals_are_final, submitted, tables_unique,
};
use crate::funnel::pre::rows_for;
use crate::funnel::submit::{staged, CommitOutcome};
use crate::funnel::validate::decide;
use crate::funnel::FunnelView;
use crate::store::{EffectRowView, TablesView};
use crate::table::{lookup, lookup_at, read_after_write, unique};
use vstd::prelude::*;

verus! {

/// Whether two records are of one intent: they agree on everything that is declared when it is
/// prepared.
pub open spec fn is_same_intent(a: EffectIntentView, b: EffectIntentView) -> bool {
    b == EffectIntentView {
        version: b.version,
        state: b.state,
        terminal: b.terminal,
        targets: b.targets,
        dispatched_at: b.dispatched_at,
        settled_at: b.settled_at,
        next_reconcile_at: b.next_reconcile_at,
        ..a
    }
}

/// Whether one state of an intent may come before another: it stays, is dispatched first or again,
/// is recorded as dispatched, is parked, or settles.
pub open spec fn may_follow(a: EffectIntentView, b: EffectIntentView) -> bool {
    ||| b.state == a.state
    ||| b.state == EffectState::Dispatching && a.state == EffectState::Prepared
    ||| b.state == EffectState::Dispatching && a.retry_class != RetryClass::NoRetry && (a.state
        == EffectState::Dispatched || a.state == EffectState::Reconciling)
    ||| b.state == EffectState::Dispatched && a.state == EffectState::Dispatching
    ||| b.state == EffectState::Reconciling && (a.state == EffectState::Dispatching || a.state
        == EffectState::Dispatched || a.state == EffectState::Observing)
    ||| b.state == EffectState::Settled && a.terminal is None && b.terminal is Some
}

/// Whether what stands under an operation key may come after what stood there: the same intent, in
/// the same record or one version further on.
pub open spec fn row_follows(before: Option<EffectRowView>, after: Option<EffectRowView>) -> bool {
    match (before, after) {
        (Some(a), Some(b)) => a == b || {
            &&& a.record is Readable
            &&& b.record is Readable
            &&& b.version == a.version + 1
            &&& is_same_intent(a.record->Readable_0, b.record->Readable_0)
            &&& may_follow(a.record->Readable_0, b.record->Readable_0)
            &&& a.record->Readable_0.terminal is None
            &&& b.record->Readable_0.state != EffectState::Prepared
            &&& b.record->Readable_0.state == EffectState::Dispatching
                ==> a.record->Readable_0.state == EffectState::Prepared
                || a.record->Readable_0.retry_class != RetryClass::NoRetry
        },
        (Some(_), None) => false,
        (None, Some(b)) => b.record is Readable && b.version == 1 && b.record->Readable_0.state
            == EffectState::Prepared,
        (None, None) => true,
    }
}

#[verifier::spinoff_prover]
#[verifier::rlimit(40)]
proof fn effect_decisions_follow(f: FunnelView, cmd: Command, key: Seq<char>)
    requires
        is_new(f, cmd),
        ledger_agrees(f.store.tables.effects),
        cmd.method is EffectPrepare || cmd.method is EffectDispatch
            || cmd.method is EffectRecordDispatched || cmd.method is EffectSettle
            || cmd.method is EffectParkReconciling,
        completes(f, cmd),
    ensures
        row_follows(lookup(f.store.tables.effects, key), lookup(rows_after(f, cmd).effects, key)),
{
    completion_is_acceptance(f, cmd);
    let t = f.store.tables;
    let pre = rows_for(cmd.method, t);
    let a = decide(f, cmd, pre)->Ok_0;
    if a.plan is CreateEffect {
        let intent = a.plan->CreateEffect_intent;
        let own = a.plan->CreateEffect_operation_key;
        let new = EffectRowView {
            operation_key: own,
            effect_intent_id: crate::ids::uuid_text(intent.effect_intent_id),
            unit_id: intent.unit_id,
            attempt_epoch: intent.attempt_epoch.0,
            version: 1,
            state: EffectState::Prepared.wire_text(),
            terminal: None,
            record: crate::store::IntentRecordView::Readable(intent),
        };
        assert(rows_after(f, cmd).effects == crate::table::upsert(t.effects, own, new));
        read_after_write(t.effects, own, new, key);
    } else if a.plan is UpdateEffect {
        let own = pre.effect_key->0;
        lookup_agrees(t.effects, own);
        let row = lookup(t.effects, own)->0;
        let new = crate::funnel::apply::updated_effect(
            row,
            a.plan->UpdateEffect_new_version,
            a.plan->UpdateEffect_state.wire_text(),
            match a.plan->UpdateEffect_terminal {
                Some(x) => Some(x.wire_text()),
                None => None,
            },
            a.plan->UpdateEffect_intent,
        );
        assert(rows_after(f, cmd).effects == crate::table::upsert(t.effects, own, new));
        read_after_write(t.effects, own, new, key);
    } else {
        assert(rows_after(f, cmd).effects == t.effects);
    }
}

proof fn deliveries_follow(f: FunnelView, cmd: Command, key: Seq<char>)
    requires
        is_new(f, cmd),
        ledger_agrees(f.store.tables.effects),
        unique(f.store.tables.effects),
        cmd.method is CancelRecordDelivery,
        completes(f, cmd),
    ensures
        row_follows(lookup(f.store.tables.effects, key), lookup(rows_after(f, cmd).effects, key)),
{
    let t = f.store.tables;
    assert(is_keyed(t));
    deliveries_park_what_is_out(f, cmd);
    let request_id = cmd.method->CancelRecordDelivery_cancel_request_id@;
    let member_id = cmd.method->CancelRecordDelivery_member_id@;
    let scope = lookup(t.requests, request_id)->0.record.scope;
    if exists|e: int| #[trigger] finds_effect(t, scope, member_id, e) {
        let e = choose|e: int| #[trigger] finds_effect(t, scope, member_id, e);
        let row = t.effects[e].1;
        lookup_at(t.effects, e);
        assert(lookup(t.effects, row.operation_key) == Some(row));
        if key != row.operation_key {
            assert(lookup(rows_after(f, cmd).effects, key) == lookup(t.effects, key));
        }
    }
}

/// Whatever is submitted, an effect row is never lost, keeps what was declared of its intent, moves
/// one version at a time, and only along its lifecycle; a new one starts prepared, at version 1.
pub proof fn intents_follow_their_lifecycle(
    f: FunnelView,
    cmd: Command,
    outcome: CommitOutcome,
    key: Seq<char>,
)
    requires
        ledger_agrees(f.store.tables.effects),
        unique(f.store.tables.effects),
    ensures
        row_follows(
            lookup(f.store.tables.effects, key),
            lookup(submitted(f, cmd, outcome).store.tables.effects, key),
        ),
{
    let t = f.store.tables;
    if staged(f, cmd) is Commit && outcome is Committed {
        assert(is_new(f, cmd));
        assert(completes(f, cmd));
        match cmd.method {
            Method::CancelRecordDelivery { .. } => {
                deliveries_follow(f, cmd, key);
            },
            Method::EffectPrepare { .. } | Method::EffectDispatch { .. }
            | Method::EffectRecordDispatched { .. } | Method::EffectSettle { .. }
            | Method::EffectParkReconciling { .. } => {
                effect_decisions_follow(f, cmd, key);
            },
            _ => {
                other_plans_leave_effects(f, cmd);
            },
        }
    } else {
        assert(submitted(f, cmd, outcome).store.tables.effects == t.effects);
    }
}

/// A submission: the funnel that it is made to, the command, and what the engine answers.
pub type Step = (FunnelView, Command, CommitOutcome);

/// The tables after a submission.
pub open spec fn tables_after(s: Step) -> TablesView {
    submitted(s.0, s.1, s.2).store.tables
}

/// Whether submissions follow on each other: each is made to the tables that the one before left.
/// Anything else may be another: time passes, and the authority may start again.
pub open spec fn is_history(steps: Seq<Step>) -> bool {
    &&& steps.len() > 0 ==> ledger_agrees(steps[0].0.store.tables.effects) && tables_unique(
        steps[0].0.store.tables,
    )
    &&& forall|i: int|
        0 < i < steps.len() ==> (#[trigger] steps[i]).0.store.tables == tables_after(steps[i - 1])
}

/// Whether a submission lets the intent under a key enter dispatching: the row is written, and is
/// dispatching.
pub open spec fn enters_dispatching(s: Step, key: Seq<char>) -> bool {
    let before = lookup(s.0.store.tables.effects, key);
    let after = lookup(tables_after(s).effects, key);
    &&& after is Some
    &&& before != after
    &&& after->0.record is Readable
    &&& after->0.record->Readable_0.state == EffectState::Dispatching
}

proof fn histories_stay_sound(steps: Seq<Step>, i: int)
    requires
        is_history(steps),
        0 <= i < steps.len(),
    ensures
        ledger_agrees(steps[i].0.store.tables.effects),
        tables_unique(steps[i].0.store.tables),
    decreases i,
{
    if i > 0 {
        histories_stay_sound(steps, i - 1);
        let s = steps[i - 1];
        recorded_terminals_are_final(s.0, s.1, s.2);
        keys_stay_unique(s.0, s.1, s.2);
    }
}

proof fn left_prepared_for_good(steps: Seq<Step>, key: Seq<char>, i: int, j: int)
    requires
        is_history(steps),
        0 <= i < j < steps.len(),
        lookup(tables_after(steps[i]).effects, key) is Some,
        lookup(tables_after(steps[i]).effects, key)->0.record is Readable,
        intent_at(tables_after(steps[i]), key).state != EffectState::Prepared,
    ensures
        lookup(steps[j].0.store.tables.effects, key) is Some,
        lookup(steps[j].0.store.tables.effects, key)->0.record is Readable,
        intent_at(steps[j].0.store.tables, key).state != EffectState::Prepared,
        is_same_intent(
            intent_at(tables_after(steps[i]), key),
            intent_at(steps[j].0.store.tables, key),
        ),
    decreases j,
{
    assert(steps[j].0.store.tables == tables_after(steps[j - 1]));
    if i < j - 1 {
        left_prepared_for_good(steps, key, i, j - 1);
        histories_stay_sound(steps, j - 1);
        let s = steps[j - 1];
        intents_follow_their_lifecycle(s.0, s.1, s.2, key);
    }
}

/// Along any history, an intent that must not be retried enters dispatching at most once.
pub proof fn no_retry_dispatches_once(steps: Seq<Step>, key: Seq<char>, i: int, j: int)
    requires
        is_history(steps),
        0 <= i < j < steps.len(),
        enters_dispatching(steps[i], key),
        intent_at(tables_after(steps[i]), key).retry_class == RetryClass::NoRetry,
    ensures
        !enters_dispatching(steps[j], key),
{
    left_prepared_for_good(steps, key, i, j);
    histories_stay_sound(steps, j);
    let s = steps[j];
    intents_follow_their_lifecycle(s.0, s.1, s.2, key);
}

} // verus!
