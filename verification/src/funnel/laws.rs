//! Laws of the funnel: what holds of every command, of two submissions, and of every state that
//! submissions lead to.
use crate::effect::{EffectIntentView, EffectState, EffectTerminal, TargetObservationView};
use crate::error::{error_kind_reads_back, ErrorKind};
use crate::funnel::apply::{applied, updated_effect};
use crate::funnel::cancel::decide_cancel;
use crate::funnel::command::{Command, Method, RejectionView, RunOutcome, SubmissionView};
use crate::funnel::effect_rules::{row_fault, rows_of};
use crate::funnel::effects::{agrees, decide_effect, decide_prepare};
use crate::funnel::plan::{AcceptedView, PlanView};
use crate::funnel::pre::{attempt_key, fence_rows, rows_for, PreReadView};
use crate::funnel::receipt::{receipt_key_of, refused};
use crate::funnel::run_rules::close_blockers;
use crate::funnel::submit::{
    after_commit, after_staging, answer_after, has_room, poisoned, reads_back, staged,
    CommitOutcome,
};
use crate::funnel::validate::{
    decide, decide_token_reissue, decisions_are_small, holder_fault, sealed_fault,
};
use crate::funnel::{fresh, FunnelView};
use crate::ids::{uuid_text, Stamp};
use crate::json::JsonView;
use crate::store::{
    AttemptTokenClaimsView, EffectRowView, IntentRecordView, StoreView, TablesView, UnitRowView,
};
use crate::table::{lookup, place, place_from_rule, read_after_write, upsert};
use vstd::prelude::*;
use vstd::string::*;

verus! {

/// The funnel after a submission.
pub open spec fn submitted(f: FunnelView, cmd: Command, outcome: CommitOutcome) -> FunnelView {
    after_commit(after_staging(f, cmd), staged(f, cmd), outcome)
}

/// The answer to a submission.
pub open spec fn answered(f: FunnelView, cmd: Command, outcome: CommitOutcome) -> SubmissionView {
    answer_after(staged(f, cmd), outcome)
}

/// A poisoned funnel answers every command as unavailable, a replay of a completed one
/// included, and does not change.
pub proof fn poison_is_final(f: FunnelView, cmd: Command, outcome: CommitOutcome)
    requires
        f.gate is Some,
    ensures
        answered(f, cmd, outcome) == refused(
            ErrorKind::Unavailable,
            "funnel poisoned by uncertain commit: "@ + f.gate->0,
            false,
        ),
        submitted(f, cmd, outcome) == f,
{
}

/// An uncertain commit poisons the funnel: the next answer is unavailable.
pub proof fn uncertain_commit_poisons(
    f: FunnelView,
    cmd: Command,
    detail: String,
    next: Command,
    later: CommitOutcome,
)
    requires
        !(staged(f, cmd) is Answer),
    ensures
        submitted(f, cmd, CommitOutcome::CommitUnknown(detail)).gate == Some(detail@),
        answered(submitted(f, cmd, CommitOutcome::CommitUnknown(detail)), next, later) is Rejected,
        answered(submitted(f, cmd, CommitOutcome::CommitUnknown(detail)), next, later)->kind
            == ErrorKind::Unavailable,
{
}

/// A retry of a completed command is answered with the same result, changes nothing, and needs
/// no commit. The clock may have moved on in between.
pub proof fn completed_commands_replay(
    f: FunnelView,
    cmd: Command,
    clock_ms: u64,
    outcome: CommitOutcome,
)
    requires
        staged(f, cmd) is Commit,
        reads_back(staged(f, cmd)),
    ensures
        ({
            let done = submitted(f, cmd, CommitOutcome::Committed);
            let later = FunnelView { clock_ms, ..done };
            &&& answered(f, cmd, CommitOutcome::Committed) == (SubmissionView::Completed {
                result: staged(f, cmd)->result,
            })
            &&& answered(later, cmd, outcome) == (SubmissionView::Replayed {
                result: staged(f, cmd)->result,
            })
            &&& submitted(later, cmd, outcome) == later
        }),
{
    let s = staged(f, cmd);
    let written = applied(f.store.tables, s->Commit_plan);
    read_after_write(written.receipts, receipt_key_of(cmd), s->Commit_receipt, receipt_key_of(cmd));
}

/// A retry of a command whose refusal was kept is answered with the same kind and detail, as a
/// replay, and changes nothing.
pub proof fn kept_refusals_replay(f: FunnelView, cmd: Command, clock_ms: u64, outcome: CommitOutcome)
    requires
        staged(f, cmd) is Refusal,
        reads_back(staged(f, cmd)),
    ensures
        ({
            let done = submitted(f, cmd, CommitOutcome::Committed);
            let later = FunnelView { clock_ms, ..done };
            let kind = staged(f, cmd)->Refusal_kind;
            let detail = staged(f, cmd)->Refusal_detail;
            &&& answered(f, cmd, CommitOutcome::Committed) == refused(kind, detail, false)
            &&& answered(later, cmd, outcome) == refused(kind, detail, true)
            &&& submitted(later, cmd, outcome) == later
        }),
{
    let s = staged(f, cmd);
    read_after_write(
        f.store.tables.receipts,
        receipt_key_of(cmd),
        s->Refusal_receipt,
        receipt_key_of(cmd),
    );
    error_kind_reads_back(s->Refusal_kind);
    reveal_strlit("rejected");
    reveal_strlit("completed");
    assert("rejected"@.len() != "completed"@.len());
    reveal_strlit("error_kind");
    reveal_strlit("detail");
    assert("error_kind"@.len() != "detail"@.len());
}

/// A command under a key that is taken, with another request digest, is an idempotency
/// conflict, and nothing changes.
pub proof fn another_request_conflicts(f: FunnelView, cmd: Command, outcome: CommitOutcome)
    requires
        f.gate is None,
        lookup(f.store.tables.receipts, receipt_key_of(cmd)) is Some,
        lookup(f.store.tables.receipts, receipt_key_of(cmd))->0.request_digest
            != cmd.request_digest@,
    ensures
        answered(f, cmd, outcome) is Rejected,
        answered(f, cmd, outcome)->kind == ErrorKind::IdempotencyConflict,
        submitted(f, cmd, outcome) == f,
{
}

/// A refusal that is not kept changes nothing, so the same command is decided afresh later.
pub proof fn passing_refusals_change_nothing(f: FunnelView, cmd: Command, outcome: CommitOutcome)
    requires
        staged(f, cmd) is Answer,
    ensures
        submitted(f, cmd, outcome) == f,
{
}

/// A stale version is never kept: the command can be decided afresh once the version moves.
pub proof fn version_conflicts_are_not_kept(f: FunnelView, cmd: Command, pre: PreReadView)
    ensures
        ({
            let d = decide(f, cmd, pre);
            d is Err && d->Err_0.kind == ErrorKind::VersionConflict ==> !d->Err_0.persist
        }),
{
    passing_kinds_are_not_kept(f, cmd, pre);
}

/// A refusal because something is not there is never kept: the command can be decided afresh
/// once it is.
pub proof fn missing_things_are_not_kept(f: FunnelView, cmd: Command, pre: PreReadView)
    ensures
        ({
            let d = decide(f, cmd, pre);
            d is Err && d->Err_0.kind == ErrorKind::NotFound ==> !d->Err_0.persist
        }),
{
    passing_kinds_are_not_kept(f, cmd, pre);
}

spec fn is_passing(r: Result<AcceptedView, RejectionView>) -> bool {
    r is Err && (r->Err_0.kind == ErrorKind::NotFound || r->Err_0.kind
        == ErrorKind::VersionConflict) ==> !r->Err_0.persist
}

#[verifier::spinoff_prover]
proof fn effect_refusals_pass(f: FunnelView, cmd: Command, pre: PreReadView)
    ensures
        is_passing(decide_effect(f, cmd, pre)),
{
    match cmd.method {
        Method::EffectPrepare { spec, .. } => {
            row_faults_are_invalid(rows_of(spec.declared_targets@), 0);
        },
        Method::EffectSettle { targets, .. } => {
            row_faults_are_invalid(rows_of(targets@), 0);
        },
        _ => {},
    }
}

proof fn row_faults_are_invalid(rows: Seq<TargetObservationView>, i: int)
    requires
        0 <= i,
    ensures
        row_fault(rows, i) is Some ==> row_fault(rows, i)->0.kind == ErrorKind::InvalidRequest,
    decreases rows.len() - i,
{
    if i < rows.len() {
        row_faults_are_invalid(rows, i + 1);
    }
}

#[verifier::spinoff_prover]
proof fn cancel_refusals_pass(f: FunnelView, cmd: Command, pre: PreReadView)
    ensures
        is_passing(decide_cancel(f, cmd, pre)),
{
}

#[verifier::spinoff_prover]
proof fn passing_kinds_are_not_kept(f: FunnelView, cmd: Command, pre: PreReadView)
    ensures
        is_passing(decide(f, cmd, pre)),
{
    match cmd.method {
        Method::CancelRequest { .. } | Method::CancelRecordDelivery { .. } => {
            cancel_refusals_pass(f, cmd, pre);
        },
        Method::EffectPrepare { .. }
        | Method::EffectDispatch { .. }
        | Method::EffectRecordDispatched { .. }
        | Method::EffectSettle { .. }
        | Method::EffectParkReconciling { .. } => {
            effect_refusals_pass(f, cmd, pre);
        },
        _ => {},
    }
}

// --- The journal ---------------------------------------------------------------------------------

/// Nothing but events is appended to the journal: what is there stays, in place and unchanged.
pub proof fn journal_is_append_only(f: FunnelView, cmd: Command, outcome: CommitOutcome)
    ensures
        f.store.tables.events.is_prefix_of(submitted(f, cmd, outcome).store.tables.events),
{
    let s = staged(f, cmd);
    if s is Commit {
        plans_leave_the_journal(f.store.tables, s->Commit_plan);
    }
}

pub(crate) proof fn plans_leave_the_journal(t: TablesView, plan: PlanView)
    ensures
        applied(t, plan).events == t.events,
        applied(t, plan).receipts == t.receipts,
        applied(t, plan).authority == t.authority,
{
}

/// A receipt, once there, stays as it is.
pub proof fn receipts_are_immutable(
    f: FunnelView,
    cmd: Command,
    outcome: CommitOutcome,
    key: Seq<char>,
)
    requires
        lookup(f.store.tables.receipts, key) is Some,
    ensures
        lookup(submitted(f, cmd, outcome).store.tables.receipts, key) == lookup(
            f.store.tables.receipts,
            key,
        ),
{
    let s = staged(f, cmd);
    if s is Commit {
        plans_leave_the_journal(f.store.tables, s->Commit_plan);
        read_after_write(f.store.tables.receipts, receipt_key_of(cmd), s->Commit_receipt, key);
    } else if s is Refusal {
        read_after_write(f.store.tables.receipts, receipt_key_of(cmd), s->Refusal_receipt, key);
    }
}

/// Whether the cursors of the journal ascend strictly and lie below the next one.
pub open spec fn journal_ascends(store: StoreView) -> bool {
    let events = store.tables.events;
    &&& forall|i: int, j: int|
        0 <= i < j < events.len() ==> (#[trigger] events[i]).cursor < (#[trigger] events[j]).cursor
    &&& forall|i: int| 0 <= i < events.len() ==> (#[trigger] events[i]).cursor < store.next_cursor
}

/// The cursors of the journal ascend strictly through every submission, and none is reused.
pub proof fn cursors_ascend(f: FunnelView, cmd: Command, outcome: CommitOutcome)
    requires
        has_room(f),
        journal_ascends(f.store),
    ensures
        journal_ascends(submitted(f, cmd, outcome).store),
        submitted(f, cmd, outcome).store.next_cursor >= f.store.next_cursor,
{
    let s = staged(f, cmd);
    if s is Commit {
        let pre = rows_for(cmd.method, f.store.tables);
        decisions_are_small(f, cmd, pre);
        plans_leave_the_journal(f.store.tables, s->Commit_plan);
    }
}


// --- Fencing -------------------------------------------------------------------------------------

/// A stamp bump ends every token that was sealed under the old stamp: no holder method on the
/// unit passes the fence with one again.
pub proof fn stamp_bump_ends_tokens(f: FunnelView, cmd: Command, holder: Command, pre_method: Method)
    requires
        cmd.method is StampBump,
        staged(f, cmd) is Commit,
        ({
            let unit_id = cmd.method->StampBump_unit_id@;
            &&& pre_method.names_unit() == Some(unit_id)
            &&& holder.attempt_token is Some
            &&& holder.attempt_token->0.stamp.0 == lookup(f.store.tables.units, unit_id)->0.stamp
        }),
    ensures
        ({
            let done = submitted(f, cmd, CommitOutcome::Committed);
            let unit_id = cmd.method->StampBump_unit_id@;
            holder_fault(
                done.store.epoch,
                holder,
                rows_for(pre_method, done.store.tables),
                unit_id,
            ) is Some
        }),
{
    let unit_id = cmd.method->StampBump_unit_id@;
    let s = staged(f, cmd);
    let row = lookup(f.store.tables.units, unit_id)->0;
    let new = UnitRowView {
        version: (row.version + 1) as u64,
        stamp: (row.stamp + 1) as u64,
        ..row
    };
    read_after_write(f.store.tables.units, unit_id, new, unit_id);
    let done = submitted(f, cmd, CommitOutcome::Committed);
    assert(lookup(done.store.tables.units, unit_id) == Some(new));
}

/// A dispatch ends every token of an earlier attempt: no holder method on the unit passes the
/// fence with one again.
pub proof fn dispatch_ends_earlier_tokens(
    f: FunnelView,
    cmd: Command,
    holder: Command,
    pre_method: Method,
)
    requires
        cmd.method is UnitDispatch,
        staged(f, cmd) is Commit,
        ({
            let unit_id = cmd.method->UnitDispatch_unit_id@;
            &&& pre_method.names_unit() == Some(unit_id)
            &&& holder.attempt_token is Some
            &&& holder.attempt_token->0.attempt_epoch.0 <= lookup(
                f.store.tables.units,
                unit_id,
            )->0.epoch
        }),
    ensures
        ({
            let done = submitted(f, cmd, CommitOutcome::Committed);
            let unit_id = cmd.method->UnitDispatch_unit_id@;
            holder_fault(
                done.store.epoch,
                holder,
                rows_for(pre_method, done.store.tables),
                unit_id,
            ) is Some
        }),
{
    let unit_id = cmd.method->UnitDispatch_unit_id@;
    let row = lookup(f.store.tables.units, unit_id)->0;
    let new = UnitRowView {
        version: (row.version + 1) as u64,
        epoch: (row.epoch + 1) as u64,
        status: "dispatched"@,
        ..row
    };
    read_after_write(f.store.tables.units, unit_id, new, unit_id);
    let done = submitted(f, cmd, CommitOutcome::Committed);
    assert(lookup(done.store.tables.units, unit_id) == Some(new));
}

/// The token that a dispatch hands out passes the fence of the state that the dispatch leads
/// to, for the holder it names, until something changes.
pub proof fn dispatched_token_passes_the_fence(
    f: FunnelView,
    cmd: Command,
    token: AttemptTokenClaimsView,
    pre_method: Method,
)
    requires
        cmd.method is UnitDispatch,
        staged(f, cmd) is Commit,
        pre_method.names_unit() == Some(cmd.method->UnitDispatch_unit_id@),
        crate::funnel::receipt::token_in(staged(f, cmd)->Commit_result) == Some(token),
    ensures
        ({
            let done = submitted(f, cmd, CommitOutcome::Committed);
            crate::store::fence_fault(
                done.store.epoch,
                fence_rows(rows_for(pre_method, done.store.tables), token.unit_id),
                token,
            ) is None
        }),
{
    let unit_id = cmd.method->UnitDispatch_unit_id@;
    let holder_id = cmd.method->UnitDispatch_holder_id@;
    let row = lookup(f.store.tables.units, unit_id)->0;
    let new = UnitRowView {
        version: (row.version + 1) as u64,
        epoch: (row.epoch + 1) as u64,
        status: "dispatched"@,
        ..row
    };
    read_after_write(f.store.tables.units, unit_id, new, unit_id);
    let done = submitted(f, cmd, CommitOutcome::Committed);
    assert(lookup(done.store.tables.units, unit_id) == Some(new));
    let lease = lookup(done.store.tables.leases, unit_id);
    let plan = staged(f, cmd)->Commit_plan;
    let lease_row = crate::store::LeaseRowView {
        unit_id,
        attempt_epoch: new.epoch,
        holder_id,
        status: "active"@,
        version: match plan->Dispatch_existing_lease {
            Some(v) => (v + 1) as u64,
            None => 1,
        },
    };
    read_after_write(f.store.tables.leases, unit_id, lease_row, unit_id);
    assert(lease == Some(lease_row));
    distinct_result_members();
    let result = staged(f, cmd)->Commit_result->Object_0;
    assert(result["unit_id"@] == JsonView::Str(unit_id));
    assert(result["attempt_epoch"@] == JsonView::Uint(new.epoch));
    assert(result["stamp"@] == JsonView::Uint(new.stamp));
    assert(result["authority_epoch"@] == JsonView::Uint(f.store.epoch.0));
    assert(result["holder_id"@] == JsonView::Str(holder_id));
}

/// A reissue changes nothing but the journal of receipts: no row and no event.
pub proof fn reissues_are_no_transition(f: FunnelView, cmd: Command, outcome: CommitOutcome)
    requires
        cmd.method is TokenReissue,
    ensures
        ({
            let t = submitted(f, cmd, outcome).store.tables;
            t == (TablesView { receipts: t.receipts, ..f.store.tables })
        }),
{
    let s = staged(f, cmd);
    if s is Commit {
        assert(f.store.tables.events + s->Commit_events =~= f.store.tables.events);
    }
}

/// A holder whose token fails on its stale stamp alone is given a new one, and the new one passes
/// the fence.
pub proof fn reissued_token_passes_the_fence(f: FunnelView, cmd: Command, pre_method: Method)
    requires
        cmd.method is TokenReissue,
        ({
            let unit_id = cmd.method->TokenReissue_unit_id@;
            let pre = rows_for(cmd.method, f.store.tables);
            &&& pre_method.names_unit() == Some(unit_id)
            &&& f.gate is None
            &&& lookup(f.store.tables.receipts, receipt_key_of(cmd)) is None
            &&& sealed_fault(f.store.epoch, cmd, unit_id) is None
            &&& cmd.attempt_token->0.stamp.0 <= lookup(f.store.tables.units, unit_id)->0.stamp
            &&& crate::store::fence_fault(
                f.store.epoch,
                fence_rows(pre, unit_id),
                (AttemptTokenClaimsView {
                    stamp: Stamp(lookup(f.store.tables.units, unit_id)->0.stamp),
                    ..cmd.attempt_token->0@
                }),
            ) is None
        }),
    ensures
        staged(f, cmd) is Commit,
        ({
            let token = crate::funnel::receipt::token_in(staged(f, cmd)->Commit_result);
            let done = submitted(f, cmd, CommitOutcome::Committed);
            &&& token is Some
            &&& token->0.holder_id == cmd.attempt_token->0.holder_id@
            &&& token->0.nonce == uuid_text(fresh(f, 1))
            &&& crate::store::fence_fault(
                done.store.epoch,
                fence_rows(rows_for(pre_method, done.store.tables), token->0.unit_id),
                token->0,
            ) is None
        }),
{
    let unit_id = cmd.method->TokenReissue_unit_id@;
    reissues_are_no_transition(f, cmd, CommitOutcome::Committed);
    distinct_result_members();
    let unit = lookup(f.store.tables.units, unit_id)->0;
    let pre = rows_for(cmd.method, f.store.tables);
    assert(pre.unit is Some && pre.unit->0.stamp == unit.stamp);
    assert(decide_token_reissue(f, cmd, pre, unit_id) is Ok);
    let result = staged(f, cmd)->Commit_result->Object_0;
    assert(result["unit_id"@] == JsonView::Str(unit_id));
    assert(result["attempt_epoch"@] == JsonView::Uint(unit.epoch));
    assert(result["stamp"@] == JsonView::Uint(unit.stamp));
    assert(result["authority_epoch"@] == JsonView::Uint(f.store.epoch.0));
    assert(result["holder_id"@] == JsonView::Str(cmd.attempt_token->0.holder_id@));
    let done = submitted(f, cmd, CommitOutcome::Committed);
    assert(done.store.epoch == f.store.epoch);
}

proof fn distinct_result_members()
    ensures
        "unit_id"@ != "version"@,
        "unit_id"@ != "attempt_epoch"@,
        "unit_id"@ != "attempt_id"@,
        "unit_id"@ != "stamp"@,
        "unit_id"@ != "authority_epoch"@,
        "unit_id"@ != "holder_id"@,
        "unit_id"@ != "token_nonce"@,
        "attempt_epoch"@ != "attempt_id"@,
        "attempt_epoch"@ != "stamp"@,
        "attempt_epoch"@ != "authority_epoch"@,
        "attempt_epoch"@ != "holder_id"@,
        "attempt_epoch"@ != "token_nonce"@,
        "stamp"@ != "authority_epoch"@,
        "stamp"@ != "holder_id"@,
        "stamp"@ != "token_nonce"@,
        "authority_epoch"@ != "holder_id"@,
        "authority_epoch"@ != "token_nonce"@,
        "holder_id"@ != "token_nonce"@,
{
    reveal_strlit("unit_id");
    reveal_strlit("version");
    reveal_strlit("attempt_epoch");
    reveal_strlit("attempt_id");
    reveal_strlit("stamp");
    reveal_strlit("authority_epoch");
    reveal_strlit("holder_id");
    reveal_strlit("token_nonce");
    assert("unit_id"@.len() == 7);
    assert("version"@.len() == 7);
    assert("unit_id"@[0] != "version"@[0]);
    assert("attempt_epoch"@.len() == 13);
    assert("attempt_id"@.len() == 10);
    assert("stamp"@.len() == 5);
    assert("authority_epoch"@.len() == 15);
    assert("holder_id"@.len() == 9);
    assert("token_nonce"@.len() == 11);
}

// --- Versions ------------------------------------------------------------------------------------

/// A unit that a command changes was at the version that the command expected, and is one
/// version further on; every other unit is as it was.
pub proof fn units_change_by_one_version(
    f: FunnelView,
    cmd: Command,
    outcome: CommitOutcome,
    unit_id: Seq<char>,
)
    requires
        lookup(f.store.tables.units, unit_id) is Some,
    ensures
        ({
            let before = lookup(f.store.tables.units, unit_id)->0;
            let after = lookup(submitted(f, cmd, outcome).store.tables.units, unit_id);
            &&& after is Some
            &&& after->0 == before || {
                &&& cmd.expected_version == Some(before.version)
                &&& after->0.version == before.version + 1
                &&& cmd.method.names_unit() == Some(unit_id)
            }
        }),
{
    let s = staged(f, cmd);
    if s is Commit && outcome is Committed {
        let t = f.store.tables;
        let pre = rows_for(cmd.method, t);
        match cmd.method {
            Method::UnitAdmit { unit_id: id, work_item_id, run_id } => {
                let row = UnitRowView {
                    unit_id: id@,
                    version: 1,
                    epoch: 0,
                    stamp: 0,
                    status: "admitted"@,
                    work_item_id: work_item_id@,
                    run_id: run_id@,
                };
                read_after_write(t.units, id@, row, unit_id);
            },
            Method::UnitDispatch { unit_id: id, holder_id } => {
                let row = lookup(t.units, id@)->0;
                let new = UnitRowView {
                    version: (row.version + 1) as u64,
                    epoch: (row.epoch + 1) as u64,
                    status: "dispatched"@,
                    ..row
                };
                read_after_write(t.units, id@, new, unit_id);
            },
            Method::StampBump { unit_id: id } => {
                let row = lookup(t.units, id@)->0;
                let new = UnitRowView {
                    version: (row.version + 1) as u64,
                    stamp: (row.stamp + 1) as u64,
                    ..row
                };
                read_after_write(t.units, id@, new, unit_id);
            },
            Method::CancelRequest { .. } | Method::CancelRecordDelivery { .. } => {
                cancel_plans_leave_units(f, cmd, pre);
            },
            Method::EffectPrepare { .. } | Method::EffectDispatch { .. }
            | Method::EffectRecordDispatched { .. } | Method::EffectSettle { .. }
            | Method::EffectParkReconciling { .. } => {
                effect_plans_leave_units(f, cmd, pre);
            },
            _ => {},
        }
    }
}

proof fn cancel_plans_leave_units(f: FunnelView, cmd: Command, pre: PreReadView)
    requires
        crate::funnel::cancel::decide_cancel(f, cmd, pre) is Ok,
    ensures
        applied(
            f.store.tables,
            crate::funnel::cancel::decide_cancel(f, cmd, pre)->Ok_0.plan,
        ).units == f.store.tables.units,
{
}

proof fn effect_plans_leave_units(f: FunnelView, cmd: Command, pre: PreReadView)
    requires
        decide_effect(f, cmd, pre) is Ok,
    ensures
        applied(f.store.tables, decide_effect(f, cmd, pre)->Ok_0.plan).units
            == f.store.tables.units,
{
}

// --- Runs and effects ----------------------------------------------------------------------------

/// A run closes `success` only while no effect and no committed cancellation in it is
/// unresolved.
pub proof fn success_close_has_no_blockers(f: FunnelView, cmd: Command)
    requires
        cmd.method is RunClose,
        cmd.method->RunClose_outcome == RunOutcome::ClosedSuccess,
        staged(f, cmd) is Commit,
    ensures
        close_blockers(f.store.tables, cmd.method->RunClose_run_id@).len() == 0,
{
}

/// A closed run never closes again: its status is no longer open or active.
pub proof fn closed_runs_stay_closed(f: FunnelView, cmd: Command, again: Command)
    requires
        cmd.method is RunClose,
        staged(f, cmd) is Commit,
        again.method is RunClose,
        again.method->RunClose_run_id@ == cmd.method->RunClose_run_id@,
    ensures
        ({
            let done = submitted(f, cmd, CommitOutcome::Committed);
            decide(done, again, rows_for(again.method, done.store.tables)) is Err
        }),
{
    let run_id = cmd.method->RunClose_run_id@;
    let row = lookup(f.store.tables.runs, run_id)->0;
    let outcome = cmd.method->RunClose_outcome;
    let new = crate::store::RunRowView {
        version: (row.version + 1) as u64,
        status: outcome.wire_text(),
        ..row
    };
    read_after_write(f.store.tables.runs, run_id, new, run_id);
    let done = submitted(f, cmd, CommitOutcome::Committed);
    assert(lookup(done.store.tables.runs, run_id) == Some(new));
    reveal_strlit("open");
    reveal_strlit("active");
    reveal_strlit("closed_success");
    reveal_strlit("closed_failure");
    reveal_strlit("cancelled");
    assert("open"@.len() == 4);
    assert("active"@.len() == 6);
    assert("closed_success"@.len() == 14);
    assert("closed_failure"@.len() == 14);
    assert("cancelled"@.len() == 9);
}

/// Preparing an operation again, with a spec that agrees, returns the intent that exists and
/// writes nothing; with one that does not agree it is refused. A second record is never made.
pub proof fn prepare_is_idempotent(
    f: FunnelView,
    cmd: Command,
    pre: PreReadView,
    unit_id: Seq<char>,
    spec: crate::funnel::command::EffectSpec,
)
    requires
        pre.effect is Some,
        decide_prepare(f, cmd, pre, unit_id, spec) is Ok,
    ensures
        decide_prepare(f, cmd, pre, unit_id, spec)->Ok_0.plan == PlanView::Nothing,
        decide_prepare(f, cmd, pre, unit_id, spec)->Ok_0.events.len() == 0,
        pre.effect->0.record is Readable,
        agrees(pre.effect->0.record->Readable_0, spec),
{
}

/// An irreversible effect is never authorized to act without a committed approval.
pub proof fn irreversible_effects_need_approval(f: FunnelView, cmd: Command, pre: PreReadView)
    requires
        cmd.method is EffectDispatch,
        decide_effect(f, cmd, pre) is Ok,
        decide_effect(f, cmd, pre)->Ok_0.plan is UpdateEffect,
        decide_effect(f, cmd, pre)->Ok_0.plan->UpdateEffect_state == EffectState::Dispatching,
    ensures
        ({
            let intent = decide_effect(f, cmd, pre)->Ok_0.plan->UpdateEffect_intent;
            intent.reversibility_class == crate::effect::ReversibilityClass::Irreversible
                ==> intent.approval_ref is Some
        }),
{
}

/// A prepared intent under a committed cancellation never dispatches: it settles cancelled.
pub proof fn cancelled_intents_never_dispatch(f: FunnelView, cmd: Command, pre: PreReadView)
    requires
        cmd.method is EffectDispatch,
        pre.cancel is Some,
        pre.cancel->0.admission_blockers.len() > 0,
        pre.effect is Some,
        pre.effect->0.record is Readable,
        pre.effect->0.record->Readable_0.state == EffectState::Prepared,
        decide_effect(f, cmd, pre) is Ok,
    ensures
        decide_effect(f, cmd, pre)->Ok_0.plan is UpdateEffect,
        decide_effect(f, cmd, pre)->Ok_0.plan->UpdateEffect_state == EffectState::Settled,
        decide_effect(f, cmd, pre)->Ok_0.plan->UpdateEffect_terminal == Some(
            EffectTerminal::Cancelled,
        ),
{
}

/// Whether the columns of an effect row say what its record says.
pub open spec fn row_agrees(key: Seq<char>, row: EffectRowView) -> bool {
    &&& row.operation_key == key
    &&& row.record is Readable
    &&& row.state == row.record->Readable_0.state.wire_text()
    &&& row.version == row.record->Readable_0.version
    &&& row.terminal == match row.record->Readable_0.terminal {
        Some(t) => Some(t.wire_text()),
        None => None,
    }
}

/// Whether every effect row agrees with its record.
pub open spec fn ledger_agrees(effects: Seq<(Seq<char>, EffectRowView)>) -> bool {
    forall|i: int| 0 <= i < effects.len() ==> row_agrees((#[trigger] effects[i]).0, effects[i].1)
}

pub(crate) proof fn lookup_agrees(effects: Seq<(Seq<char>, EffectRowView)>, key: Seq<char>)
    requires
        ledger_agrees(effects),
        lookup(effects, key) is Some,
    ensures
        row_agrees(key, lookup(effects, key)->0),
{
    place_from_rule(effects, key, 0);
    let i = place(effects, key);
    assert(effects[i].0 == key);
}

proof fn upsert_agrees(effects: Seq<(Seq<char>, EffectRowView)>, key: Seq<char>, row: EffectRowView)
    requires
        ledger_agrees(effects),
        row_agrees(key, row),
    ensures
        ledger_agrees(upsert(effects, key, row)),
{
    place_from_rule(effects, key, 0);
    let new = upsert(effects, key, row);
    assert forall|i: int| 0 <= i < new.len() implies row_agrees(
        (#[trigger] new[i]).0,
        new[i].1,
    ) by {
        if i < effects.len() && i != place(effects, key) {
            assert(new[i] == effects[i]);
        }
    }
}

/// Whether a plan keeps the ledger in agreement and every recorded terminal as it is.
spec fn effect_plan_is_sound(t: TablesView, plan: PlanView) -> bool {
    let after = applied(t, plan).effects;
    &&& ledger_agrees(after)
    &&& forall|key: Seq<char>|
        (#[trigger] lookup(t.effects, key)) is Some && lookup(t.effects, key)->0.terminal is Some
            ==> lookup(after, key) is Some && lookup(after, key)->0.terminal == lookup(
            t.effects,
            key,
        )->0.terminal
}

proof fn updates_are_sound(
    t: TablesView,
    key: Seq<char>,
    state: EffectState,
    terminal: Option<EffectTerminal>,
    intent: EffectIntentView,
)
    requires
        ledger_agrees(t.effects),
        lookup(t.effects, key) is Some,
        lookup(t.effects, key)->0.terminal is None,
        intent.state == state,
        intent.terminal == terminal,
    ensures
        effect_plan_is_sound(
            t,
            PlanView::UpdateEffect {
                operation_key: key,
                new_version: intent.version,
                state,
                terminal,
                intent,
            },
        ),
{
    lookup_agrees(t.effects, key);
    let row = lookup(t.effects, key)->0;
    let new = updated_effect(
        row,
        intent.version,
        state.wire_text(),
        match terminal {
            Some(x) => Some(x.wire_text()),
            None => None,
        },
        intent,
    );
    upsert_agrees(t.effects, key, new);
    assert forall|other: Seq<char>|
        (#[trigger] lookup(t.effects, other)) is Some && lookup(t.effects, other)->0.terminal
            is Some implies lookup(upsert(t.effects, key, new), other) == lookup(
        t.effects,
        other,
    ) by {
        read_after_write(t.effects, key, new, other);
    }
}

proof fn creations_are_sound(t: TablesView, key: Seq<char>, intent: EffectIntentView)
    requires
        ledger_agrees(t.effects),
        lookup(t.effects, key) is None,
        intent.state == EffectState::Prepared,
        intent.terminal is None,
        intent.version == 1,
    ensures
        effect_plan_is_sound(t, PlanView::CreateEffect { operation_key: key, intent }),
{
    let new = EffectRowView {
        operation_key: key,
        effect_intent_id: crate::ids::uuid_text(intent.effect_intent_id),
        unit_id: intent.unit_id,
        attempt_epoch: intent.attempt_epoch.0,
        version: 1,
        state: EffectState::Prepared.wire_text(),
        terminal: None,
        record: IntentRecordView::Readable(intent),
    };
    upsert_agrees(t.effects, key, new);
    assert forall|other: Seq<char>|
        (#[trigger] lookup(t.effects, other)) is Some && lookup(t.effects, other)->0.terminal
            is Some implies lookup(upsert(t.effects, key, new), other) == lookup(
        t.effects,
        other,
    ) by {
        read_after_write(t.effects, key, new, other);
    }
}

proof fn effect_decisions_are_sound(f: FunnelView, cmd: Command)
    requires
        ledger_agrees(f.store.tables.effects),
        cmd.method is EffectPrepare || cmd.method is EffectDispatch
            || cmd.method is EffectRecordDispatched || cmd.method is EffectSettle
            || cmd.method is EffectParkReconciling,
        decide_effect(f, cmd, rows_for(cmd.method, f.store.tables)) is Ok,
    ensures
        effect_plan_is_sound(
            f.store.tables,
            decide_effect(f, cmd, rows_for(cmd.method, f.store.tables))->Ok_0.plan,
        ),
{
    let t = f.store.tables;
    let pre = rows_for(cmd.method, t);
    let a = decide_effect(f, cmd, pre)->Ok_0;
    match cmd.method {
        Method::EffectPrepare { unit_id, spec } => {
            let key = pre.effect_key;
            if key is Some && pre.effect is None {
                creations_are_sound(t, key->0, a.plan->CreateEffect_intent);
            }
        },
        Method::EffectDispatch { unit_id, operation_key } => {
            lookup_agrees(t.effects, operation_key@);
            updates_are_sound(
                t,
                operation_key@,
                a.plan->UpdateEffect_state,
                a.plan->UpdateEffect_terminal,
                a.plan->UpdateEffect_intent,
            );
        },
        Method::EffectRecordDispatched { unit_id, operation_key, dispatched_at } => {
            lookup_agrees(t.effects, operation_key@);
            updates_are_sound(
                t,
                operation_key@,
                a.plan->UpdateEffect_state,
                a.plan->UpdateEffect_terminal,
                a.plan->UpdateEffect_intent,
            );
        },
        Method::EffectSettle {
            unit_id,
            operation_key,
            terminal,
            targets,
            evidence,
            settled_at,
        } => {
            lookup_agrees(t.effects, operation_key@);
            updates_are_sound(
                t,
                operation_key@,
                a.plan->UpdateEffect_state,
                a.plan->UpdateEffect_terminal,
                a.plan->UpdateEffect_intent,
            );
        },
        Method::EffectParkReconciling { unit_id, operation_key, next_reconcile_at } => {
            lookup_agrees(t.effects, operation_key@);
            updates_are_sound(
                t,
                operation_key@,
                a.plan->UpdateEffect_state,
                a.plan->UpdateEffect_terminal,
                a.plan->UpdateEffect_intent,
            );
        },
        _ => {},
    }
}

proof fn effect_named_is_held(effects: Seq<(Seq<char>, EffectRowView)>, id: Seq<char>)
    requires
        ledger_agrees(effects),
        crate::funnel::run_rules::effect_named(effects, id) is Some,
    ensures
        ({
            let row = crate::funnel::run_rules::effect_named(effects, id)->0;
            exists|i: int| 0 <= i < effects.len() && (#[trigger] effects[i]).1 == row
        }),
    decreases effects.len(),
{
    let row = crate::funnel::run_rules::effect_named(effects, id)->0;
    let front = effects.drop_last();
    if crate::funnel::run_rules::effect_named(front, id) is Some {
        assert(ledger_agrees(front)) by {
            assert forall|i: int| 0 <= i < front.len() implies row_agrees(
                (#[trigger] front[i]).0,
                front[i].1,
            ) by {
                assert(front[i] == effects[i]);
            }
        }
        effect_named_is_held(front, id);
        let i = choose|i: int| 0 <= i < front.len() && (#[trigger] front[i]).1 == row;
        assert(effects[i].1 == row);
    } else {
        assert(effects[effects.len() - 1].1 == row);
    }
}

proof fn deliveries_are_sound(f: FunnelView, cmd: Command)
    requires
        ledger_agrees(f.store.tables.effects),
        crate::table::unique(f.store.tables.effects),
        cmd.method is CancelRecordDelivery,
        decide(f, cmd, rows_for(cmd.method, f.store.tables)) is Ok,
    ensures
        effect_plan_is_sound(
            f.store.tables,
            decide(f, cmd, rows_for(cmd.method, f.store.tables))->Ok_0.plan,
        ),
{
    let t = f.store.tables;
    let pre = rows_for(cmd.method, t);
    let a = decide(f, cmd, pre)->Ok_0;
    let p = a.plan->RecordDelivery_0;
    if p.park_effect is Some {
        let row = pre.cancel->0.effect_row->0;
        let park = p.park_effect->0;
        let scope = pre.cancel->0.request->0.record.scope;
        let at = crate::cancel::member_index(
            scope,
            cmd.method->CancelRecordDelivery_member_id@,
        );
        effect_named_is_held(t.effects, scope.members[at].member_id);
        let i = choose|i: int| 0 <= i < t.effects.len() && (#[trigger] t.effects[i]).1 == row;
        crate::table::lookup_at(t.effects, i);
        let key = t.effects[i].0;
        assert(row_agrees(key, row));
        assert(park.operation_key == key);
        assert(lookup(t.effects, key) == Some(row));
        updates_are_sound(t, key, EffectState::Reconciling, None, park.intent);
    }
}

/// The columns of every effect row keep saying what its record says, and a terminal, once
/// recorded, never changes, whatever is submitted.
#[verifier::rlimit(40)]
#[verifier::spinoff_prover]
pub proof fn recorded_terminals_are_final(f: FunnelView, cmd: Command, outcome: CommitOutcome)
    requires
        ledger_agrees(f.store.tables.effects),
        crate::table::unique(f.store.tables.effects),
    ensures
        ledger_agrees(submitted(f, cmd, outcome).store.tables.effects),
        forall|key: Seq<char>|
            (#[trigger] lookup(f.store.tables.effects, key)) is Some && lookup(
                f.store.tables.effects,
                key,
            )->0.terminal is Some ==> {
                let after = lookup(submitted(f, cmd, outcome).store.tables.effects, key);
                after is Some && after->0.terminal == lookup(
                    f.store.tables.effects,
                    key,
                )->0.terminal
            },
{
    let s = staged(f, cmd);
    if s is Commit && outcome is Committed {
        match cmd.method {
            Method::CancelRecordDelivery { .. } => {
                deliveries_are_sound(f, cmd);
            },
            Method::EffectPrepare { .. } | Method::EffectDispatch { .. }
            | Method::EffectRecordDispatched { .. } | Method::EffectSettle { .. }
            | Method::EffectParkReconciling { .. } => {
                effect_decisions_are_sound(f, cmd);
            },
            _ => {
                other_plans_leave_effects(f, cmd);
            },
        }
    }
}

pub(crate) proof fn other_plans_leave_effects(f: FunnelView, cmd: Command)
    requires
        !(cmd.method is CancelRecordDelivery),
        !(cmd.method is EffectPrepare),
        !(cmd.method is EffectDispatch),
        !(cmd.method is EffectRecordDispatched),
        !(cmd.method is EffectSettle),
        !(cmd.method is EffectParkReconciling),
        decide(f, cmd, rows_for(cmd.method, f.store.tables)) is Ok,
    ensures
        applied(
            f.store.tables,
            decide(f, cmd, rows_for(cmd.method, f.store.tables))->Ok_0.plan,
        ).effects == f.store.tables.effects,
{
}


// --- Attempts ------------------------------------------------------------------------------------

/// Whether an attempt row is under its own key, and is of the unit's current epoch where it is
/// active.
pub open spec fn attempt_fits(
    units: Seq<(Seq<char>, UnitRowView)>,
    key: Seq<char>,
    row: crate::store::AttemptRowView,
) -> bool {
    &&& key == attempt_key(row.unit_id, row.attempt_epoch)
    &&& row.attempt_epoch > 0
    &&& row.status == "active"@ ==> lookup(units, row.unit_id) is Some && lookup(
        units,
        row.unit_id,
    )->0.epoch == row.attempt_epoch
}

/// Whether every attempt fits its unit.
pub open spec fn attempts_fit(t: TablesView) -> bool {
    forall|i: int|
        0 <= i < t.attempts.len() ==> attempt_fits(
            t.units,
            (#[trigger] t.attempts[i]).0,
            t.attempts[i].1,
        )
}

/// A unit never has two active attempts.
pub proof fn one_active_attempt_per_unit(t: TablesView, i: int, j: int)
    requires
        attempts_fit(t),
        crate::table::unique(t.attempts),
        0 <= i < j < t.attempts.len(),
        t.attempts[i].1.status == "active"@,
        t.attempts[j].1.status == "active"@,
    ensures
        t.attempts[i].1.unit_id != t.attempts[j].1.unit_id,
{
    if t.attempts[i].1.unit_id == t.attempts[j].1.unit_id {
        assert(attempt_fits(t.units, t.attempts[i].0, t.attempts[i].1));
        assert(attempt_fits(t.units, t.attempts[j].0, t.attempts[j].1));
        assert(t.attempts[i].0 == t.attempts[j].0);
    }
}

proof fn dispatch_keeps_attempts_fitting(f: FunnelView, cmd: Command)
    requires
        attempts_fit(f.store.tables),
        crate::table::unique(f.store.tables.attempts),
        cmd.method is UnitDispatch,
        decide(f, cmd, rows_for(cmd.method, f.store.tables)) is Ok,
    ensures
        ({
            let t = applied(
                f.store.tables,
                decide(f, cmd, rows_for(cmd.method, f.store.tables))->Ok_0.plan,
            );
            attempts_fit(t) && crate::table::unique(t.attempts)
        }),
{
    let t = f.store.tables;
    let plan = decide(f, cmd, rows_for(cmd.method, t))->Ok_0.plan;
    let unit_id = cmd.method->UnitDispatch_unit_id@;
    let unit = lookup(t.units, unit_id)->0;
    let epoch = (unit.epoch + 1) as u64;
    let new_unit = UnitRowView {
        version: (unit.version + 1) as u64,
        epoch,
        status: "dispatched"@,
        ..unit
    };
    let prior = attempt_key(unit_id, unit.epoch);
    let mid = if unit.epoch > 0 {
        upsert(
            t.attempts,
            prior,
            crate::store::AttemptRowView {
                status: "superseded"@,
                ..lookup(t.attempts, prior)->0
            },
        )
    } else {
        t.attempts
    };
    let units = upsert(t.units, unit_id, new_unit);
    reveal_strlit("active");
    reveal_strlit("superseded");
    assert("active"@.len() != "superseded"@.len());
    read_after_write(t.units, unit_id, new_unit, unit_id);
    place_from_rule(t.attempts, prior, 0);
    if unit.epoch > 0 {
        read_after_write(
            t.attempts,
            prior,
            crate::store::AttemptRowView {
                status: "superseded"@,
                ..lookup(t.attempts, prior)->0
            },
            prior,
        );
    }
    let at = place(t.attempts, prior);
    assert forall|i: int| 0 <= i < mid.len() implies attempt_fits(
        units,
        (#[trigger] mid[i]).0,
        mid[i].1,
    ) && !(mid[i].1.status == "active"@ && mid[i].1.unit_id == unit_id) by {
        assert(attempt_fits(t.units, t.attempts[i].0, t.attempts[i].1));
        read_after_write(t.units, unit_id, new_unit, mid[i].1.unit_id);
        if unit.epoch > 0 && i == at {
            assert(mid[i].0 == prior);
        } else {
            assert(mid[i] == t.attempts[i]);
            if mid[i].1.status == "active"@ && mid[i].1.unit_id == unit_id {
                assert(t.attempts[i].0 == prior);
                if unit.epoch > 0 {
                    assert(t.attempts[at].0 == prior);
                }
            }
        }
    }
    let key = attempt_key(unit_id, epoch);
    let row = crate::store::AttemptRowView {
        attempt_key: key,
        attempt_id: plan->Dispatch_attempt_id,
        unit_id,
        attempt_epoch: epoch,
        holder_id: plan->Dispatch_holder_id,
        status: "active"@,
    };
    let last = upsert(mid, key, row);
    read_after_write(mid, key, row, key);
    place_from_rule(mid, key, 0);
    assert forall|i: int| 0 <= i < last.len() implies attempt_fits(
        units,
        (#[trigger] last[i]).0,
        last[i].1,
    ) by {
        if i < mid.len() && i != place(mid, key) {
            assert(last[i] == mid[i]);
        }
    }
    assert(applied(t, plan).attempts == last);
    assert(applied(t, plan).units == units);
}

proof fn unit_changes_keep_attempts_fitting(
    t: TablesView,
    unit_id: Seq<char>,
    row: UnitRowView,
)
    requires
        attempts_fit(t),
        lookup(t.units, unit_id) is Some ==> row.epoch == lookup(t.units, unit_id)->0.epoch,
    ensures
        attempts_fit(TablesView { units: upsert(t.units, unit_id, row), ..t }),
{
    let units = upsert(t.units, unit_id, row);
    assert forall|i: int| 0 <= i < t.attempts.len() implies attempt_fits(
        units,
        (#[trigger] t.attempts[i]).0,
        t.attempts[i].1,
    ) by {
        read_after_write(t.units, unit_id, row, t.attempts[i].1.unit_id);
    }
}

/// Every attempt keeps fitting its unit, whatever is submitted, so that a unit never has two
/// active attempts.
#[verifier::spinoff_prover]
pub proof fn attempts_keep_fitting(f: FunnelView, cmd: Command, outcome: CommitOutcome)
    requires
        attempts_fit(f.store.tables),
        crate::table::unique(f.store.tables.attempts),
    ensures
        attempts_fit(submitted(f, cmd, outcome).store.tables),
        crate::table::unique(submitted(f, cmd, outcome).store.tables.attempts),
{
    let s = staged(f, cmd);
    if s is Commit && outcome is Committed {
        let t = f.store.tables;
        let pre = rows_for(cmd.method, t);
        match cmd.method {
            Method::UnitDispatch { .. } => {
                dispatch_keeps_attempts_fitting(f, cmd);
            },
            Method::UnitAdmit { unit_id, work_item_id, run_id } => {
                let row = UnitRowView {
                    unit_id: unit_id@,
                    version: 1,
                    epoch: 0,
                    stamp: 0,
                    status: "admitted"@,
                    work_item_id: work_item_id@,
                    run_id: run_id@,
                };
                unit_changes_keep_attempts_fitting(t, unit_id@, row);
            },
            Method::StampBump { unit_id } => {
                let row = lookup(t.units, unit_id@)->0;
                let new = UnitRowView {
                    version: (row.version + 1) as u64,
                    stamp: (row.stamp + 1) as u64,
                    ..row
                };
                unit_changes_keep_attempts_fitting(t, unit_id@, new);
            },
            Method::CancelRequest { .. } | Method::CancelRecordDelivery { .. } => {
                cancel_plans_leave_units(f, cmd, pre);
                cancel_plans_leave_attempts(f, cmd, pre);
            },
            Method::EffectPrepare { .. } | Method::EffectDispatch { .. }
            | Method::EffectRecordDispatched { .. } | Method::EffectSettle { .. }
            | Method::EffectParkReconciling { .. } => {
                effect_plans_leave_units(f, cmd, pre);
                effect_plans_leave_attempts(f, cmd, pre);
            },
            _ => {},
        }
    }
}

proof fn cancel_plans_leave_attempts(f: FunnelView, cmd: Command, pre: PreReadView)
    requires
        crate::funnel::cancel::decide_cancel(f, cmd, pre) is Ok,
    ensures
        applied(
            f.store.tables,
            crate::funnel::cancel::decide_cancel(f, cmd, pre)->Ok_0.plan,
        ).attempts == f.store.tables.attempts,
{
}

proof fn effect_plans_leave_attempts(f: FunnelView, cmd: Command, pre: PreReadView)
    requires
        decide_effect(f, cmd, pre) is Ok,
    ensures
        applied(f.store.tables, decide_effect(f, cmd, pre)->Ok_0.plan).attempts
            == f.store.tables.attempts,
{
}

/// Whether no key occurs twice in any table.
pub open spec fn tables_unique(t: TablesView) -> bool {
    &&& crate::table::unique(t.runs)
    &&& crate::table::unique(t.work_items)
    &&& crate::table::unique(t.units)
    &&& crate::table::unique(t.attempts)
    &&& crate::table::unique(t.leases)
    &&& crate::table::unique(t.receipts)
    &&& crate::table::unique(t.effects)
    &&& crate::table::unique(t.requests)
    &&& crate::table::unique(t.deliveries)
}

proof fn upsert_unique<R>(rows: Seq<(Seq<char>, R)>, key: Seq<char>, row: R)
    requires
        crate::table::unique(rows),
    ensures
        crate::table::unique(upsert(rows, key, row)),
{
    read_after_write(rows, key, row, key);
}

/// Keys stay unique in every table, whatever is submitted.
#[verifier::spinoff_prover]
pub proof fn keys_stay_unique(f: FunnelView, cmd: Command, outcome: CommitOutcome)
    requires
        tables_unique(f.store.tables),
    ensures
        tables_unique(submitted(f, cmd, outcome).store.tables),
{
    let s = staged(f, cmd);
    let t = f.store.tables;
    if outcome is Committed && s is Refusal {
        upsert_unique(t.receipts, receipt_key_of(cmd), s->Refusal_receipt);
    }
    if outcome is Committed && s is Commit {
        plan_keeps_keys_unique(t, s->Commit_plan);
        plans_leave_the_journal(t, s->Commit_plan);
        upsert_unique(t.receipts, receipt_key_of(cmd), s->Commit_receipt);
    }
}

proof fn plan_keeps_keys_unique(t: TablesView, plan: PlanView)
    requires
        tables_unique(t),
    ensures
        tables_unique(applied(t, plan)),
{
    assert forall|k: Seq<char>, r: crate::store::RunRowView|
        crate::table::unique(#[trigger] upsert(t.runs, k, r)) by {
        upsert_unique(t.runs, k, r);
    }
    assert forall|k: Seq<char>, r: crate::store::WorkItemRowView|
        crate::table::unique(#[trigger] upsert(t.work_items, k, r)) by {
        upsert_unique(t.work_items, k, r);
    }
    assert forall|k: Seq<char>, r: UnitRowView|
        crate::table::unique(#[trigger] upsert(t.units, k, r)) by {
        upsert_unique(t.units, k, r);
    }
    assert forall|k: Seq<char>, r: crate::store::LeaseRowView|
        crate::table::unique(#[trigger] upsert(t.leases, k, r)) by {
        upsert_unique(t.leases, k, r);
    }
    assert forall|k: Seq<char>, r: EffectRowView|
        crate::table::unique(#[trigger] upsert(t.effects, k, r)) by {
        upsert_unique(t.effects, k, r);
    }
    assert forall|k: Seq<char>, r: crate::store::CancelRequestRowView|
        crate::table::unique(#[trigger] upsert(t.requests, k, r)) by {
        upsert_unique(t.requests, k, r);
    }
    assert forall|k: Seq<char>, r: crate::store::CancelDeliveryRowView|
        crate::table::unique(#[trigger] upsert(t.deliveries, k, r)) by {
        upsert_unique(t.deliveries, k, r);
    }
    assert forall|
        a: Seq<(Seq<char>, crate::store::AttemptRowView)>,
        k: Seq<char>,
        r: crate::store::AttemptRowView,
    |
        crate::table::unique(a) implies crate::table::unique(#[trigger] upsert(a, k, r)) by {
        upsert_unique(a, k, r);
    }
}

} // verus!
