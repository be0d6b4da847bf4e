//! What a submission is answered with before and after its decision: by a stored receipt, at the
//! fence, and by what the engine says of the transaction.
use crate::error::{error_kind_named, ErrorKind};
use crate::funnel::command::{Command, Method, PrincipalKind, RejectionView, SubmissionView};
use crate::funnel::ground::{
    answer, by_daemon, completes, completion_is_acceptance, is_new, refused_as, rows_after,
};
use crate::funnel::laws::{answered, plans_leave_the_journal, submitted};
use crate::funnel::pre::rows_for;
use crate::funnel::submit::{
    after_refusal, has_room, refusal_answer, staged, staged_refusal, CommitOutcome,
};
use crate::funnel::unit_laws::is_authority_method;
use crate::funnel::cancel::decide_cancel;
use crate::funnel::effect_rules::{row_fault, rows_of};
use crate::funnel::effects::decide_effect;
use crate::funnel::plan::AcceptedView;
use crate::funnel::pre::PreReadView;
use crate::funnel::validate::{decide, decisions_are_small};
use crate::funnel::FunnelView;
use crate::json::{json_parse, json_text, JsonView};
use crate::store::{StoreView, TablesView};
use crate::table::{lookup, read_after_write};
use vstd::prelude::*;
use vstd::string::*;

verus! {

/// The key under which a command is recorded: its scope, and its id in it.
pub open spec fn own_key(cmd: Command) -> Seq<char> {
    cmd.scope_kind.wire_text() + "/"@ + cmd.scope_id@ + "/"@ + cmd.command_id@
}

/// Whether an answer is a refusal of a kind.
pub open spec fn is_refusal(a: SubmissionView, kind: ErrorKind, replayed: bool) -> bool {
    a is Rejected && a->kind == kind && a->replayed == replayed
}

/// A command that is recorded is answered by its record and changes nothing, whatever the engine
/// would say: with another digest it is a conflict; from another principal it is not authorized; a
/// completed one is replayed with the recorded result; and any other with the recorded refusal.
pub proof fn records_answer(f: FunnelView, cmd: Command, outcome: CommitOutcome)
    requires
        f.gate is None,
        lookup(f.store.tables.receipts, own_key(cmd)) is Some,
    ensures
        ({
            let row = lookup(f.store.tables.receipts, own_key(cmd))->0;
            let a = answered(f, cmd, outcome);
            let mine = row.principal_kind == cmd.principal_kind.wire_text() && row.principal_id
                == cmd.principal_id@;
            let value = json_parse(row.result)->Ok_0;
            &&& submitted(f, cmd, outcome) == f
            &&& row.request_digest != cmd.request_digest@ ==> is_refusal(
                a,
                ErrorKind::IdempotencyConflict,
                false,
            )
            &&& row.request_digest == cmd.request_digest@ && !mine ==> is_refusal(
                a,
                ErrorKind::Unauthorized,
                false,
            )
            &&& row.request_digest == cmd.request_digest@ && mine ==> {
                &&& json_parse(row.result) is Err ==> is_refusal(a, ErrorKind::Internal, false)
                &&& json_parse(row.result) is Ok && row.status == "completed"@ ==> a == (
                SubmissionView::Replayed { result: value })
                &&& json_parse(row.result) is Ok && row.status != "completed"@ ==> a is Rejected
                    && a->replayed && {
                    let known = value is Object && value->Object_0.dom().contains("error_kind"@)
                        && value->Object_0["error_kind"@] is Str && error_kind_named(
                        value->Object_0["error_kind"@]->Str_0,
                    ) is Some;
                    &&& known ==> a->kind == error_kind_named(
                        value->Object_0["error_kind"@]->Str_0,
                    )->0
                    &&& !known ==> a->kind == ErrorKind::Internal
                    &&& value is Object && value->Object_0.dom().contains("detail"@)
                        && value->Object_0["detail"@] is Str ==> a->detail
                        == value->Object_0["detail"@]->Str_0
                }
            }
        }),
{
}

/// Whether a refusal is kept: the command is recorded as rejected, with the kind and the detail of
/// the refusal.
pub open spec fn is_kept(f: FunnelView, cmd: Command) -> bool {
    let row = lookup(rows_after(f, cmd).receipts, own_key(cmd));
    &&& row is Some
    &&& row->0.receipt_key == own_key(cmd)
    &&& row->0.status == "rejected"@
    &&& row->0.request_digest == cmd.request_digest@
    &&& row->0.principal_kind == cmd.principal_kind.wire_text()
    &&& row->0.principal_id == cmd.principal_id@
    &&& row->0.first_cursor is None
    &&& row->0.last_cursor is None
    &&& row->0.result == json_text(
        JsonView::Object(
            Map::empty().insert("error_kind"@, JsonView::Str(answer(f, cmd)->kind.wire_text())).insert(
                "detail"@,
                JsonView::Str(answer(f, cmd)->detail),
            ),
        ),
    )
}

spec fn keeps_little(r: Result<AcceptedView, RejectionView>) -> bool {
    r is Err && r->Err_0.persist ==> r->Err_0.kind == ErrorKind::InvalidRequest || r->Err_0.kind
        == ErrorKind::FenceRejected || r->Err_0.kind == ErrorKind::Unauthorized || r->Err_0.kind
        == ErrorKind::ResourceExhausted
}

proof fn row_faults_are_invalid(rows: Seq<crate::effect::TargetObservationView>, i: int)
    requires
        0 <= i,
    ensures
        row_fault(rows, i) is Some ==> row_fault(rows, i)->0.kind == ErrorKind::InvalidRequest,
    decreases rows.len() - i,
{
    if i < rows.len() {
        row_faults_are_invalid(rows, i + 1);
    }
}

#[verifier::spinoff_prover]
proof fn effects_keep_little(f: FunnelView, cmd: Command, pre: PreReadView)
    ensures
        keeps_little(decide_effect(f, cmd, pre)),
{
    match cmd.method {
        Method::EffectPrepare { spec, .. } => {
            row_faults_are_invalid(rows_of(spec.declared_targets@), 0);
        },
        Method::EffectSettle { targets, .. } => {
            row_faults_are_invalid(rows_of(targets@), 0);
        },
        _ => {},
    }
}

#[verifier::spinoff_prover]
proof fn cancellations_keep_little(f: FunnelView, cmd: Command, pre: PreReadView)
    ensures
        keeps_little(decide_cancel(f, cmd, pre)),
{
}

#[verifier::spinoff_prover]
proof fn decisions_keep_little(f: FunnelView, cmd: Command, pre: PreReadView)
    ensures
        keeps_little(decide(f, cmd, pre)),
{
    match cmd.method {
        Method::CancelRequest { .. } | Method::CancelRecordDelivery { .. } => {
            cancellations_keep_little(f, cmd, pre);
        },
        Method::EffectPrepare { .. }
        | Method::EffectDispatch { .. }
        | Method::EffectRecordDispatched { .. }
        | Method::EffectSettle { .. }
        | Method::EffectParkReconciling { .. } => {
            effects_keep_little(f, cmd, pre);
        },
        _ => {},
    }
}

/// A refusal either is kept and changes nothing else, or changes nothing at all; and only what can
/// never be granted to this command is kept: an invalid request, a token that the fence stops, a
/// principal that does not match, or a counter that is exhausted.
#[verifier::spinoff_prover]
pub proof fn refusals_are_kept_or_pass(f: FunnelView, cmd: Command)
    requires
        is_new(f, cmd),
        !completes(f, cmd),
    ensures
        ({
            let done = submitted(f, cmd, CommitOutcome::Committed);
            &&& answer(f, cmd) is Rejected
            &&& !answer(f, cmd)->replayed
            &&& done != f ==> refused_as(f, cmd, ErrorKind::InvalidRequest) || refused_as(
                f,
                cmd,
                ErrorKind::FenceRejected,
            ) || refused_as(f, cmd, ErrorKind::Unauthorized) || refused_as(
                f,
                cmd,
                ErrorKind::ResourceExhausted,
            )
            &&& done == f || is_kept(f, cmd) && done == (FunnelView {
                store: StoreView {
                    tables: TablesView {
                        receipts: done.store.tables.receipts,
                        ..f.store.tables
                    },
                    ..f.store
                },
                ..f
            })
            &&& forall|other: Seq<char>|
                other != own_key(cmd) ==> #[trigger] lookup(rows_after(f, cmd).receipts, other)
                    == lookup(f.store.tables.receipts, other)
        }),
{
    completion_is_acceptance(f, cmd);
    decisions_keep_little(f, cmd, rows_for(cmd.method, f.store.tables));
    let s = staged(f, cmd);
    if s is Refusal {
        read_after_write(f.store.tables.receipts, own_key(cmd), s->Refusal_receipt, own_key(cmd));
        assert forall|other: Seq<char>| other != own_key(cmd) implies #[trigger] lookup(
            rows_after(f, cmd).receipts,
            other,
        ) == lookup(f.store.tables.receipts, other) by {
            read_after_write(f.store.tables.receipts, own_key(cmd), s->Refusal_receipt, other);
        }
    }
}

/// What the engine says of a command that is decided to complete: a commit completes it. A plan or a
/// record that is refused is an internal error, and the rows stay. A commit that fails leaves the
/// outcome unknown: the rows stay as far as is known, and nothing is taken any more. The cursors
/// of the events are spent, unless the plan is refused before they are handed out.
#[verifier::spinoff_prover]
pub proof fn the_engine_decides(f: FunnelView, cmd: Command, outcome: CommitOutcome)
    requires
        is_new(f, cmd),
        has_room(f),
        completes(f, cmd),
    ensures
        ({
            let a = answered(f, cmd, outcome);
            let done = submitted(f, cmd, outcome);
            let n = rows_after(f, cmd).events.len() - f.store.tables.events.len();
            &&& outcome is Committed ==> a is Completed && done.gate is None
                && done.store.next_cursor == (f.store.next_cursor + n) as u64
            &&& outcome is PlanFailed ==> is_refusal(a, ErrorKind::Internal, false)
                && done.store == f.store && done.gate is None
            &&& outcome is StagingFailed ==> is_refusal(a, ErrorKind::Internal, false)
                && done.store.tables == f.store.tables && done.gate is None
                && done.store.next_cursor == (f.store.next_cursor + n) as u64
            &&& outcome is CommitFailed ==> is_refusal(a, ErrorKind::OutcomeUnknown, false)
                && done.store.tables == f.store.tables && done.gate == Some(
                outcome->CommitFailed_0@,
            ) && done.store.next_cursor == (f.store.next_cursor + n) as u64
            &&& outcome is CommitUnknown ==> is_refusal(a, ErrorKind::OutcomeUnknown, false)
                && done.store.tables == f.store.tables && done.gate == Some(
                outcome->CommitUnknown_0@,
            ) && done.store.next_cursor == (f.store.next_cursor + n) as u64
            &&& done.store.epoch == f.store.epoch
            &&& done.store.min_retained == f.store.min_retained
            &&& done.clock_ms == f.clock_ms
        }),
{
    completion_is_acceptance(f, cmd);
    let s = staged(f, cmd);
    plans_leave_the_journal(f.store.tables, s->Commit_plan);
    decisions_are_small(f, cmd, rows_for(cmd.method, f.store.tables));
}

/// What the fence answers a holder, one axis after the other: another principal than an agent, or
/// none with a token, is an invalid request; an epoch or a unit that is not that of the token is
/// stopped for now; another agent is not authorized; and a token that is not of the current
/// authority, attempt, stamp and lease is stopped for good. What is not there is not found.
#[verifier::spinoff_prover]
#[verifier::rlimit(40)]
pub proof fn the_fence_answers(f: FunnelView, cmd: Command, unit_id: Seq<char>)
    requires
        is_new(f, cmd),
        !is_authority_method(cmd.method),
        cmd.method.names_unit() == Some(unit_id),
    ensures
        ({
            let t = f.store.tables;
            let token = cmd.attempt_token->0;
            let u = lookup(t.units, unit_id);
            let l = lookup(t.leases, unit_id);
            let agent = cmd.principal_kind == PrincipalKind::Agent;
            let borne = agent && cmd.attempt_token is Some;
            let timely = borne && (cmd.authority_epoch is Some ==> cmd.authority_epoch == Some(
                f.store.epoch,
            ));
            let own = timely && token.unit_id@ == unit_id;
            let sealed = own && token.holder_id@ == cmd.principal_id@;
            let current = sealed && token.authority_epoch == f.store.epoch;
            let found = current && u is Some;
            let tried = found && token.attempt_epoch.0 == u->0.epoch;
            let stamped = tried && (token.stamp.0 == u->0.stamp || cmd.method is TokenReissue
                && token.stamp.0 < u->0.stamp);
            let leased = stamped && l is Some;
            let live = leased && l->0.status == "active"@;
            let stays = submitted(f, cmd, CommitOutcome::Committed) == f;
            &&& !agent || !borne ==> refused_as(f, cmd, ErrorKind::InvalidRequest) && is_kept(
                f,
                cmd,
            )
            &&& borne && !timely || timely && !own ==> refused_as(f, cmd, ErrorKind::FenceRejected)
                && stays
            &&& own && !sealed ==> refused_as(f, cmd, ErrorKind::Unauthorized) && is_kept(f, cmd)
            &&& sealed && !current || found && !tried || tried && !stamped || leased && !live || live
                && l->0.holder_id != cmd.principal_id@ ==> refused_as(
                f,
                cmd,
                ErrorKind::FenceRejected,
            ) && is_kept(f, cmd)
            &&& current && !found || stamped && !leased ==> refused_as(f, cmd, ErrorKind::NotFound)
                && stays
        }),
{
    completion_is_acceptance(f, cmd);
    let s = staged(f, cmd);
    if s is Refusal {
        read_after_write(f.store.tables.receipts, own_key(cmd), s->Refusal_receipt, own_key(cmd));
    }
}

/// What the authority's methods are answered with when they do not come from it: another principal
/// than the daemon, a token, or no epoch is an invalid request for good; another epoch than the
/// current one is stopped for now.
pub proof fn the_authority_is_asked_for(f: FunnelView, cmd: Command)
    requires
        is_new(f, cmd),
        is_authority_method(cmd.method),
        !by_daemon(f, cmd),
    ensures
        cmd.principal_kind != PrincipalKind::Daemon || cmd.attempt_token is Some
            || cmd.authority_epoch is None ==> refused_as(f, cmd, ErrorKind::InvalidRequest)
            && is_kept(f, cmd),
        cmd.principal_kind == PrincipalKind::Daemon && cmd.attempt_token is None
            && cmd.authority_epoch is Some ==> refused_as(f, cmd, ErrorKind::FenceRejected)
            && submitted(f, cmd, CommitOutcome::Committed) == f,
{
    completion_is_acceptance(f, cmd);
    let s = staged(f, cmd);
    if s is Refusal {
        read_after_write(f.store.tables.receipts, own_key(cmd), s->Refusal_receipt, own_key(cmd));
    }
}

/// A refusal that was decided outside the funnel: a stopped funnel is unavailable, and a command that is
/// recorded is answered by its record, with nothing changed. Any other is recorded as rejected, with the
/// kind and at most 512 characters of the detail; where the engine refuses that, it is an internal
/// error, and nothing changes; and where the engine cannot tell, the funnel is stopped.
pub proof fn outside_refusals_are_recorded(
    f: FunnelView,
    cmd: Command,
    kind: ErrorKind,
    detail: Seq<char>,
    outcome: CommitOutcome,
)
    ensures
        ({
            let s = staged_refusal(f, cmd, kind, detail);
            let a = refusal_answer(s, outcome);
            let done = after_refusal(f, s, outcome);
            let row = lookup(done.store.tables.receipts, own_key(cmd));
            let text = if detail.len() > 512 {
                detail.take(512)
            } else {
                detail
            };
            &&& f.gate is Some ==> is_refusal(a, ErrorKind::Unavailable, false) && done == f
            &&& f.gate is None && lookup(f.store.tables.receipts, own_key(cmd)) is Some ==> a
                == answered(f, cmd, outcome) && done == f
            &&& is_new(f, cmd) ==> {
                &&& outcome is Committed || outcome is CommitUnknown ==> a == (
                SubmissionView::Rejected { kind, detail: text, replayed: false })
                &&& outcome is PlanFailed || outcome is StagingFailed || outcome is CommitFailed
                    ==> is_refusal(a, ErrorKind::Internal, false) && done == f
                &&& outcome is CommitUnknown ==> done == (FunnelView {
                    gate: Some(outcome->CommitUnknown_0@),
                    ..f
                })
                &&& outcome is Committed ==> {
                    &&& done == (FunnelView {
                        store: StoreView {
                            tables: TablesView {
                                receipts: done.store.tables.receipts,
                                ..f.store.tables
                            },
                            ..f.store
                        },
                        ..f
                    })
                    &&& row is Some
                    &&& row->0.status == "rejected"@
                    &&& row->0.request_digest == cmd.request_digest@
                    &&& row->0.principal_kind == cmd.principal_kind.wire_text()
                    &&& row->0.principal_id == cmd.principal_id@
                    &&& row->0.command_type == cmd.method.type_text()
                    &&& row->0.result == json_text(
                        JsonView::Object(
                            Map::empty().insert("error_kind"@, JsonView::Str(kind.wire_text())).insert(
                                "detail"@,
                                JsonView::Str(text),
                            ),
                        ),
                    )
                }
            }
        }),
{
    let s = staged_refusal(f, cmd, kind, detail);
    if s is Refusal {
        read_after_write(f.store.tables.receipts, own_key(cmd), s->Refusal_receipt, own_key(cmd));
    }
}

} // verus!
