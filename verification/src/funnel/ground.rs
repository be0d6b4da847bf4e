//! What the laws of the single methods are stated in: who sends a command, what the rows hold, and
//! what a submission leaves behind.
use crate::error::ErrorKind;
use crate::cancel::{kind_named, CancelKind};
use crate::funnel::cancel_rules::{bars, barring};
use crate::funnel::command::{Command, PrincipalKind, SubmissionView};
use crate::funnel::laws::{answered, submitted};
use crate::funnel::pre::rows_for;
use crate::funnel::submit::{staged, CommitOutcome};
use crate::funnel::validate::{authority_fault, decide, holder_fault};
use crate::funnel::{fresh, FunnelView};
use crate::ids::uuid_text;
use crate::json::{json_text, JsonView};
use crate::store::{CancelRequestRowView, EventRecordView, TablesView};
use crate::table::{lookup, read_after_write};
use crate::text::{dec, opt_view};
use vstd::prelude::*;
use vstd::string::*;

verus! {

// --- Submissions ---------------------------------------------------------------------------------

/// Whether a funnel takes a command for the first time: it is not poisoned, and has no receipt
/// under the command's scope and id.
pub open spec fn is_new(f: FunnelView, cmd: Command) -> bool {
    f.gate is None && lookup(
        f.store.tables.receipts,
        cmd.scope_kind.wire_text() + "/"@ + cmd.scope_id@ + "/"@ + cmd.command_id@,
    ) is None
}

/// The answer to a command whose transaction commits.
pub open spec fn answer(f: FunnelView, cmd: Command) -> SubmissionView {
    answered(f, cmd, CommitOutcome::Committed)
}

/// Whether a command completes.
pub open spec fn completes(f: FunnelView, cmd: Command) -> bool {
    answer(f, cmd) is Completed
}

/// Whether a command is refused as a kind.
pub open spec fn refused_as(f: FunnelView, cmd: Command, kind: ErrorKind) -> bool {
    answer(f, cmd) is Rejected && answer(f, cmd)->kind == kind
}

/// The rows after a command whose transaction commits.
pub open spec fn rows_after(f: FunnelView, cmd: Command) -> TablesView {
    submitted(f, cmd, CommitOutcome::Committed).store.tables
}

/// A new command completes exactly when its decision accepts it.
pub(crate) proof fn completion_is_acceptance(f: FunnelView, cmd: Command)
    requires
        is_new(f, cmd),
    ensures
        completes(f, cmd) <==> decide(f, cmd, rows_for(cmd.method, f.store.tables)) is Ok,
        completes(f, cmd) <==> staged(f, cmd) is Commit,
        !completes(f, cmd) ==> refused_as(
            f,
            cmd,
            decide(f, cmd, rows_for(cmd.method, f.store.tables))->Err_0.kind,
        ),
{
}

/// A command that does not complete changes no row but receipts, and appends no event.
pub proof fn refusals_change_no_rows(f: FunnelView, cmd: Command)
    requires
        !completes(f, cmd),
    ensures
        rows_after(f, cmd) == (TablesView {
            receipts: rows_after(f, cmd).receipts,
            ..f.store.tables
        }),
{
}

/// A command that completes is recorded under its scope and id: with its digest, its principal,
/// and the result that it was answered with.
pub proof fn completions_are_recorded(f: FunnelView, cmd: Command)
    requires
        is_new(f, cmd),
        completes(f, cmd),
    ensures
        ({
            let key = cmd.scope_kind.wire_text() + "/"@ + cmd.scope_id@ + "/"@ + cmd.command_id@;
            let row = lookup(rows_after(f, cmd).receipts, key);
            &&& row is Some
            &&& row->0.receipt_key == key
            &&& row->0.request_digest == cmd.request_digest@
            &&& row->0.principal_kind == cmd.principal_kind.wire_text()
            &&& row->0.principal_id == cmd.principal_id@
            &&& row->0.status == "completed"@
            &&& row->0.result == json_text(answer(f, cmd)->Completed_result)
            &&& row->0.first_cursor is Some <==> rows_after(f, cmd).events.len()
                > f.store.tables.events.len()
            &&& row->0.first_cursor is Some ==> row->0.first_cursor == Some(f.store.next_cursor)
                && row->0.last_cursor == Some(
                (f.store.next_cursor + (rows_after(f, cmd).events.len()
                    - f.store.tables.events.len()) - 1) as u64,
            )
            &&& forall|other: Seq<char>|
                other != key ==> #[trigger] lookup(rows_after(f, cmd).receipts, other) == lookup(
                    f.store.tables.receipts,
                    other,
                )
        }),
{
    let key = cmd.scope_kind.wire_text() + "/"@ + cmd.scope_id@ + "/"@ + cmd.command_id@;
    let s = staged(f, cmd);
    crate::funnel::laws::plans_leave_the_journal(f.store.tables, s->Commit_plan);
    read_after_write(f.store.tables.receipts, key, s->Commit_receipt, key);
    assert forall|other: Seq<char>| other != key implies #[trigger] lookup(
        rows_after(f, cmd).receipts,
        other,
    ) == lookup(f.store.tables.receipts, other) by {
        read_after_write(f.store.tables.receipts, key, s->Commit_receipt, other);
    }
}

/// Whether an event says what happened to an aggregate: at the next cursor, under the last identifier
/// that the command mints, at the funnel's time, by the command's principal, under its receipt.
pub open spec fn tells(
    e: EventRecordView,
    f: FunnelView,
    cmd: Command,
    aggregate_kind: Seq<char>,
    aggregate_id: Seq<char>,
    version: u64,
    event_kind: Seq<char>,
    payload: JsonView,
) -> bool {
    &&& e.cursor == f.store.next_cursor
    &&& e.event_id == uuid_text(
        fresh(f, submitted(f, cmd, CommitOutcome::Committed).mint_seq - f.mint_seq),
    )
    &&& e.aggregate_kind == aggregate_kind
    &&& e.aggregate_id == aggregate_id
    &&& e.aggregate_version == version
    &&& e.ordinal == 0
    &&& e.event_kind == event_kind
    &&& e.payload == json_text(payload)
    &&& e.receipt_key == cmd.scope_kind.wire_text() + "/"@ + cmd.scope_id@ + "/"@ + cmd.command_id@
    &&& e.command_id == cmd.command_id@
    &&& e.actor_kind == cmd.principal_kind.wire_text()
    &&& e.actor_id == cmd.principal_id@
    &&& e.occurred_at_ms == f.clock_ms
    &&& e.causation_id == opt_view(cmd.causation_id)
    &&& e.correlation_id == opt_view(cmd.correlation_id)
}

/// Whether a command appends one event, and it tells this.
pub open spec fn journals(
    f: FunnelView,
    cmd: Command,
    aggregate_kind: Seq<char>,
    aggregate_id: Seq<char>,
    version: u64,
    event_kind: Seq<char>,
    payload: JsonView,
) -> bool {
    let before = f.store.tables.events;
    let after = rows_after(f, cmd).events;
    &&& after.len() == before.len() + 1
    &&& before.is_prefix_of(after)
    &&& tells(
        after.last(),
        f,
        cmd,
        aggregate_kind,
        aggregate_id,
        version,
        event_kind,
        payload,
    )
}

pub(crate) proof fn one_event_is_journalled(f: FunnelView, cmd: Command)
    requires
        is_new(f, cmd),
        completes(f, cmd),
        decide(f, cmd, rows_for(cmd.method, f.store.tables))->Ok_0.events.len() == 1,
    ensures
        ({
            let e = decide(f, cmd, rows_for(cmd.method, f.store.tables))->Ok_0.events[0];
            journals(
                f,
                cmd,
                e.aggregate_kind,
                e.aggregate_id,
                e.aggregate_version,
                e.event_kind,
                e.payload,
            )
        }),
{
    let s = staged(f, cmd);
    crate::funnel::laws::plans_leave_the_journal(f.store.tables, s->Commit_plan);
    assert(rows_after(f, cmd).events == f.store.tables.events + s->Commit_events);
    assert(s->Commit_events.len() == 1);
    assert(rows_after(f, cmd).events.last() == s->Commit_events[0]);
}

pub(crate) proof fn no_event_is_journalled(f: FunnelView, cmd: Command)
    requires
        is_new(f, cmd),
        completes(f, cmd),
        decide(f, cmd, rows_for(cmd.method, f.store.tables))->Ok_0.events.len() == 0,
    ensures
        rows_after(f, cmd).events == f.store.tables.events,
{
    let s = staged(f, cmd);
    crate::funnel::laws::plans_leave_the_journal(f.store.tables, s->Commit_plan);
    assert(f.store.tables.events + s->Commit_events =~= f.store.tables.events);
}

// --- Principals ----------------------------------------------------------------------------------

/// Whether a command comes from the authority: the daemon, without a token, under the current
/// epoch.
pub open spec fn by_daemon(f: FunnelView, cmd: Command) -> bool {
    &&& cmd.principal_kind == PrincipalKind::Daemon
    &&& cmd.attempt_token is None
    &&& cmd.authority_epoch == Some(f.store.epoch)
}

/// Whether a command comes from an agent that bears a token of a unit: sealed for the unit and
/// the agent, of the current authority epoch and of the unit's current attempt, under a live
/// lease that the agent holds. The stamp is left open.
pub open spec fn bears_token(f: FunnelView, cmd: Command, unit_id: Seq<char>) -> bool {
    let t = f.store.tables;
    &&& cmd.principal_kind == PrincipalKind::Agent
    &&& cmd.attempt_token is Some
    &&& cmd.authority_epoch is Some ==> cmd.authority_epoch == Some(f.store.epoch)
    &&& cmd.attempt_token->0.unit_id@ == unit_id
    &&& cmd.attempt_token->0.holder_id@ == cmd.principal_id@
    &&& cmd.attempt_token->0.authority_epoch == f.store.epoch
    &&& lookup(t.units, unit_id) is Some
    &&& cmd.attempt_token->0.attempt_epoch.0 == lookup(t.units, unit_id)->0.epoch
    &&& lookup(t.leases, unit_id) is Some
    &&& lookup(t.leases, unit_id)->0.status == "active"@
    &&& lookup(t.leases, unit_id)->0.holder_id == cmd.principal_id@
}

/// Whether a command comes from the holder of a unit: its token is of the unit's current stamp
/// too.
pub open spec fn by_holder(f: FunnelView, cmd: Command, unit_id: Seq<char>) -> bool {
    bears_token(f, cmd, unit_id) && cmd.attempt_token->0.stamp.0 == lookup(
        f.store.tables.units,
        unit_id,
    )->0.stamp
}

pub(crate) proof fn daemons_pass(f: FunnelView, cmd: Command)
    ensures
        authority_fault(f.store.epoch, cmd) is None <==> by_daemon(f, cmd),
{
}

pub(crate) proof fn holders_pass(f: FunnelView, cmd: Command, unit_id: Seq<char>)
    requires
        cmd.method.names_unit() == Some(unit_id),
    ensures
        holder_fault(
            f.store.epoch,
            cmd,
            rows_for(cmd.method, f.store.tables),
            unit_id,
        ) is None <==> by_holder(f, cmd, unit_id),
{
}

// --- Committed cancellations ---------------------------------------------------------------------

/// Whether a committed cancellation is rooted at this.
pub open spec fn is_root(t: TablesView, kind: Seq<char>, id: Seq<char>) -> bool {
    exists|i: int|
        0 <= i < t.requests.len() && (#[trigger] t.requests[i]).1.root_kind == kind
            && t.requests[i].1.root_id == id
}

/// Whether a committed cancellation is rooted at the run of a unit, or at the unit itself.
pub open spec fn unit_is_cancelled(t: TablesView, unit_id: Seq<char>) -> bool {
    lookup(t.units, unit_id) is Some && (is_root(
        t,
        "run"@,
        lookup(t.units, unit_id)->0.run_id,
    ) || is_root(t, "execution_unit"@, unit_id))
}

/// Whether a committed cancellation is rooted at the current attempt of a unit.
pub open spec fn attempt_is_cancelled(t: TablesView, unit_id: Seq<char>) -> bool {
    let u = lookup(t.units, unit_id)->0;
    let row = lookup(t.attempts, unit_id + "/"@ + dec(u.epoch as nat));
    lookup(t.units, unit_id) is Some && u.epoch > 0 && row is Some && is_root(
        t,
        "attempt"@,
        row->0.attempt_id,
    )
}

pub(crate) proof fn barring_means_barred(
    rows: Seq<(Seq<char>, CancelRequestRowView)>,
    child: CancelKind,
    line: Seq<(CancelKind, Seq<char>)>,
)
    ensures
        barring(rows, child, line).len() > 0 <==> exists|i: int|
            0 <= i < rows.len() && bars((#[trigger] rows[i]).1, line),
    decreases rows.len(),
{
    if rows.len() > 0 {
        let front = rows.drop_last();
        barring_means_barred(front, child, line);
        if barring(front, child, line).len() > 0 {
            let i = choose|i: int| 0 <= i < front.len() && bars((#[trigger] front[i]).1, line);
            assert(rows[i] == front[i]);
        }
        if exists|i: int| 0 <= i < rows.len() && bars((#[trigger] rows[i]).1, line) {
            let i = choose|i: int| 0 <= i < rows.len() && bars((#[trigger] rows[i]).1, line);
            if i < front.len() {
                assert(front[i] == rows[i]);
            }
        }
        if bars(rows.last().1, line) {
            assert(bars(rows[rows.len() - 1].1, line));
        }
    }
}

/// The wire names of what a cancellation can be rooted at, one by one.
pub(crate) proof fn root_names(name: Seq<char>)
    ensures
        kind_named(name) == Some(CancelKind::Run) <==> name == "run"@,
        kind_named(name) == Some(CancelKind::ExecutionUnit) <==> name == "execution_unit"@,
        kind_named(name) == Some(CancelKind::Attempt) <==> name == "attempt"@,
        kind_named(name) == Some(CancelKind::EffectIntent) <==> name == "effect_intent"@,
{
    crate::cancel::kind_reads_back(CancelKind::Run);
    crate::cancel::kind_reads_back(CancelKind::ExecutionUnit);
    crate::cancel::kind_reads_back(CancelKind::Attempt);
    crate::cancel::kind_reads_back(CancelKind::EffectIntent);
}

/// A lineage of places is barred exactly when one of its places is the root of a committed
/// cancellation.
pub(crate) proof fn lineages_bar(
    t: TablesView,
    child: CancelKind,
    line: Seq<(CancelKind, Seq<char>)>,
)
    ensures
        barring(t.requests, child, line).len() > 0 <==> exists|k: int|
            0 <= k < line.len() && is_root(t, (#[trigger] line[k]).0.wire_text(), line[k].1),
{
    barring_means_barred(t.requests, child, line);
    assert forall|name: Seq<char>|
        #[trigger] kind_named(name) is Some implies kind_named(name)->0.wire_text() == name by {
        root_names(name);
    }
    if exists|i: int| 0 <= i < t.requests.len() && bars((#[trigger] t.requests[i]).1, line) {
        let i = choose|i: int|
            0 <= i < t.requests.len() && bars((#[trigger] t.requests[i]).1, line);
        let row = t.requests[i].1;
        let kind = kind_named(row.root_kind)->0;
        let k = choose|k: int| 0 <= k < line.len() && line[k] == (kind, row.root_id);
        assert(line[k].0 == kind);
        assert(is_root(t, line[k].0.wire_text(), line[k].1));
    }
    if exists|k: int|
        0 <= k < line.len() && is_root(t, (#[trigger] line[k]).0.wire_text(), line[k].1) {
        let k = choose|k: int|
            0 <= k < line.len() && is_root(t, (#[trigger] line[k]).0.wire_text(), line[k].1);
        let i = choose|i: int|
            0 <= i < t.requests.len() && (#[trigger] t.requests[i]).1.root_kind
                == line[k].0.wire_text() && t.requests[i].1.root_id == line[k].1;
        crate::cancel::kind_reads_back(line[k].0);
        assert(line.contains((line[k].0, t.requests[i].1.root_id)));
        assert(bars(t.requests[i].1, line));
    }
}

} // verus!
