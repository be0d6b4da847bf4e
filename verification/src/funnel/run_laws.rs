//! What closing a run does: an effect or a committed cancellation in the run that is not resolved
//! forbids its success close, and nothing else of its members does.
use crate::cancel::{kind_named, outcome_named, CancelKind, DeliveryOutcome, ScopeMemberView};
use crate::error::ErrorKind;
use crate::funnel::cancel_rules::BlockerView;
use crate::funnel::command::{Command, RunOutcome};
use crate::funnel::ground::{
    answer, by_daemon, completes, completion_is_acceptance, daemons_pass, is_new, journals,
    one_event_is_journalled, refused_as, root_names, rows_after,
};
use crate::funnel::run_rules::{
    attempt_named, cancel_blocker, cancel_blockers, close_blockers, discharge_row, effect_blocker,
    effect_blockers, effect_named, first_missing, member_discharged, run_of_root,
};
use crate::funnel::FunnelView;
use crate::json::JsonView;
use crate::store::{CancelRequestRowView, EffectRowView, RunRowView, TablesView};
use crate::table::{lookup, read_after_write};
use vstd::prelude::*;
use vstd::string::*;

verus! {

/// Whether a unit is one of a run.
pub open spec fn unit_is_in(t: TablesView, unit_id: Seq<char>, run_id: Seq<char>) -> bool {
    lookup(t.units, unit_id) is Some && lookup(t.units, unit_id)->0.run_id == run_id
}

/// Whether the attempt at a place of the table is the one that an id names.
pub open spec fn is_attempt_at(t: TablesView, id: Seq<char>, i: int) -> bool {
    &&& 0 <= i < t.attempts.len()
    &&& t.attempts[i].1.attempt_id == id
    &&& forall|j: int| 0 <= j < i ==> (#[trigger] t.attempts[j]).1.attempt_id != id
}

/// Whether the effect at a place of the table is the one that an intent id names.
pub open spec fn is_effect_at(t: TablesView, id: Seq<char>, i: int) -> bool {
    &&& 0 <= i < t.effects.len()
    &&& t.effects[i].1.effect_intent_id == id
    &&& forall|j: int| 0 <= j < i ==> (#[trigger] t.effects[j]).1.effect_intent_id != id
}

/// Whether the root of a cancellation lies in a run: it is the run, or a unit of it, or an attempt
/// or an effect of such a unit.
pub open spec fn root_is_in(
    t: TablesView,
    kind: Seq<char>,
    id: Seq<char>,
    run_id: Seq<char>,
) -> bool {
    ||| kind == "run"@ && id == run_id
    ||| kind == "execution_unit"@ && unit_is_in(t, id, run_id)
    ||| kind == "attempt"@ && exists|i: int| #[trigger]
        is_attempt_at(t, id, i) && unit_is_in(t, t.attempts[i].1.unit_id, run_id)
    ||| kind == "effect_intent"@ && exists|i: int| #[trigger]
        is_effect_at(t, id, i) && unit_is_in(t, t.effects[i].1.unit_id, run_id)
}

/// Whether a delivery is recorded that discharges a member of a cancellation: the member stopped,
/// had ended before, or declined as detached.
pub open spec fn is_discharged_in(
    t: TablesView,
    request_id: Seq<char>,
    member_id: Seq<char>,
) -> bool {
    exists|k: int|
        0 <= k < t.deliveries.len() && (#[trigger] t.deliveries[k]).1.cancel_request_id
            == request_id && t.deliveries[k].1.member_id == member_id && (
        t.deliveries[k].1.outcome == "observed_stopped"@ || t.deliveries[k].1.outcome
            == "already_terminal"@ || t.deliveries[k].1.outcome == "detached_declined"@)
}

/// Whether a committed cancellation in a run is not resolved: it is not settled, and a member of
/// its scope is not discharged.
pub open spec fn holds_open_cancel(t: TablesView, run_id: Seq<char>, i: int) -> bool {
    let row = t.requests[i].1;
    &&& 0 <= i < t.requests.len()
    &&& row.status != "settled"@
    &&& root_is_in(t, row.root_kind, row.root_id, run_id)
    &&& exists|m: int|
        0 <= m < row.record.scope.members.len() && !is_discharged_in(
            t,
            row.cancel_request_id,
            (#[trigger] row.record.scope.members[m]).member_id,
        )
}

/// Whether an effect in a run is not resolved: it is not settled, or settled without a known
/// outcome.
pub open spec fn holds_open_effect(t: TablesView, run_id: Seq<char>, i: int) -> bool {
    let row = t.effects[i].1;
    &&& 0 <= i < t.effects.len()
    &&& unit_is_in(t, row.unit_id, run_id)
    &&& row.state != "settled"@ || row.terminal is None || row.terminal == Some("unknown"@)
}

proof fn attempts_are_named_first(t: TablesView, id: Seq<char>, n: int)
    requires
        0 <= n <= t.attempts.len(),
    ensures
        match attempt_named(t.attempts.take(n), id) {
            Some(row) => exists|i: int| #[trigger]
                is_attempt_at(t, id, i) && i < n && t.attempts[i].1 == row,
            None => forall|j: int|
                0 <= j < n ==> (#[trigger] t.attempts[j]).1.attempt_id != id,
        },
    decreases n,
{
    if n > 0 {
        attempts_are_named_first(t, id, n - 1);
        assert(t.attempts.take(n).drop_last() =~= t.attempts.take(n - 1));
        assert(t.attempts.take(n).last() == t.attempts[n - 1]);
        if attempt_named(t.attempts.take(n - 1), id) is None && t.attempts[n - 1].1.attempt_id
            == id {
            assert(is_attempt_at(t, id, n - 1));
        }
    }
}

proof fn effects_are_named_first(t: TablesView, id: Seq<char>, n: int)
    requires
        0 <= n <= t.effects.len(),
    ensures
        match effect_named(t.effects.take(n), id) {
            Some(row) => exists|i: int| #[trigger]
                is_effect_at(t, id, i) && i < n && t.effects[i].1 == row,
            None => forall|j: int|
                0 <= j < n ==> (#[trigger] t.effects[j]).1.effect_intent_id != id,
        },
    decreases n,
{
    if n > 0 {
        effects_are_named_first(t, id, n - 1);
        assert(t.effects.take(n).drop_last() =~= t.effects.take(n - 1));
        assert(t.effects.take(n).last() == t.effects[n - 1]);
        if effect_named(t.effects.take(n - 1), id) is None && t.effects[n - 1].1.effect_intent_id
            == id {
            assert(is_effect_at(t, id, n - 1));
        }
    }
}

/// The attempt that an id names is the first one with it.
pub(crate) proof fn attempt_named_is_first(t: TablesView, id: Seq<char>)
    ensures
        match attempt_named(t.attempts, id) {
            Some(row) => exists|i: int| #[trigger]
                is_attempt_at(t, id, i) && t.attempts[i].1 == row,
            None => forall|j: int|
                0 <= j < t.attempts.len() ==> (#[trigger] t.attempts[j]).1.attempt_id != id,
        },
        forall|i: int| #[trigger]
            is_attempt_at(t, id, i) ==> attempt_named(t.attempts, id) == Some(t.attempts[i].1),
{
    attempts_are_named_first(t, id, t.attempts.len() as int);
    assert(t.attempts.take(t.attempts.len() as int) =~= t.attempts);
    assert forall|i: int| #[trigger] is_attempt_at(t, id, i) implies attempt_named(t.attempts, id)
        == Some(t.attempts[i].1) by {
        let row = attempt_named(t.attempts, id);
        assert(row is Some);
        let k = choose|k: int| #[trigger] is_attempt_at(t, id, k) && t.attempts[k].1 == row->0;
        if k < i {
            assert(t.attempts[k].1.attempt_id != id);
        }
        if i < k {
            assert(t.attempts[i].1.attempt_id != id);
        }
    }
}

/// The effect that an intent id names is the first one with it.
pub(crate) proof fn effect_named_is_first(t: TablesView, id: Seq<char>)
    ensures
        match effect_named(t.effects, id) {
            Some(row) => exists|i: int| #[trigger]
                is_effect_at(t, id, i) && t.effects[i].1 == row,
            None => forall|j: int|
                0 <= j < t.effects.len() ==> (#[trigger] t.effects[j]).1.effect_intent_id != id,
        },
        forall|i: int| #[trigger]
            is_effect_at(t, id, i) ==> effect_named(t.effects, id) == Some(t.effects[i].1),
{
    effects_are_named_first(t, id, t.effects.len() as int);
    assert(t.effects.take(t.effects.len() as int) =~= t.effects);
    assert forall|i: int| #[trigger] is_effect_at(t, id, i) implies effect_named(t.effects, id)
        == Some(t.effects[i].1) by {
        let row = effect_named(t.effects, id);
        assert(row is Some);
        let k = choose|k: int| #[trigger] is_effect_at(t, id, k) && t.effects[k].1 == row->0;
        if k < i {
            assert(t.effects[k].1.effect_intent_id != id);
        }
        if i < k {
            assert(t.effects[i].1.effect_intent_id != id);
        }
    }
}

proof fn roots_resolve(t: TablesView, kind: Seq<char>, id: Seq<char>, run_id: Seq<char>)
    ensures
        root_is_in(t, kind, id, run_id) <==> kind_named(kind) is Some && run_of_root(
            t,
            kind_named(kind)->0,
            id,
        ) == Some(run_id),
{
    root_names(kind);
    attempt_named_is_first(t, id);
    effect_named_is_first(t, id);
    crate::cancel::kind_reads_back(CancelKind::Run);
    crate::cancel::kind_reads_back(CancelKind::ExecutionUnit);
    crate::cancel::kind_reads_back(CancelKind::Attempt);
    crate::cancel::kind_reads_back(CancelKind::EffectIntent);
}

/// The wire names of the outcomes that discharge.
proof fn discharging_names(name: Seq<char>)
    ensures
        outcome_named(name) is Some && outcome_named(name)->0.discharges() <==> (name
            == "observed_stopped"@ || name == "already_terminal"@ || name == "detached_declined"@),
{
    crate::cancel::outcome_reads_back(DeliveryOutcome::ObservedStopped);
    crate::cancel::outcome_reads_back(DeliveryOutcome::AlreadyTerminal);
    crate::cancel::outcome_reads_back(DeliveryOutcome::DetachedDeclined);
    crate::cancel::outcome_reads_back(DeliveryOutcome::Unresponsive);
}

proof fn deliveries_discharge(t: TablesView, request_id: Seq<char>, member_id: Seq<char>)
    ensures
        member_discharged(t.deliveries, request_id, member_id) <==> is_discharged_in(
            t,
            request_id,
            member_id,
        ),
{
    assert forall|k: int| 0 <= k < t.deliveries.len() implies (discharge_row(
        (#[trigger] t.deliveries[k]).1,
        request_id,
        member_id,
    ) <==> t.deliveries[k].1.cancel_request_id == request_id && t.deliveries[k].1.member_id
        == member_id && (t.deliveries[k].1.outcome == "observed_stopped"@
        || t.deliveries[k].1.outcome == "already_terminal"@ || t.deliveries[k].1.outcome
        == "detached_declined"@)) by {
        discharging_names(t.deliveries[k].1.outcome);
    }
}

proof fn missing_is_found(
    members: Seq<ScopeMemberView>,
    t: TablesView,
    request_id: Seq<char>,
    i: int,
)
    requires
        0 <= i <= members.len(),
    ensures
        i <= first_missing(members, t.deliveries, request_id, i) <= members.len(),
        first_missing(members, t.deliveries, request_id, i) < members.len() <==> exists|m: int|
            i <= m < members.len() && !is_discharged_in(
                t,
                request_id,
                (#[trigger] members[m]).member_id,
            ),
    decreases members.len() - i,
{
    if i < members.len() {
        deliveries_discharge(t, request_id, members[i].member_id);
        missing_is_found(members, t, request_id, i + 1);
    }
}

proof fn open_cancels_block(t: TablesView, run_id: Seq<char>, n: int)
    requires
        0 <= n <= t.requests.len(),
    ensures
        cancel_blockers(t, run_id, t.requests.take(n)).len() > 0 <==> exists|i: int|
            i < n && #[trigger] holds_open_cancel(t, run_id, i),
    decreases n,
{
    if n > 0 {
        open_cancels_block(t, run_id, n - 1);
        let row = t.requests[n - 1].1;
        assert(t.requests.take(n).drop_last() =~= t.requests.take(n - 1));
        assert(t.requests.take(n).last() == t.requests[n - 1]);
        roots_resolve(t, row.root_kind, row.root_id, run_id);
        missing_is_found(row.record.scope.members, t, row.cancel_request_id, 0);
        assert(cancel_blocker(t, run_id, row) is Some <==> holds_open_cancel(t, run_id, n - 1));
    }
}

proof fn open_effects_block(t: TablesView, run_id: Seq<char>, n: int)
    requires
        0 <= n <= t.effects.len(),
    ensures
        effect_blockers(t, run_id, t.effects.take(n)).len() > 0 <==> exists|i: int|
            i < n && #[trigger] holds_open_effect(t, run_id, i),
    decreases n,
{
    if n > 0 {
        open_effects_block(t, run_id, n - 1);
        let (key, row) = t.effects[n - 1];
        assert(t.effects.take(n).drop_last() =~= t.effects.take(n - 1));
        assert(t.effects.take(n).last() == t.effects[n - 1]);
        assert(effect_blocker(t, run_id, key, row) is Some <==> holds_open_effect(
            t,
            run_id,
            n - 1,
        ));
    }
}

/// What forbids the success close of a run: an effect in it that is not resolved, or a committed
/// cancellation in it that is not resolved, and nothing else.
pub proof fn unresolved_members_bar_success(t: TablesView, run_id: Seq<char>)
    ensures
        close_blockers(t, run_id).len() > 0 <==> (exists|i: int| #[trigger]
            holds_open_effect(t, run_id, i)) || (exists|i: int| #[trigger]
            holds_open_cancel(t, run_id, i)),
        effect_blockers(t, run_id, t.effects).len() > 0 <==> exists|i: int| #[trigger]
            holds_open_effect(t, run_id, i),
        cancel_blockers(t, run_id, t.requests).len() > 0 <==> exists|i: int| #[trigger]
            holds_open_cancel(t, run_id, i),
{
    open_effects_block(t, run_id, t.effects.len() as int);
    open_cancels_block(t, run_id, t.requests.len() as int);
    assert(t.effects.take(t.effects.len() as int) =~= t.effects);
    assert(t.requests.take(t.requests.len() as int) =~= t.requests);
}

/// A committed cancellation whose root resolves to a run, that is not settled, and that has a
/// member without a discharging delivery, forbids the success close of the run; the close is
/// refused, and the run stays as it was.
pub proof fn open_cancels_refuse_success(f: FunnelView, cmd: Command, i: int)
    requires
        is_new(f, cmd),
        cmd.method is RunClose,
        cmd.method->RunClose_outcome == RunOutcome::ClosedSuccess,
        holds_open_cancel(f.store.tables, cmd.method->RunClose_run_id@, i),
    ensures
        close_blockers(f.store.tables, cmd.method->RunClose_run_id@).len() > 0,
        answer(f, cmd) is Rejected,
        rows_after(f, cmd).runs == f.store.tables.runs,
{
    completion_is_acceptance(f, cmd);
    unresolved_members_bar_success(f.store.tables, cmd.method->RunClose_run_id@);
}

/// Closing a run: the daemon may close an open or active run of the expected version, as a success
/// only if no effect and no committed cancellation in it is unresolved. The run then carries the
/// outcome, one version further on; every other run and every other table is as it was.
#[verifier::spinoff_prover]
pub proof fn runs_close_when_resolved(f: FunnelView, cmd: Command)
    requires
        is_new(f, cmd),
        cmd.method is RunClose,
    ensures
        ({
            let t = f.store.tables;
            let after = rows_after(f, cmd);
            let run_id = cmd.method->RunClose_run_id@;
            let outcome = cmd.method->RunClose_outcome;
            let r = lookup(t.runs, run_id)->0;
            let word = match outcome {
                RunOutcome::ClosedSuccess => "closed_success"@,
                RunOutcome::ClosedFailure => "closed_failure"@,
                RunOutcome::Cancelled => "cancelled"@,
            };
            let unresolved = (exists|i: int| #[trigger] holds_open_effect(t, run_id, i)) || (
            exists|i: int| #[trigger] holds_open_cancel(t, run_id, i));
            let found = by_daemon(f, cmd) && lookup(t.runs, run_id) is Some;
            &&& completes(f, cmd) <==> {
                &&& found
                &&& cmd.expected_version == Some(r.version)
                &&& r.status == "open"@ || r.status == "active"@
                &&& outcome == RunOutcome::ClosedSuccess ==> !unresolved
                &&& r.version < u64::MAX
            }
            &&& by_daemon(f, cmd) && lookup(t.runs, run_id) is None ==> refused_as(
                f,
                cmd,
                ErrorKind::NotFound,
            )
            &&& found && cmd.expected_version is Some && cmd.expected_version != Some(r.version)
                ==> refused_as(f, cmd, ErrorKind::VersionConflict)
            &&& found && cmd.expected_version == Some(r.version) && !(r.status == "open"@ || r.status
                == "active"@) ==> refused_as(f, cmd, ErrorKind::InvalidRequest)
            &&& found && cmd.expected_version == Some(r.version) && outcome
                == RunOutcome::ClosedSuccess && unresolved ==> refused_as(
                f,
                cmd,
                ErrorKind::InvalidRequest,
            )
            &&& completes(f, cmd) ==> {
                &&& after == (TablesView {
                    runs: after.runs,
                    events: after.events,
                    receipts: after.receipts,
                    ..t
                })
                &&& lookup(after.runs, run_id) == Some(
                    RunRowView { version: (r.version + 1) as u64, status: word, ..r },
                )
                &&& forall|other: Seq<char>|
                    other != run_id ==> #[trigger] lookup(after.runs, other) == lookup(
                        t.runs,
                        other,
                    )
                &&& journals(
                    f,
                    cmd,
                    "run"@,
                    run_id,
                    (r.version + 1) as u64,
                    "run.closed"@,
                    JsonView::Object(Map::empty().insert("outcome"@, JsonView::Str(word))),
                )
                &&& answer(f, cmd)->Completed_result == JsonView::Object(
                    Map::empty().insert("run_id"@, JsonView::Str(run_id)).insert(
                        "version"@,
                        JsonView::Uint((r.version + 1) as u64),
                    ).insert("status"@, JsonView::Str(word)),
                )
            }
        }),
{
    completion_is_acceptance(f, cmd);
    daemons_pass(f, cmd);
    let t = f.store.tables;
    let run_id = cmd.method->RunClose_run_id@;
    unresolved_members_bar_success(t, run_id);
    let r = lookup(t.runs, run_id)->0;
    let row = RunRowView {
        version: (r.version + 1) as u64,
        status: cmd.method->RunClose_outcome.wire_text(),
        ..r
    };
    if completes(f, cmd) {
        one_event_is_journalled(f, cmd);
        assert forall|other: Seq<char>| other != run_id implies #[trigger] lookup(
            rows_after(f, cmd).runs,
            other,
        ) == lookup(t.runs, other) by {
            read_after_write(t.runs, run_id, row, other);
        }
        read_after_write(t.runs, run_id, row, run_id);
    }
}

// --- What a refusal names ------------------------------------------------------------------------

/// The effects that a refused close names are those in the run that are not resolved, each by its
/// operation key, in order.
pub proof fn open_effects_are_named(
    t: TablesView,
    run_id: Seq<char>,
    rows: Seq<(Seq<char>, EffectRowView)>,
)
    ensures
        effect_blockers(t, run_id, rows).map_values(|b: BlockerView| b.member) == rows.filter(
            |p: (Seq<char>, EffectRowView)|
                unit_is_in(t, p.1.unit_id, run_id) && (p.1.state != "settled"@ || p.1.terminal
                    is None || p.1.terminal == Some("unknown"@)),
        ).map_values(|p: (Seq<char>, EffectRowView)| p.0),
    decreases rows.len(),
{
    reveal(Seq::filter);
    let open = |p: (Seq<char>, EffectRowView)|
        unit_is_in(t, p.1.unit_id, run_id) && (p.1.state != "settled"@ || p.1.terminal is None
            || p.1.terminal == Some("unknown"@));
    let key = |p: (Seq<char>, EffectRowView)| p.0;
    let name = |b: BlockerView| b.member;
    if rows.len() > 0 {
        open_effects_are_named(t, run_id, rows.drop_last());
        let last = rows.last();
        let front = effect_blockers(t, run_id, rows.drop_last());
        let kept = rows.drop_last().filter(open);
        let b = effect_blocker(t, run_id, last.0, last.1);
        assert(b is Some <==> open(last));
        if b is Some {
            assert(front.push(b->0).map_values(name) =~= front.map_values(name).push(b->0.member));
            assert(kept.push(last).map_values(key) =~= kept.map_values(key).push(last.0));
        }
    } else {
        assert(effect_blockers(t, run_id, rows).map_values(name) =~= rows.filter(open).map_values(
            key,
        ));
    }
}

/// Whether a member of a scope is the first one that is not discharged.
pub open spec fn is_first_open(t: TablesView, row: CancelRequestRowView, m: int) -> bool {
    let members = row.record.scope.members;
    &&& 0 <= m < members.len()
    &&& !is_discharged_in(t, row.cancel_request_id, members[m].member_id)
    &&& forall|k: int|
        0 <= k < m ==> is_discharged_in(
            t,
            row.cancel_request_id,
            (#[trigger] members[k]).member_id,
        )
}

proof fn first_open_shows(
    members: Seq<ScopeMemberView>,
    t: TablesView,
    request_id: Seq<char>,
    i: int,
)
    requires
        0 <= i <= members.len(),
    ensures
        ({
            let at = first_missing(members, t.deliveries, request_id, i);
            &&& i <= at <= members.len()
            &&& at < members.len() ==> !is_discharged_in(t, request_id, members[at].member_id)
            &&& forall|k: int|
                i <= k < at ==> is_discharged_in(t, request_id, (#[trigger] members[k]).member_id)
        }),
    decreases members.len() - i,
{
    if i < members.len() {
        deliveries_discharge(t, request_id, members[i].member_id);
        first_open_shows(members, t, request_id, i + 1);
    }
}

/// A committed cancellation that forbids the close is named by its request and by the first of its members
/// that is not discharged.
pub proof fn open_cancels_are_named(t: TablesView, run_id: Seq<char>, i: int, m: int)
    requires
        holds_open_cancel(t, run_id, i),
        is_first_open(t, t.requests[i].1, m),
    ensures
        ({
            let row = t.requests[i].1;
            let b = cancel_blocker(t, run_id, row);
            b is Some && b->0.member == "cancel_request "@ + row.cancel_request_id + " member "@
                + row.record.scope.members[m].member_id
        }),
{
    let row = t.requests[i].1;
    let members = row.record.scope.members;
    roots_resolve(t, row.root_kind, row.root_id, run_id);
    first_open_shows(members, t, row.cancel_request_id, 0);
    let at = first_missing(members, t.deliveries, row.cancel_request_id, 0);
    if at < m {
        assert(is_discharged_in(t, row.cancel_request_id, members[at].member_id));
    }
    if m < at {
        assert(is_discharged_in(t, row.cancel_request_id, members[m].member_id));
    }
}

} // verus!
