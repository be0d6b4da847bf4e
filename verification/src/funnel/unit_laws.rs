//! What opening runs, creating work items, admitting and dispatching units, and the calls of a
//! unit's holder do: when each completes, what it leaves in the rows, and what it answers.
use crate::cancel::CancelKind;
use crate::error::ErrorKind;
use crate::funnel::command::{Command, Method, PrincipalKind};
use crate::funnel::ground::{
    answer, bears_token, by_daemon, by_holder, completes, completion_is_acceptance, daemons_pass,
    holders_pass, is_new, is_root, journals, lineages_bar, no_event_is_journalled,
    one_event_is_journalled, refused_as, rows_after, unit_is_cancelled,
};
use crate::funnel::pre::{attempt_key, lineage_of_child, rows_for};
use crate::funnel::submit::has_room;
use crate::funnel::validate::admission_bars;
use crate::funnel::{fresh, FunnelView};
use crate::ids::uuid_text;
use crate::json::{json_text, JsonView};
use crate::store::{
    AttemptRowView, LeaseRowView, RunRowView, TablesView, UnitRowView, WorkItemRowView,
};
use crate::table::{lookup, read_after_write};
use crate::text::{dec, views};
use vstd::prelude::*;
use vstd::string::*;

verus! {

// --- Creations -----------------------------------------------------------------------------------

/// Opening a run: the daemon may open a run that is not there. It is then open, at version 1, for
/// its goal; every other run and every other table is as it was.
pub proof fn runs_open_once(f: FunnelView, cmd: Command)
    requires
        is_new(f, cmd),
        cmd.method is RunOpen,
    ensures
        ({
            let t = f.store.tables;
            let after = rows_after(f, cmd);
            let run_id = cmd.method->RunOpen_run_id@;
            let goal = cmd.method->RunOpen_goal_work_item_id@;
            &&& completes(f, cmd) <==> by_daemon(f, cmd) && lookup(t.runs, run_id) is None
            &&& by_daemon(f, cmd) && lookup(t.runs, run_id) is Some ==> refused_as(
                f,
                cmd,
                ErrorKind::InvalidRequest,
            )
            &&& completes(f, cmd) ==> {
                &&& after == (TablesView {
                    runs: after.runs,
                    events: after.events,
                    receipts: after.receipts,
                    ..t
                })
                &&& lookup(after.runs, run_id) == Some(
                    RunRowView { run_id, version: 1, status: "open"@, goal_work_item_id: goal },
                )
                &&& forall|other: Seq<char>|
                    other != run_id ==> #[trigger] lookup(after.runs, other) == lookup(
                        t.runs,
                        other,
                    )
                &&& journals(
                    f,
                    cmd,
                    "run"@,
                    run_id,
                    1,
                    "run.opened"@,
                    JsonView::Object(
                        Map::empty().insert("goal_work_item_id"@, JsonView::Str(goal)),
                    ),
                )
                &&& answer(f, cmd)->Completed_result == JsonView::Object(
                    Map::empty().insert("run_id"@, JsonView::Str(run_id)).insert(
                        "version"@,
                        JsonView::Uint(1),
                    ),
                )
            }
        }),
{
    completion_is_acceptance(f, cmd);
    daemons_pass(f, cmd);
    let t = f.store.tables;
    let run_id = cmd.method->RunOpen_run_id@;
    let row = RunRowView {
        run_id,
        version: 1,
        status: "open"@,
        goal_work_item_id: cmd.method->RunOpen_goal_work_item_id@,
    };
    if completes(f, cmd) {
        one_event_is_journalled(f, cmd);
        assert forall|other: Seq<char>| other != run_id implies #[trigger] lookup(
            rows_after(f, cmd).runs,
            other,
        ) == lookup(t.runs, other) by {
            read_after_write(t.runs, run_id, row, other);
        }
        read_after_write(t.runs, run_id, row, run_id);
    }
}

/// Creating a work item: the daemon may create one that is not there. It is then ready, at version
/// 1, with its contract and its scope; every other one and every other table is as it was.
pub proof fn work_items_are_created_once(f: FunnelView, cmd: Command)
    requires
        is_new(f, cmd),
        cmd.method is WorkItemCreate,
    ensures
        ({
            let t = f.store.tables;
            let after = rows_after(f, cmd);
            let id = cmd.method->WorkItemCreate_work_item_id@;
            let contract = cmd.method->WorkItemCreate_acceptance_contract_digest@;
            let scope = cmd.method->WorkItemCreate_declared_write_scope@;
            let list = JsonView::Array(Seq::new(scope.len(), |i: int| JsonView::Str(scope[i]@)));
            &&& completes(f, cmd) <==> by_daemon(f, cmd) && lookup(t.work_items, id) is None
            &&& by_daemon(f, cmd) && lookup(t.work_items, id) is Some ==> refused_as(
                f,
                cmd,
                ErrorKind::InvalidRequest,
            )
            &&& completes(f, cmd) ==> {
                &&& after == (TablesView {
                    work_items: after.work_items,
                    events: after.events,
                    receipts: after.receipts,
                    ..t
                })
                &&& lookup(after.work_items, id) == Some(
                    WorkItemRowView {
                        work_item_id: id,
                        version: 1,
                        status: "ready"@,
                        acceptance_contract_digest: contract,
                        declared_write_scope: json_text(list),
                    },
                )
                &&& forall|other: Seq<char>|
                    other != id ==> #[trigger] lookup(after.work_items, other) == lookup(
                        t.work_items,
                        other,
                    )
                &&& journals(
                    f,
                    cmd,
                    "work_item"@,
                    id,
                    1,
                    "work_item.created"@,
                    JsonView::Object(
                        Map::empty().insert(
                            "acceptance_contract_digest"@,
                            JsonView::Str(contract),
                        ).insert("declared_write_scope"@, list),
                    ),
                )
                &&& answer(f, cmd)->Completed_result == JsonView::Object(
                    Map::empty().insert("work_item_id"@, JsonView::Str(id)).insert(
                        "version"@,
                        JsonView::Uint(1),
                    ),
                )
            }
        }),
{
    completion_is_acceptance(f, cmd);
    daemons_pass(f, cmd);
    let t = f.store.tables;
    let id = cmd.method->WorkItemCreate_work_item_id@;
    let scope = cmd.method->WorkItemCreate_declared_write_scope@;
    let list = JsonView::Array(Seq::new(scope.len(), |i: int| JsonView::Str(scope[i]@)));
    assert(crate::json::text_array_view(views(scope)) == list) by {
        assert(crate::json::text_array_view(views(scope))->Array_0 =~= list->Array_0);
    }
    let row = WorkItemRowView {
        work_item_id: id,
        version: 1,
        status: "ready"@,
        acceptance_contract_digest: cmd.method->WorkItemCreate_acceptance_contract_digest@,
        declared_write_scope: json_text(list),
    };
    if completes(f, cmd) {
        one_event_is_journalled(f, cmd);
        assert forall|other: Seq<char>| other != id implies #[trigger] lookup(
            rows_after(f, cmd).work_items,
            other,
        ) == lookup(t.work_items, other) by {
            read_after_write(t.work_items, id, row, other);
        }
        read_after_write(t.work_items, id, row, id);
    }
}

// --- Admission and dispatch ----------------------------------------------------------------------

proof fn admissions_are_barred(f: FunnelView, cmd: Command)
    ensures
        cmd.method is UnitAdmit ==> (admission_bars(rows_for(cmd.method, f.store.tables)).len() > 0
            <==> is_root(f.store.tables, "run"@, cmd.method->UnitAdmit_run_id@)),
        cmd.method is UnitDispatch ==> (admission_bars(
            rows_for(cmd.method, f.store.tables),
        ).len() > 0 <==> unit_is_cancelled(f.store.tables, cmd.method->UnitDispatch_unit_id@)),
{
    let t = f.store.tables;
    match cmd.method {
        Method::UnitAdmit { run_id, .. } => {
            let line = seq![(CancelKind::Run, run_id@)];
            lineages_bar(t, CancelKind::ExecutionUnit, line);
            assert(line[0] == (CancelKind::Run, run_id@));
        },
        Method::UnitDispatch { unit_id, .. } => {
            if lookup(t.units, unit_id@) is Some {
                let line = seq![
                    (CancelKind::Run, lookup(t.units, unit_id@)->0.run_id),
                    (CancelKind::ExecutionUnit, unit_id@),
                ];
                assert(lineage_of_child(
                    cmd.method,
                    t,
                    rows_for(cmd.method, t).effect,
                ) == Some(line));
                lineages_bar(t, CancelKind::Attempt, line);
                assert(line[0] == (CancelKind::Run, lookup(t.units, unit_id@)->0.run_id));
                assert(line[1] == (CancelKind::ExecutionUnit, unit_id@));
            }
        },
        _ => {},
    }
}

/// Admitting a unit: the daemon may admit a unit that is not there, to a run and for a work item
/// that are, unless a committed cancellation is rooted at the run. The unit is then admitted, at
/// version 1, with no attempt; every other unit and every other table is as it was.
pub proof fn units_are_admitted_to_live_runs(f: FunnelView, cmd: Command)
    requires
        is_new(f, cmd),
        cmd.method is UnitAdmit,
    ensures
        ({
            let t = f.store.tables;
            let after = rows_after(f, cmd);
            let unit_id = cmd.method->UnitAdmit_unit_id@;
            let work_item_id = cmd.method->UnitAdmit_work_item_id@;
            let run_id = cmd.method->UnitAdmit_run_id@;
            let placed = lookup(t.runs, run_id) is Some && lookup(t.work_items, work_item_id)
                is Some;
            &&& completes(f, cmd) <==> {
                &&& by_daemon(f, cmd)
                &&& placed
                &&& lookup(t.units, unit_id) is None
                &&& !is_root(t, "run"@, run_id)
            }
            &&& is_root(t, "run"@, run_id) ==> after.units == t.units
            &&& by_daemon(f, cmd) && !placed ==> refused_as(f, cmd, ErrorKind::NotFound)
            &&& by_daemon(f, cmd) && placed && (lookup(t.units, unit_id) is Some || is_root(
                t,
                "run"@,
                run_id,
            )) ==> refused_as(f, cmd, ErrorKind::InvalidRequest)
            &&& completes(f, cmd) ==> {
                &&& after == (TablesView {
                    units: after.units,
                    events: after.events,
                    receipts: after.receipts,
                    ..t
                })
                &&& lookup(after.units, unit_id) == Some(
                    UnitRowView {
                        unit_id,
                        version: 1,
                        epoch: 0,
                        stamp: 0,
                        status: "admitted"@,
                        work_item_id,
                        run_id,
                    },
                )
                &&& forall|other: Seq<char>|
                    other != unit_id ==> #[trigger] lookup(after.units, other) == lookup(
                        t.units,
                        other,
                    )
                &&& journals(
                    f,
                    cmd,
                    "unit"@,
                    unit_id,
                    1,
                    "unit.admitted"@,
                    JsonView::Object(
                        Map::empty().insert("work_item_id"@, JsonView::Str(work_item_id)).insert(
                            "run_id"@,
                            JsonView::Str(run_id),
                        ),
                    ),
                )
                &&& answer(f, cmd)->Completed_result == JsonView::Object(
                    Map::empty().insert("unit_id"@, JsonView::Str(unit_id)).insert(
                        "version"@,
                        JsonView::Uint(1),
                    ),
                )
            }
        }),
{
    completion_is_acceptance(f, cmd);
    daemons_pass(f, cmd);
    admissions_are_barred(f, cmd);
    let t = f.store.tables;
    let unit_id = cmd.method->UnitAdmit_unit_id@;
    let row = UnitRowView {
        unit_id,
        version: 1,
        epoch: 0,
        stamp: 0,
        status: "admitted"@,
        work_item_id: cmd.method->UnitAdmit_work_item_id@,
        run_id: cmd.method->UnitAdmit_run_id@,
    };
    if completes(f, cmd) {
        one_event_is_journalled(f, cmd);
        assert forall|other: Seq<char>| other != unit_id implies #[trigger] lookup(
            rows_after(f, cmd).units,
            other,
        ) == lookup(t.units, other) by {
            read_after_write(t.units, unit_id, row, other);
        }
        read_after_write(t.units, unit_id, row, unit_id);
    }
}

/// Whether a unit can be dispatched by a command: it is there, at the version that the command
/// expects, its current attempt is there, and its counters have room.
pub open spec fn is_dispatchable(t: TablesView, cmd: Command, unit_id: Seq<char>) -> bool {
    let u = lookup(t.units, unit_id)->0;
    &&& lookup(t.units, unit_id) is Some
    &&& cmd.expected_version == Some(u.version)
    &&& u.epoch > 0 ==> lookup(t.attempts, unit_id + "/"@ + dec(u.epoch as nat)) is Some
    &&& u.epoch < u64::MAX
    &&& u.version < u64::MAX
}

/// Dispatching a unit: the daemon may dispatch a unit of the expected version, unless a committed
/// cancellation is rooted at the unit or its run. The answer carries the token of the new attempt.
#[verifier::spinoff_prover]
pub proof fn units_are_dispatched_in_live_runs(f: FunnelView, cmd: Command)
    requires
        is_new(f, cmd),
        cmd.method is UnitDispatch,
    ensures
        ({
            let t = f.store.tables;
            let after = rows_after(f, cmd);
            let unit_id = cmd.method->UnitDispatch_unit_id@;
            let holder_id = cmd.method->UnitDispatch_holder_id@;
            let u = lookup(t.units, unit_id)->0;
            let attempt_id = uuid_text(fresh(f, 1));
            &&& completes(f, cmd) <==> {
                &&& by_daemon(f, cmd)
                &&& is_dispatchable(t, cmd, unit_id)
                &&& !unit_is_cancelled(t, unit_id)
            }
            &&& unit_is_cancelled(t, unit_id) ==> after.units == t.units && after.attempts
                == t.attempts && after.leases == t.leases
            &&& by_daemon(f, cmd) && lookup(t.units, unit_id) is None ==> refused_as(
                f,
                cmd,
                ErrorKind::NotFound,
            )
            &&& by_daemon(f, cmd) && lookup(t.units, unit_id) is Some && cmd.expected_version
                is Some && cmd.expected_version != Some(u.version) ==> refused_as(
                f,
                cmd,
                ErrorKind::VersionConflict,
            )
            &&& by_daemon(f, cmd) && cmd.expected_version == Some(u.version) && unit_is_cancelled(
                t,
                unit_id,
            ) ==> refused_as(f, cmd, ErrorKind::InvalidRequest)
            &&& completes(f, cmd) ==> {
                &&& journals(
                    f,
                    cmd,
                    "unit"@,
                    unit_id,
                    (u.version + 1) as u64,
                    "unit.dispatched"@,
                    JsonView::Object(
                        Map::empty().insert(
                            "attempt_epoch"@,
                            JsonView::Uint((u.epoch + 1) as u64),
                        ).insert("attempt_id"@, JsonView::Str(attempt_id)).insert(
                            "holder_id"@,
                            JsonView::Str(holder_id),
                        ),
                    ),
                )
                &&& answer(f, cmd)->Completed_result == JsonView::Object(
                    Map::empty().insert("unit_id"@, JsonView::Str(unit_id)).insert(
                        "version"@,
                        JsonView::Uint((u.version + 1) as u64),
                    ).insert("attempt_epoch"@, JsonView::Uint((u.epoch + 1) as u64)).insert(
                        "attempt_id"@,
                        JsonView::Str(attempt_id),
                    ).insert("stamp"@, JsonView::Uint(u.stamp)).insert(
                        "authority_epoch"@,
                        JsonView::Uint(f.store.epoch.0),
                    ).insert("holder_id"@, JsonView::Str(holder_id)).insert(
                        "token_nonce"@,
                        JsonView::Str(uuid_text(fresh(f, 2))),
                    ),
                )
            }
        }),
{
    completion_is_acceptance(f, cmd);
    daemons_pass(f, cmd);
    admissions_are_barred(f, cmd);
    if completes(f, cmd) {
        one_event_is_journalled(f, cmd);
    }
}

/// What a dispatch leaves in the rows: the unit is one attempt and one version further on and
/// otherwise as it was, the lease is live and held by the new holder, the new attempt is active
/// and the one before it superseded; nothing else changes.
#[verifier::spinoff_prover]
pub proof fn dispatches_move_the_unit_on(f: FunnelView, cmd: Command)
    requires
        is_new(f, cmd),
        has_room(f),
        cmd.method is UnitDispatch,
        completes(f, cmd),
    ensures
        ({
            let t = f.store.tables;
            let after = rows_after(f, cmd);
            let unit_id = cmd.method->UnitDispatch_unit_id@;
            let holder_id = cmd.method->UnitDispatch_holder_id@;
            let u = lookup(t.units, unit_id)->0;
            let old_key = unit_id + "/"@ + dec(u.epoch as nat);
            let new_key = unit_id + "/"@ + dec((u.epoch + 1) as nat);
            &&& after == (TablesView {
                units: after.units,
                attempts: after.attempts,
                leases: after.leases,
                events: after.events,
                receipts: after.receipts,
                ..t
            })
            &&& lookup(after.units, unit_id) == Some(
                UnitRowView {
                    version: (u.version + 1) as u64,
                    epoch: (u.epoch + 1) as u64,
                    status: "dispatched"@,
                    ..u
                },
            )
            &&& lookup(after.leases, unit_id) == Some(
                LeaseRowView {
                    unit_id,
                    attempt_epoch: (u.epoch + 1) as u64,
                    holder_id,
                    status: "active"@,
                    version: match lookup(t.leases, unit_id) {
                        Some(l) => (l.version + 1) as u64,
                        None => 1,
                    },
                },
            )
            &&& lookup(after.attempts, new_key) == Some(
                AttemptRowView {
                    attempt_key: new_key,
                    attempt_id: uuid_text(fresh(f, 1)),
                    unit_id,
                    attempt_epoch: (u.epoch + 1) as u64,
                    holder_id,
                    status: "active"@,
                },
            )
            &&& u.epoch > 0 ==> lookup(after.attempts, old_key) == Some(
                AttemptRowView { status: "superseded"@, ..lookup(t.attempts, old_key)->0 },
            )
            &&& forall|other: Seq<char>|
                other != unit_id ==> #[trigger] lookup(after.units, other) == lookup(t.units, other)
            &&& forall|other: Seq<char>|
                other != unit_id ==> #[trigger] lookup(after.leases, other) == lookup(
                    t.leases,
                    other,
                )
            &&& forall|other: Seq<char>|
                other != new_key && (u.epoch > 0 ==> other != old_key) ==> #[trigger] lookup(
                    after.attempts,
                    other,
                ) == lookup(t.attempts, other)
        }),
{
    completion_is_acceptance(f, cmd);
    daemons_pass(f, cmd);
    let t = f.store.tables;
    let after = rows_after(f, cmd);
    let unit_id = cmd.method->UnitDispatch_unit_id@;
    let holder_id = cmd.method->UnitDispatch_holder_id@;
    let u = lookup(t.units, unit_id)->0;
    let old_key = attempt_key(unit_id, u.epoch);
    let new_key = attempt_key(unit_id, (u.epoch + 1) as u64);
    let new_unit = UnitRowView {
        version: (u.version + 1) as u64,
        epoch: (u.epoch + 1) as u64,
        status: "dispatched"@,
        ..u
    };
    let new_lease = LeaseRowView {
        unit_id,
        attempt_epoch: (u.epoch + 1) as u64,
        holder_id,
        status: "active"@,
        version: match lookup(t.leases, unit_id) {
            Some(l) => (l.version + 1) as u64,
            None => 1,
        },
    };
    let gone = AttemptRowView { status: "superseded"@, ..lookup(t.attempts, old_key)->0 };
    let mid = if u.epoch > 0 {
        crate::table::upsert(t.attempts, old_key, gone)
    } else {
        t.attempts
    };
    let new_attempt = AttemptRowView {
        attempt_key: new_key,
        attempt_id: uuid_text(fresh(f, 1)),
        unit_id,
        attempt_epoch: (u.epoch + 1) as u64,
        holder_id,
        status: "active"@,
    };
    assert(after.units == crate::table::upsert(t.units, unit_id, new_unit));
    assert(after.leases == crate::table::upsert(t.leases, unit_id, new_lease));
    assert(after.attempts == crate::table::upsert(mid, new_key, new_attempt));
    read_after_write(t.units, unit_id, new_unit, unit_id);
    read_after_write(t.leases, unit_id, new_lease, unit_id);
    read_after_write(mid, new_key, new_attempt, new_key);
    assert(old_key != new_key) by {
        if old_key == new_key {
            reveal_strlit("/");
            let n = unit_id.len() + 1;
            assert(old_key.skip(n as int) =~= dec(u.epoch as nat));
            assert(new_key.skip(n as int) =~= dec((u.epoch + 1) as nat));
            crate::text::dec_injective(u.epoch as nat, (u.epoch + 1) as nat);
        }
    }
    read_after_write(mid, new_key, new_attempt, old_key);
    if u.epoch > 0 {
        read_after_write(t.attempts, old_key, gone, old_key);
    }
    assert forall|other: Seq<char>| other != unit_id implies #[trigger] lookup(after.units, other)
        == lookup(t.units, other) by {
        read_after_write(t.units, unit_id, new_unit, other);
    }
    assert forall|other: Seq<char>| other != unit_id implies #[trigger] lookup(after.leases, other)
        == lookup(t.leases, other) by {
        read_after_write(t.leases, unit_id, new_lease, other);
    }
    assert forall|other: Seq<char>|
        other != new_key && (u.epoch > 0 ==> other != old_key) implies #[trigger] lookup(
        after.attempts,
        other,
    ) == lookup(t.attempts, other) by {
        read_after_write(mid, new_key, new_attempt, other);
        if u.epoch > 0 {
            read_after_write(t.attempts, old_key, gone, other);
        }
    }
}

/// A stamp bump: the daemon may bump a unit of the expected version. Its stamp and its version are
/// one further on, and nothing else changes: the attempt and the lease stay.
#[verifier::spinoff_prover]
pub proof fn stamps_are_bumped_by_one(f: FunnelView, cmd: Command)
    requires
        is_new(f, cmd),
        cmd.method is StampBump,
    ensures
        ({
            let t = f.store.tables;
            let after = rows_after(f, cmd);
            let unit_id = cmd.method->StampBump_unit_id@;
            let u = lookup(t.units, unit_id)->0;
            &&& completes(f, cmd) <==> {
                &&& by_daemon(f, cmd)
                &&& lookup(t.units, unit_id) is Some
                &&& cmd.expected_version == Some(u.version)
                &&& u.version < u64::MAX
                &&& u.stamp < u64::MAX
            }
            &&& by_daemon(f, cmd) && lookup(t.units, unit_id) is None ==> refused_as(
                f,
                cmd,
                ErrorKind::NotFound,
            )
            &&& by_daemon(f, cmd) && lookup(t.units, unit_id) is Some && cmd.expected_version
                is Some && cmd.expected_version != Some(u.version) ==> refused_as(
                f,
                cmd,
                ErrorKind::VersionConflict,
            )
            &&& completes(f, cmd) ==> {
                &&& after == (TablesView {
                    units: after.units,
                    events: after.events,
                    receipts: after.receipts,
                    ..t
                })
                &&& lookup(after.units, unit_id) == Some(
                    UnitRowView {
                        version: (u.version + 1) as u64,
                        stamp: (u.stamp + 1) as u64,
                        ..u
                    },
                )
                &&& forall|other: Seq<char>|
                    other != unit_id ==> #[trigger] lookup(after.units, other) == lookup(
                        t.units,
                        other,
                    )
                &&& journals(
                    f,
                    cmd,
                    "unit"@,
                    unit_id,
                    (u.version + 1) as u64,
                    "unit.stamp_bumped"@,
                    JsonView::Object(
                        Map::empty().insert("stamp"@, JsonView::Uint((u.stamp + 1) as u64)),
                    ),
                )
                &&& answer(f, cmd)->Completed_result == JsonView::Object(
                    Map::empty().insert("unit_id"@, JsonView::Str(unit_id)).insert(
                        "version"@,
                        JsonView::Uint((u.version + 1) as u64),
                    ).insert("stamp"@, JsonView::Uint((u.stamp + 1) as u64)),
                )
            }
        }),
{
    completion_is_acceptance(f, cmd);
    daemons_pass(f, cmd);
    let t = f.store.tables;
    let unit_id = cmd.method->StampBump_unit_id@;
    let u = lookup(t.units, unit_id)->0;
    let row = UnitRowView {
        version: (u.version + 1) as u64,
        stamp: (u.stamp + 1) as u64,
        ..u
    };
    if completes(f, cmd) {
        one_event_is_journalled(f, cmd);
        assert forall|other: Seq<char>| other != unit_id implies #[trigger] lookup(
            rows_after(f, cmd).units,
            other,
        ) == lookup(t.units, other) by {
            read_after_write(t.units, unit_id, row, other);
        }
        read_after_write(t.units, unit_id, row, unit_id);
    }
}

// --- Holders -------------------------------------------------------------------------------------

/// A progress report completes exactly for the holder of the unit, at the version that the holder
/// expects. It changes no row and appends no event.
pub proof fn progress_is_for_the_holder(f: FunnelView, cmd: Command)
    requires
        is_new(f, cmd),
        cmd.method is ProgressReport,
    ensures
        ({
            let t = f.store.tables;
            let after = rows_after(f, cmd);
            let unit_id = cmd.method->ProgressReport_unit_id@;
            let u = lookup(t.units, unit_id)->0;
            &&& completes(f, cmd) <==> by_holder(f, cmd, unit_id) && cmd.expected_version == Some(
                u.version,
            )
            &&& by_holder(f, cmd, unit_id) && cmd.expected_version is Some && cmd.expected_version
                != Some(u.version) ==> refused_as(f, cmd, ErrorKind::VersionConflict)
            &&& after == (TablesView { receipts: after.receipts, ..t })
            &&& completes(f, cmd) ==> answer(f, cmd)->Completed_result == JsonView::Object(
                Map::empty().insert("unit_id"@, JsonView::Str(unit_id)).insert(
                    "version"@,
                    JsonView::Uint(u.version),
                ),
            )
        }),
{
    completion_is_acceptance(f, cmd);
    holders_pass(f, cmd, cmd.method->ProgressReport_unit_id@);
    if completes(f, cmd) {
        no_event_is_journalled(f, cmd);
    }
}

/// A reissue completes exactly for an agent that bears a token of the unit whose stamp is not ahead
/// of the unit's. The answer carries a token of the unit's current stamp, attempt and epoch for the
/// same holder; no row changes and no event is appended.
pub proof fn reissues_are_for_the_holder(f: FunnelView, cmd: Command)
    requires
        is_new(f, cmd),
        cmd.method is TokenReissue,
    ensures
        ({
            let t = f.store.tables;
            let after = rows_after(f, cmd);
            let unit_id = cmd.method->TokenReissue_unit_id@;
            let u = lookup(t.units, unit_id)->0;
            &&& completes(f, cmd) <==> bears_token(f, cmd, unit_id)
                && cmd.attempt_token->0.stamp.0 <= u.stamp
            &&& after == (TablesView { receipts: after.receipts, ..t })
            &&& completes(f, cmd) ==> answer(f, cmd)->Completed_result == JsonView::Object(
                Map::empty().insert("unit_id"@, JsonView::Str(unit_id)).insert(
                    "version"@,
                    JsonView::Uint(u.version),
                ).insert("attempt_epoch"@, JsonView::Uint(u.epoch)).insert(
                    "stamp"@,
                    JsonView::Uint(u.stamp),
                ).insert("authority_epoch"@, JsonView::Uint(f.store.epoch.0)).insert(
                    "holder_id"@,
                    JsonView::Str(cmd.principal_id@),
                ).insert("token_nonce"@, JsonView::Str(uuid_text(fresh(f, 1)))),
            )
        }),
{
    completion_is_acceptance(f, cmd);
    if completes(f, cmd) {
        no_event_is_journalled(f, cmd);
    }
}

// --- Who may call what ---------------------------------------------------------------------------

/// Whether a method is one of the authority's.
pub open spec fn is_authority_method(m: Method) -> bool {
    ||| m is RunOpen
    ||| m is RunClose
    ||| m is WorkItemCreate
    ||| m is UnitAdmit
    ||| m is UnitDispatch
    ||| m is StampBump
    ||| m is EffectSettle
    ||| m is EffectParkReconciling
    ||| m is CancelRequest
    ||| m is CancelRecordDelivery
}

/// A method of the authority never completes for anyone but the daemon under the current epoch, and
/// any other method only for an agent with a token of the unit that it names. Another principal is
/// refused as an invalid request, a stale or early epoch of the daemon at the fence.
#[verifier::spinoff_prover]
pub proof fn every_method_has_one_class(f: FunnelView, cmd: Command)
    requires
        is_new(f, cmd),
    ensures
        is_authority_method(cmd.method) && completes(f, cmd) ==> by_daemon(f, cmd),
        is_authority_method(cmd.method) && cmd.principal_kind != PrincipalKind::Daemon
            ==> refused_as(f, cmd, ErrorKind::InvalidRequest),
        is_authority_method(cmd.method) && cmd.principal_kind == PrincipalKind::Daemon
            && cmd.attempt_token is None && cmd.authority_epoch is Some && cmd.authority_epoch
            != Some(f.store.epoch) ==> refused_as(f, cmd, ErrorKind::FenceRejected),
        !is_authority_method(cmd.method) && completes(f, cmd) ==> cmd.method.names_unit() is Some
            && bears_token(f, cmd, cmd.method.names_unit()->0),
        !is_authority_method(cmd.method) && !(cmd.method is TokenReissue) && completes(f, cmd)
            ==> by_holder(f, cmd, cmd.method.names_unit()->0),
        !is_authority_method(cmd.method) && cmd.principal_kind != PrincipalKind::Agent
            ==> refused_as(f, cmd, ErrorKind::InvalidRequest),
{
    completion_is_acceptance(f, cmd);
    daemons_pass(f, cmd);
    if cmd.method.names_unit() is Some {
        holders_pass(f, cmd, cmd.method.names_unit()->0);
    }
}

} // verus!
