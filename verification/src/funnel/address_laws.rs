//! Which commands are addressed validly: by the identifiers that they name, and by the scope under
//! which they are recorded.
use crate::funnel::command::{Command, Method, ScopeKind};
use crate::funnel::receipt::{identifiers_valid, scope_fits};
use crate::funnel::unit_laws::is_authority_method;
use crate::protocol::route_laws::{digests_show, ids_show, is_digest, is_id};
use vstd::prelude::*;
use vstd::string::*;

verus! {

/// Whether every name of a method is an identifier, and every operation key a digest.
pub open spec fn names_fit(m: Method) -> bool {
    match m {
        Method::RunOpen { run_id, goal_work_item_id } => is_id(run_id@) && is_id(
            goal_work_item_id@,
        ),
        Method::RunClose { run_id, .. } => is_id(run_id@),
        Method::WorkItemCreate { work_item_id, .. } => is_id(work_item_id@),
        Method::UnitAdmit { unit_id, work_item_id, run_id } => is_id(unit_id@) && is_id(
            work_item_id@,
        ) && is_id(run_id@),
        Method::UnitDispatch { unit_id, holder_id } => is_id(unit_id@) && is_id(holder_id@),
        Method::ProgressReport { unit_id } => is_id(unit_id@),
        Method::StampBump { unit_id } => is_id(unit_id@),
        Method::TokenReissue { unit_id } => is_id(unit_id@),
        Method::EffectPrepare { unit_id, spec } => is_id(unit_id@) && is_id(spec.adapter_id@),
        Method::EffectDispatch { unit_id, operation_key } => is_id(unit_id@) && is_digest(
            operation_key@,
        ),
        Method::EffectRecordDispatched { unit_id, operation_key, .. } => is_id(unit_id@)
            && is_digest(operation_key@),
        Method::EffectSettle { unit_id, operation_key, .. } => is_id(unit_id@) && is_digest(
            operation_key@,
        ),
        Method::EffectParkReconciling { unit_id, operation_key, .. } => is_id(unit_id@)
            && is_digest(operation_key@),
        Method::CancelRequest { root_id, proposed, .. } => is_id(root_id@) && forall|i: int|
            0 <= i < proposed@.len() ==> is_id((#[trigger] proposed@[i]).member_id@),
        Method::CancelRecordDelivery { cancel_request_id, member_id, .. } => is_id(
            cancel_request_id@,
        ) && is_id(member_id@),
    }
}

/// The identifiers of a command are valid exactly where its scope, its id, its sender, what caused it
/// and what its method names are.
pub proof fn identifiers_are_checked(cmd: Command)
    ensures
        identifiers_valid(cmd) <==> {
            &&& is_id(cmd.scope_id@)
            &&& is_id(cmd.command_id@)
            &&& is_id(cmd.principal_id@)
            &&& cmd.causation_id is Some ==> is_id(cmd.causation_id->0@)
            &&& cmd.correlation_id is Some ==> is_id(cmd.correlation_id->0@)
            &&& names_fit(cmd.method)
        },
{
    assert forall|s: Seq<char>| #[trigger] crate::ids::is_wire_identifier(s) <==> is_id(s) by {
        ids_show(s);
    }
    assert forall|s: Seq<char>| #[trigger] crate::ids::is_digest_text(s) <==> is_digest(s) by {
        digests_show(s);
    }
    if let Method::CancelRequest { root_id, proposed, .. } = cmd.method {
        if names_fit(cmd.method) {
            assert forall|i: int| 0 <= i < proposed@.len() implies crate::ids::is_wire_identifier(
                (#[trigger] proposed@[i]).member_id@,
            ) by {
                assert(is_id(proposed@[i].member_id@));
            }
        }
        if identifiers_valid(cmd) {
            assert forall|i: int| 0 <= i < proposed@.len() implies is_id(
                (#[trigger] proposed@[i]).member_id@,
            ) by {
                assert(crate::ids::is_wire_identifier(proposed@[i].member_id@));
            }
        }
    }
}

/// Under which scope a method may be recorded: one of a holder under its unit alone; one of the
/// authority globally, or under the run or the unit that it names; a work item also under its
/// project; and a cancellation globally alone.
pub proof fn scopes_are_checked(cmd: Command)
    ensures
        ({
            let global = cmd.scope_kind == ScopeKind::Global;
            let in_run = |id: Seq<char>| cmd.scope_kind == ScopeKind::Run && cmd.scope_id@ == id;
            let in_unit = |id: Seq<char>| cmd.scope_kind == ScopeKind::Unit && cmd.scope_id@ == id;
            &&& !is_authority_method(cmd.method) ==> (scope_fits(cmd) <==> in_unit(
                cmd.method.names_unit()->0,
            ))
            &&& cmd.method is RunOpen ==> (scope_fits(cmd) <==> global || in_run(
                cmd.method->RunOpen_run_id@,
            ))
            &&& cmd.method is RunClose ==> (scope_fits(cmd) <==> global || in_run(
                cmd.method->RunClose_run_id@,
            ))
            &&& cmd.method is WorkItemCreate ==> (scope_fits(cmd) <==> global || cmd.scope_kind
                == ScopeKind::Project)
            &&& cmd.method is UnitAdmit || cmd.method is UnitDispatch || cmd.method is StampBump
                || cmd.method is EffectSettle || cmd.method is EffectParkReconciling ==> (scope_fits(
                cmd,
            ) <==> global || in_unit(cmd.method.names_unit()->0))
            &&& cmd.method is CancelRequest || cmd.method is CancelRecordDelivery ==> (scope_fits(
                cmd,
            ) <==> global)
        }),
{
}

/// What every method is called on the wire.
pub proof fn method_names(m: Method)
    ensures
        m is RunOpen ==> m.type_text() == "run.open"@,
        m is RunClose ==> m.type_text() == "run.close"@,
        m is WorkItemCreate ==> m.type_text() == "work_item.create"@,
        m is UnitAdmit ==> m.type_text() == "unit.admit"@,
        m is UnitDispatch ==> m.type_text() == "unit.dispatch"@,
        m is ProgressReport ==> m.type_text() == "unit.progress_report"@,
        m is StampBump ==> m.type_text() == "unit.stamp_bump"@,
        m is TokenReissue ==> m.type_text() == "unit.token_reissue"@,
        m is EffectPrepare ==> m.type_text() == "effect.prepare"@,
        m is EffectDispatch ==> m.type_text() == "effect.dispatch"@,
        m is EffectRecordDispatched ==> m.type_text() == "effect.record_dispatched"@,
        m is EffectSettle ==> m.type_text() == "effect.settle"@,
        m is EffectParkReconciling ==> m.type_text() == "effect.park_reconciling"@,
        m is CancelRequest ==> m.type_text() == "cancel.request"@,
        m is CancelRecordDelivery ==> m.type_text() == "cancel.record_delivery"@,
{
}

/// What a method names: its unit, where it is about one.
pub proof fn methods_name_their_units(m: Method)
    ensures
        m is UnitAdmit ==> m.names_unit() == Some(m->UnitAdmit_unit_id@),
        m is UnitDispatch ==> m.names_unit() == Some(m->UnitDispatch_unit_id@),
        m is ProgressReport ==> m.names_unit() == Some(m->ProgressReport_unit_id@),
        m is StampBump ==> m.names_unit() == Some(m->StampBump_unit_id@),
        m is TokenReissue ==> m.names_unit() == Some(m->TokenReissue_unit_id@),
        m is EffectPrepare ==> m.names_unit() == Some(m->EffectPrepare_unit_id@),
        m is EffectDispatch ==> m.names_unit() == Some(m->EffectDispatch_unit_id@),
        m is EffectRecordDispatched ==> m.names_unit() == Some(m->EffectRecordDispatched_unit_id@),
        m is EffectSettle ==> m.names_unit() == Some(m->EffectSettle_unit_id@),
        m is EffectParkReconciling ==> m.names_unit() == Some(m->EffectParkReconciling_unit_id@),
        m is RunOpen || m is RunClose || m is WorkItemCreate || m is CancelRequest
            || m is CancelRecordDelivery ==> m.names_unit() is None,
{
}

} // verus!
