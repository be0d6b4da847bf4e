//! From the wire to the funnel: the rules of an envelope, and the command that the funnel gets.
use crate::funnel::command as kernel;
use crate::ids::{
    debug_form, has_digest_prefix, is_digest_text, is_wire_identifier, valid_wire_identifier,
    AuthorityEpoch, Digest,
};
use crate::protocol::types::{
    Command, CommandBody, CommandBodyView, CommandView,
    RunCloseOutcome, ScopeKind, TargetView,
};
use crate::protocol::{PAYLOAD_SCHEMA_VERSION, PROTOCOL_VERSION};
use crate::store::{AttemptTokenClaims, AttemptTokenClaimsView};
use crate::text::{copy_list, opt_view, same, views};
use vstd::prelude::*;
use vstd::string::*;

verus! {

/// The most versions that a command may expect.
pub const MAX_EXPECTED_VERSIONS: usize = 8;

/// The identifiers that a payload names.
pub open spec fn payload_identifiers(body: CommandBodyView) -> Seq<Seq<char>> {
    match body {
        CommandBodyView::RunOpen(p) => seq![p.run_id, p.goal_work_item_id],
        CommandBodyView::RunClose(p) => seq![p.run_id],
        CommandBodyView::WorkItemCreate(p) => seq![p.work_item_id],
        CommandBodyView::UnitAdmit(p) => seq![p.unit_id, p.work_item_id, p.run_id],
        CommandBodyView::UnitDispatch(p) => seq![p.unit_id, p.holder_id],
        CommandBodyView::ProgressReport(p) => seq![p.unit_id],
        CommandBodyView::StampBump(p) => seq![p.unit_id],
    }
}

/// Whether every identifier that a payload names is valid.
pub open spec fn payload_identifiers_valid(body: CommandBodyView) -> bool {
    forall|i: int|
        0 <= i < payload_identifiers(body).len() ==> is_wire_identifier(
            #[trigger] payload_identifiers(body)[i],
        )
}

/// The aggregate that a payload is about.
pub open spec fn payload_target(body: CommandBodyView) -> TargetView {
    match body {
        CommandBodyView::RunOpen(p) => TargetView { aggregate_kind: "run"@, aggregate_id: p.run_id },
        CommandBodyView::RunClose(p) => TargetView { aggregate_kind: "run"@, aggregate_id: p.run_id },
        CommandBodyView::WorkItemCreate(p) => TargetView {
            aggregate_kind: "work_item"@,
            aggregate_id: p.work_item_id,
        },
        CommandBodyView::UnitAdmit(p) => TargetView {
            aggregate_kind: "unit"@,
            aggregate_id: p.unit_id,
        },
        CommandBodyView::UnitDispatch(p) => TargetView {
            aggregate_kind: "unit"@,
            aggregate_id: p.unit_id,
        },
        CommandBodyView::ProgressReport(p) => TargetView {
            aggregate_kind: "unit"@,
            aggregate_id: p.unit_id,
        },
        CommandBodyView::StampBump(p) => TargetView {
            aggregate_kind: "unit"@,
            aggregate_id: p.unit_id,
        },
    }
}

/// Whether an optional identifier is valid where it is given.
pub open spec fn optional_valid(o: Option<Seq<char>>) -> bool {
    o is Some ==> is_wire_identifier(o->0)
}

/// Why an envelope is refused, by the first rule that it breaks.
pub open spec fn envelope_fault(c: CommandView) -> Option<Seq<char>> {
    if c.protocol_version@ != PROTOCOL_VERSION {
        Some("unsupported protocol_version"@)
    } else if c.payload_schema_version@ != PAYLOAD_SCHEMA_VERSION {
        Some("unsupported payload_schema_version"@)
    } else if !(is_wire_identifier(c.command_id) && is_wire_identifier(c.scope.scope_id)
        && is_wire_identifier(c.target.aggregate_id) && optional_valid(c.causation_id)
        && optional_valid(c.correlation_id)) {
        Some("envelope identifier is invalid"@)
    } else if c.expected_versions.len() > MAX_EXPECTED_VERSIONS {
        Some("expected_versions has more than 8 entries"@)
    } else if c.body.extras() != Map::<Seq<char>, crate::json::JsonView>::empty() {
        Some("payload has an unknown member"@)
    } else if !payload_identifiers_valid(c.body) {
        Some("payload identifier is invalid"@)
    } else if c.target != payload_target(c.body) {
        Some("target does not match the payload"@)
    } else {
        None
    }
}

fn optional_ok(o: &Option<String>) -> (r: bool)
    ensures
        r == optional_valid(opt_view(*o)),
{
    match o {
        Some(s) => valid_wire_identifier(s),
        None => true,
    }
}

fn payload_identifiers_ok(body: &CommandBody) -> (r: bool)
    ensures
        r == payload_identifiers_valid(body@),
{
    proof {
        let ids = payload_identifiers(body@);
        if payload_identifiers_valid(body@) {
            assert(is_wire_identifier(ids[0]));
            if ids.len() > 1 {
                assert(is_wire_identifier(ids[1]));
            }
            if ids.len() > 2 {
                assert(is_wire_identifier(ids[2]));
            }
        }
    }
    match body {
        CommandBody::RunOpen(p) => valid_wire_identifier(&p.run_id) && valid_wire_identifier(
            &p.goal_work_item_id,
        ),
        CommandBody::RunClose(p) => valid_wire_identifier(&p.run_id),
        CommandBody::WorkItemCreate(p) => valid_wire_identifier(&p.work_item_id),
        CommandBody::UnitAdmit(p) => valid_wire_identifier(&p.unit_id) && valid_wire_identifier(
            &p.work_item_id,
        ) && valid_wire_identifier(&p.run_id),
        CommandBody::UnitDispatch(p) => valid_wire_identifier(&p.unit_id) && valid_wire_identifier(
            &p.holder_id,
        ),
        CommandBody::ProgressReport(p) => valid_wire_identifier(&p.unit_id),
        CommandBody::StampBump(p) => valid_wire_identifier(&p.unit_id),
    }
}

fn target_ok(c: &Command) -> (r: bool)
    ensures
        r == (c@.target == payload_target(c@.body)),
{
    let kind = &c.target.aggregate_kind;
    let id = &c.target.aggregate_id;
    match &c.body {
        CommandBody::RunOpen(p) => same(kind, "run") && same(id, &p.run_id),
        CommandBody::RunClose(p) => same(kind, "run") && same(id, &p.run_id),
        CommandBody::WorkItemCreate(p) => same(kind, "work_item") && same(id, &p.work_item_id),
        CommandBody::UnitAdmit(p) => same(kind, "unit") && same(id, &p.unit_id),
        CommandBody::UnitDispatch(p) => same(kind, "unit") && same(id, &p.unit_id),
        CommandBody::ProgressReport(p) => same(kind, "unit") && same(id, &p.unit_id),
        CommandBody::StampBump(p) => same(kind, "unit") && same(id, &p.unit_id),
    }
}

/// Checks the rules of an envelope.
pub fn validate_envelope(c: &Command) -> (r: Result<(), String>)
    ensures
        match r {
            Ok(()) => envelope_fault(c@) is None,
            Err(e) => envelope_fault(c@) == Some(e@),
        },
{
    if c.protocol_version.get() != PROTOCOL_VERSION {
        return Err("unsupported protocol_version".to_owned());
    }
    if c.payload_schema_version.get() != PAYLOAD_SCHEMA_VERSION {
        return Err("unsupported payload_schema_version".to_owned());
    }
    if !(valid_wire_identifier(&c.command_id) && valid_wire_identifier(&c.scope.scope_id)
        && valid_wire_identifier(&c.target.aggregate_id) && optional_ok(&c.causation_id)
        && optional_ok(&c.correlation_id)) {
        return Err("envelope identifier is invalid".to_owned());
    }
    if c.expected_versions.len() > MAX_EXPECTED_VERSIONS {
        return Err("expected_versions has more than 8 entries".to_owned());
    }
    if c.body.has_extra_fields() {
        return Err("payload has an unknown member".to_owned());
    }
    if !payload_identifiers_ok(&c.body) {
        return Err("payload identifier is invalid".to_owned());
    }
    if !target_ok(c) {
        return Err("target does not match the payload".to_owned());
    }
    Ok(())
}

/// The version that a command expects of its target: none, or the one entry that names it.
pub open spec fn expected_of(c: CommandView) -> Result<Option<u64>, Seq<char>> {
    if c.expected_versions.len() == 0 {
        Ok(None)
    } else if c.expected_versions.len() == 1 && c.expected_versions[0].aggregate_kind
        == c.target.aggregate_kind && c.expected_versions[0].aggregate_id
        == c.target.aggregate_id {
        Ok(Some(c.expected_versions[0].version))
    } else {
        Err("expected_versions may name the target alone"@)
    }
}

/// Why a command cannot be handed to the funnel.
pub open spec fn translation_fault(c: CommandView) -> Option<Seq<char>> {
    match expected_of(c) {
        Err(e) => Some(e),
        Ok(_) => match c.body {
            CommandBodyView::WorkItemCreate(p) => if is_digest_text(p.acceptance_contract_digest) {
                None
            } else if has_digest_prefix(p.acceptance_contract_digest) {
                Some(
                    "digest is not 64 lowercase hex bytes: "@ + debug_form(
                        p.acceptance_contract_digest,
                    ),
                )
            } else {
                Some(
                    "digest missing blake3: prefix: "@ + debug_form(p.acceptance_contract_digest),
                )
            },
            _ => None,
        },
    }
}

/// The kind of scope that the funnel knows.
pub open spec fn kernel_scope(kind: ScopeKind) -> kernel::ScopeKind {
    match kind {
        ScopeKind::Global => kernel::ScopeKind::Global,
        ScopeKind::Project => kernel::ScopeKind::Project,
        ScopeKind::Run => kernel::ScopeKind::Run,
        ScopeKind::Unit => kernel::ScopeKind::Unit,
    }
}

/// The kind of scope that the funnel knows.
pub fn to_kernel_scope(kind: ScopeKind) -> (r: kernel::ScopeKind)
    ensures
        r == kernel_scope(kind),
{
    match kind {
        ScopeKind::Global => kernel::ScopeKind::Global,
        ScopeKind::Project => kernel::ScopeKind::Project,
        ScopeKind::Run => kernel::ScopeKind::Run,
        ScopeKind::Unit => kernel::ScopeKind::Unit,
    }
}

/// Whether a method of the funnel asks for what a payload asks for.
pub open spec fn asks_for(m: kernel::Method, body: CommandBodyView) -> bool {
    match (m, body) {
        (kernel::Method::RunOpen { run_id, goal_work_item_id }, CommandBodyView::RunOpen(p)) =>
            run_id@ == p.run_id && goal_work_item_id@ == p.goal_work_item_id,
        (kernel::Method::RunClose { run_id, outcome }, CommandBodyView::RunClose(p)) => run_id@
            == p.run_id && outcome.wire_text() == p.outcome.wire_text() && outcome
            == kernel_outcome(p.outcome),
        (
            kernel::Method::WorkItemCreate {
                work_item_id,
                acceptance_contract_digest,
                declared_write_scope,
            },
            CommandBodyView::WorkItemCreate(p),
        ) => work_item_id@ == p.work_item_id && acceptance_contract_digest@
            == p.acceptance_contract_digest && views(declared_write_scope@)
            == p.declared_write_scope,
        (
            kernel::Method::UnitAdmit { unit_id, work_item_id, run_id },
            CommandBodyView::UnitAdmit(p),
        ) => unit_id@ == p.unit_id && work_item_id@ == p.work_item_id && run_id@ == p.run_id,
        (kernel::Method::UnitDispatch { unit_id, holder_id }, CommandBodyView::UnitDispatch(p)) =>
            unit_id@ == p.unit_id && holder_id@ == p.holder_id,
        (kernel::Method::ProgressReport { unit_id }, CommandBodyView::ProgressReport(p)) =>
            unit_id@ == p.unit_id,
        (kernel::Method::StampBump { unit_id }, CommandBodyView::StampBump(p)) => unit_id@
            == p.unit_id,
        _ => false,
    }
}

/// The outcome of a run that the funnel knows.
pub open spec fn kernel_outcome(o: RunCloseOutcome) -> kernel::RunOutcome {
    match o {
        RunCloseOutcome::ClosedSuccess => kernel::RunOutcome::ClosedSuccess,
        RunCloseOutcome::ClosedFailure => kernel::RunOutcome::ClosedFailure,
        RunCloseOutcome::Cancelled => kernel::RunOutcome::Cancelled,
    }
}

/// Whether a command of the funnel has the address, the digest and the sender that a command on
/// the wire has: the holder of the token, where there is one, and else the daemon.
pub open spec fn has_envelope(
    k: kernel::Command,
    c: CommandView,
    claims: Option<AttemptTokenClaimsView>,
) -> bool {
    &&& k.command_id@ == c.command_id
    &&& k.scope_kind == kernel_scope(c.scope.scope_kind)
    &&& k.scope_id@ == c.scope.scope_id
    &&& k.request_digest@ == c.request_digest
    &&& k.authority_epoch == (match c.authority_epoch {
        Some(e) => Some(AuthorityEpoch(e)),
        None => None,
    })
    &&& opt_view(k.causation_id) == c.causation_id
    &&& opt_view(k.correlation_id) == c.correlation_id
    &&& match claims {
        Some(t) => k.principal_kind == kernel::PrincipalKind::Agent && k.principal_id@
            == t.holder_id && k.attempt_token is Some && k.attempt_token->0@ == t,
        None => k.principal_kind == kernel::PrincipalKind::Daemon && k.principal_id@
            == "daemon-local"@ && k.attempt_token is None,
    }
}

/// Whether a command of the funnel is the translation of a command on the wire.
pub open spec fn is_translation(
    k: kernel::Command,
    c: CommandView,
    claims: Option<AttemptTokenClaimsView>,
) -> bool {
    &&& has_envelope(k, c, claims)
    &&& expected_of(c) == Ok::<Option<u64>, Seq<char>>(k.expected_version)
    &&& asks_for(k.method, c.body)
}

/// Whether a command of the funnel stands for a command on the wire that is refused under its
/// key.
pub open spec fn is_refusal_of(
    k: kernel::Command,
    c: CommandView,
    claims: Option<AttemptTokenClaimsView>,
) -> bool {
    &&& has_envelope(k, c, claims)
    &&& k.expected_version is None
    &&& k.method is ProgressReport
    &&& k.method->ProgressReport_unit_id@ == c.target.aggregate_id
}

fn envelope(
    c: &Command,
    digest: Digest,
    claims: Option<AttemptTokenClaims>,
    expected_version: Option<u64>,
    method: kernel::Method,
) -> (r: kernel::Command)
    requires
        digest@ == c@.request_digest,
    ensures
        has_envelope(
            r,
            c@,
            match claims {
                Some(t) => Some(t@),
                None => None,
            },
        ),
        r.expected_version == expected_version,
        r.method == method,
{
    let principal_kind = match &claims {
        Some(_) => kernel::PrincipalKind::Agent,
        None => kernel::PrincipalKind::Daemon,
    };
    let principal_id = match &claims {
        Some(t) => t.holder_id.clone(),
        None => "daemon-local".to_owned(),
    };
    let authority_epoch = match &c.authority_epoch {
        Some(e) => Some(AuthorityEpoch(e.get())),
        None => None,
    };
    kernel::Command {
        command_id: c.command_id.clone(),
        scope_kind: to_kernel_scope(c.scope.scope_kind),
        scope_id: c.scope.scope_id.clone(),
        request_digest: digest,
        expected_version,
        principal_kind,
        principal_id,
        authority_epoch,
        attempt_token: claims,
        causation_id: c.causation_id.clone(),
        correlation_id: c.correlation_id.clone(),
        method,
    }
}

/// The command of the funnel under which a command on the wire is refused.
pub fn refusal_command(c: &Command, digest: Digest, claims: Option<AttemptTokenClaims>) -> (r:
    kernel::Command)
    requires
        digest@ == c@.request_digest,
    ensures
        is_refusal_of(
            r,
            c@,
            match claims {
                Some(t) => Some(t@),
                None => None,
            },
        ),
{
    let method = kernel::Method::ProgressReport { unit_id: c.target.aggregate_id.clone() };
    envelope(c, digest, claims, None, method)
}

/// Translates a command on the wire for the funnel.
pub fn into_funnel(c: &Command, digest: Digest, claims: Option<AttemptTokenClaims>) -> (r: Result<
    kernel::Command,
    String,
>)
    requires
        digest@ == c@.request_digest,
    ensures
        match r {
            Ok(k) => translation_fault(c@) is None && is_translation(
                k,
                c@,
                match claims {
                    Some(t) => Some(t@),
                    None => None,
                },
            ),
            Err(e) => translation_fault(c@) == Some(e@),
        },
{
    let expected_version: Option<u64> = if c.expected_versions.len() == 0 {
        None
    } else {
        proof {
            assert(c@.expected_versions[0] == c.expected_versions@[0]@);
        }
        if c.expected_versions.len() == 1 && same(
            &c.expected_versions[0].aggregate_kind,
            &c.target.aggregate_kind,
        ) && same(&c.expected_versions[0].aggregate_id, &c.target.aggregate_id) {
            Some(c.expected_versions[0].version.get())
        } else {
            return Err("expected_versions may name the target alone".to_owned());
        }
    };
    let method = match &c.body {
        CommandBody::RunOpen(p) => kernel::Method::RunOpen {
            run_id: p.run_id.clone(),
            goal_work_item_id: p.goal_work_item_id.clone(),
        },
        CommandBody::RunClose(p) => {
            let outcome = match p.outcome {
                RunCloseOutcome::ClosedSuccess => kernel::RunOutcome::ClosedSuccess,
                RunCloseOutcome::ClosedFailure => kernel::RunOutcome::ClosedFailure,
                RunCloseOutcome::Cancelled => kernel::RunOutcome::Cancelled,
            };
            kernel::Method::RunClose { run_id: p.run_id.clone(), outcome }
        },
        CommandBody::WorkItemCreate(p) => match Digest::try_from(
            p.acceptance_contract_digest.clone(),
        ) {
            Err(e) => {
                return Err(e);
            },
            Ok(d) => kernel::Method::WorkItemCreate {
                work_item_id: p.work_item_id.clone(),
                acceptance_contract_digest: d,
                declared_write_scope: copy_list(&p.declared_write_scope),
            },
        },
        CommandBody::UnitAdmit(p) => kernel::Method::UnitAdmit {
            unit_id: p.unit_id.clone(),
            work_item_id: p.work_item_id.clone(),
            run_id: p.run_id.clone(),
        },
        CommandBody::UnitDispatch(p) => kernel::Method::UnitDispatch {
            unit_id: p.unit_id.clone(),
            holder_id: p.holder_id.clone(),
        },
        CommandBody::ProgressReport(p) => kernel::Method::ProgressReport {
            unit_id: p.unit_id.clone(),
        },
        CommandBody::StampBump(p) => kernel::Method::StampBump { unit_id: p.unit_id.clone() },
    };
    Ok(envelope(c, digest, claims, expected_version, method))
}

} // verus!
