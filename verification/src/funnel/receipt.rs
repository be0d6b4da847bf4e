//! Receipts: the address of a command, the row that keeps its answer, and the answer that a
//! stored row gives to a retry.
use crate::cancel::MemberInput;
use crate::error::{error_kind_named, ErrorKind};
use crate::funnel::command::{Command, Method, ScopeKind, Submission, SubmissionView};
use crate::ids::{
    is_digest_text, is_wire_identifier, valid_wire_identifier, AttemptEpoch, AuthorityEpoch,
    Digest, Stamp,
};
use crate::json::{
    from_value, get_text, get_uint, json_ok, json_parse, json_text, json_tree, names_are_ordinary,
    object2, parse_value, render_json, text_member, text_value, uint_member, Json, JsonView,
};
use crate::store::{AttemptTokenClaims, AttemptTokenClaimsView, ReceiptRow, ReceiptRowView};
use crate::text::same;
use serde_json::Value;
use vstd::prelude::*;
use vstd::string::*;

verus! {

/// The version of the receipt rows.
pub const RECEIPT_ROW_VERSION: u64 = 1;

/// The most characters of a detail that a receipt keeps.
pub const MAX_DETAIL_CHARS: usize = 512;

// --- Addresses -----------------------------------------------------------------------------------

/// The key of a command's receipt: scope kind, scope id and command id.
pub open spec fn receipt_key_of(cmd: Command) -> Seq<char> {
    cmd.scope_kind.wire_text() + "/"@ + cmd.scope_id@ + "/"@ + cmd.command_id@
}

/// The key of a command's receipt.
pub fn receipt_key(cmd: &Command) -> (r: String)
    ensures
        r@ == receipt_key_of(*cmd),
{
    let mut key = cmd.scope_kind.wire().to_owned();
    key.append("/");
    key.append(&cmd.scope_id);
    key.append("/");
    key.append(&cmd.command_id);
    key
}

/// Whether an optional identifier is valid where it is given.
pub open spec fn optional_identifier(o: Option<String>) -> bool {
    o is Some ==> is_wire_identifier(o->0@)
}

fn optional_is_valid(o: &Option<String>) -> (r: bool)
    ensures
        r == optional_identifier(*o),
{
    match o {
        Some(s) => valid_wire_identifier(s),
        None => true,
    }
}

/// Whether every identifier of a method is valid: names are wire identifiers, and operation
/// keys are digests.
pub open spec fn method_identifiers(method: Method) -> bool {
    match method {
        Method::RunOpen { run_id, goal_work_item_id } => is_wire_identifier(run_id@)
            && is_wire_identifier(goal_work_item_id@),
        Method::RunClose { run_id, .. } => is_wire_identifier(run_id@),
        Method::WorkItemCreate { work_item_id, .. } => is_wire_identifier(work_item_id@),
        Method::UnitAdmit { unit_id, work_item_id, run_id } => is_wire_identifier(unit_id@)
            && is_wire_identifier(work_item_id@) && is_wire_identifier(run_id@),
        Method::UnitDispatch { unit_id, holder_id } => is_wire_identifier(unit_id@)
            && is_wire_identifier(holder_id@),
        Method::ProgressReport { unit_id } => is_wire_identifier(unit_id@),
        Method::StampBump { unit_id } => is_wire_identifier(unit_id@),
        Method::TokenReissue { unit_id } => is_wire_identifier(unit_id@),
        Method::EffectPrepare { unit_id, spec } => is_wire_identifier(unit_id@)
            && is_wire_identifier(spec.adapter_id@),
        Method::EffectDispatch { unit_id, operation_key } => is_wire_identifier(unit_id@)
            && is_digest_text(operation_key@),
        Method::EffectRecordDispatched { unit_id, operation_key, .. } => is_wire_identifier(
            unit_id@,
        ) && is_digest_text(operation_key@),
        Method::EffectSettle { unit_id, operation_key, .. } => is_wire_identifier(unit_id@)
            && is_digest_text(operation_key@),
        Method::EffectParkReconciling { unit_id, operation_key, .. } => is_wire_identifier(
            unit_id@,
        ) && is_digest_text(operation_key@),
        Method::CancelRequest { root_id, proposed, .. } => is_wire_identifier(root_id@)
            && forall|i: int|
            0 <= i < proposed@.len() ==> is_wire_identifier((#[trigger] proposed@[i]).member_id@),
        Method::CancelRecordDelivery { cancel_request_id, member_id, .. } => is_wire_identifier(
            cancel_request_id@,
        ) && is_wire_identifier(member_id@),
    }
}

fn is_digest(s: &String) -> (r: bool)
    ensures
        r == is_digest_text(s@),
{
    match Digest::try_from(s.clone()) {
        Ok(_) => true,
        Err(_) => false,
    }
}

fn members_are_valid(proposed: &Vec<MemberInput>) -> (r: bool)
    ensures
        r == (forall|i: int|
            0 <= i < proposed@.len() ==> is_wire_identifier((#[trigger] proposed@[i]).member_id@)),
{
    let mut i: usize = 0;
    while i < proposed.len()
        invariant
            i <= proposed.len(),
            forall|k: int|
                0 <= k < i ==> is_wire_identifier((#[trigger] proposed@[k]).member_id@),
        decreases proposed.len() - i,
    {
        if !valid_wire_identifier(&proposed[i].member_id) {
            proof {
                assert(!is_wire_identifier(proposed@[i as int].member_id@));
            }
            return false;
        }
        i += 1;
    }
    true
}

/// Whether every identifier of a method is valid.
pub fn method_identifiers_are_valid(method: &Method) -> (r: bool)
    ensures
        r == method_identifiers(*method),
{
    match method {
        Method::RunOpen { run_id, goal_work_item_id } => valid_wire_identifier(run_id)
            && valid_wire_identifier(goal_work_item_id),
        Method::RunClose { run_id, .. } => valid_wire_identifier(run_id),
        Method::WorkItemCreate { work_item_id, .. } => valid_wire_identifier(work_item_id),
        Method::UnitAdmit { unit_id, work_item_id, run_id } => valid_wire_identifier(unit_id)
            && valid_wire_identifier(work_item_id) && valid_wire_identifier(run_id),
        Method::UnitDispatch { unit_id, holder_id } => valid_wire_identifier(unit_id)
            && valid_wire_identifier(holder_id),
        Method::ProgressReport { unit_id } => valid_wire_identifier(unit_id),
        Method::StampBump { unit_id } => valid_wire_identifier(unit_id),
        Method::TokenReissue { unit_id } => valid_wire_identifier(unit_id),
        Method::EffectPrepare { unit_id, spec } => valid_wire_identifier(unit_id)
            && valid_wire_identifier(&spec.adapter_id),
        Method::EffectDispatch { unit_id, operation_key } => valid_wire_identifier(unit_id)
            && is_digest(operation_key),
        Method::EffectRecordDispatched { unit_id, operation_key, .. } => valid_wire_identifier(
            unit_id,
        ) && is_digest(operation_key),
        Method::EffectSettle { unit_id, operation_key, .. } => valid_wire_identifier(unit_id)
            && is_digest(operation_key),
        Method::EffectParkReconciling { unit_id, operation_key, .. } => valid_wire_identifier(
            unit_id,
        ) && is_digest(operation_key),
        Method::CancelRequest { root_id, proposed, .. } => valid_wire_identifier(root_id)
            && members_are_valid(proposed),
        Method::CancelRecordDelivery { cancel_request_id, member_id, .. } => valid_wire_identifier(
            cancel_request_id,
        ) && valid_wire_identifier(member_id),
    }
}

/// Whether every identifier of a command is valid.
pub open spec fn identifiers_valid(cmd: Command) -> bool {
    &&& is_wire_identifier(cmd.scope_id@)
    &&& is_wire_identifier(cmd.command_id@)
    &&& is_wire_identifier(cmd.principal_id@)
    &&& optional_identifier(cmd.causation_id)
    &&& optional_identifier(cmd.correlation_id)
    &&& method_identifiers(cmd.method)
}

/// Whether every identifier of a command is valid.
pub fn identifiers_are_valid(cmd: &Command) -> (r: bool)
    ensures
        r == identifiers_valid(*cmd),
{
    valid_wire_identifier(&cmd.scope_id) && valid_wire_identifier(&cmd.command_id)
        && valid_wire_identifier(&cmd.principal_id) && optional_is_valid(&cmd.causation_id)
        && optional_is_valid(&cmd.correlation_id) && method_identifiers_are_valid(&cmd.method)
}

/// Whether a project scope names the project.
pub fn project_scope_is_valid(cmd: &Command, project_id: &str) -> (r: bool)
    ensures
        r == (cmd.scope_kind != ScopeKind::Project || cmd.scope_id@ == project_id@),
{
    cmd.scope_kind != ScopeKind::Project || same(&cmd.scope_id, project_id)
}

/// Whether a command is scoped to a unit.
pub open spec fn scoped_to_unit(cmd: Command, unit_id: Seq<char>) -> bool {
    cmd.scope_kind == ScopeKind::Unit && cmd.scope_id@ == unit_id
}

/// Whether the scope of a command fits its method: holder methods are scoped to their unit,
/// authority methods to what they name or globally.
pub open spec fn scope_fits(cmd: Command) -> bool {
    match cmd.method {
        Method::RunOpen { run_id, .. } => cmd.scope_kind == ScopeKind::Global || (cmd.scope_kind
            == ScopeKind::Run && cmd.scope_id@ == run_id@),
        Method::RunClose { run_id, .. } => cmd.scope_kind == ScopeKind::Global || (cmd.scope_kind
            == ScopeKind::Run && cmd.scope_id@ == run_id@),
        Method::WorkItemCreate { .. } => cmd.scope_kind == ScopeKind::Global || cmd.scope_kind
            == ScopeKind::Project,
        Method::ProgressReport { unit_id } => scoped_to_unit(cmd, unit_id@),
        Method::TokenReissue { unit_id } => scoped_to_unit(cmd, unit_id@),
        Method::EffectPrepare { unit_id, .. } => scoped_to_unit(cmd, unit_id@),
        Method::EffectDispatch { unit_id, .. } => scoped_to_unit(cmd, unit_id@),
        Method::EffectRecordDispatched { unit_id, .. } => scoped_to_unit(cmd, unit_id@),
        Method::UnitAdmit { unit_id, .. } => cmd.scope_kind == ScopeKind::Global || scoped_to_unit(
            cmd,
            unit_id@,
        ),
        Method::UnitDispatch { unit_id, .. } => cmd.scope_kind == ScopeKind::Global
            || scoped_to_unit(cmd, unit_id@),
        Method::StampBump { unit_id } => cmd.scope_kind == ScopeKind::Global || scoped_to_unit(
            cmd,
            unit_id@,
        ),
        Method::EffectSettle { unit_id, .. } => cmd.scope_kind == ScopeKind::Global
            || scoped_to_unit(cmd, unit_id@),
        Method::EffectParkReconciling { unit_id, .. } => cmd.scope_kind == ScopeKind::Global
            || scoped_to_unit(cmd, unit_id@),
        Method::CancelRequest { .. } => cmd.scope_kind == ScopeKind::Global,
        Method::CancelRecordDelivery { .. } => cmd.scope_kind == ScopeKind::Global,
    }
}

fn in_unit(cmd: &Command, unit_id: &str) -> (r: bool)
    ensures
        r == scoped_to_unit(*cmd, unit_id@),
{
    cmd.scope_kind == ScopeKind::Unit && same(&cmd.scope_id, unit_id)
}

/// Whether a command is addressed validly: its identifiers, its project scope, and its scope
/// against its method.
pub fn address_is_valid(cmd: &Command, project_id: &str) -> (r: bool)
    ensures
        r == (identifiers_valid(*cmd) && (cmd.scope_kind != ScopeKind::Project || cmd.scope_id@
            == project_id@) && scope_fits(*cmd)),
{
    if !identifiers_are_valid(cmd) || !project_scope_is_valid(cmd, project_id) {
        return false;
    }
    let global = cmd.scope_kind == ScopeKind::Global;
    match &cmd.method {
        Method::RunOpen { run_id, .. } => global || (cmd.scope_kind == ScopeKind::Run && same(
            &cmd.scope_id,
            run_id,
        )),
        Method::RunClose { run_id, .. } => global || (cmd.scope_kind == ScopeKind::Run && same(
            &cmd.scope_id,
            run_id,
        )),
        Method::WorkItemCreate { .. } => global || cmd.scope_kind == ScopeKind::Project,
        Method::ProgressReport { unit_id } => in_unit(cmd, unit_id),
        Method::TokenReissue { unit_id } => in_unit(cmd, unit_id),
        Method::EffectPrepare { unit_id, .. } => in_unit(cmd, unit_id),
        Method::EffectDispatch { unit_id, .. } => in_unit(cmd, unit_id),
        Method::EffectRecordDispatched { unit_id, .. } => in_unit(cmd, unit_id),
        Method::UnitAdmit { unit_id, .. } => global || in_unit(cmd, unit_id),
        Method::UnitDispatch { unit_id, .. } => global || in_unit(cmd, unit_id),
        Method::StampBump { unit_id } => global || in_unit(cmd, unit_id),
        Method::EffectSettle { unit_id, .. } => global || in_unit(cmd, unit_id),
        Method::EffectParkReconciling { unit_id, .. } => global || in_unit(cmd, unit_id),
        Method::CancelRequest { .. } => global,
        Method::CancelRecordDelivery { .. } => global,
    }
}

// --- Rows ----------------------------------------------------------------------------------------

/// The row of a receipt.
pub open spec fn receipt_row_of(
    cmd: Command,
    status: Seq<char>,
    result: Seq<char>,
    cursors: Option<(u64, u64)>,
) -> ReceiptRowView {
    ReceiptRowView {
        receipt_key: receipt_key_of(cmd),
        command_type: cmd.method.type_text(),
        receipt_version: RECEIPT_ROW_VERSION,
        request_digest: cmd.request_digest@,
        principal_kind: cmd.principal_kind.wire_text(),
        principal_id: cmd.principal_id@,
        status,
        result,
        first_cursor: match cursors {
            Some(c) => Some(c.0),
            None => None,
        },
        last_cursor: match cursors {
            Some(c) => Some(c.1),
            None => None,
        },
    }
}

/// The row of a receipt.
pub fn properties(cmd: &Command, status: &str, result: String, cursors: Option<(u64, u64)>) -> (r:
    ReceiptRow)
    ensures
        r@ == receipt_row_of(*cmd, status@, result@, cursors),
{
    let first_cursor = match cursors {
        Some(c) => Some(c.0),
        None => None,
    };
    let last_cursor = match cursors {
        Some(c) => Some(c.1),
        None => None,
    };
    ReceiptRow {
        receipt_key: receipt_key(cmd),
        command_type: cmd.method.type_wire().to_owned(),
        receipt_version: RECEIPT_ROW_VERSION,
        request_digest: cmd.request_digest.as_str().to_owned(),
        principal_kind: cmd.principal_kind.wire().to_owned(),
        principal_id: cmd.principal_id.clone(),
        status: status.to_owned(),
        result,
        first_cursor,
        last_cursor,
    }
}

/// The value that a refusal is kept as.
pub open spec fn refusal_value(kind: ErrorKind, detail: Seq<char>) -> JsonView {
    JsonView::Object(
        Map::empty().insert("error_kind"@, JsonView::Str(kind.wire_text())).insert(
            "detail"@,
            JsonView::Str(detail),
        ),
    )
}

/// The text that a refusal is kept as. It reads back as the refusal.
pub fn refusal_text(kind: ErrorKind, detail: &str) -> (r: String)
    ensures
        r@ == json_text(refusal_value(kind, detail@)),
        json_parse(r@) == json_ok(refusal_value(kind, detail@)),
{
    proof {
        names_are_ordinary();
    }
    render_json(
        &object2("error_kind", text_value(kind.wire()), "detail", text_value(detail)),
    )
}

/// A detail cut to what a receipt keeps.
pub open spec fn bounded(detail: Seq<char>) -> Seq<char> {
    if detail.len() > MAX_DETAIL_CHARS {
        detail.take(MAX_DETAIL_CHARS as int)
    } else {
        detail
    }
}

/// A detail cut to what a receipt keeps.
pub fn bounded_detail(detail: &str) -> (r: String)
    ensures
        r@ == bounded(detail@),
{
    if detail.unicode_len() > MAX_DETAIL_CHARS {
        detail.substring_char(0, MAX_DETAIL_CHARS).to_owned()
    } else {
        detail.to_owned()
    }
}

// --- Replay --------------------------------------------------------------------------------------

/// What was read of a stored receipt: each part may be missing.
#[derive(Debug)]
pub struct StoredReceipt {
    pub request_digest: Option<String>,
    pub principal_kind: Option<String>,
    pub principal_id: Option<String>,
    pub status: Option<String>,
    pub result: Option<String>,
}

/// The refusal with a kind and a fixed detail.
pub open spec fn refused(kind: ErrorKind, detail: Seq<char>, replayed: bool) -> SubmissionView {
    SubmissionView::Rejected { kind, detail, replayed }
}

/// The kind of a stored refusal: the named one, or internal.
pub open spec fn stored_kind(value: JsonView) -> ErrorKind {
    if value is Object && value->Object_0.dom().contains("error_kind"@) {
        match value->Object_0["error_kind"@] {
            JsonView::Str(name) => match error_kind_named(name) {
                Some(kind) => kind,
                None => ErrorKind::Internal,
            },
            _ => ErrorKind::Internal,
        }
    } else {
        ErrorKind::Internal
    }
}

/// The detail of a stored refusal, or nothing.
pub open spec fn stored_detail(value: JsonView) -> Seq<char> {
    if value is Object && value->Object_0.dom().contains("detail"@) {
        match value->Object_0["detail"@] {
            JsonView::Str(s) => s,
            _ => ""@,
        }
    } else {
        ""@
    }
}

/// The answer that a readable receipt gives: another digest conflicts, another principal is
/// refused, and otherwise the stored answer comes back.
pub open spec fn replay_answer(
    cmd: Command,
    digest: Seq<char>,
    principal_kind: Seq<char>,
    principal_id: Seq<char>,
    status: Seq<char>,
    result: Seq<char>,
) -> SubmissionView {
    if digest != cmd.request_digest@ {
        refused(
            ErrorKind::IdempotencyConflict,
            "same command_id, different request digest"@,
            false,
        )
    } else if principal_kind != cmd.principal_kind.wire_text() || principal_id
        != cmd.principal_id@ {
        refused(ErrorKind::Unauthorized, "receipt belongs to a different principal"@, false)
    } else {
        match json_parse(result) {
            Err(error) => refused(
                ErrorKind::Internal,
                "receipt result is invalid JSON: "@ + error,
                false,
            ),
            Ok(value) => stored_answer(status, value),
        }
    }
}

/// The answer that a stored status and value give.
pub open spec fn stored_answer(status: Seq<char>, value: JsonView) -> SubmissionView {
    if status == "completed"@ {
        SubmissionView::Replayed { result: value }
    } else {
        refused(stored_kind(value), stored_detail(value), true)
    }
}

/// The answer that a stored receipt gives. A row with a missing part is unreadable.
pub open spec fn replayed(cmd: Command, stored: Option<StoredReceipt>) -> SubmissionView {
    match stored {
        Some(
            StoredReceipt {
                request_digest: Some(digest),
                principal_kind: Some(kind),
                principal_id: Some(id),
                status: Some(status),
                result: Some(result),
            },
        ) => replay_answer(cmd, digest@, kind@, id@, status@, result@),
        _ => refused(ErrorKind::Internal, "receipt row unreadable"@, false),
    }
}

/// The answer that a stored status and value give.
pub fn answer_from(status: &str, result: Value) -> (r: Submission)
    ensures
        r@ == stored_answer(status@, json_tree(result)),
{
    if same(status, "completed") {
        return Submission::Replayed { result };
    }
    let value = from_value(&result);
    let kind = match value.get("error_kind") {
        Some(Json::Str(name)) => match ErrorKind::from_wire(name) {
            Some(kind) => kind,
            None => ErrorKind::Internal,
        },
        _ => ErrorKind::Internal,
    };
    let detail = match value.get("detail") {
        Some(Json::Str(s)) => s.clone(),
        _ => "".to_owned(),
    };
    Submission::Rejected { kind, detail, replayed: true }
}

/// The answer that a stored receipt gives to a command.
pub fn replay_stored(cmd: &Command, stored: Option<StoredReceipt>) -> (r: Submission)
    ensures
        r@ == replayed(*cmd, stored),
{
    match stored {
        Some(
            StoredReceipt {
                request_digest: Some(digest),
                principal_kind: Some(kind),
                principal_id: Some(id),
                status: Some(status),
                result: Some(result),
            },
        ) => {
            if !same(&digest, cmd.request_digest.as_str()) {
                return Submission::Rejected {
                    kind: ErrorKind::IdempotencyConflict,
                    detail: "same command_id, different request digest".to_owned(),
                    replayed: false,
                };
            }
            if !same(&kind, cmd.principal_kind.wire()) || !same(&id, &cmd.principal_id) {
                return Submission::Rejected {
                    kind: ErrorKind::Unauthorized,
                    detail: "receipt belongs to a different principal".to_owned(),
                    replayed: false,
                };
            }
            match parse_value(&result) {
                Ok(value) => answer_from(&status, value),
                Err(error) => {
                    let mut detail = "receipt result is invalid JSON: ".to_owned();
                    detail.append(&error);
                    Submission::Rejected { kind: ErrorKind::Internal, detail, replayed: false }
                },
            }
        },
        _ => Submission::Rejected {
            kind: ErrorKind::Internal,
            detail: "receipt row unreadable".to_owned(),
            replayed: false,
        },
    }
}

/// The token that a result carries, where every part of it is there.
pub open spec fn token_in(value: JsonView) -> Option<AttemptTokenClaimsView> {
    match (
        text_member(value, "unit_id"@),
        uint_member(value, "attempt_epoch"@),
        uint_member(value, "stamp"@),
        uint_member(value, "authority_epoch"@),
        text_member(value, "holder_id"@),
        text_member(value, "token_nonce"@),
    ) {
        (Some(unit_id), Some(epoch), Some(stamp), Some(authority), Some(holder_id), Some(nonce)) =>
            Some(
            AttemptTokenClaimsView {
                unit_id,
                attempt_epoch: AttemptEpoch(epoch),
                stamp: Stamp(stamp),
                authority_epoch: AuthorityEpoch(authority),
                holder_id,
                nonce,
            },
        ),
        _ => None,
    }
}

/// Rebuilds the token claims from the result of a dispatch or a reissue.
pub fn token_from_result(result: &Value) -> (r: Option<AttemptTokenClaims>)
    ensures
        match r {
            Some(token) => token_in(json_tree(*result)) == Some(token@),
            None => token_in(json_tree(*result)) is None,
        },
{
    let value = from_value(result);
    match (
        get_text(&value, "unit_id"),
        get_uint(&value, "attempt_epoch"),
        get_uint(&value, "stamp"),
        get_uint(&value, "authority_epoch"),
        get_text(&value, "holder_id"),
        get_text(&value, "token_nonce"),
    ) {
        (Some(unit_id), Some(epoch), Some(stamp), Some(authority), Some(holder_id), Some(nonce)) =>
            Some(
            AttemptTokenClaims {
                unit_id,
                attempt_epoch: AttemptEpoch(epoch),
                stamp: Stamp(stamp),
                authority_epoch: AuthorityEpoch(authority),
                holder_id,
                nonce,
            },
        ),
        _ => None,
    }
}

} // verus!
