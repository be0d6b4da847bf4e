//! What becomes of a command on the wire: which are refused, which go to the funnel and as whom, and
//! what the receipt of each then tells.
use crate::error as kernel_error;
use crate::funnel::command as kernel;
use crate::funnel::command::SubmissionView;
use crate::funnel::FunnelView;
use crate::ids::{blake3_of, hex_of};
use crate::json::{canonical_of, JsonView};
use crate::protocol::adapter::{digest_of, error_of, AdapterView};
use crate::protocol::event::{event_size, projection, time_text};
use crate::funnel::laws::{answered, submitted};
use crate::funnel::submit::{after_refusal, refusal_answer, staged_refusal, CommitOutcome};
use crate::funnel::submit_laws::outside_refusals_are_recorded;
use crate::protocol::handle::{
    close_in, command_leads_to, events_in, opened_in, poll_in, receipt_in, route_of, routed, takes,
    Route, RouteView,
};
use crate::protocol::stream::{published_batch, published_through};
use crate::protocol::MAX_RESUME_EVENTS;
use crate::store::events_after;
use crate::protocol::project::{blake3_keyed_of, receipt_of, result_of, token_of, with_token};
use crate::protocol::translate::is_translation;
use crate::protocol::types::{
    bounded_numbers_are_kept, CommandBodyView, CommandView, Error, ErrorKind, Event, Receipt,
    ReceiptOutcome, ReceiptView, ScopeKind, ServerMessageView, StreamClass, SubscriptionOpened,
    SubscriptionPoll, SubscriptionPollView, TargetView,
};
use crate::protocol::wire::{
    payload_tree, size_fault, target_tree, versions_tree, WireLimitErrorView,
};
use crate::store::{AttemptTokenClaimsView, EventRecordView, ReceiptRowView};
use crate::table::{lookup, read_after_removal, read_after_write, unique, without};
use crate::text::dec;
use vstd::prelude::*;
use vstd::string::*;
use vstd::utf8::encode_utf8;

verus! {

// --- Envelopes -----------------------------------------------------------------------------------

/// Whether a text is an identifier: 1 to 64 letters, digits, `_`, `.`, `:` or `-`.
pub open spec fn is_id(s: Seq<char>) -> bool {
    &&& 1 <= s.len()
    &&& s.len() <= 64
    &&& forall|i: int|
        0 <= i < s.len() ==> {
            ||| 'a' <= (#[trigger] s[i]) <= 'z'
            ||| 'A' <= s[i] <= 'Z'
            ||| '0' <= s[i] <= '9'
            ||| s[i] == '_'
            ||| s[i] == '.'
            ||| s[i] == ':'
            ||| s[i] == '-'
        }
}

/// Whether a text is a digest: its prefix, and 64 lower-case hexadecimal digits.
pub open spec fn is_digest(s: Seq<char>) -> bool {
    &&& s.len() == 71
    &&& s.take(7) == "blake3:"@
    &&& forall|i: int|
        7 <= i < s.len() ==> '0' <= (#[trigger] s[i]) <= '9' || 'a' <= s[i] <= 'f'
}

/// Whether every identifier of a payload is one, and the target is what the payload is about.
pub open spec fn body_fits(body: CommandBodyView, target: TargetView) -> bool {
    match body {
        CommandBodyView::RunOpen(p) => is_id(p.run_id) && is_id(p.goal_work_item_id)
            && target.aggregate_kind == "run"@ && target.aggregate_id == p.run_id,
        CommandBodyView::RunClose(p) => is_id(p.run_id) && target.aggregate_kind == "run"@
            && target.aggregate_id == p.run_id,
        CommandBodyView::WorkItemCreate(p) => is_id(p.work_item_id) && target.aggregate_kind
            == "work_item"@ && target.aggregate_id == p.work_item_id,
        CommandBodyView::UnitAdmit(p) => is_id(p.unit_id) && is_id(p.work_item_id) && is_id(
            p.run_id,
        ) && target.aggregate_kind == "unit"@ && target.aggregate_id == p.unit_id,
        CommandBodyView::UnitDispatch(p) => is_id(p.unit_id) && is_id(p.holder_id)
            && target.aggregate_kind == "unit"@ && target.aggregate_id == p.unit_id,
        CommandBodyView::ProgressReport(p) => is_id(p.unit_id) && target.aggregate_kind == "unit"@
            && target.aggregate_id == p.unit_id,
        CommandBodyView::StampBump(p) => is_id(p.unit_id) && target.aggregate_kind == "unit"@
            && target.aggregate_id == p.unit_id,
    }
}

/// Whether the envelope of a command is good.
pub open spec fn envelope_fits(c: CommandView) -> bool {
    &&& c.protocol_version@ == 1
    &&& c.payload_schema_version@ == 1
    &&& is_id(c.command_id)
    &&& is_id(c.scope.scope_id)
    &&& is_id(c.target.aggregate_id)
    &&& c.causation_id is Some ==> is_id(c.causation_id->0)
    &&& c.correlation_id is Some ==> is_id(c.correlation_id->0)
    &&& c.expected_versions.len() <= 8
    &&& c.body.extras() == Map::<Seq<char>, JsonView>::empty()
    &&& body_fits(c.body, c.target)
}

/// Whether the funnel can be handed what a command asks for: it expects a version of its target
/// alone, if any, and a contract is a digest.
pub open spec fn can_be_handed_on(c: CommandView) -> bool {
    &&& c.expected_versions.len() == 0 || c.expected_versions.len() == 1
        && c.expected_versions[0].aggregate_kind == c.target.aggregate_kind
        && c.expected_versions[0].aggregate_id == c.target.aggregate_id
    &&& c.body is WorkItemCreate ==> is_digest(
        c.body->WorkItemCreate_0.acceptance_contract_digest,
    )
}

/// The digest of what a command asks for: its type, the version of its payload, its target, the
/// versions that it expects, and its payload, in their canonical form.
pub open spec fn digest_for(c: CommandView) -> Seq<char> {
    "blake3:"@ + hex_of(
        blake3_of(
            canonical_of(
                JsonView::Object(
                    Map::empty().insert(
                        "command_type"@,
                        JsonView::Str(c.body.kind().wire_text()),
                    ).insert(
                        "payload_schema_version"@,
                        JsonView::Uint(c.payload_schema_version@ as u64),
                    ).insert("target"@, target_tree(c.target)).insert(
                        "expected_versions"@,
                        versions_tree(c.expected_versions),
                    ).insert("payload"@, payload_tree(c.body)),
                ),
            ),
        ),
    )
}

proof fn envelopes_show(c: CommandView)
    ensures
        crate::protocol::translate::envelope_fault(c) is None <==> envelope_fits(c),
        crate::protocol::translate::translation_fault(c) is None <==> can_be_handed_on(c),
        crate::protocol::adapter::digest_fault(c) is None ==> c.request_digest == digest_for(c)
            && is_digest(c.request_digest),
        crate::protocol::adapter::digest_fault(c) is Some ==> c.request_digest != digest_for(c)
            || !is_digest(c.request_digest),
{
    assert forall|s: Seq<char>| #[trigger] crate::ids::is_wire_identifier(s) <==> is_id(s) by {
        ids_show(s);
    }
    let ids = crate::protocol::translate::payload_identifiers(c.body);
    assert(crate::protocol::translate::payload_identifiers_valid(c.body) <==> (ids.len() > 0
        ==> crate::ids::is_wire_identifier(ids[0])) && (ids.len() > 1
        ==> crate::ids::is_wire_identifier(ids[1])) && (ids.len() > 2
        ==> crate::ids::is_wire_identifier(ids[2]))) by {
        if crate::protocol::translate::payload_identifiers_valid(c.body) {
            if ids.len() > 0 {
                assert(crate::ids::is_wire_identifier(ids[0]));
            }
            if ids.len() > 1 {
                assert(crate::ids::is_wire_identifier(ids[1]));
            }
            if ids.len() > 2 {
                assert(crate::ids::is_wire_identifier(ids[2]));
            }
        }
    }
    assert forall|s: Seq<char>| #[trigger] crate::ids::is_digest_text(s) <==> is_digest(s) by {
        digests_show(s);
    }
}

pub(crate) proof fn ids_show(s: Seq<char>)
    ensures
        crate::ids::is_wire_identifier(s) <==> is_id(s),
{
    if crate::ids::is_wire_identifier(s) {
        assert forall|i: int| 0 <= i < s.len() implies {
            ||| 'a' <= (#[trigger] s[i]) <= 'z'
            ||| 'A' <= s[i] <= 'Z'
            ||| '0' <= s[i] <= '9'
            ||| s[i] == '_'
            ||| s[i] == '.'
            ||| s[i] == ':'
            ||| s[i] == '-'
        } by {
            assert(crate::ids::is_identifier_char(s[i]));
        }
    }
    if is_id(s) {
        assert forall|i: int| 0 <= i < s.len() implies crate::ids::is_identifier_char(
            #[trigger] s[i],
        ) by {}
    }
}

pub(crate) proof fn digests_show(s: Seq<char>)
    ensures
        crate::ids::is_digest_text(s) <==> is_digest(s),
{
    reveal_strlit("blake3:");
    if is_digest(s) {
        let rest = s.skip(7);
        assert forall|i: int| 0 <= i < rest.len() implies crate::text::digit_value(
            #[trigger] rest[i],
        ) < 16 by {
            assert(rest[i] == s[i + 7]);
        }
        assert(s =~= s.take(7) + rest);
    }
    if crate::ids::is_digest_text(s) {
        let rest = s.skip(7);
        assert(s.take(7) =~= "blake3:"@);
        assert forall|i: int| 7 <= i < s.len() implies '0' <= (#[trigger] s[i]) <= '9' || 'a'
            <= s[i] <= 'f' by {
            assert(rest[i - 7] == s[i]);
            assert(crate::text::digit_value(rest[i - 7]) < 16);
        }
    }
}

// --- Routes --------------------------------------------------------------------------------------

/// Whether a route refuses a command as a kind, with nothing recorded.
pub open spec fn refuses(r: RouteView, kind: ErrorKind) -> bool {
    r is Refuse && r->kind == kind
}

/// The claims that the token of a command stands for.
pub open spec fn claims_for(a: AdapterView, c: CommandView) -> Option<AttemptTokenClaimsView> {
    match c.attempt_token {
        Some(token) => lookup(a.by_token, token),
        None => None,
    }
}

/// Whether a report is about the unit that claims are for, on all of its axes.
pub open spec fn is_about(c: CommandView, unit_id: Seq<char>) -> bool {
    &&& c.scope.scope_kind == ScopeKind::Unit
    &&& c.scope.scope_id == unit_id
    &&& c.target.aggregate_kind == "unit"@
    &&& c.target.aggregate_id == unit_id
    &&& c.body is ProgressReport
    &&& c.body->ProgressReport_0.unit_id == unit_id
}

/// What becomes of a command. With a digest that is not its own it is refused as invalid. Outside
/// the global scope it must name the current authority epoch: without one it is invalid, with
/// another it is fenced. Where its envelope is not good, or its scope is another project's, or it
/// cannot be handed on, the refusal is recorded under its key, if its sender is known: a report
/// whose token is not known is refused unrecorded, and one with the token of another unit is
/// fenced. A token that is not known is fenced. Any other command goes to the funnel, as the holder
/// that its token stands for, or else as the daemon.
#[verifier::spinoff_prover]
pub proof fn commands_are_routed(a: AdapterView, c: CommandView)
    ensures
        ({
            let r = route_of(a, c);
            let claims = claims_for(a, c);
            let sealed = is_digest(c.request_digest) && c.request_digest == digest_for(c);
            let timely = sealed && (c.scope.scope_kind == ScopeKind::Global || c.authority_epoch
                == Some(a.funnel.store.epoch.0));
            let sound = timely && envelope_fits(c);
            let home = c.scope.scope_kind == ScopeKind::Project ==> c.scope.scope_id
                == a.project_id;
            let placed = sound && home && (c.body is WorkItemCreate ==> c.scope.scope_kind
                == ScopeKind::Project);
            let known = placed && (c.attempt_token is Some ==> claims is Some);
            &&& !sealed ==> refuses(r, ErrorKind::InvalidRequest)
            &&& sealed && !timely && c.authority_epoch is None ==> refuses(
                r,
                ErrorKind::InvalidRequest,
            )
            &&& sealed && !timely && c.authority_epoch is Some ==> refuses(
                r,
                ErrorKind::FenceRejected,
            )
            &&& timely && !sound && !(c.body is ProgressReport) ==> r is Keyed
                && r->Keyed_claims is None
            &&& timely && !sound && c.body is ProgressReport && claims is None ==> refuses(
                r,
                ErrorKind::InvalidRequest,
            )
            &&& timely && !sound && c.body is ProgressReport && claims is Some && !is_about(
                c,
                claims->0.unit_id,
            ) ==> refuses(r, ErrorKind::FenceRejected)
            &&& timely && !sound && c.body is ProgressReport && claims is Some && is_about(
                c,
                claims->0.unit_id,
            ) ==> r is Keyed && r->Keyed_claims == claims
            &&& sound && !placed ==> r is Keyed && r->Keyed_claims is None
            &&& placed && !known ==> refuses(r, ErrorKind::FenceRejected)
            &&& known && !can_be_handed_on(c) ==> r is Keyed && r->Keyed_claims == claims
            &&& known && can_be_handed_on(c) ==> r == (RouteView::Submit { claims })
        }),
{
    envelopes_show(c);
}

/// The digest of a command is the digest for what it asks for.
pub proof fn digests_are_for_requests(c: CommandView)
    ensures
        digest_of(c) == digest_for(c),
{
}

/// What the funnel is handed of a command on the wire: the same address, digest and epoch, the same
/// request, and the version that it expects of its target; from the holder of the token with its
/// claims, or from the daemon without any.
pub proof fn translations_keep_everything(
    k: kernel::Command,
    c: CommandView,
    claims: Option<AttemptTokenClaimsView>,
)
    requires
        is_translation(k, c, claims),
    ensures
        k.command_id@ == c.command_id,
        k.scope_kind.wire_text() == c.scope.scope_kind.wire_text(),
        k.scope_id@ == c.scope.scope_id,
        k.request_digest@ == c.request_digest,
        c.authority_epoch is Some <==> k.authority_epoch is Some,
        c.authority_epoch is Some ==> (k.authority_epoch->0).0 == c.authority_epoch->0,
        c.expected_versions.len() == 0 <==> k.expected_version is None,
        c.expected_versions.len() == 1 ==> k.expected_version == Some(
            c.expected_versions[0].version,
        ),
        c.expected_versions.len() <= 1,
        claims is Some ==> k.principal_kind == kernel::PrincipalKind::Agent && k.principal_id@
            == claims->0.holder_id && k.attempt_token is Some && k.attempt_token->0@ == claims->0,
        claims is None ==> k.principal_kind == kernel::PrincipalKind::Daemon && k.attempt_token
            is None,
        match c.body {
            CommandBodyView::RunOpen(p) => k.method is RunOpen && k.method->RunOpen_run_id@
                == p.run_id && k.method->RunOpen_goal_work_item_id@ == p.goal_work_item_id,
            CommandBodyView::RunClose(p) => k.method is RunClose && k.method->RunClose_run_id@
                == p.run_id && k.method->RunClose_outcome.wire_text() == p.outcome.wire_text(),
            CommandBodyView::WorkItemCreate(p) => k.method is WorkItemCreate
                && k.method->WorkItemCreate_work_item_id@ == p.work_item_id
                && k.method->WorkItemCreate_acceptance_contract_digest@
                == p.acceptance_contract_digest
                && k.method->WorkItemCreate_declared_write_scope@.len()
                == p.declared_write_scope.len(),
            CommandBodyView::UnitAdmit(p) => k.method is UnitAdmit && k.method->UnitAdmit_unit_id@
                == p.unit_id && k.method->UnitAdmit_work_item_id@ == p.work_item_id
                && k.method->UnitAdmit_run_id@ == p.run_id,
            CommandBodyView::UnitDispatch(p) => k.method is UnitDispatch
                && k.method->UnitDispatch_unit_id@ == p.unit_id
                && k.method->UnitDispatch_holder_id@ == p.holder_id,
            CommandBodyView::ProgressReport(p) => k.method is ProgressReport
                && k.method->ProgressReport_unit_id@ == p.unit_id,
            CommandBodyView::StampBump(p) => k.method is StampBump && k.method->StampBump_unit_id@
                == p.unit_id,
        },
{
}

// --- Receipts ------------------------------------------------------------------------------------

/// What an error tells: its kind, the first 512 characters of its detail, whether the same command
/// may be tried again, and that the outcome must be reconciled where it is not known.
pub proof fn errors_tell(kind: ErrorKind, detail: Seq<char>)
    ensures
        ({
            let e = error_of(kind, detail);
            &&& e.kind == kind
            &&& e.reason == "protocol.rejected"@
            &&& detail.len() <= 512 ==> e.message == detail
            &&& detail.len() > 512 ==> e.message == detail.take(512)
            &&& e.retryable <==> kind == ErrorKind::VersionConflict || kind
                == ErrorKind::ApprovalRequired || kind == ErrorKind::ResourceExhausted || kind
                == ErrorKind::DeadlineExceeded || kind == ErrorKind::Unavailable
            &&& e.reconcile_required <==> kind == ErrorKind::OutcomeUnknown
            &&& e.retry_after_ms is None
            &&& e.details == Some(
                JsonView::Object(Map::empty().insert("detail"@, JsonView::Str(e.message))),
            )
            &&& "error:"@.is_prefix_of(e.occurrence_id)
        }),
{
    let e = error_of(kind, detail);
    assert("error:"@ =~= e.occurrence_id.take("error:"@.len() as int));
}

/// The receipt of a refusal: its kind by the same name, its detail, no result, no version and no
/// cursor. An unknown outcome is told as one. A recorded refusal that cannot be read stops the
/// funnel; nothing else changes.
pub proof fn refusals_are_receipted(a: AdapterView, c: CommandView, s: SubmissionView)
    requires
        s is Rejected,
    ensures
        ({
            let (r, b) = receipt_of(a, c, s);
            &&& r.command_id == c.command_id
            &&& r.scope == c.scope
            &&& r.result is None
            &&& r.state_version is None
            &&& r.event_cursors.len() == 0
            &&& r.receipt_version@ == 1
            &&& r.error is Some
            &&& r.error->0.kind.wire_text() == s->kind.wire_text()
            &&& s->detail.len() <= 512 ==> r.error->0.message == s->detail
            &&& r.outcome == if s->kind == kernel_error::ErrorKind::OutcomeUnknown {
                ReceiptOutcome::OutcomeUnknown
            } else {
                ReceiptOutcome::Rejected
            }
            &&& s->kind == kernel_error::ErrorKind::Internal && s->replayed ==> b == (AdapterView {
                funnel: FunnelView { gate: Some(s->detail), ..a.funnel },
                ..a
            })
            &&& !(s->kind == kernel_error::ErrorKind::Internal && s->replayed) ==> b == a
        }),
{
    bounded_numbers_are_kept(1);
    crate::protocol::types::wire_kinds_agree(s->kind);
    crate::protocol::types::wire_kinds_agree(kernel_error::ErrorKind::Internal);
}

/// The cursors that a receipt row spans, each in turn.
pub open spec fn spans_cursors(row: Option<ReceiptRowView>, list: Seq<u64>) -> bool {
    if row is Some && row->0.first_cursor is Some && row->0.last_cursor is Some {
        &&& list.len() == row->0.last_cursor->0 - row->0.first_cursor->0 + 1
        &&& forall|i: int| 0 <= i < list.len() ==> #[trigger] list[i] == row->0.first_cursor->0 + i
    } else {
        list.len() == 0
    }
}

/// The receipt of a command that was completed or replayed, where its result can be told: completed
/// or replayed, with its version, its cursors and its result, and no error. Where it cannot, the
/// receipt is an internal error and the funnel is stopped.
pub proof fn completions_are_receipted(a: AdapterView, c: CommandView, s: SubmissionView)
    requires
        s is Completed || s is Replayed,
    ensures
        ({
            let (r, b) = receipt_of(a, c, s);
            let v = if s is Completed {
                s->Completed_result
            } else {
                s->Replayed_result
            };
            let row = lookup(
                a.funnel.store.tables.receipts,
                c.scope.scope_kind.wire_text() + "/"@ + c.scope.scope_id + "/"@ + c.command_id,
            );
            let ranged = row is Some && row->0.first_cursor is Some && row->0.last_cursor is Some
                ==> row->0.first_cursor->0 <= row->0.last_cursor->0 && row->0.last_cursor->0
                - row->0.first_cursor->0 < 1024;
            &&& r.command_id == c.command_id
            &&& r.scope == c.scope
            &&& r.receipt_version@ == 1
            &&& ranged && result_of(a, c, v) is Ok ==> {
                &&& r.outcome == if s is Completed {
                    ReceiptOutcome::Completed
                } else {
                    ReceiptOutcome::Replayed
                }
                &&& r.error is None
                &&& r.result == Some(result_of(a, c, v)->Ok_0.0)
                &&& b == result_of(a, c, v)->Ok_0.1
                &&& spans_cursors(row, r.event_cursors)
                &&& v is Object && v->Object_0.dom().contains("version"@)
                    && v->Object_0["version"@] is Uint ==> r.state_version == Some(
                    v->Object_0["version"@]->Uint_0,
                )
            }
            &&& !(ranged && result_of(a, c, v) is Ok) ==> {
                &&& r.outcome == ReceiptOutcome::Rejected
                &&& r.error is Some
                &&& r.error->0.kind == ErrorKind::Internal
                &&& r.result is None
                &&& b.funnel.gate is Some
                &&& b == (AdapterView {
                    funnel: FunnelView { gate: b.funnel.gate, ..a.funnel },
                    ..a
                })
            }
        }),
{
    bounded_numbers_are_kept(1);
}

/// Whether a member of a result is told as it should be: a number that may be large as its decimal
/// text, and anything else as it is.
pub open spec fn is_told(
    from: Map<Seq<char>, JsonView>,
    to: Map<Seq<char>, JsonView>,
    name: Seq<char>,
) -> bool {
    let large = name == "version"@ || name == "attempt_epoch"@ || name == "stamp"@ || name
        == "authority_epoch"@;
    &&& to.dom().contains(name) <==> from.dom().contains(name)
    &&& from.dom().contains(name) && large && from[name] is Uint ==> to[name] == JsonView::Str(
        dec(from[name]->Uint_0 as nat),
    )
    &&& from.dom().contains(name) && !(large && from[name] is Uint) ==> to[name] == from[name]
}

/// What a client is told of the result of any command but a dispatch: every member of it. A result
/// that is no object, or that carries a token or the nonce of one, cannot be told.
#[verifier::spinoff_prover]
pub proof fn results_are_told(a: AdapterView, c: CommandView, v: JsonView)
    requires
        !(c.body is UnitDispatch),
    ensures
        ({
            let t = result_of(a, c, v);
            &&& t is Ok <==> v is Object && !v->Object_0.dom().contains("attempt_token"@)
                && !v->Object_0.dom().contains("token_nonce"@)
            &&& t is Ok ==> t->Ok_0.1 == a && t->Ok_0.0 is Object && forall|name: Seq<char>|
                #[trigger] is_told(v->Object_0, t->Ok_0.0->Object_0, name)
        }),
{
    result_words_differ();
    let t = result_of(a, c, v);
    if t is Ok {
        assert forall|name: Seq<char>| #[trigger]
            is_told(v->Object_0, t->Ok_0.0->Object_0, name) by {}
    }
}

proof fn result_words_differ()
    ensures
        "version"@.len() == 7,
        "attempt_epoch"@.len() == 13,
        "attempt_token"@.len() == 13,
        "attempt_epoch"@[8] == 'e',
        "attempt_token"@[8] == 't',
        "stamp"@.len() == 5,
        "authority_epoch"@.len() == 15,
        "holder_id"@.len() == 9,
        "token_nonce"@.len() == 11,
{
    reveal_strlit("version");
    reveal_strlit("attempt_epoch");
    reveal_strlit("attempt_token");
    reveal_strlit("stamp");
    reveal_strlit("authority_epoch");
    reveal_strlit("holder_id");
    reveal_strlit("token_nonce");
}

/// Whether a dispatch result carries these claims, member by member.
pub open spec fn carries(v: JsonView, t: AttemptTokenClaimsView) -> bool {
    let m = v->Object_0;
    &&& v is Object
    &&& m.dom().contains("unit_id"@) && m["unit_id"@] == JsonView::Str(t.unit_id)
    &&& m.dom().contains("attempt_epoch"@) && m["attempt_epoch"@] == JsonView::Uint(
        t.attempt_epoch.0,
    )
    &&& m.dom().contains("stamp"@) && m["stamp"@] == JsonView::Uint(t.stamp.0)
    &&& m.dom().contains("authority_epoch"@) && m["authority_epoch"@] == JsonView::Uint(
        t.authority_epoch.0,
    )
    &&& m.dom().contains("holder_id"@) && m["holder_id"@] == JsonView::Str(t.holder_id)
    &&& m.dom().contains("token_nonce"@) && m["token_nonce"@] == JsonView::Str(t.nonce)
}

/// What a client is told of a dispatch: the token in place of the claims that it stands for, and
/// every other member. The claims must be those of the unit and the holder that the command names,
/// and of a dispatch that happened; the token is registered where they are current.
#[verifier::spinoff_prover]
#[verifier::rlimit(40)]
pub proof fn dispatches_are_told(
    a: AdapterView,
    c: CommandView,
    v: JsonView,
    t: AttemptTokenClaimsView,
)
    requires
        c.body is UnitDispatch,
        carries(v, t),
    ensures
        ({
            let p = c.body->UnitDispatch_0;
            let m = v->Object_0;
            let told = result_of(a, c, v);
            let token = token_of(a.token_key, a.project_id, t);
            let standing = crate::store::claims_standing(
                a.funnel.store,
                t,
                m["attempt_id"@]->Str_0,
                m["version"@]->Uint_0,
            );
            let x = told->Ok_0.0->Object_0;
            &&& told is Ok <==> {
                &&& !m.dom().contains("attempt_token"@)
                &&& t.unit_id == p.unit_id
                &&& t.holder_id == p.holder_id
                &&& m.dom().contains("attempt_id"@) && m["attempt_id"@] is Str
                &&& m.dom().contains("version"@) && m["version"@] is Uint
                &&& standing is Ok
            }
            &&& told is Ok ==> {
                &&& told->Ok_0.0 is Object
                &&& x.dom().contains("attempt_token"@) && x["attempt_token"@] == JsonView::Str(
                    token,
                )
                &&& !x.dom().contains("attempt_epoch"@)
                &&& !x.dom().contains("stamp"@)
                &&& !x.dom().contains("authority_epoch"@)
                &&& !x.dom().contains("holder_id"@)
                &&& !x.dom().contains("token_nonce"@)
                &&& forall|name: Seq<char>|
                    name != "attempt_token"@ && name != "attempt_epoch"@ && name != "stamp"@ && name
                        != "authority_epoch"@ && name != "holder_id"@ && name != "token_nonce"@
                        ==> #[trigger] is_told(m, x, name)
                &&& standing->Ok_0 ==> told->Ok_0.1 == with_token(a, token, t)
                &&& !standing->Ok_0 ==> told->Ok_0.1 == a
            }
        }),
{
    result_words_differ();
    let told = result_of(a, c, v);
    let m = v->Object_0;
    if told is Ok {
        let x = told->Ok_0.0->Object_0;
        assert forall|name: Seq<char>|
            name != "attempt_token"@ && name != "attempt_epoch"@ && name != "stamp"@ && name
                != "authority_epoch"@ && name != "holder_id"@ && name != "token_nonce"@ implies
            #[trigger] is_told(m, x, name) by {}
    }
}

/// A dispatch result without one of the claims cannot be told.
pub proof fn partial_dispatches_are_not_told(a: AdapterView, c: CommandView, v: JsonView)
    requires
        c.body is UnitDispatch,
        forall|t: AttemptTokenClaimsView| !#[trigger] carries(v, t),
    ensures
        result_of(a, c, v) is Err,
{
    if result_of(a, c, v) is Ok {
        let t = crate::protocol::project::claims_in(v)->Ok_0;
        assert(carries(v, t));
    }
}

/// The token of some claims: the keyed hash of the project and of every one of the claims, so that
/// none of them can be another under one token but by a collision.
pub proof fn tokens_cover_the_claims(
    key: Seq<u8>,
    project_id: Seq<char>,
    t: AttemptTokenClaimsView,
)
    ensures
        token_of(key, project_id, t) == hex_of(
            blake3_keyed_of(
                key,
                canonical_of(
                    JsonView::Object(
                        Map::empty().insert("project_id"@, JsonView::Str(project_id)).insert(
                            "unit_id"@,
                            JsonView::Str(t.unit_id),
                        ).insert(
                            "attempt_epoch"@,
                            JsonView::Str(dec(t.attempt_epoch.0 as nat)),
                        ).insert("stamp"@, JsonView::Str(dec(t.stamp.0 as nat))).insert(
                            "authority_epoch"@,
                            JsonView::Str(dec(t.authority_epoch.0 as nat)),
                        ).insert("holder_id"@, JsonView::Str(t.holder_id)).insert(
                            "nonce"@,
                            JsonView::Str(t.nonce),
                        ),
                    ),
                ),
            ),
        ),
{
}

/// Registering a token leaves the tokens of the other units as they are.
pub proof fn other_tokens_stay(
    a: AdapterView,
    token: Seq<char>,
    t: AttemptTokenClaimsView,
    other: Seq<char>,
)
    requires
        unique(a.by_token),
        other != token,
        lookup(a.by_unit, t.unit_id) != Some(other),
    ensures
        lookup(with_token(a, token, t).by_token, other) == lookup(a.by_token, other),
{
    match lookup(a.by_unit, t.unit_id) {
        Some(previous) => {
            read_after_removal(a.by_token, previous, other);
            read_after_write(without(a.by_token, previous), token, t, other);
        },
        None => {
            read_after_write(a.by_token, token, t, other);
        },
    }
}

// --- Sizes and events ----------------------------------------------------------------------------

/// The limits of a frame: 16 KiB where it holds no command, and else 1 MiB for the command and 256
/// KiB for its payload.
pub proof fn frames_are_limited(
    frame: nat,
    kind: Seq<char>,
    message: nat,
    payload: Result<nat, Seq<char>>,
)
    ensures
        ({
            let fault = size_fault(frame, kind, message, payload);
            &&& kind != "command"@ && frame <= 16_384 ==> fault is None
            &&& kind != "command"@ && frame > 16_384 ==> fault == Some(WireLimitErrorView::Frame)
            &&& kind == "command"@ && message > 1_048_576 ==> fault == Some(
                WireLimitErrorView::Command,
            )
            &&& kind == "command"@ && message <= 1_048_576 && payload is Err ==> fault == Some(
                WireLimitErrorView::Invalid(payload->Err_0),
            )
            &&& kind == "command"@ && message <= 1_048_576 && payload is Ok && payload->Ok_0
                > 262_144 ==> fault == Some(WireLimitErrorView::Payload)
            &&& kind == "command"@ && message <= 1_048_576 && payload is Ok && payload->Ok_0
                <= 262_144 ==> fault is None
        }),
{
}

/// What a record of the journal is on the wire: the same event, member by member, with its time as
/// text and its payload as JSON. A payload over 16 KiB or that is no object, an ordinal over 32 bits,
/// a time after the year 9999, or an event over 64 KiB cannot be told.
#[verifier::spinoff_prover]
pub proof fn records_are_told(e: EventRecordView, parsed: Result<JsonView, Seq<char>>)
    ensures
        ({
            let t = projection(e, parsed);
            let v = t->Ok_0;
            &&& t is Ok ==> {
                &&& parsed is Ok && parsed->Ok_0 is Object
                &&& encode_utf8(e.payload).len() <= 16_384
                &&& event_size(v) <= 65_536
                &&& e.ordinal <= u32::MAX
                &&& e.occurred_at_ms < 253_402_300_800_000
                &&& v.event_id == e.event_id
                &&& v.cursor == e.cursor
                &&& v.stream_class == StreamClass::DurableSemantic
                &&& v.aggregate_kind == e.aggregate_kind
                &&& v.aggregate_id == e.aggregate_id
                &&& v.aggregate_version == e.aggregate_version
                &&& v.ordinal@ == e.ordinal
                &&& v.event_kind == e.event_kind
                &&& v.event_version@ == 1
                &&& v.occurred_at == time_text(e.occurred_at_ms as int)
                &&& v.actor.principal_kind == e.actor_kind
                &&& v.actor.principal_id == e.actor_id
                &&& v.command_id == Some(e.command_id)
                &&& v.causation_id == e.causation_id
                &&& v.correlation_id == e.correlation_id
                &&& v.payload == parsed->Ok_0
            }
            &&& parsed is Ok && parsed->Ok_0 is Object && encode_utf8(e.payload).len() <= 16_384
                && e.ordinal <= u32::MAX && e.occurred_at_ms < 253_402_300_800_000 && event_size(
                crate::protocol::event::event_view(e, parsed->Ok_0),
            ) <= 65_536 ==> t is Ok
        }),
{
    bounded_numbers_are_kept(1);
    bounded_numbers_are_kept(e.ordinal as u32);
}

// --- Answers to commands -------------------------------------------------------------------------

/// What a command leads to. One that is refused at once changes nothing, and its receipt tells the kind.
/// One that goes to the funnel is answered as the funnel answers its translation, and leaves the store
/// that the funnel then has.
#[verifier::spinoff_prover]
#[verifier::rlimit(40)]
pub proof fn commands_reach_the_funnel(
    a: AdapterView,
    c: CommandView,
    outcome: CommitOutcome,
    receipt: ReceiptView,
    b: AdapterView,
)
    requires
        command_leads_to(a, c, outcome, receipt, b),
    ensures
        route_of(a, c) is Refuse ==> b == a && receipt.outcome == ReceiptOutcome::Rejected
            && receipt.error is Some && receipt.error->0.kind == route_of(a, c)->kind
            && receipt.result is None && receipt.command_id == c.command_id,
        route_of(a, c) is Submit ==> exists|k: kernel::Command| #[trigger]
            is_translation(k, c, route_of(a, c)->Submit_claims) && {
                let then = AdapterView { funnel: submitted(a.funnel, k, outcome), ..a };
                &&& receipt == receipt_of(then, c, answered(a.funnel, k, outcome)).0
                &&& b.funnel.store == submitted(a.funnel, k, outcome).store
            },
        receipt.command_id == c.command_id,
        receipt.scope == c.scope,
{
    let r = choose|r: Route| takes(a, c, r) && (receipt, b) == #[trigger] routed(a, c, r, outcome);
    match r {
        Route::Refuse { .. } => {},
        Route::Keyed { command, detail } => {
            let s = staged_refusal(
                a.funnel,
                command,
                kernel_error::ErrorKind::InvalidRequest,
                detail@,
            );
            receipts_name_their_command(
                AdapterView { funnel: after_refusal(a.funnel, s, outcome), ..a },
                c,
                refusal_answer(s, outcome),
            );
        },
        Route::Submit { command } => {
            submissions_lead_on(a, c, command, outcome);
            assert(is_translation(command, c, route_of(a, c)->Submit_claims));
        },
    }
}

proof fn receipts_name_their_command(a: AdapterView, c: CommandView, s: SubmissionView)
    ensures
        receipt_of(a, c, s).0.command_id == c.command_id,
        receipt_of(a, c, s).0.scope == c.scope,
{
}

#[verifier::spinoff_prover]
proof fn submissions_lead_on(
    a: AdapterView,
    c: CommandView,
    command: kernel::Command,
    outcome: CommitOutcome,
)
    ensures
        ({
            let (receipt, b) = routed(a, c, Route::Submit { command }, outcome);
            let then = AdapterView { funnel: submitted(a.funnel, command, outcome), ..a };
            &&& receipt == receipt_of(then, c, answered(a.funnel, command, outcome)).0
            &&& b.funnel.store == submitted(a.funnel, command, outcome).store
            &&& receipt.command_id == c.command_id
            &&& receipt.scope == c.scope
        }),
{
    let then = AdapterView { funnel: submitted(a.funnel, command, outcome), ..a };
    let s = answered(a.funnel, command, outcome);
    let (x, d) = receipt_of(then, c, s);
    receipts_name_their_command(then, c, s);
    receipts_keep_the_store(then, c, s);
    if x.event_cursors.len() > 0 {
        publishing_keeps_the_store(d, x.event_cursors.last());
    }
}

proof fn receipts_keep_the_store(a: AdapterView, c: CommandView, s: SubmissionView)
    ensures
        receipt_of(a, c, s).1.funnel.store == a.funnel.store,
{
}

proof fn batches_keep_the_store(a: AdapterView, records: Seq<EventRecordView>, n: nat)
    ensures
        published_batch(a, records, n).0.funnel.store == a.funnel.store,
    decreases n,
{
    if n > 0 {
        batches_keep_the_store(a, records, (n - 1) as nat);
    }
}

proof fn publishing_keeps_the_store(a: AdapterView, target: u64)
    ensures
        published_through(a, target).funnel.store == a.funnel.store,
    decreases target - a.published_cursor,
{
    if a.published_cursor < target {
        let batch = events_after(
            a.funnel.store.tables.events,
            a.published_cursor,
            MAX_RESUME_EVENTS as nat,
        );
        if batch.len() > 0 {
            let (b, stopped) = published_batch(a, batch, batch.len());
            batches_keep_the_store(a, batch, batch.len());
            if !(stopped || b.published_cursor <= a.published_cursor || b.published_cursor
                >= target) {
                publishing_keeps_the_store(b, target);
            }
        }
    }
}

/// A command whose refusal is recorded, where its key is free: it is rejected as an invalid request, and
/// recorded so under its key; nothing else changes.
pub proof fn keyed_refusals_are_receipted(
    a: AdapterView,
    c: CommandView,
    receipt: ReceiptView,
    b: AdapterView,
)
    requires
        command_leads_to(a, c, CommitOutcome::Committed, receipt, b),
        route_of(a, c) is Keyed,
        a.funnel.gate is None,
        lookup(
            a.funnel.store.tables.receipts,
            c.scope.scope_kind.wire_text() + "/"@ + c.scope.scope_id + "/"@ + c.command_id,
        ) is None,
    ensures
        receipt.outcome == ReceiptOutcome::Rejected,
        receipt.error is Some,
        receipt.error->0.kind == ErrorKind::InvalidRequest,
        receipt.result is None,
        b == (AdapterView { funnel: b.funnel, ..a }),
        b.funnel.gate is None,
        b.funnel.store.tables.events == a.funnel.store.tables.events,
        b.funnel.store.tables.units == a.funnel.store.tables.units,
        b.funnel.store.tables.runs == a.funnel.store.tables.runs,
        ({
            let row = lookup(
                b.funnel.store.tables.receipts,
                c.scope.scope_kind.wire_text() + "/"@ + c.scope.scope_id + "/"@ + c.command_id,
            );
            row is Some && row->0.status == "rejected"@ && row->0.request_digest == c.request_digest
        }),
{
    let r = choose|r: Route|
        takes(a, c, r) && (receipt, b) == #[trigger] routed(a, c, r, CommitOutcome::Committed);
    if let Route::Keyed { command, detail } = r {
        outside_refusals_are_recorded(
            a.funnel,
            command,
            kernel_error::ErrorKind::InvalidRequest,
            detail@,
            CommitOutcome::Committed,
        );
    }
}

/// What a caller gets of an answer: its receipt, its events, its subscription or what a poll found; for
/// an error that error, and for a cursor below the floor that it expired.
pub proof fn callers_are_told(
    m: ServerMessageView,
    receipt: Result<Receipt, Error>,
    events: Result<Vec<Event>, Error>,
    opened: Result<SubscriptionOpened, Error>,
    poll: Result<SubscriptionPoll, Error>,
    close: Result<(), Error>,
)
    requires
        receipt_in(m, receipt),
        events_in(m, events),
        opened_in(m, opened),
        poll_in(m, poll),
        close_in(m, close),
    ensures
        receipt is Ok <==> m is Receipt,
        m is Receipt ==> receipt->Ok_0@ == m->Receipt_0,
        events is Ok <==> m is Events,
        m is Events ==> events->Ok_0@.map_values(|e: Event| e@) == m->Events_0,
        opened is Ok <==> m is SubscriptionOpened,
        m is SubscriptionOpened ==> opened->Ok_0@ == m->SubscriptionOpened_0,
        poll is Ok <==> m is Event || m is SubscriptionPending || m is SlowConsumer,
        m is Event ==> poll->Ok_0@ == SubscriptionPollView::Event(m->Event_0),
        m is SubscriptionPending ==> poll->Ok_0@ == SubscriptionPollView::Pending,
        m is SlowConsumer ==> poll->Ok_0@ == SubscriptionPollView::SlowConsumer(m->SlowConsumer_0),
        close is Ok <==> m is SubscriptionClosed,
        m is Error ==> receipt->Err_0@ == m->Error_0 && events->Err_0@ == m->Error_0
            && opened->Err_0@ == m->Error_0 && poll->Err_0@ == m->Error_0 && close->Err_0@
            == m->Error_0,
        m is CursorExpired ==> events->Err_0@.kind == ErrorKind::CursorExpired
            && opened->Err_0@.kind == ErrorKind::CursorExpired,
{
}

} // verus!
