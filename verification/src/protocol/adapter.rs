//! The in-process adapter: the state between the wire and the funnel, and the order in which a
//! request is judged.
use crate::funnel::{Funnel, FunnelView};
use crate::ids::{
    blake3_hash, blake3_of, debug_form, digest_text, has_digest_prefix, hex, hex_of, hex_shape,
    is_digest_text, Digest,
};
use crate::json::{
    canonical_of, canonical_value, names_are_ordinary, object1, object2, text_value, to_value,
    with_member, Json, JsonView,
};
use crate::protocol::subscription::{
    sub_views, subscriptions_ok, DurableSubscription, DurableSubscriptionView,
};
use crate::protocol::types::{
    bounded_u32, BoundedU32, Command, CommandView, Error, ErrorKind, ErrorView, Receipt,
    ReceiptOutcome, ReceiptView,
};
use crate::protocol::wire::{
    error_encodable, payload_tree, receipt_encodable, target_tree, target_value, versions_tree,
    versions_value,
};
use crate::protocol::{MAX_DURABLE_SUBSCRIPTIONS, MAX_ERROR_DETAIL_CHARS, RECEIPT_VERSION};
use crate::store::{AttemptTokenClaims, AttemptTokenClaimsView};
use crate::table::Table;
use crate::text::{dec, decimal};
use vstd::prelude::*;
use vstd::string::*;
use vstd::utf8::encode_utf8;

verus! {

/// The adapter over one funnel.
#[derive(Debug)]
pub struct InProcessAdapter {
    pub funnel: Funnel,
    pub project_id: String,
    /// The key under which tokens are sealed.
    pub token_key: [u8; 32],
    pub by_token: Table<AttemptTokenClaims>,
    /// The current token of each unit.
    pub by_unit: Table<String>,
    pub subscriptions: Vec<DurableSubscription>,
    pub next_subscription_id: u64,
    pub published_cursor: u64,
}

/// The view of an `InProcessAdapter`.
pub struct AdapterView {
    pub funnel: FunnelView,
    pub project_id: Seq<char>,
    pub token_key: Seq<u8>,
    pub by_token: Seq<(Seq<char>, AttemptTokenClaimsView)>,
    pub by_unit: Seq<(Seq<char>, Seq<char>)>,
    pub subscriptions: Seq<DurableSubscriptionView>,
    pub next_subscription_id: u64,
    pub published_cursor: u64,
}

impl View for InProcessAdapter {
    type V = AdapterView;

    open spec fn view(&self) -> AdapterView {
        AdapterView {
            funnel: self.funnel@,
            project_id: self.project_id@,
            token_key: self.token_key@,
            by_token: self.by_token@,
            by_unit: self.by_unit@,
            subscriptions: sub_views(self.subscriptions@),
            next_subscription_id: self.next_subscription_id,
            published_cursor: self.published_cursor,
        }
    }
}

/// The id of the `k`-th subscription.
pub open spec fn subscription_id(k: nat) -> Seq<char> {
    "subscription-"@ + dec(k)
}

/// Whether an id was handed out among the first `n`.
pub open spec fn handed_out(id: Seq<char>, n: nat) -> bool {
    exists|k: nat| 1 <= k <= n && id == #[trigger] subscription_id(k)
}

/// What every adapter satisfies: its subscriptions are in order and within their limits, and
/// their ids were handed out.
pub open spec fn adapter_ok(a: AdapterView) -> bool {
    &&& subscriptions_ok(a.subscriptions)
    &&& a.subscriptions.len() <= MAX_DURABLE_SUBSCRIPTIONS
    &&& forall|i: int|
        0 <= i < a.subscriptions.len() ==> handed_out(
            (#[trigger] a.subscriptions[i]).id,
            a.next_subscription_id as nat,
        )
}

// --- Errors --------------------------------------------------------------------------------------

/// A detail cut to what an error carries.
pub open spec fn cut(detail: Seq<char>) -> Seq<char> {
    if detail.len() > MAX_ERROR_DETAIL_CHARS {
        detail.take(MAX_ERROR_DETAIL_CHARS as int)
    } else {
        detail
    }
}

/// The error of a kind with a detail. Its occurrence id is made from both.
pub open spec fn error_of(kind: ErrorKind, detail: Seq<char>) -> ErrorView {
    let text = cut(detail);
    ErrorView {
        kind,
        reason: "protocol.rejected"@,
        message: text,
        retryable: kind.may_retry(),
        retry_after_ms: None,
        reconcile_required: kind == ErrorKind::OutcomeUnknown,
        occurrence_id: "error:"@ + dec(kind.place()) + "."@ + hex_of(
            blake3_of(encode_utf8(text)),
        ).take(48),
        details: Some(JsonView::Object(Map::empty().insert("detail"@, JsonView::Str(text)))),
    }
}

/// The error of a kind with a detail.
pub fn protocol_error(kind: ErrorKind, detail: &str) -> (r: Error)
    ensures
        r@ == error_of(kind, detail@),
        error_encodable(r@),
{
    proof {
        names_are_ordinary();
    }
    let text: String = if detail.unicode_len() > MAX_ERROR_DETAIL_CHARS {
        detail.substring_char(0, MAX_ERROR_DETAIL_CHARS).to_owned()
    } else {
        detail.to_owned()
    };
    let hash = blake3_hash(text.as_str().as_bytes());
    let digits = hex(hash.as_slice());
    proof {
        hex_shape(blake3_of(encode_utf8(text@)));
    }
    let mut occurrence_id = "error:".to_owned();
    occurrence_id.append(&decimal(kind.index()));
    occurrence_id.append(".");
    occurrence_id.append(digits.as_str().substring_char(0, 48));
    proof {
        assert(digits@.subrange(0, 48) =~= digits@.take(48));
    }
    let details = object1("detail", text_value(&text));
    Error {
        kind,
        reason: "protocol.rejected".to_owned(),
        message: text,
        retryable: kind.retryable(),
        retry_after_ms: None,
        reconcile_required: kind == ErrorKind::OutcomeUnknown,
        occurrence_id,
        details: Some(details),
    }
}

/// An error asks for reconciliation exactly where the outcome is unknown, and then it may not
/// simply be sent again.
pub proof fn unknown_outcomes_ask_for_reconciliation(kind: ErrorKind, detail: Seq<char>)
    ensures
        error_of(kind, detail).reconcile_required <==> kind == ErrorKind::OutcomeUnknown,
        error_of(kind, detail).reconcile_required ==> !error_of(kind, detail).retryable,
        error_of(kind, detail).message.len() <= MAX_ERROR_DETAIL_CHARS,
{
}

// --- The request digest --------------------------------------------------------------------------

/// What the digest of a request covers: its type, its payload with every member, its target, and
/// the versions that it expects.
pub open spec fn preimage(c: CommandView) -> JsonView {
    JsonView::Object(
        Map::empty().insert("command_type"@, JsonView::Str(c.body.kind().wire_text())).insert(
            "payload_schema_version"@,
            JsonView::Uint(c.payload_schema_version@ as u64),
        ).insert("target"@, target_tree(c.target)).insert(
            "expected_versions"@,
            versions_tree(c.expected_versions),
        ).insert("payload"@, payload_tree(c.body)),
    )
}

/// The digest of a request.
pub open spec fn digest_of(c: CommandView) -> Seq<char> {
    digest_text(canonical_of(preimage(c)))
}

/// The digest of a request, over its canonical form.
pub fn request_digest(command: &Command) -> (r: Digest)
    ensures
        r@ == digest_of(command@),
{
    proof {
        names_are_ordinary();
    }
    let base = to_value(
        &object2(
            "command_type",
            text_value(command.body.command_type().wire()),
            "payload_schema_version",
            Json::Uint(command.payload_schema_version.get() as u64),
        ),
    );
    let a = with_member(base, "target", target_value(&command.target));
    let b = with_member(a, "expected_versions", versions_value(&command.expected_versions));
    let whole = with_member(b, "payload", command.body.payload_json());
    Digest::of_bytes(canonical_value(&whole).as_slice())
}

/// Two requests that ask for the same of the same target have one digest, whatever stands
/// around them.
pub proof fn digests_cover_the_request_alone(a: CommandView, b: CommandView)
    requires
        a.body == b.body,
        a.payload_schema_version == b.payload_schema_version,
        a.target == b.target,
        a.expected_versions == b.expected_versions,
    ensures
        digest_of(a) == digest_of(b),
{
}

/// Why the digest that a command claims is refused.
pub open spec fn digest_fault(c: CommandView) -> Option<Seq<char>> {
    if !has_digest_prefix(c.request_digest) {
        Some("digest missing blake3: prefix: "@ + debug_form(c.request_digest))
    } else if !is_digest_text(c.request_digest) {
        Some("digest is not 64 lowercase hex bytes: "@ + debug_form(c.request_digest))
    } else if c.request_digest != digest_of(c) {
        Some("request_digest does not match canonical command preimage"@)
    } else {
        None
    }
}

/// Checks the digest that a command claims.
pub fn validate_request_digest(command: &Command) -> (r: Result<Digest, String>)
    ensures
        match r {
            Ok(d) => digest_fault(command@) is None && d@ == command@.request_digest,
            Err(e) => digest_fault(command@) == Some(e@),
        },
{
    let claimed = match Digest::try_from(command.request_digest.clone()) {
        Ok(d) => d,
        Err(e) => {
            return Err(e);
        },
    };
    let actual = request_digest(command);
    if !claimed.same_as(&actual) {
        return Err("request_digest does not match canonical command preimage".to_owned());
    }
    Ok(claimed)
}

// --- Receipts of refusals ------------------------------------------------------------------------

/// The receipt of a command that is refused without a record.
pub open spec fn rejection_of(c: CommandView, kind: ErrorKind, detail: Seq<char>) -> ReceiptView {
    ReceiptView {
        command_id: c.command_id,
        scope: c.scope,
        outcome: ReceiptOutcome::Rejected,
        state_version: None,
        event_cursors: Seq::empty(),
        error: Some(error_of(kind, detail)),
        result: None,
        receipt_version: bounded_u32(RECEIPT_VERSION),
    }
}

/// The receipt of a command that is refused without a record.
pub fn rejection_receipt(command: &Command, kind: ErrorKind, detail: &str) -> (r: Receipt)
    ensures
        r@ == rejection_of(command@, kind, detail@),
        receipt_encodable(r@),
{
    let r = Receipt {
        command_id: command.command_id.clone(),
        scope: command.scope.clone(),
        outcome: ReceiptOutcome::Rejected,
        state_version: None,
        event_cursors: Vec::new(),
        error: Some(protocol_error(kind, detail)),
        result: None,
        receipt_version: BoundedU32::new(RECEIPT_VERSION),
    };
    proof {
        assert(r@.event_cursors =~= Seq::<u64>::empty());
    }
    r
}

} // verus!
