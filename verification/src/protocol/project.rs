//! From the funnel to the wire: the receipt of a submission, and the tokens that a dispatch
//! hands out.
use crate::error::ErrorKind as KernelErrorKind;
use crate::funnel::command::{Submission, SubmissionView};
use crate::funnel::FunnelView;
use crate::ids::{hex, hex_of, AttemptEpoch, AuthorityEpoch, Stamp};
use crate::json::{
    canonical_bytes, canonical_of, from_value, get_text, get_uint, json_tree, member_map,
    names_are_ordinary, object, other_members, others, put, text_member, text_value, to_value,
    uint_member, with_member, with_members, Json, JsonView,
};
use crate::protocol::adapter::{rejection_of, rejection_receipt, AdapterView, InProcessAdapter};
use crate::protocol::types::{
    bounded_u32, BoundedU32, Command, CommandBody, CommandBodyView, CommandView, DecimalU64,
    ErrorKind, Receipt, ReceiptOutcome, ReceiptView,
};
use crate::protocol::wire::receipt_encodable;
use crate::protocol::{MAX_RESUME_EVENTS, RECEIPT_VERSION};
use crate::store::{
    claims_standing, internal_form, internal_text, AttemptTokenClaims, AttemptTokenClaimsView,
    ReceiptRowView,
};
use crate::table::{lookup, read_after_removal, read_after_write, unique, upsert, without};
use crate::text::{dec, decimal, same, views};
use serde_json::Value;
use vstd::prelude::*;
use vstd::string::*;

verus! {

// --- Tokens --------------------------------------------------------------------------------------

/// The 32 bytes of the keyed BLAKE3 hash of a message.
pub uninterp spec fn blake3_keyed_of(key: Seq<u8>, message: Seq<u8>) -> Seq<u8>;

/// `blake3::keyed_hash` and `Hash::as_bytes`: the keyed hash of a message, a function of the key
/// and the bytes.
#[verifier::external_body]
fn blake3_keyed_hash(key: &[u8; 32], message: &[u8]) -> (r: [u8; 32])
    ensures
        r@ == blake3_keyed_of(key@, message@),
{
    *blake3::keyed_hash(key, message).as_bytes()
}

/// What a token seals.
pub open spec fn token_tree(project_id: Seq<char>, t: AttemptTokenClaimsView) -> JsonView {
    JsonView::Object(
        Map::empty().insert("project_id"@, JsonView::Str(project_id)).insert(
            "unit_id"@,
            JsonView::Str(t.unit_id),
        ).insert("attempt_epoch"@, JsonView::Str(dec(t.attempt_epoch.0 as nat))).insert(
            "stamp"@,
            JsonView::Str(dec(t.stamp.0 as nat)),
        ).insert("authority_epoch"@, JsonView::Str(dec(t.authority_epoch.0 as nat))).insert(
            "holder_id"@,
            JsonView::Str(t.holder_id),
        ).insert("nonce"@, JsonView::Str(t.nonce)),
    )
}

/// The token of some claims: the same in every lifetime that has the key.
pub open spec fn token_of(
    key: Seq<u8>,
    project_id: Seq<char>,
    t: AttemptTokenClaimsView,
) -> Seq<char> {
    hex_of(blake3_keyed_of(key, canonical_of(token_tree(project_id, t))))
}

/// The token of some claims.
pub fn token_for(key: &[u8; 32], project_id: &str, t: &AttemptTokenClaims) -> (r: String)
    ensures
        r@ == token_of(key@, project_id@, t@),
{
    proof {
        names_are_ordinary();
    }
    let mut members: Vec<(String, Json)> = Vec::new();
    proof {
        assert(member_map(members@) == Map::<Seq<char>, JsonView>::empty());
    }
    put(&mut members, "project_id", text_value(project_id));
    put(&mut members, "unit_id", text_value(&t.unit_id));
    put(&mut members, "attempt_epoch", Json::Str(decimal(t.attempt_epoch.0)));
    put(&mut members, "stamp", Json::Str(decimal(t.stamp.0)));
    put(&mut members, "authority_epoch", Json::Str(decimal(t.authority_epoch.0)));
    put(&mut members, "holder_id", text_value(&t.holder_id));
    put(&mut members, "nonce", text_value(&t.nonce));
    let bytes = canonical_bytes(&object(members));
    let hash = blake3_keyed_hash(key, bytes.as_slice());
    hex(hash.as_slice())
}

/// The registry after a token was handed out: it replaces the unit's earlier token.
pub open spec fn with_token(
    a: AdapterView,
    token: Seq<char>,
    t: AttemptTokenClaimsView,
) -> AdapterView {
    let kept = match lookup(a.by_unit, t.unit_id) {
        Some(previous) => without(a.by_token, previous),
        None => a.by_token,
    };
    AdapterView {
        by_unit: upsert(a.by_unit, t.unit_id, token),
        by_token: upsert(kept, token, t),
        ..a
    }
}

/// A token that was handed out resolves to its claims, and the unit's earlier token resolves to
/// nothing.
pub proof fn tokens_replace_each_other(
    a: AdapterView,
    token: Seq<char>,
    t: AttemptTokenClaimsView,
)
    requires
        unique(a.by_token),
    ensures
        lookup(with_token(a, token, t).by_token, token) == Some(t),
        lookup(with_token(a, token, t).by_unit, t.unit_id) == Some(token),
        lookup(a.by_unit, t.unit_id) is Some && lookup(a.by_unit, t.unit_id)->0 != token
            ==> lookup(with_token(a, token, t).by_token, lookup(a.by_unit, t.unit_id)->0) is None,
        unique(with_token(a, token, t).by_token),
{
    let kept = match lookup(a.by_unit, t.unit_id) {
        Some(previous) => without(a.by_token, previous),
        None => a.by_token,
    };
    read_after_write(a.by_unit, t.unit_id, token, t.unit_id);
    match lookup(a.by_unit, t.unit_id) {
        Some(previous) => {
            read_after_removal(a.by_token, previous, previous);
            read_after_write(kept, token, t, previous);
        },
        None => {
            read_after_write(kept, token, t, token);
        },
    }
}

// --- Results -------------------------------------------------------------------------------------

/// The detail of a dispatch result with a bad member.
pub open spec fn invalid_member(field: Seq<char>) -> Seq<char> {
    "durable dispatch result has invalid "@ + field
}

/// The claims that a dispatch result carries, or the first member that is missing.
pub open spec fn claims_in(v: JsonView) -> Result<AttemptTokenClaimsView, Seq<char>> {
    match text_member(v, "unit_id"@) {
        None => Err(invalid_member("unit_id"@)),
        Some(unit_id) => match uint_member(v, "attempt_epoch"@) {
            None => Err(invalid_member("attempt_epoch"@)),
            Some(epoch) => match uint_member(v, "stamp"@) {
                None => Err(invalid_member("stamp"@)),
                Some(stamp) => match uint_member(v, "authority_epoch"@) {
                    None => Err(invalid_member("authority_epoch"@)),
                    Some(authority) => match text_member(v, "holder_id"@) {
                        None => Err(invalid_member("holder_id"@)),
                        Some(holder_id) => match text_member(v, "token_nonce"@) {
                            None => Err(invalid_member("token_nonce"@)),
                            Some(nonce) => Ok(
                                AttemptTokenClaimsView {
                                    unit_id,
                                    attempt_epoch: AttemptEpoch(epoch),
                                    stamp: Stamp(stamp),
                                    authority_epoch: AuthorityEpoch(authority),
                                    holder_id,
                                    nonce,
                                },
                            ),
                        },
                    },
                },
            },
        },
    }
}

fn invalid(field: &str) -> (r: String)
    ensures
        r@ == invalid_member(field@),
{
    let mut s = "durable dispatch result has invalid ".to_owned();
    s.append(field);
    s
}

/// The claims that a dispatch result carries.
pub fn claims_from_result(v: &Json) -> (r: Result<AttemptTokenClaims, String>)
    ensures
        match r {
            Ok(t) => claims_in(v@) == Ok::<AttemptTokenClaimsView, Seq<char>>(t@),
            Err(e) => claims_in(v@) == Err::<AttemptTokenClaimsView, Seq<char>>(e@),
        },
{
    let unit_id = match get_text(v, "unit_id") {
        Some(s) => s,
        None => {
            return Err(invalid("unit_id"));
        },
    };
    let epoch: u64 = match get_uint(v, "attempt_epoch") {
        Some(n) => n,
        None => {
            return Err(invalid("attempt_epoch"));
        },
    };
    let stamp: u64 = match get_uint(v, "stamp") {
        Some(n) => n,
        None => {
            return Err(invalid("stamp"));
        },
    };
    let authority: u64 = match get_uint(v, "authority_epoch") {
        Some(n) => n,
        None => {
            return Err(invalid("authority_epoch"));
        },
    };
    let holder_id = match get_text(v, "holder_id") {
        Some(s) => s,
        None => {
            return Err(invalid("holder_id"));
        },
    };
    match get_text(v, "token_nonce") {
        Some(nonce) => Ok(
            AttemptTokenClaims {
                unit_id,
                attempt_epoch: AttemptEpoch(epoch),
                stamp: Stamp(stamp),
                authority_epoch: AuthorityEpoch(authority),
                holder_id,
                nonce,
            },
        ),
        None => Err(invalid("token_nonce")),
    }
}

/// The members with a number turned into a decimal string, where it is one.
pub open spec fn stringified(map: Map<Seq<char>, JsonView>, name: Seq<char>) -> Map<
    Seq<char>,
    JsonView,
> {
    match uint_member(JsonView::Object(map), name) {
        Some(n) => map.insert(name, JsonView::Str(dec(n as nat))),
        None => map,
    }
}

/// The members with the numbers that may be large turned into decimal strings.
pub open spec fn integers_as_text(map: Map<Seq<char>, JsonView>) -> Map<Seq<char>, JsonView> {
    stringified(
        stringified(stringified(stringified(map, "version"@), "attempt_epoch"@), "stamp"@),
        "authority_epoch"@,
    )
}

/// The members without those that the token stands for.
pub open spec fn without_claims(map: Map<Seq<char>, JsonView>) -> Map<Seq<char>, JsonView> {
    map.remove("attempt_epoch"@).remove("stamp"@).remove("authority_epoch"@).remove(
        "holder_id"@,
    ).remove("token_nonce"@)
}

fn stringify(value: Value, name: &str) -> (r: Value)
    requires
        json_tree(value) is Object,
    ensures
        json_tree(r) == JsonView::Object(stringified(json_tree(value)->Object_0, name@)),
{
    match get_uint(&from_value(&value), name) {
        Some(n) => with_member(value, name, to_value(&Json::Str(decimal(n)))),
        None => value,
    }
}

/// Turns the numbers that may be large into decimal strings.
pub fn stringify_result_integers(value: Value) -> (r: Value)
    requires
        json_tree(value) is Object,
    ensures
        json_tree(r) == JsonView::Object(integers_as_text(json_tree(value)->Object_0)),
{
    stringify(
        stringify(stringify(stringify(value, "version"), "attempt_epoch"), "stamp"),
        "authority_epoch",
    )
}

fn drop_claims(value: Value) -> (r: Value)
    requires
        json_tree(value) is Object,
    ensures
        json_tree(r) == JsonView::Object(without_claims(json_tree(value)->Object_0)),
{
    let mut names: Vec<String> = Vec::new();
    names.push("attempt_epoch".to_owned());
    names.push("stamp".to_owned());
    names.push("authority_epoch".to_owned());
    names.push("holder_id".to_owned());
    names.push("token_nonce".to_owned());
    let kept = other_members(&value, &names);
    let none: Vec<(String, Json)> = Vec::new();
    let r = with_members(to_value(&object(none)), &kept);
    proof {
        let map = json_tree(value)->Object_0;
        let known = views(names@);
        assert(known =~= seq![
            "attempt_epoch"@,
            "stamp"@,
            "authority_epoch"@,
            "holder_id"@,
            "token_nonce"@,
        ]);
        assert forall|name: Seq<char>| #[trigger] known.contains(name) <==> name
            == "attempt_epoch"@ || name == "stamp"@ || name == "authority_epoch"@ || name
            == "holder_id"@ || name == "token_nonce"@ by {
            assert(known[0] == "attempt_epoch"@ && known[1] == "stamp"@ && known[2]
                == "authority_epoch"@ && known[3] == "holder_id"@ && known[4] == "token_nonce"@);
        }
        assert(others(map, known) =~= without_claims(map));
        assert(Map::<Seq<char>, JsonView>::empty().union_prefer_right(others(map, known))
            =~= others(map, known));
    }
    r
}

/// What a client is told of a result, and the adapter then: a dispatch result hands out its
/// token in place of the claims, and registers it where the claims are current; no other result
/// may carry claims.
pub open spec fn result_of(a: AdapterView, c: CommandView, v: JsonView) -> Result<
    (JsonView, AdapterView),
    Seq<char>,
> {
    let map = v->Object_0;
    if !(v is Object) {
        Err("durable receipt result must be a JSON object"@)
    } else if map.dom().contains("attempt_token"@) {
        Err("durable receipt result contains a projected attempt_token"@)
    } else {
        match c.body {
            CommandBodyView::UnitDispatch(p) => match claims_in(v) {
                Err(e) => Err(e),
                Ok(claims) => if claims.unit_id != p.unit_id || claims.holder_id != p.holder_id {
                    Err("durable dispatch result claims do not match the command"@)
                } else {
                    match (text_member(v, "attempt_id"@), uint_member(v, "version"@)) {
                        (None, _) => Err(invalid_member("attempt_id"@)),
                        (_, None) => Err(invalid_member("version"@)),
                        (Some(attempt_id), Some(version)) => match claims_standing(
                            a.funnel.store,
                            claims,
                            attempt_id,
                            version,
                        ) {
                            Err(e) => Err(
                                "durable dispatch result is invalid: "@ + internal_form(e),
                            ),
                            Ok(current) => {
                                let token = token_of(a.token_key, a.project_id, claims);
                                Ok(
                                    (
                                        JsonView::Object(
                                            integers_as_text(
                                                without_claims(
                                                    map.insert(
                                                        "attempt_token"@,
                                                        JsonView::Str(token),
                                                    ),
                                                ),
                                            ),
                                        ),
                                        if current {
                                            with_token(a, token, claims)
                                        } else {
                                            a
                                        },
                                    ),
                                )
                            },
                        },
                    }
                },
            },
            _ => if map.dom().contains("token_nonce"@) {
                Err("non-dispatch durable result contains token claims"@)
            } else {
                Ok((JsonView::Object(integers_as_text(map)), a))
            },
        }
    }
}

impl InProcessAdapter {
    /// What a client is told of a result.
    pub fn project_result(&mut self, command: &Command, result: Value) -> (r: Result<Value, String>)
        ensures
            match r {
                Ok(v) => result_of(old(self)@, command@, json_tree(result)) == Ok::<
                    (JsonView, AdapterView),
                    Seq<char>,
                >((json_tree(v), final(self)@)),
                Err(e) => result_of(old(self)@, command@, json_tree(result)) == Err::<
                    (JsonView, AdapterView),
                    Seq<char>,
                >(e@) && final(self)@ == old(self)@,
            },
    {
        let tree = from_value(&result);
        if !matches!(tree, Json::Object(_)) {
            return Err("durable receipt result must be a JSON object".to_owned());
        }
        if tree.get("attempt_token").is_some() {
            return Err("durable receipt result contains a projected attempt_token".to_owned());
        }
        if let CommandBody::UnitDispatch(p) = &command.body {
            let claims = match claims_from_result(&tree) {
                Ok(claims) => claims,
                Err(e) => {
                    return Err(e);
                },
            };
            if !same(&claims.unit_id, &p.unit_id) || !same(&claims.holder_id, &p.holder_id) {
                return Err(
                    "durable dispatch result claims do not match the command".to_owned(),
                );
            }
            let attempt_id = match get_text(&tree, "attempt_id") {
                Some(s) => s,
                None => {
                    return Err(invalid("attempt_id"));
                },
            };
            let version: u64 = match get_uint(&tree, "version") {
                Some(n) => n,
                None => {
                    return Err(invalid("version"));
                },
            };
            let current = match self.funnel.store.validate_dispatch_claims(
                &claims,
                &attempt_id,
                version,
            ) {
                Ok(current) => current,
                Err(e) => {
                    let mut s = "durable dispatch result is invalid: ".to_owned();
                    s.append(&internal_text(&e));
                    return Err(s);
                },
            };
            let token = token_for(&self.token_key, &self.project_id, &claims);
            if current {
                let previous = match self.by_unit.get(&claims.unit_id) {
                    Some(t) => Some(t.clone()),
                    None => None,
                };
                self.by_unit.set(&claims.unit_id, token.clone());
                if let Some(old_token) = previous {
                    let _ = self.by_token.remove(&old_token);
                }
                self.by_token.set(&token, claims);
            }
            let told = with_member(result, "attempt_token", to_value(&Json::Str(token)));
            Ok(stringify_result_integers(drop_claims(told)))
        } else {
            if tree.get("token_nonce").is_some() {
                return Err("non-dispatch durable result contains token claims".to_owned());
            }
            Ok(stringify_result_integers(result))
        }
    }
}

// --- Receipts ------------------------------------------------------------------------------------

/// The cursors from the first to the last.
pub open spec fn cursor_run(first: u64, last: u64) -> Seq<u64> {
    Seq::new((last - first + 1) as nat, |i: int| (first + i) as u64)
}

/// The cursors of a stored receipt, or why its range is no range.
pub open spec fn cursors_in(row: Option<ReceiptRowView>) -> Result<Seq<u64>, Seq<char>> {
    match row {
        Some(r) => match (r.first_cursor, r.last_cursor) {
            (Some(first), Some(last)) => if first <= last && last - first + 1 <= MAX_RESUME_EVENTS {
                Ok(cursor_run(first, last))
            } else {
                Err("durable receipt event cursor range is invalid"@)
            },
            _ => Ok(Seq::empty()),
        },
        None => Ok(Seq::empty()),
    }
}

/// The key of the receipt of a command on the wire.
pub open spec fn wire_receipt_key(c: CommandView) -> Seq<char> {
    c.scope.scope_kind.wire_text() + "/"@ + c.scope.scope_id + "/"@ + c.command_id
}

/// An adapter whose funnel is poisoned.
pub open spec fn with_poison(a: AdapterView, detail: Seq<char>) -> AdapterView {
    AdapterView { funnel: FunnelView { gate: Some(detail), ..a.funnel }, ..a }
}

/// The receipt of a command that was completed or replayed, and the adapter then. A result that
/// cannot be told poisons the funnel.
pub open spec fn completed_receipt(
    a: AdapterView,
    c: CommandView,
    outcome: ReceiptOutcome,
    v: JsonView,
    cursors: Seq<u64>,
) -> (ReceiptView, AdapterView) {
    match result_of(a, c, v) {
        Err(detail) => (rejection_of(c, ErrorKind::Internal, detail), with_poison(a, detail)),
        Ok(pair) => (
            ReceiptView {
                command_id: c.command_id,
                scope: c.scope,
                outcome,
                state_version: uint_member(v, "version"@),
                event_cursors: cursors,
                error: None,
                result: Some(pair.0),
                receipt_version: bounded_u32(RECEIPT_VERSION),
            },
            pair.1,
        ),
    }
}

/// The receipt of a submission, and the adapter then.
pub open spec fn receipt_of(a: AdapterView, c: CommandView, s: SubmissionView) -> (
    ReceiptView,
    AdapterView,
) {
    let cursors = cursors_in(lookup(a.funnel.store.tables.receipts, wire_receipt_key(c)));
    match s {
        SubmissionView::Completed { result } => match cursors {
            Ok(list) => completed_receipt(a, c, ReceiptOutcome::Completed, result, list),
            Err(detail) => (rejection_of(c, ErrorKind::Internal, detail), with_poison(a, detail)),
        },
        SubmissionView::Replayed { result } => match cursors {
            Ok(list) => completed_receipt(a, c, ReceiptOutcome::Replayed, result, list),
            Err(detail) => (rejection_of(c, ErrorKind::Internal, detail), with_poison(a, detail)),
        },
        SubmissionView::Rejected { kind, detail, replayed } => if kind
            == KernelErrorKind::Internal && replayed {
            (rejection_of(c, ErrorKind::Internal, detail), with_poison(a, detail))
        } else {
            (
                ReceiptView {
                    outcome: if kind == KernelErrorKind::OutcomeUnknown {
                        ReceiptOutcome::OutcomeUnknown
                    } else {
                        ReceiptOutcome::Rejected
                    },
                    ..rejection_of(c, ErrorKind::of(kind), detail)
                },
                a,
            )
        },
    }
}

fn cursors_of_range(first: u64, last: u64) -> (r: Vec<DecimalU64>)
    requires
        first <= last,
        last - first + 1 <= MAX_RESUME_EVENTS,
    ensures
        r@.map_values(|x: DecimalU64| x@) == cursor_run(first, last),
{
    let mut out: Vec<DecimalU64> = Vec::new();
    let count: u64 = last - first + 1;
    let mut i: u64 = 0;
    while i < count
        invariant
            i <= count,
            count == last - first + 1,
            first <= last,
            out.len() == i,
            forall|k: int| 0 <= k < i ==> (#[trigger] out@[k])@ == (first + k) as u64,
        decreases count - i,
    {
        out.push(DecimalU64::new(first + i));
        i += 1;
    }
    proof {
        assert(out@.map_values(|x: DecimalU64| x@) =~= cursor_run(first, last));
    }
    out
}

impl InProcessAdapter {
    fn event_cursors(&self, command: &Command) -> (r: Result<Vec<DecimalU64>, String>)
        ensures
            ({
                let want = cursors_in(
                    lookup(self@.funnel.store.tables.receipts, wire_receipt_key(command@)),
                );
                match r {
                    Ok(list) => want == Ok::<Seq<u64>, Seq<char>>(
                        list@.map_values(|x: DecimalU64| x@),
                    ),
                    Err(e) => want == Err::<Seq<u64>, Seq<char>>(e@),
                }
            }),
    {
        let mut key = command.scope.scope_kind.wire().to_owned();
        key.append("/");
        key.append(&command.scope.scope_id);
        key.append("/");
        key.append(&command.command_id);
        let none: Vec<DecimalU64> = Vec::new();
        proof {
            assert(none@.map_values(|x: DecimalU64| x@) =~= Seq::<u64>::empty());
        }
        match self.funnel.store.tables.receipts.get(&key) {
            Some(row) => match (row.first_cursor, row.last_cursor) {
                (Some(first), Some(last)) => {
                    if first <= last && last - first < MAX_RESUME_EVENTS as u64 {
                        Ok(cursors_of_range(first, last))
                    } else {
                        Err("durable receipt event cursor range is invalid".to_owned())
                    }
                },
                _ => Ok(none),
            },
            None => Ok(none),
        }
    }

    fn corrupt_receipt(&mut self, command: &Command, detail: String) -> (r: Receipt)
        ensures
            r@ == rejection_of(command@, ErrorKind::Internal, detail@),
            receipt_encodable(r@),
            final(self)@ == with_poison(old(self)@, detail@),
    {
        let r = rejection_receipt(command, ErrorKind::Internal, &detail);
        self.funnel.poison(detail);
        r
    }

    fn project_completed(
        &mut self,
        command: &Command,
        outcome: ReceiptOutcome,
        result: Value,
        event_cursors: Vec<DecimalU64>,
    ) -> (r: Receipt)
        ensures
            (r@, final(self)@) == completed_receipt(
                old(self)@,
                command@,
                outcome,
                json_tree(result),
                event_cursors@.map_values(|x: DecimalU64| x@),
            ),
            receipt_encodable(r@),
    {
        let state_version = match get_uint(&from_value(&result), "version") {
            Some(n) => Some(DecimalU64::new(n)),
            None => None,
        };
        match self.project_result(command, result) {
            Ok(v) => Receipt {
                command_id: command.command_id.clone(),
                scope: command.scope.clone(),
                outcome,
                state_version,
                event_cursors,
                error: None,
                result: Some(v),
                receipt_version: BoundedU32::new(RECEIPT_VERSION),
            },
            Err(detail) => self.corrupt_receipt(command, detail),
        }
    }

    /// The receipt of a submission.
    pub fn project_submission(&mut self, command: &Command, submission: Submission) -> (r: Receipt)
        ensures
            (r@, final(self)@) == receipt_of(old(self)@, command@, submission@),
            receipt_encodable(r@),
    {
        match submission {
            Submission::Completed { result } => match self.event_cursors(command) {
                Ok(cursors) => self.project_completed(
                    command,
                    ReceiptOutcome::Completed,
                    result,
                    cursors,
                ),
                Err(detail) => self.corrupt_receipt(command, detail),
            },
            Submission::Replayed { result } => match self.event_cursors(command) {
                Ok(cursors) => self.project_completed(
                    command,
                    ReceiptOutcome::Replayed,
                    result,
                    cursors,
                ),
                Err(detail) => self.corrupt_receipt(command, detail),
            },
            Submission::Rejected { kind, detail, replayed } => {
                if kind == KernelErrorKind::Internal && replayed {
                    return self.corrupt_receipt(command, detail);
                }
                let mut r = rejection_receipt(command, ErrorKind::of_kernel(kind), &detail);
                if kind == KernelErrorKind::OutcomeUnknown {
                    r.outcome = ReceiptOutcome::OutcomeUnknown;
                }
                r
            },
        }
    }
}

} // verus!
