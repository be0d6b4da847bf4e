//! The JSON boundary: the size limits of a frame, the strict shape of what a client sends, and
//! the text of what it is answered.
use crate::json::{
    array_of, copy_value, field, field_value, from_value, get_text, get_text_field, get_uint,
    is_shaped, json_parse, json_text, json_tree, member, member_map, member_value,
    names_are_ordinary, object, object1, object2, object3, other_members, others, parse_json, plain,
    put, raw_fields, read_raw_fields, shaped, text_array, text_array_view, text_field, text_member,
    text_of_value, text_value, to_value, uint_member, value_map, with_member, with_members, Json,
    JsonView,
};
use crate::protocol::types::{
    is_canonical_decimal, rfc3339_reading, run_close_outcome_from_wire, run_close_outcome_named,
    scope_kind_from_wire, scope_kind_named, timestamp_fault, AdapterLimits, AdapterLimitsView,
    BoundedU32, ClientMessage, ClientMessageView, Command, CommandBody, CommandBodyView,
    CommandView, DecimalU64, Error, ErrorView, Event, EventView, ExpectedVersion,
    ExpectedVersionView, ProgressReportPayload, ProgressReportPayloadView, Receipt, ReceiptView,
    Retention, RetentionView, Rfc3339Timestamp, RunClosePayload, RunClosePayloadView,
    RunOpenPayload, RunOpenPayloadView, Scope, ScopeView, ServerMessage, ServerMessageView,
    SlowConsumer, SlowConsumerView, SubscriptionOpened, SubscriptionOpenedView, Target, TargetView,
    UnitAdmitPayload, UnitAdmitPayloadView, UnitDispatchPayload, UnitDispatchPayloadView,
    UnitPayload, UnitPayloadView, WorkItemCreatePayload, WorkItemCreatePayloadView,
};
use crate::protocol::{
    MAX_COMMAND_BYTES, MAX_CONTROL_FRAME_BYTES, MAX_FRAME_BYTES, MAX_PAYLOAD_BYTES,
};
use crate::text::{dec, dec_value, decimal, opt_view, same, views};
use serde_json::Value;
use vstd::prelude::*;
use vstd::string::*;
use vstd::utf8::encode_utf8;

verus! {

// --- Limits --------------------------------------------------------------------------------------

/// Why a frame is refused before it is decoded.
#[derive(Debug)]
pub enum WireLimitError {
    Invalid(String),
    Frame,
    Command,
    Payload,
}

/// The view of a `WireLimitError`.
pub enum WireLimitErrorView {
    Invalid(Seq<char>),
    Frame,
    Command,
    Payload,
}

impl View for WireLimitError {
    type V = WireLimitErrorView;

    open spec fn view(&self) -> WireLimitErrorView {
        match self {
            WireLimitError::Invalid(e) => WireLimitErrorView::Invalid(e@),
            WireLimitError::Frame => WireLimitErrorView::Frame,
            WireLimitError::Command => WireLimitErrorView::Command,
            WireLimitError::Payload => WireLimitErrorView::Payload,
        }
    }
}

/// The limit that a frame breaks, by the sizes of its parts. A frame without a command has the
/// smaller limit; the size of the payload is `Err` where the command has none that reads.
pub open spec fn size_fault(
    frame: nat,
    kind: Seq<char>,
    message: nat,
    payload: Result<nat, Seq<char>>,
) -> Option<WireLimitErrorView> {
    if kind != "command"@ {
        if frame > MAX_CONTROL_FRAME_BYTES {
            Some(WireLimitErrorView::Frame)
        } else {
            None
        }
    } else if message > MAX_COMMAND_BYTES {
        Some(WireLimitErrorView::Command)
    } else {
        match payload {
            Err(e) => Some(WireLimitErrorView::Invalid(e)),
            Ok(n) => if n > MAX_PAYLOAD_BYTES {
                Some(WireLimitErrorView::Payload)
            } else {
                None
            },
        }
    }
}

/// Judges a frame by the sizes of its parts.
pub fn check_sizes(frame: usize, kind: &str, message: usize, payload: Result<usize, String>) -> (r:
    Result<(), WireLimitError>)
    ensures
        ({
            let fault = size_fault(
                frame as nat,
                kind@,
                message as nat,
                match payload {
                    Ok(n) => Ok(n as nat),
                    Err(e) => Err(e@),
                },
            );
            match r {
                Ok(()) => fault is None,
                Err(e) => fault == Some(e@),
            }
        }),
{
    if !same(kind, "command") {
        if frame > MAX_CONTROL_FRAME_BYTES {
            return Err(WireLimitError::Frame);
        }
        return Ok(());
    }
    if message > MAX_COMMAND_BYTES {
        return Err(WireLimitError::Command);
    }
    match payload {
        Err(e) => Err(WireLimitError::Invalid(e)),
        Ok(n) => if n > MAX_PAYLOAD_BYTES {
            Err(WireLimitError::Payload)
        } else {
            Ok(())
        },
    }
}

/// The size of the payload of a command, as it stands in the text.
pub open spec fn payload_size(command: Seq<char>) -> Result<nat, Seq<char>> {
    match raw_fields(encode_utf8(command), seq!["payload"@]) {
        Err(e) => Err(e),
        Ok(texts) => Ok(encode_utf8(texts[0]).len()),
    }
}

/// The limit that a frame breaks, or why it is no frame.
pub open spec fn wire_fault(bytes: Seq<u8>) -> Option<WireLimitErrorView> {
    if bytes.len() > MAX_FRAME_BYTES {
        Some(WireLimitErrorView::Frame)
    } else {
        match raw_fields(bytes, seq!["kind"@, "message"@]) {
            Err(e) => Some(WireLimitErrorView::Invalid(e)),
            Ok(texts) => match json_parse(texts[0]) {
                Ok(JsonView::Str(kind)) => size_fault(
                    bytes.len(),
                    kind,
                    encode_utf8(texts[1]).len(),
                    payload_size(texts[1]),
                ),
                _ => Some(WireLimitErrorView::Invalid("kind must be a string"@)),
            },
        }
    }
}

/// Checks the sizes of a frame on its bytes, before anything is decoded.
pub fn validate_wire_limits(bytes: &[u8]) -> (r: Result<(), WireLimitError>)
    ensures
        match r {
            Ok(()) => wire_fault(bytes@) is None,
            Err(e) => wire_fault(bytes@) == Some(e@),
        },
{
    if bytes.len() > MAX_FRAME_BYTES {
        return Err(WireLimitError::Frame);
    }
    let texts = match read_raw_fields(bytes, &names2("kind", "message")) {
        Ok(texts) => texts,
        Err(e) => {
            return Err(WireLimitError::Invalid(e));
        },
    };
    let kind = match parse_json(&texts[0]) {
        Ok(Json::Str(kind)) => kind,
        _ => {
            return Err(WireLimitError::Invalid("kind must be a string".to_owned()));
        },
    };
    let message_bytes = texts[1].as_str().as_bytes();
    let payload: Result<usize, String> = match read_raw_fields(message_bytes, &names1("payload")) {
        Err(e) => Err(e),
        Ok(parts) => Ok(parts[0].as_str().as_bytes().len()),
    };
    check_sizes(bytes.len(), &kind, message_bytes.len(), payload)
}

// --- What a client is answered -------------------------------------------------------------------

/// The members with a text added where there is one.
pub open spec fn with_text(map: Map<Seq<char>, JsonView>, name: Seq<char>, o: Option<Seq<char>>) -> Map<
    Seq<char>,
    JsonView,
> {
    match o {
        Some(s) => map.insert(name, JsonView::Str(s)),
        None => map,
    }
}

fn put_opt(members: &mut Vec<(String, Json)>, name: &str, o: &Option<String>)
    requires
        crate::json::flat(old(members)@),
        crate::json::ordinary(name@),
    ensures
        member_map(final(members)@) == with_text(member_map(old(members)@), name@, opt_view(*o)),
        crate::json::flat(final(members)@),
{
    match o {
        Some(s) => put(members, name, text_value(s)),
        None => {},
    }
}

fn no_members() -> (r: Vec<(String, Json)>)
    ensures
        member_map(r@) == Map::<Seq<char>, JsonView>::empty(),
        crate::json::flat(r@),
{
    Vec::new()
}

/// A number as a decimal string.
pub open spec fn decimal_tree(n: u64) -> JsonView {
    JsonView::Str(dec(n as nat))
}

fn decimal_json(n: u64) -> (r: Json)
    ensures
        r@ == decimal_tree(n),
        plain(r@, 7),
{
    Json::Str(decimal(n))
}

fn uint_json(n: u64) -> (r: Json)
    ensures
        r@ == JsonView::Uint(n),
        plain(r@, 7),
{
    Json::Uint(n)
}

fn bool_json(b: bool) -> (r: Json)
    ensures
        r@ == JsonView::Bool(b),
        plain(r@, 7),
{
    Json::Bool(b)
}

/// The empty set of members.
pub open spec fn bare() -> Map<Seq<char>, JsonView> {
    Map::empty()
}

/// A scope on the wire.
pub open spec fn scope_tree(s: ScopeView) -> JsonView {
    JsonView::Object(
        Map::empty().insert("scope_kind"@, JsonView::Str(s.scope_kind.wire_text())).insert(
            "scope_id"@,
            JsonView::Str(s.scope_id),
        ),
    )
}

fn scope_value(s: &Scope) -> (r: Value)
    ensures
        json_tree(r) == scope_tree(s@),
{
    proof {
        names_are_ordinary();
    }
    to_value(
        &object2(
            "scope_kind",
            text_value(s.scope_kind.wire()),
            "scope_id",
            text_value(&s.scope_id),
        ),
    )
}

/// Cursors as decimal strings.
pub open spec fn cursor_texts(list: Seq<u64>) -> Seq<Seq<char>> {
    list.map_values(|c: u64| dec(c as nat))
}

fn cursor_array(list: &Vec<DecimalU64>) -> (r: Json)
    ensures
        r@ == text_array_view(cursor_texts(list@.map_values(|x: DecimalU64| x@))),
        plain(r@, 7),
{
    let mut texts: Vec<String> = Vec::new();
    let mut i: usize = 0;
    while i < list.len()
        invariant
            i <= list.len(),
            texts.len() == i,
            forall|k: int| 0 <= k < i ==> (#[trigger] texts@[k])@ == dec(list@[k]@ as nat),
        decreases list.len() - i,
    {
        texts.push(list[i].to_text());
        i += 1;
    }
    proof {
        assert(views(texts@) =~= cursor_texts(list@.map_values(|x: DecimalU64| x@)));
    }
    text_array(&texts)
}

/// Whether the details of an error can be written.
pub open spec fn error_encodable(x: ErrorView) -> bool {
    x.details is Some ==> plain(x.details->0, 8)
}

/// An error on the wire.
pub open spec fn error_tree(x: ErrorView) -> JsonView {
    let m0 = bare().insert("kind"@, JsonView::Str(x.kind.wire_text()));
    let m1 = m0.insert("reason"@, JsonView::Str(x.reason));
    let m2 = m1.insert("message"@, JsonView::Str(x.message));
    let m3 = m2.insert("retryable"@, JsonView::Bool(x.retryable));
    let m4 = match x.retry_after_ms {
        Some(n) => m3.insert("retry_after_ms"@, JsonView::Uint(n@ as u64)),
        None => m3,
    };
    let m5 = m4.insert("reconcile_required"@, JsonView::Bool(x.reconcile_required));
    let m6 = m5.insert("occurrence_id"@, JsonView::Str(x.occurrence_id));
    match x.details {
        Some(d) => JsonView::Object(m6.insert("details"@, d)),
        None => JsonView::Object(m6),
    }
}

/// An error on the wire.
pub fn error_value(x: &Error) -> (r: Value)
    requires
        error_encodable(x@),
    ensures
        json_tree(r) == error_tree(x@),
{
    proof {
        names_are_ordinary();
    }
    let mut members = no_members();
    put(&mut members, "kind", text_value(x.kind.wire()));
    put(&mut members, "reason", text_value(&x.reason));
    put(&mut members, "message", text_value(&x.message));
    put(&mut members, "retryable", bool_json(x.retryable));
    if let Some(n) = &x.retry_after_ms {
        put(&mut members, "retry_after_ms", uint_json(n.get() as u64));
    }
    put(&mut members, "reconcile_required", bool_json(x.reconcile_required));
    put(&mut members, "occurrence_id", text_value(&x.occurrence_id));
    let base = to_value(&object(members));
    match &x.details {
        Some(d) => with_member(base, "details", to_value(d)),
        None => base,
    }
}

/// Whether a receipt can be written.
pub open spec fn receipt_encodable(x: ReceiptView) -> bool {
    x.error is Some ==> error_encodable(x.error->0)
}

/// A receipt on the wire.
pub open spec fn receipt_tree(x: ReceiptView) -> JsonView {
    let m0 = bare().insert("command_id"@, JsonView::Str(x.command_id));
    let m1 = m0.insert("outcome"@, JsonView::Str(x.outcome.wire_text()));
    let m2 = match x.state_version {
        Some(n) => m1.insert("state_version"@, decimal_tree(n)),
        None => m1,
    };
    let m3 = m2.insert("event_cursors"@, text_array_view(cursor_texts(x.event_cursors)));
    let m4 = m3.insert("receipt_version"@, JsonView::Uint(x.receipt_version@ as u64));
    let with_scope = m4.insert("scope"@, scope_tree(x.scope));
    let with_error = match x.error {
        Some(e) => with_scope.insert("error"@, error_tree(e)),
        None => with_scope,
    };
    match x.result {
        Some(v) => JsonView::Object(with_error.insert("result"@, v)),
        None => JsonView::Object(with_error),
    }
}

/// A receipt on the wire.
pub fn receipt_value(x: &Receipt) -> (r: Value)
    requires
        receipt_encodable(x@),
    ensures
        json_tree(r) == receipt_tree(x@),
{
    proof {
        names_are_ordinary();
    }
    let mut members = no_members();
    put(&mut members, "command_id", text_value(&x.command_id));
    put(&mut members, "outcome", text_value(x.outcome.wire()));
    if let Some(n) = &x.state_version {
        put(&mut members, "state_version", decimal_json(n.get()));
    }
    put(&mut members, "event_cursors", cursor_array(&x.event_cursors));
    put(&mut members, "receipt_version", uint_json(x.receipt_version.get() as u64));
    let base = to_value(&object(members));
    let scoped = with_member(base, "scope", scope_value(&x.scope));
    let judged = match &x.error {
        Some(e) => with_member(scoped, "error", error_value(e)),
        None => scoped,
    };
    match &x.result {
        Some(v) => with_member(judged, "result", copy_value(v)),
        None => judged,
    }
}

/// An event on the wire.
pub open spec fn event_tree(x: EventView) -> JsonView {
    let m0 = bare().insert("event_id"@, JsonView::Str(x.event_id));
    let m1 = m0.insert("cursor"@, decimal_tree(x.cursor));
    let m2 = m1.insert("stream_class"@, JsonView::Str(x.stream_class.wire_text()));
    let m3 = m2.insert("aggregate_kind"@, JsonView::Str(x.aggregate_kind));
    let m4 = m3.insert("aggregate_id"@, JsonView::Str(x.aggregate_id));
    let m5 = m4.insert("aggregate_version"@, decimal_tree(x.aggregate_version));
    let m6 = m5.insert("ordinal"@, JsonView::Uint(x.ordinal@ as u64));
    let m7 = m6.insert("event_kind"@, JsonView::Str(x.event_kind));
    let m8 = m7.insert("event_version"@, JsonView::Uint(x.event_version@ as u64));
    let m9 = m8.insert("occurred_at"@, JsonView::Str(x.occurred_at));
    let m10 = with_text(m9, "command_id"@, x.command_id);
    let m11 = with_text(m10, "causation_id"@, x.causation_id);
    let m12 = with_text(m11, "correlation_id"@, x.correlation_id);
    let with_actor = m12.insert(
        "actor"@,
        JsonView::Object(
            Map::empty().insert("principal_kind"@, JsonView::Str(x.actor.principal_kind)).insert(
                "principal_id"@,
                JsonView::Str(x.actor.principal_id),
            ),
        ),
    );
    JsonView::Object(with_actor.insert("payload"@, x.payload))
}

/// An event on the wire.
pub fn event_value(x: &Event) -> (r: Value)
    ensures
        json_tree(r) == event_tree(x@),
{
    proof {
        names_are_ordinary();
    }
    let mut members = no_members();
    put(&mut members, "event_id", text_value(&x.event_id));
    put(&mut members, "cursor", decimal_json(x.cursor.get()));
    put(&mut members, "stream_class", text_value(x.stream_class.wire()));
    put(&mut members, "aggregate_kind", text_value(&x.aggregate_kind));
    put(&mut members, "aggregate_id", text_value(&x.aggregate_id));
    put(&mut members, "aggregate_version", decimal_json(x.aggregate_version.get()));
    put(&mut members, "ordinal", uint_json(x.ordinal.get() as u64));
    put(&mut members, "event_kind", text_value(&x.event_kind));
    put(&mut members, "event_version", uint_json(x.event_version.get() as u64));
    put(&mut members, "occurred_at", text_value(x.occurred_at.as_str()));
    put_opt(&mut members, "command_id", &x.command_id);
    put_opt(&mut members, "causation_id", &x.causation_id);
    put_opt(&mut members, "correlation_id", &x.correlation_id);
    let base = to_value(&object(members));
    let actor = to_value(
        &object2(
            "principal_kind",
            text_value(&x.actor.principal_kind),
            "principal_id",
            text_value(&x.actor.principal_id),
        ),
    );
    with_member(with_member(base, "actor", actor), "payload", copy_value(&x.payload))
}

/// The limits on the wire.
pub open spec fn limits_tree(x: AdapterLimitsView) -> JsonView {
    let m0 = bare().insert(
        "durable_event_queue_capacity"@,
        JsonView::Uint(x.durable_event_queue_capacity@ as u64),
    );
    let m1 = m0.insert(
        "progress_event_queue_capacity"@,
        JsonView::Uint(x.progress_event_queue_capacity@ as u64),
    );
    JsonView::Object(m1)
}

/// The limits on the wire.
pub fn limits_value(x: &AdapterLimits) -> (r: Value)
    ensures
        json_tree(r) == limits_tree(x@),
{
    proof {
        names_are_ordinary();
    }
    let mut members = no_members();
    put(
        &mut members,
        "durable_event_queue_capacity",
        uint_json(x.durable_event_queue_capacity.get() as u64),
    );
    put(
        &mut members,
        "progress_event_queue_capacity",
        uint_json(x.progress_event_queue_capacity.get() as u64),
    );
    to_value(&object(members))
}

/// The retention on the wire.
pub open spec fn retention_tree(x: RetentionView) -> JsonView {
    let m0 = bare().insert("min_retained_cursor"@, decimal_tree(x.min_retained_cursor));
    let m1 = m0.insert("max_age_seconds"@, decimal_tree(x.max_age_seconds));
    let m2 = m1.insert("max_events_per_project"@, decimal_tree(x.max_events_per_project));
    JsonView::Object(m2)
}

/// The retention on the wire.
pub fn retention_value(x: &Retention) -> (r: Value)
    ensures
        json_tree(r) == retention_tree(x@),
{
    proof {
        names_are_ordinary();
    }
    let mut members = no_members();
    put(&mut members, "min_retained_cursor", decimal_json(x.min_retained_cursor.get()));
    put(&mut members, "max_age_seconds", decimal_json(x.max_age_seconds.get()));
    put(&mut members, "max_events_per_project", decimal_json(x.max_events_per_project.get()));
    to_value(&object(members))
}

/// A closed slow consumer on the wire.
pub open spec fn slow_consumer_tree(x: SlowConsumerView) -> JsonView {
    let m0 = bare().insert("min_retained_cursor"@, decimal_tree(x.min_retained_cursor));
    let m1 = m0.insert("last_delivered_cursor"@, decimal_tree(x.last_delivered_cursor));
    JsonView::Object(m1)
}

/// A closed slow consumer on the wire.
pub fn slow_consumer_value(x: &SlowConsumer) -> (r: Value)
    ensures
        json_tree(r) == slow_consumer_tree(x@),
{
    proof {
        names_are_ordinary();
    }
    let mut members = no_members();
    put(&mut members, "min_retained_cursor", decimal_json(x.min_retained_cursor.get()));
    put(&mut members, "last_delivered_cursor", decimal_json(x.last_delivered_cursor.get()));
    to_value(&object(members))
}

/// An opened subscription on the wire.
pub open spec fn opened_tree(x: SubscriptionOpenedView) -> JsonView {
    let m0 = bare().insert("subscription_id"@, JsonView::Str(x.subscription_id));
    JsonView::Object(
        m0.insert("limits"@, limits_tree(x.limits)).insert(
            "retention"@,
            retention_tree(x.retention),
        ),
    )
}

/// An opened subscription on the wire.
pub fn opened_value(x: &SubscriptionOpened) -> (r: Value)
    ensures
        json_tree(r) == opened_tree(x@),
{
    proof {
        names_are_ordinary();
    }
    let mut members = no_members();
    put(&mut members, "subscription_id", text_value(&x.subscription_id));
    let base = to_value(&object(members));
    with_member(
        with_member(base, "limits", limits_value(&x.limits)),
        "retention",
        retention_value(&x.retention),
    )
}

/// An object with one text.
pub open spec fn one_text_tree(name: Seq<char>, s: Seq<char>) -> JsonView {
    JsonView::Object(Map::empty().insert(name, JsonView::Str(s)))
}

fn one_text_value(name: &str, s: &str) -> (r: Value)
    requires
        crate::json::ordinary(name@),
    ensures
        json_tree(r) == one_text_tree(name@, s@),
{
    to_value(&object1(name, text_value(s)))
}

/// A message under its kind.
pub open spec fn framed(kind: Seq<char>, message: JsonView) -> JsonView {
    JsonView::Object(Map::empty().insert("kind"@, JsonView::Str(kind)).insert("message"@, message))
}

fn frame(kind: &str, message: Value) -> (r: Value)
    ensures
        json_tree(r) == framed(kind@, json_tree(message)),
{
    proof {
        names_are_ordinary();
    }
    with_member(to_value(&object1("kind", text_value(kind))), "message", message)
}

/// The events of an answer on the wire.
pub open spec fn events_tree(events: Seq<EventView>) -> JsonView {
    JsonView::Array(events.map_values(|e: EventView| event_tree(e)))
}

fn events_value(events: &Vec<Event>) -> (r: Value)
    ensures
        json_tree(r) == events_tree(events@.map_values(|e: Event| e@)),
{
    let mut items: Vec<Value> = Vec::new();
    let mut i: usize = 0;
    while i < events.len()
        invariant
            i <= events.len(),
            items.len() == i,
            forall|k: int| 0 <= k < i ==> json_tree(#[trigger] items@[k]) == event_tree(events@[k]@),
        decreases events.len() - i,
    {
        items.push(event_value(&events[i]));
        i += 1;
    }
    proof {
        assert(items@.map_values(|v: Value| json_tree(v)) =~= events@.map_values(
            |e: Event| e@,
        ).map_values(|e: EventView| event_tree(e)));
    }
    array_of(items)
}

/// What a client is answered, as a tree.
pub open spec fn server_tree(m: ServerMessageView) -> JsonView {
    match m {
        ServerMessageView::Receipt(x) => framed("receipt"@, receipt_tree(x)),
        ServerMessageView::Events(x) => framed("events"@, events_tree(x)),
        ServerMessageView::Event(x) => framed("event"@, event_tree(x)),
        ServerMessageView::CursorExpired(x) => framed(
            "cursor_expired"@,
            one_text_tree("min_retained_cursor"@, dec(x.min_retained_cursor as nat)),
        ),
        ServerMessageView::SubscriptionOpened(x) => framed("subscription_opened"@, opened_tree(x)),
        ServerMessageView::SubscriptionPending(x) => framed(
            "subscription_pending"@,
            one_text_tree("subscription_id"@, x.subscription_id),
        ),
        ServerMessageView::SlowConsumer(x) => framed("slow_consumer"@, slow_consumer_tree(x)),
        ServerMessageView::SubscriptionClosed(x) => framed(
            "subscription_closed"@,
            one_text_tree("subscription_id"@, x.subscription_id),
        ),
        ServerMessageView::Error(x) => framed("error"@, error_tree(x)),
    }
}

/// Whether an answer can be written.
pub open spec fn encodable(m: ServerMessageView) -> bool {
    match m {
        ServerMessageView::Receipt(x) => receipt_encodable(x),
        ServerMessageView::Error(x) => error_encodable(x),
        _ => true,
    }
}

/// What a client is answered, as a value of the outside crate.
pub fn server_value(m: &ServerMessage) -> (r: Value)
    requires
        encodable(m@),
    ensures
        json_tree(r) == server_tree(m@),
{
    proof {
        names_are_ordinary();
    }
    match m {
        ServerMessage::Receipt(x) => frame("receipt", receipt_value(x)),
        ServerMessage::Events(x) => frame("events", events_value(x)),
        ServerMessage::Event(x) => frame("event", event_value(x)),
        ServerMessage::CursorExpired(x) => frame(
            "cursor_expired",
            one_text_value("min_retained_cursor", &x.min_retained_cursor.to_text()),
        ),
        ServerMessage::SubscriptionOpened(x) => frame("subscription_opened", opened_value(x)),
        ServerMessage::SubscriptionPending(x) => frame(
            "subscription_pending",
            one_text_value("subscription_id", &x.subscription_id),
        ),
        ServerMessage::SlowConsumer(x) => frame("slow_consumer", slow_consumer_value(x)),
        ServerMessage::SubscriptionClosed(x) => frame(
            "subscription_closed",
            one_text_value("subscription_id", &x.subscription_id),
        ),
        ServerMessage::Error(x) => frame("error", error_value(x)),
    }
}

/// The text of an answer.
pub fn encode_server_message(m: &ServerMessage) -> (r: String)
    requires
        encodable(m@),
    ensures
        r@ == json_text(server_tree(m@)),
{
    text_of_value(&server_value(m))
}

// --- What a client sends -------------------------------------------------------------------------

/// A target on the wire.
pub open spec fn target_tree(x: TargetView) -> JsonView {
    let m0 = bare().insert("aggregate_kind"@, JsonView::Str(x.aggregate_kind));
    let m1 = m0.insert("aggregate_id"@, JsonView::Str(x.aggregate_id));
    JsonView::Object(m1)
}

/// A target on the wire.
pub fn target_value(x: &Target) -> (r: Value)
    ensures
        json_tree(r) == target_tree(x@),
{
    proof {
        names_are_ordinary();
    }
    let mut members = no_members();
    put(&mut members, "aggregate_kind", text_value(&x.aggregate_kind));
    put(&mut members, "aggregate_id", text_value(&x.aggregate_id));
    to_value(&object(members))
}

/// An expected version on the wire.
pub open spec fn version_tree(x: ExpectedVersionView) -> JsonView {
    let m0 = bare().insert("aggregate_kind"@, JsonView::Str(x.aggregate_kind));
    let m1 = m0.insert("aggregate_id"@, JsonView::Str(x.aggregate_id));
    let m2 = m1.insert("version"@, decimal_tree(x.version));
    JsonView::Object(m2)
}

/// An expected version on the wire.
pub fn version_value(x: &ExpectedVersion) -> (r: Value)
    ensures
        json_tree(r) == version_tree(x@),
{
    proof {
        names_are_ordinary();
    }
    let mut members = no_members();
    put(&mut members, "aggregate_kind", text_value(&x.aggregate_kind));
    put(&mut members, "aggregate_id", text_value(&x.aggregate_id));
    put(&mut members, "version", decimal_json(x.version.get()));
    to_value(&object(members))
}

/// Expected versions on the wire.
pub open spec fn versions_tree(list: Seq<ExpectedVersionView>) -> JsonView {
    JsonView::Array(list.map_values(|v: ExpectedVersionView| version_tree(v)))
}

pub fn versions_value(list: &Vec<ExpectedVersion>) -> (r: Value)
    ensures
        json_tree(r) == versions_tree(list@.map_values(|v: ExpectedVersion| v@)),
{
    let mut items: Vec<Value> = Vec::new();
    let mut i: usize = 0;
    while i < list.len()
        invariant
            i <= list.len(),
            items.len() == i,
            forall|k: int| 0 <= k < i ==> json_tree(#[trigger] items@[k]) == version_tree(list@[k]@),
        decreases list.len() - i,
    {
        items.push(version_value(&list[i]));
        i += 1;
    }
    proof {
        assert(items@.map_values(|v: Value| json_tree(v)) =~= list@.map_values(
            |v: ExpectedVersion| v@,
        ).map_values(|v: ExpectedVersionView| version_tree(v)));
    }
    array_of(items)
}

/// The fields of a payload on the wire.
pub open spec fn payload_fields(body: CommandBodyView) -> Map<Seq<char>, JsonView> {
    match body {
        CommandBodyView::RunOpen(p) => Map::empty().insert("run_id"@, JsonView::Str(p.run_id)).insert(
            "goal_work_item_id"@,
            JsonView::Str(p.goal_work_item_id),
        ),
        CommandBodyView::RunClose(p) => Map::empty().insert("run_id"@, JsonView::Str(p.run_id)).insert(
            "outcome"@,
            JsonView::Str(p.outcome.wire_text()),
        ),
        CommandBodyView::WorkItemCreate(p) => Map::empty().insert(
            "work_item_id"@,
            JsonView::Str(p.work_item_id),
        ).insert(
            "acceptance_contract_digest"@,
            JsonView::Str(p.acceptance_contract_digest),
        ).insert("declared_write_scope"@, text_array_view(p.declared_write_scope)),
        CommandBodyView::UnitAdmit(p) => Map::empty().insert(
            "unit_id"@,
            JsonView::Str(p.unit_id),
        ).insert("work_item_id"@, JsonView::Str(p.work_item_id)).insert(
            "run_id"@,
            JsonView::Str(p.run_id),
        ),
        CommandBodyView::UnitDispatch(p) => Map::empty().insert(
            "unit_id"@,
            JsonView::Str(p.unit_id),
        ).insert("holder_id"@, JsonView::Str(p.holder_id)),
        CommandBodyView::ProgressReport(p) => Map::empty().insert(
            "unit_id"@,
            JsonView::Str(p.unit_id),
        ),
        CommandBodyView::StampBump(p) => Map::empty().insert("unit_id"@, JsonView::Str(p.unit_id)),
    }
}

/// A payload on the wire: its fields, and the members that are none.
pub open spec fn payload_tree(body: CommandBodyView) -> JsonView {
    JsonView::Object(payload_fields(body).union_prefer_right(body.extras()))
}

impl CommandBody {
    /// The payload as a value of the outside crate.
    pub fn payload_json(&self) -> (r: Value)
        ensures
            json_tree(r) == payload_tree(self@),
    {
        proof {
            names_are_ordinary();
        }
        match self {
            CommandBody::RunOpen(p) => with_members(
                to_value(
                    &object2(
                        "run_id",
                        text_value(&p.run_id),
                        "goal_work_item_id",
                        text_value(&p.goal_work_item_id),
                    ),
                ),
                &p.extra,
            ),
            CommandBody::RunClose(p) => with_members(
                to_value(
                    &object2(
                        "run_id",
                        text_value(&p.run_id),
                        "outcome",
                        text_value(p.outcome.wire()),
                    ),
                ),
                &p.extra,
            ),
            CommandBody::WorkItemCreate(p) => with_members(
                to_value(
                    &object3(
                        "work_item_id",
                        text_value(&p.work_item_id),
                        "acceptance_contract_digest",
                        text_value(&p.acceptance_contract_digest),
                        "declared_write_scope",
                        text_array(&p.declared_write_scope),
                    ),
                ),
                &p.extra,
            ),
            CommandBody::UnitAdmit(p) => with_members(
                to_value(
                    &object3(
                        "unit_id",
                        text_value(&p.unit_id),
                        "work_item_id",
                        text_value(&p.work_item_id),
                        "run_id",
                        text_value(&p.run_id),
                    ),
                ),
                &p.extra,
            ),
            CommandBody::UnitDispatch(p) => with_members(
                to_value(
                    &object2(
                        "unit_id",
                        text_value(&p.unit_id),
                        "holder_id",
                        text_value(&p.holder_id),
                    ),
                ),
                &p.extra,
            ),
            CommandBody::ProgressReport(p) => {
                let r = one_text_value("unit_id", &p.unit_id);
                proof {
                    assert(payload_fields(self@).union_prefer_right(self@.extras())
                        =~= payload_fields(self@));
                }
                r
            },
            CommandBody::StampBump(p) => with_members(
                one_text_value("unit_id", &p.unit_id),
                &p.extra,
            ),
        }
    }
}

/// A command on the wire.
pub open spec fn command_tree(x: CommandView) -> JsonView {
    let m0 = bare().insert("protocol_version"@, JsonView::Uint(x.protocol_version@ as u64));
    let m1 = m0.insert("command_id"@, JsonView::Str(x.command_id));
    let m2 = m1.insert("payload_schema_version"@, JsonView::Uint(x.payload_schema_version@ as u64));
    let m3 = with_text(m2, "attempt_token"@, x.attempt_token);
    let m4 = match x.authority_epoch {
        Some(n) => m3.insert("authority_epoch"@, decimal_tree(n)),
        None => m3,
    };
    let m5 = with_text(m4, "deadline"@, x.deadline);
    let m6 = with_text(m5, "causation_id"@, x.causation_id);
    let m7 = with_text(m6, "correlation_id"@, x.correlation_id);
    let m8 = with_text(m7, "trace_context"@, x.trace_context);
    let m9 = m8.insert("request_digest"@, JsonView::Str(x.request_digest));
    JsonView::Object(
        m9.insert("command_type"@, JsonView::Str(x.body.kind().wire_text())).insert(
            "scope"@,
            scope_tree(x.scope),
        ).insert("target"@, target_tree(x.target)).insert(
            "expected_versions"@,
            versions_tree(x.expected_versions),
        ).insert("payload"@, payload_tree(x.body)),
    )
}

/// A command on the wire.
pub fn command_value(x: &Command) -> (r: Value)
    ensures
        json_tree(r) == command_tree(x@),
{
    proof {
        names_are_ordinary();
    }
    let mut members = no_members();
    put(&mut members, "protocol_version", uint_json(x.protocol_version.get() as u64));
    put(&mut members, "command_id", text_value(&x.command_id));
    put(&mut members, "payload_schema_version", uint_json(x.payload_schema_version.get() as u64));
    put_opt(&mut members, "attempt_token", &x.attempt_token);
    if let Some(n) = &x.authority_epoch {
        put(&mut members, "authority_epoch", decimal_json(n.get()));
    }
    if let Some(t) = &x.deadline {
        put(&mut members, "deadline", text_value(t.as_str()));
    }
    put_opt(&mut members, "causation_id", &x.causation_id);
    put_opt(&mut members, "correlation_id", &x.correlation_id);
    put_opt(&mut members, "trace_context", &x.trace_context);
    put(&mut members, "request_digest", text_value(&x.request_digest));
    put(&mut members, "command_type", text_value(x.body.command_type().wire()));
    let base = to_value(&object(members));
    let a = with_member(base, "scope", scope_value(&x.scope));
    let b = with_member(a, "target", target_value(&x.target));
    let c = with_member(b, "expected_versions", versions_value(&x.expected_versions));
    with_member(c, "payload", x.body.payload_json())
}

/// What a client sends, as a tree.
pub open spec fn client_tree(m: ClientMessageView) -> JsonView {
    match m {
        ClientMessageView::Command(c) => framed("command"@, command_tree(c)),
        ClientMessageView::Resume { project_id, after_cursor } => framed(
            "resume"@,
            cursor_request(project_id, after_cursor),
        ),
        ClientMessageView::Subscribe { project_id, after_cursor } => framed(
            "subscribe"@,
            cursor_request(project_id, after_cursor),
        ),
        ClientMessageView::SubscriptionPoll { subscription_id } => framed(
            "subscription_poll"@,
            one_text_tree("subscription_id"@, subscription_id),
        ),
        ClientMessageView::SubscriptionClose { subscription_id } => framed(
            "subscription_close"@,
            one_text_tree("subscription_id"@, subscription_id),
        ),
    }
}

/// A request from a cursor on, on the wire.
pub open spec fn cursor_request(project_id: Seq<char>, after_cursor: u64) -> JsonView {
    JsonView::Object(
        Map::empty().insert("project_id"@, JsonView::Str(project_id)).insert(
            "after_cursor"@,
            decimal_tree(after_cursor),
        ),
    )
}

fn cursor_request_value(project_id: &str, after_cursor: u64) -> (r: Value)
    ensures
        json_tree(r) == cursor_request(project_id@, after_cursor),
{
    proof {
        names_are_ordinary();
    }
    to_value(
        &object2(
            "project_id",
            text_value(project_id),
            "after_cursor",
            decimal_json(after_cursor),
        ),
    )
}

/// What a client sends, as a value of the outside crate.
pub fn client_value(m: &ClientMessage) -> (r: Value)
    ensures
        json_tree(r) == client_tree(m@),
{
    proof {
        names_are_ordinary();
    }
    match m {
        ClientMessage::Command(c) => frame("command", command_value(c)),
        ClientMessage::Resume { project_id, after_cursor } => frame(
            "resume",
            cursor_request_value(project_id, after_cursor.get()),
        ),
        ClientMessage::Subscribe { project_id, after_cursor } => frame(
            "subscribe",
            cursor_request_value(project_id, after_cursor.get()),
        ),
        ClientMessage::SubscriptionPoll { subscription_id } => frame(
            "subscription_poll",
            one_text_value("subscription_id", subscription_id),
        ),
        ClientMessage::SubscriptionClose { subscription_id } => frame(
            "subscription_close",
            one_text_value("subscription_id", subscription_id),
        ),
    }
}

// --- Decoding ------------------------------------------------------------------------------------

/// A member of an object; `Null` where there is none.
pub open spec fn member_or_null(tree: JsonView, name: Seq<char>) -> JsonView {
    match member(tree, name) {
        Some(v) => v,
        None => JsonView::Null,
    }
}

/// A text that may be absent or null; `None` for any other value.
pub open spec fn opt_text_member(tree: JsonView, name: Seq<char>) -> Option<Option<Seq<char>>> {
    match member_or_null(tree, name) {
        JsonView::Null => Some(None),
        JsonView::Str(s) => Some(Some(s)),
        _ => None,
    }
}

/// The number that a decimal string stands for.
pub open spec fn decimal_of(s: Seq<char>) -> Option<u64> {
    if is_canonical_decimal(s) && dec_value(s) <= u64::MAX {
        Some(dec_value(s) as u64)
    } else {
        None
    }
}

/// A decimal string.
pub open spec fn decimal_field(tree: JsonView, i: int, name: Seq<char>) -> Option<u64> {
    match text_field(tree, i, name) {
        Some(s) => decimal_of(s),
        None => None,
    }
}

/// A decimal string that may be absent or null; `None` for any other value.
pub open spec fn opt_decimal_member(tree: JsonView, name: Seq<char>) -> Option<Option<u64>> {
    match opt_text_member(tree, name) {
        Some(Some(s)) => match decimal_of(s) {
            Some(n) => Some(Some(n)),
            None => None,
        },
        Some(None) => Some(None),
        None => None,
    }
}

/// A timestamp that may be absent or null; `None` for any other value.
pub open spec fn opt_stamp_member(tree: JsonView, name: Seq<char>) -> Option<Option<Seq<char>>> {
    match opt_text_member(tree, name) {
        Some(Some(s)) => if timestamp_fault(s, rfc3339_reading(s)) is None {
            Some(Some(s))
        } else {
            None
        },
        Some(None) => Some(None),
        None => None,
    }
}

/// A number of at most 32 bits.
pub open spec fn u32_member(tree: JsonView, name: Seq<char>) -> Option<u32> {
    match uint_member(tree, name) {
        Some(n) => if n <= u32::MAX {
            Some(n as u32)
        } else {
            None
        },
        None => None,
    }
}

/// A scope that was read.
pub open spec fn decode_scope(tree: JsonView) -> Option<ScopeView> {
    if !shaped(tree, 2) {
        None
    } else {
        match (text_field(tree, 0, "scope_kind"@), text_field(tree, 1, "scope_id"@)) {
            (Some(kind), Some(scope_id)) => match scope_kind_named(kind) {
                Some(scope_kind) => Some(ScopeView { scope_kind, scope_id }),
                None => None,
            },
            _ => None,
        }
    }
}

/// A target that was read.
pub open spec fn decode_target(tree: JsonView) -> Option<TargetView> {
    if !shaped(tree, 2) {
        None
    } else {
        match (text_field(tree, 0, "aggregate_kind"@), text_field(tree, 1, "aggregate_id"@)) {
            (Some(aggregate_kind), Some(aggregate_id)) => Some(
                TargetView { aggregate_kind, aggregate_id },
            ),
            _ => None,
        }
    }
}

/// An expected version that was read.
pub open spec fn decode_version(tree: JsonView) -> Option<ExpectedVersionView> {
    if !shaped(tree, 3) {
        None
    } else {
        match (
            text_field(tree, 0, "aggregate_kind"@),
            text_field(tree, 1, "aggregate_id"@),
            decimal_field(tree, 2, "version"@),
        ) {
            (Some(aggregate_kind), Some(aggregate_id), Some(version)) => Some(
                ExpectedVersionView { aggregate_kind, aggregate_id, version },
            ),
            _ => None,
        }
    }
}

/// The first `n` expected versions that were read.
pub open spec fn decode_versions(items: Seq<JsonView>, n: nat) -> Option<Seq<ExpectedVersionView>>
    decreases n,
{
    if n == 0 {
        Some(Seq::empty())
    } else {
        match (decode_versions(items, (n - 1) as nat), decode_version(items[n - 1])) {
            (Some(front), Some(v)) => Some(front.push(v)),
            _ => None,
        }
    }
}

/// The expected versions that were read.
pub open spec fn decode_version_list(tree: JsonView) -> Option<Seq<ExpectedVersionView>> {
    match tree {
        JsonView::Array(items) => decode_versions(items, items.len()),
        _ => None,
    }
}

/// The first `n` texts that were read.
pub open spec fn decode_texts(items: Seq<JsonView>, n: nat) -> Option<Seq<Seq<char>>>
    decreases n,
{
    if n == 0 {
        Some(Seq::empty())
    } else {
        match (decode_texts(items, (n - 1) as nat), items[n - 1]) {
            (Some(front), JsonView::Str(s)) => Some(front.push(s)),
            _ => None,
        }
    }
}

/// The texts that were read.
pub open spec fn decode_text_list(tree: JsonView) -> Option<Seq<Seq<char>>> {
    match tree {
        JsonView::Array(items) => decode_texts(items, items.len()),
        _ => None,
    }
}

/// What a command asks for, from its type and its payload.
pub open spec fn decode_body(kind: Seq<char>, payload: JsonView) -> Option<CommandBodyView> {
    let map = payload->Object_0;
    if payload is Array {
        if kind == "unit.progress_report"@ && shaped(payload, 1) {
            match text_field(payload, 0, "unit_id"@) {
                Some(unit_id) => Some(
                    CommandBodyView::ProgressReport(ProgressReportPayloadView { unit_id }),
                ),
                None => None,
            }
        } else {
            None
        }
    } else if !(payload is Object) {
        None
    } else if kind == "run.open"@ {
        match (text_member(payload, "run_id"@), text_member(payload, "goal_work_item_id"@)) {
            (Some(run_id), Some(goal_work_item_id)) => Some(
                CommandBodyView::RunOpen(
                    RunOpenPayloadView {
                        run_id,
                        goal_work_item_id,
                        extra: others(map, seq!["run_id"@, "goal_work_item_id"@]),
                    },
                ),
            ),
            _ => None,
        }
    } else if kind == "run.close"@ {
        match (text_member(payload, "run_id"@), text_member(payload, "outcome"@)) {
            (Some(run_id), Some(name)) => match run_close_outcome_named(name) {
                Some(outcome) => Some(
                    CommandBodyView::RunClose(
                        RunClosePayloadView {
                            run_id,
                            outcome,
                            extra: others(map, seq!["run_id"@, "outcome"@]),
                        },
                    ),
                ),
                None => None,
            },
            _ => None,
        }
    } else if kind == "work_item.create"@ {
        match (
            text_member(payload, "work_item_id"@),
            text_member(payload, "acceptance_contract_digest"@),
            decode_text_list(member_or_null(payload, "declared_write_scope"@)),
        ) {
            (Some(work_item_id), Some(acceptance_contract_digest), Some(declared_write_scope)) =>
                Some(
                CommandBodyView::WorkItemCreate(
                    WorkItemCreatePayloadView {
                        work_item_id,
                        acceptance_contract_digest,
                        declared_write_scope,
                        extra: others(
                            map,
                            seq![
                                "work_item_id"@,
                                "acceptance_contract_digest"@,
                                "declared_write_scope"@,
                            ],
                        ),
                    },
                ),
            ),
            _ => None,
        }
    } else if kind == "unit.admit"@ {
        match (
            text_member(payload, "unit_id"@),
            text_member(payload, "work_item_id"@),
            text_member(payload, "run_id"@),
        ) {
            (Some(unit_id), Some(work_item_id), Some(run_id)) => Some(
                CommandBodyView::UnitAdmit(
                    UnitAdmitPayloadView {
                        unit_id,
                        work_item_id,
                        run_id,
                        extra: others(map, seq!["unit_id"@, "work_item_id"@, "run_id"@]),
                    },
                ),
            ),
            _ => None,
        }
    } else if kind == "unit.dispatch"@ {
        match (text_member(payload, "unit_id"@), text_member(payload, "holder_id"@)) {
            (Some(unit_id), Some(holder_id)) => Some(
                CommandBodyView::UnitDispatch(
                    UnitDispatchPayloadView {
                        unit_id,
                        holder_id,
                        extra: others(map, seq!["unit_id"@, "holder_id"@]),
                    },
                ),
            ),
            _ => None,
        }
    } else if kind == "unit.progress_report"@ {
        match text_member(payload, "unit_id"@) {
            Some(unit_id) => if others(map, seq!["unit_id"@]) == Map::<Seq<char>, JsonView>::empty() {
                Some(CommandBodyView::ProgressReport(ProgressReportPayloadView { unit_id }))
            } else {
                None
            },
            None => None,
        }
    } else if kind == "unit.stamp_bump"@ {
        match text_member(payload, "unit_id"@) {
            Some(unit_id) => Some(
                CommandBodyView::StampBump(
                    UnitPayloadView { unit_id, extra: others(map, seq!["unit_id"@]) },
                ),
            ),
            None => None,
        }
    } else {
        None
    }
}

/// The parts of a command that stand beside its body.
pub struct Envelope {
    pub protocol_version: Option<u32>,
    pub command_id: Option<Seq<char>>,
    pub scope: Option<ScopeView>,
    pub payload_schema_version: Option<u32>,
    pub target: Option<TargetView>,
    pub expected_versions: Option<Seq<ExpectedVersionView>>,
    pub attempt_token: Option<Option<Seq<char>>>,
    pub authority_epoch: Option<Option<u64>>,
    pub deadline: Option<Option<Seq<char>>>,
    pub causation_id: Option<Option<Seq<char>>>,
    pub correlation_id: Option<Option<Seq<char>>>,
    pub trace_context: Option<Option<Seq<char>>>,
    pub request_digest: Option<Seq<char>>,
}

/// The parts of a command as they read.
pub open spec fn envelope_of(tree: JsonView) -> Envelope {
    Envelope {
        protocol_version: u32_member(tree, "protocol_version"@),
        command_id: text_member(tree, "command_id"@),
        scope: decode_scope(member_or_null(tree, "scope"@)),
        payload_schema_version: u32_member(tree, "payload_schema_version"@),
        target: decode_target(member_or_null(tree, "target"@)),
        expected_versions: decode_version_list(member_or_null(tree, "expected_versions"@)),
        attempt_token: opt_text_member(tree, "attempt_token"@),
        authority_epoch: opt_decimal_member(tree, "authority_epoch"@),
        deadline: opt_stamp_member(tree, "deadline"@),
        causation_id: opt_text_member(tree, "causation_id"@),
        correlation_id: opt_text_member(tree, "correlation_id"@),
        trace_context: opt_text_member(tree, "trace_context"@),
        request_digest: text_member(tree, "request_digest"@),
    }
}

/// Whether every part of a command reads.
pub open spec fn is_whole(e: Envelope) -> bool {
    &&& e.protocol_version is Some
    &&& e.command_id is Some
    &&& e.scope is Some
    &&& e.payload_schema_version is Some
    &&& e.target is Some
    &&& e.expected_versions is Some
    &&& e.attempt_token is Some
    &&& e.authority_epoch is Some
    &&& e.deadline is Some
    &&& e.causation_id is Some
    &&& e.correlation_id is Some
    &&& e.trace_context is Some
    &&& e.request_digest is Some
}

/// Whether a command is the one that an envelope and a body make.
pub open spec fn is_made_of(c: CommandView, e: Envelope, body: CommandBodyView) -> bool {
    &&& Some(c.protocol_version@) == e.protocol_version
    &&& Some(c.command_id) == e.command_id
    &&& Some(c.scope) == e.scope
    &&& Some(c.payload_schema_version@) == e.payload_schema_version
    &&& Some(c.target) == e.target
    &&& Some(c.expected_versions) == e.expected_versions
    &&& Some(c.attempt_token) == e.attempt_token
    &&& Some(c.authority_epoch) == e.authority_epoch
    &&& Some(c.deadline) == e.deadline
    &&& Some(c.causation_id) == e.causation_id
    &&& Some(c.correlation_id) == e.correlation_id
    &&& Some(c.trace_context) == e.trace_context
    &&& Some(c.request_digest) == e.request_digest
    &&& c.body == body
}

/// What a command asks for, as it reads.
pub open spec fn body_in(tree: JsonView) -> Option<CommandBodyView> {
    match (text_member(tree, "command_type"@), member(tree, "payload"@)) {
        (Some(kind), Some(payload)) => decode_body(kind, payload),
        _ => None,
    }
}

/// Whether a tree reads as a command.
pub open spec fn reads_as_command(tree: JsonView, c: CommandView) -> bool {
    is_whole(envelope_of(tree)) && body_in(tree) is Some && is_made_of(
        c,
        envelope_of(tree),
        body_in(tree)->0,
    )
}

/// The kind of a frame, where it is one.
pub open spec fn kind_in(tree: JsonView) -> Option<Seq<char>> {
    if shaped(tree, 2) {
        text_field(tree, 0, "kind"@)
    } else {
        None
    }
}

/// The message of a frame; `Null` where there is none.
pub open spec fn message_in(tree: JsonView) -> JsonView {
    match field(tree, 1, "message"@) {
        Some(message) => message,
        None => JsonView::Null,
    }
}

/// Whether a tree reads as what a client sends. A frame, a message and a part of a command may be
/// written by position, as an array of its fields; a command may not, nor any payload that keeps
/// members beyond its fields.
pub open spec fn reads_as(tree: JsonView, m: ClientMessageView) -> bool {
    let kind = kind_in(tree);
    let message = message_in(tree);
    match m {
        ClientMessageView::Command(c) => kind == Some("command"@) && reads_as_command(message, c),
        ClientMessageView::Resume { project_id, after_cursor } => kind == Some("resume"@)
            && shaped(message, 2) && text_field(message, 0, "project_id"@) == Some(project_id)
            && decimal_field(message, 1, "after_cursor"@) == Some(after_cursor),
        ClientMessageView::Subscribe { project_id, after_cursor } => kind == Some("subscribe"@)
            && shaped(message, 2) && text_field(message, 0, "project_id"@) == Some(project_id)
            && decimal_field(message, 1, "after_cursor"@) == Some(after_cursor),
        ClientMessageView::SubscriptionPoll { subscription_id } => kind == Some(
            "subscription_poll"@,
        ) && shaped(message, 1) && text_field(message, 0, "subscription_id"@) == Some(subscription_id),
        ClientMessageView::SubscriptionClose { subscription_id } => kind == Some(
            "subscription_close"@,
        ) && shaped(message, 1) && text_field(message, 0, "subscription_id"@) == Some(subscription_id),
    }
}

/// Whether a tree reads as anything that a client sends.
pub open spec fn is_client_message(tree: JsonView) -> bool {
    let kind = kind_in(tree);
    let message = message_in(tree);
    ||| kind == Some("command"@) && is_whole(envelope_of(message)) && body_in(message) is Some
    ||| (kind == Some("resume"@) || kind == Some("subscribe"@)) && shaped(message, 2)
        && text_field(message, 0, "project_id"@) is Some && decimal_field(
        message,
        1,
        "after_cursor"@,
    ) is Some
    ||| (kind == Some("subscription_poll"@) || kind == Some("subscription_close"@)) && shaped(
        message,
        1,
    ) && text_field(message, 0, "subscription_id"@) is Some
}

fn read_opt_text(tree: &Json, name: &str) -> (r: Option<Option<String>>)
    ensures
        match r {
            Some(o) => opt_text_member(tree@, name@) == Some(opt_view(o)),
            None => opt_text_member(tree@, name@) is None,
        },
{
    match tree.get(name) {
        None => Some(None),
        Some(v) => match v {
            Json::Null => Some(None),
            Json::Str(s) => Some(Some(s.clone())),
            _ => None,
        },
    }
}

fn read_decimal(tree: &Json, i: usize, name: &str) -> (r: Option<DecimalU64>)
    ensures
        match r {
            Some(n) => decimal_field(tree@, i as int, name@) == Some(n@),
            None => decimal_field(tree@, i as int, name@) is None,
        },
{
    match get_text_field(tree, i, name) {
        Some(s) => match DecimalU64::try_from(s) {
            Ok(n) => Some(n),
            Err(_) => None,
        },
        None => None,
    }
}

fn read_opt_decimal(tree: &Json, name: &str) -> (r: Option<Option<DecimalU64>>)
    ensures
        match r {
            Some(Some(n)) => opt_decimal_member(tree@, name@) == Some(Some(n@)),
            Some(None) => opt_decimal_member(tree@, name@) == Some(None::<u64>),
            None => opt_decimal_member(tree@, name@) is None,
        },
{
    match read_opt_text(tree, name) {
        Some(Some(s)) => match DecimalU64::try_from(s) {
            Ok(n) => Some(Some(n)),
            Err(_) => None,
        },
        Some(None) => Some(None),
        None => None,
    }
}

fn read_opt_stamp(tree: &Json, name: &str) -> (r: Option<Option<Rfc3339Timestamp>>)
    ensures
        match r {
            Some(Some(t)) => opt_stamp_member(tree@, name@) == Some(Some(t@)),
            Some(None) => opt_stamp_member(tree@, name@) == Some(None::<Seq<char>>),
            None => opt_stamp_member(tree@, name@) is None,
        },
{
    match read_opt_text(tree, name) {
        Some(Some(s)) => match Rfc3339Timestamp::new(s) {
            Ok(t) => Some(Some(t)),
            Err(_) => None,
        },
        Some(None) => Some(None),
        None => None,
    }
}

fn read_u32(tree: &Json, name: &str) -> (r: Option<BoundedU32>)
    ensures
        match r {
            Some(n) => u32_member(tree@, name@) == Some(n@),
            None => u32_member(tree@, name@) is None,
        },
{
    match get_uint(tree, name) {
        Some(n) => if n <= u32::MAX as u64 {
            Some(BoundedU32::new(n as u32))
        } else {
            None
        },
        None => None,
    }
}

fn read_scope(tree: Option<&Json>) -> (r: Option<Scope>)
    ensures
        ({
            let want = decode_scope(
                match tree {
                    Some(t) => t@,
                    None => JsonView::Null,
                },
            );
            match r {
                Some(s) => want == Some(s@),
                None => want is None,
            }
        }),
{
    let tree = match tree {
        Some(t) => t,
        None => {
            return None;
        },
    };
    if !is_shaped(tree, 2) {
        return None;
    }
    match (get_text_field(tree, 0, "scope_kind"), get_text_field(tree, 1, "scope_id")) {
        (Some(kind), Some(scope_id)) => match scope_kind_from_wire(&kind) {
            Some(scope_kind) => Some(Scope { scope_kind, scope_id }),
            None => None,
        },
        _ => None,
    }
}

fn read_target(tree: Option<&Json>) -> (r: Option<Target>)
    ensures
        ({
            let want = decode_target(
                match tree {
                    Some(t) => t@,
                    None => JsonView::Null,
                },
            );
            match r {
                Some(s) => want == Some(s@),
                None => want is None,
            }
        }),
{
    let tree = match tree {
        Some(t) => t,
        None => {
            return None;
        },
    };
    if !is_shaped(tree, 2) {
        return None;
    }
    match (get_text_field(tree, 0, "aggregate_kind"), get_text_field(tree, 1, "aggregate_id")) {
        (Some(aggregate_kind), Some(aggregate_id)) => Some(
            Target { aggregate_kind, aggregate_id },
        ),
        _ => None,
    }
}

fn read_version(tree: &Json) -> (r: Option<ExpectedVersion>)
    ensures
        match r {
            Some(v) => decode_version(tree@) == Some(v@),
            None => decode_version(tree@) is None,
        },
{
    if !is_shaped(tree, 3) {
        return None;
    }
    match (
        get_text_field(tree, 0, "aggregate_kind"),
        get_text_field(tree, 1, "aggregate_id"),
        read_decimal(tree, 2, "version"),
    ) {
        (Some(aggregate_kind), Some(aggregate_id), Some(version)) => Some(
            ExpectedVersion { aggregate_kind, aggregate_id, version },
        ),
        _ => None,
    }
}

proof fn versions_stop(items: Seq<JsonView>, i: nat, n: nat)
    requires
        i <= n,
        decode_versions(items, i) is None,
    ensures
        decode_versions(items, n) is None,
    decreases n - i,
{
    if i < n {
        versions_stop(items, i + 1, n);
    }
}

proof fn texts_stop(items: Seq<JsonView>, i: nat, n: nat)
    requires
        i <= n,
        decode_texts(items, i) is None,
    ensures
        decode_texts(items, n) is None,
    decreases n - i,
{
    if i < n {
        texts_stop(items, i + 1, n);
    }
}

fn read_versions(tree: Option<&Json>) -> (r: Option<Vec<ExpectedVersion>>)
    ensures
        ({
            let want = decode_version_list(
                match tree {
                    Some(t) => t@,
                    None => JsonView::Null,
                },
            );
            match r {
                Some(v) => want == Some(v@.map_values(|x: ExpectedVersion| x@)),
                None => want is None,
            }
        }),
{
    let list = match tree {
        Some(t) => t,
        None => {
            return None;
        },
    };
    match list {
        Json::Array(items) => {
            let ghost all = list@->Array_0;
            proof {
                crate::json::array_items(*list);
            }
            let mut out: Vec<ExpectedVersion> = Vec::new();
            let mut i: usize = 0;
            proof {
                assert(out@.map_values(|x: ExpectedVersion| x@)
                    =~= Seq::<ExpectedVersionView>::empty());
            }
            while i < items.len()
                invariant
                    i <= items.len(),
                    tree is Some,
                    tree->0@ == JsonView::Array(all),
                    all.len() == items.len(),
                    forall|k: int| 0 <= k < all.len() ==> all[k] == (#[trigger] items@[k])@,
                    decode_versions(all, i as nat) == Some(
                        out@.map_values(|x: ExpectedVersion| x@),
                    ),
                decreases items.len() - i,
            {
                proof {
                    assert(all[i as int] == items@[i as int]@);
                }
                match read_version(&items[i]) {
                    Some(v) => {
                        let ghost before = out@.map_values(|x: ExpectedVersion| x@);
                        out.push(v);
                        proof {
                            assert(out@.map_values(|x: ExpectedVersion| x@) =~= before.push(v@));
                        }
                    },
                    None => {
                        proof {
                            assert(decode_versions(all, (i + 1) as nat) is None);
                            versions_stop(all, (i + 1) as nat, all.len());
                        }
                        return None;
                    },
                }
                i += 1;
            }
            Some(out)
        },
        _ => None,
    }
}

fn read_texts(tree: Option<&Json>) -> (r: Option<Vec<String>>)
    ensures
        ({
            let want = decode_text_list(
                match tree {
                    Some(t) => t@,
                    None => JsonView::Null,
                },
            );
            match r {
                Some(v) => want == Some(views(v@)),
                None => want is None,
            }
        }),
{
    let list = match tree {
        Some(t) => t,
        None => {
            return None;
        },
    };
    match list {
        Json::Array(items) => {
            let ghost all = list@->Array_0;
            proof {
                crate::json::array_items(*list);
            }
            let mut out: Vec<String> = Vec::new();
            let mut i: usize = 0;
            proof {
                assert(views(out@) =~= Seq::<Seq<char>>::empty());
            }
            while i < items.len()
                invariant
                    i <= items.len(),
                    tree is Some,
                    tree->0@ == JsonView::Array(all),
                    all.len() == items.len(),
                    forall|k: int| 0 <= k < all.len() ==> all[k] == (#[trigger] items@[k])@,
                    decode_texts(all, i as nat) == Some(views(out@)),
                decreases items.len() - i,
            {
                proof {
                    assert(all[i as int] == items@[i as int]@);
                }
                match items[i].as_text() {
                    Some(s) => {
                        let ghost before = views(out@);
                        out.push(s.clone());
                        proof {
                            assert(views(out@) =~= before.push(s@));
                        }
                    },
                    None => {
                        proof {
                            assert(decode_texts(all, (i + 1) as nat) is None);
                            texts_stop(all, (i + 1) as nat, all.len());
                        }
                        return None;
                    },
                }
                i += 1;
            }
            Some(out)
        },
        _ => None,
    }
}

fn names1(a: &str) -> (r: Vec<String>)
    ensures
        views(r@) == seq![a@],
{
    let mut v: Vec<String> = Vec::new();
    v.push(a.to_owned());
    proof {
        assert(views(v@) =~= seq![a@]);
    }
    v
}

fn names2(a: &str, b: &str) -> (r: Vec<String>)
    ensures
        views(r@) == seq![a@, b@],
{
    let mut v: Vec<String> = Vec::new();
    v.push(a.to_owned());
    v.push(b.to_owned());
    proof {
        assert(views(v@) =~= seq![a@, b@]);
    }
    v
}

fn names3(a: &str, b: &str, c: &str) -> (r: Vec<String>)
    ensures
        views(r@) == seq![a@, b@, c@],
{
    let mut v: Vec<String> = Vec::new();
    v.push(a.to_owned());
    v.push(b.to_owned());
    v.push(c.to_owned());
    proof {
        assert(views(v@) =~= seq![a@, b@, c@]);
    }
    v
}

fn read_body(kind: &str, payload: &Value) -> (r: Option<CommandBody>)
    ensures
        match r {
            Some(b) => decode_body(kind@, json_tree(*payload)) == Some(b@),
            None => decode_body(kind@, json_tree(*payload)) is None,
        },
{
    let tree = from_value(payload);
    if matches!(tree, Json::Array(_)) {
        if !same(kind, "unit.progress_report") || !is_shaped(&tree, 1) {
            return None;
        }
        return match get_text_field(&tree, 0, "unit_id") {
            Some(unit_id) => Some(CommandBody::ProgressReport(ProgressReportPayload { unit_id })),
            None => None,
        };
    }
    if !matches!(tree, Json::Object(_)) {
        return None;
    }
    if same(kind, "run.open") {
        match (get_text(&tree, "run_id"), get_text(&tree, "goal_work_item_id")) {
            (Some(run_id), Some(goal_work_item_id)) => {
                let extra = other_members(payload, &names2("run_id", "goal_work_item_id"));
                Some(CommandBody::RunOpen(RunOpenPayload { run_id, goal_work_item_id, extra }))
            },
            _ => None,
        }
    } else if same(kind, "run.close") {
        match (get_text(&tree, "run_id"), get_text(&tree, "outcome")) {
            (Some(run_id), Some(name)) => match run_close_outcome_from_wire(&name) {
                Some(outcome) => {
                    let extra = other_members(payload, &names2("run_id", "outcome"));
                    Some(CommandBody::RunClose(RunClosePayload { run_id, outcome, extra }))
                },
                None => None,
            },
            _ => None,
        }
    } else if same(kind, "work_item.create") {
        match (
            get_text(&tree, "work_item_id"),
            get_text(&tree, "acceptance_contract_digest"),
            read_texts(tree.get("declared_write_scope")),
        ) {
            (Some(work_item_id), Some(acceptance_contract_digest), Some(declared_write_scope)) => {
                let extra = other_members(
                    payload,
                    &names3("work_item_id", "acceptance_contract_digest", "declared_write_scope"),
                );
                Some(
                    CommandBody::WorkItemCreate(
                        WorkItemCreatePayload {
                            work_item_id,
                            acceptance_contract_digest,
                            declared_write_scope,
                            extra,
                        },
                    ),
                )
            },
            _ => None,
        }
    } else if same(kind, "unit.admit") {
        match (
            get_text(&tree, "unit_id"),
            get_text(&tree, "work_item_id"),
            get_text(&tree, "run_id"),
        ) {
            (Some(unit_id), Some(work_item_id), Some(run_id)) => {
                let extra = other_members(payload, &names3("unit_id", "work_item_id", "run_id"));
                Some(
                    CommandBody::UnitAdmit(
                        UnitAdmitPayload { unit_id, work_item_id, run_id, extra },
                    ),
                )
            },
            _ => None,
        }
    } else if same(kind, "unit.dispatch") {
        match (get_text(&tree, "unit_id"), get_text(&tree, "holder_id")) {
            (Some(unit_id), Some(holder_id)) => {
                let extra = other_members(payload, &names2("unit_id", "holder_id"));
                Some(CommandBody::UnitDispatch(UnitDispatchPayload { unit_id, holder_id, extra }))
            },
            _ => None,
        }
    } else if same(kind, "unit.progress_report") {
        match get_text(&tree, "unit_id") {
            Some(unit_id) => {
                let extra = other_members(payload, &names1("unit_id"));
                proof {
                    if extra@.len() > 0 {
                        assert(value_map(extra@).dom().contains(extra@.last().0@));
                    }
                }
                if extra.len() == 0 {
                    Some(CommandBody::ProgressReport(ProgressReportPayload { unit_id }))
                } else {
                    None
                }
            },
            None => None,
        }
    } else if same(kind, "unit.stamp_bump") {
        match get_text(&tree, "unit_id") {
            Some(unit_id) => {
                let extra = other_members(payload, &names1("unit_id"));
                Some(CommandBody::StampBump(UnitPayload { unit_id, extra }))
            },
            None => None,
        }
    } else {
        None
    }
}

fn read_command(value: &Value) -> (r: Option<Command>)
    ensures
        match r {
            Some(c) => reads_as_command(json_tree(*value), c@),
            None => !(is_whole(envelope_of(json_tree(*value))) && body_in(json_tree(*value))
                is Some),
        },
{
    let tree = from_value(value);
    let kind = get_text(&tree, "command_type");
    let payload = member_value(value, "payload");
    let body = match (kind, payload) {
        (Some(kind), Some(payload)) => read_body(&kind, &payload),
        _ => None,
    };
    match (
        read_u32(&tree, "protocol_version"),
        get_text(&tree, "command_id"),
        read_scope(tree.get("scope")),
        read_u32(&tree, "payload_schema_version"),
        read_target(tree.get("target")),
        read_versions(tree.get("expected_versions")),
        get_text(&tree, "request_digest"),
        body,
    ) {
        (
            Some(protocol_version),
            Some(command_id),
            Some(scope),
            Some(payload_schema_version),
            Some(target),
            Some(expected_versions),
            Some(request_digest),
            Some(body),
        ) => match (
            read_opt_text(&tree, "attempt_token"),
            read_opt_decimal(&tree, "authority_epoch"),
            read_opt_stamp(&tree, "deadline"),
            read_opt_text(&tree, "causation_id"),
            read_opt_text(&tree, "correlation_id"),
            read_opt_text(&tree, "trace_context"),
        ) {
            (
                Some(attempt_token),
                Some(authority_epoch),
                Some(deadline),
                Some(causation_id),
                Some(correlation_id),
                Some(trace_context),
            ) => Some(
                Command {
                    protocol_version,
                    command_id,
                    scope,
                    payload_schema_version,
                    target,
                    expected_versions,
                    attempt_token,
                    authority_epoch,
                    deadline,
                    causation_id,
                    correlation_id,
                    trace_context,
                    body,
                    request_digest,
                },
            ),
            _ => None,
        },
        _ => None,
    }
}

/// Reads what a client sends. A member that no field takes is passed over, except in a payload,
/// where it is kept or refused.
pub fn decode_client_message(value: &Value) -> (r: Option<ClientMessage>)
    ensures
        match r {
            Some(m) => reads_as(json_tree(*value), m@),
            None => !is_client_message(json_tree(*value)),
        },
{
    let tree = from_value(value);
    if !is_shaped(&tree, 2) {
        return None;
    }
    let kind = match get_text_field(&tree, 0, "kind") {
        Some(k) => k,
        None => {
            return None;
        },
    };
    let message = match field_value(value, 1, "message") {
        Some(m) => m,
        None => {
            proof {
                no_message_no_kind(json_tree(*value));
            }
            return None;
        },
    };
    proof {
        kinds_are_apart();
    }
    if same(&kind, "command") {
        return match read_command(&message) {
            Some(c) => Some(ClientMessage::Command(c)),
            None => None,
        };
    }
    let body = from_value(&message);
    if same(&kind, "resume") || same(&kind, "subscribe") {
        if !is_shaped(&body, 2) {
            return None;
        }
        return match (get_text_field(&body, 0, "project_id"), read_decimal(&body, 1, "after_cursor")) {
            (Some(project_id), Some(after_cursor)) => if same(&kind, "resume") {
                Some(ClientMessage::Resume { project_id, after_cursor })
            } else {
                Some(ClientMessage::Subscribe { project_id, after_cursor })
            },
            _ => None,
        };
    }
    if same(&kind, "subscription_poll") || same(&kind, "subscription_close") {
        if !is_shaped(&body, 1) {
            return None;
        }
        return match get_text_field(&body, 0, "subscription_id") {
            Some(subscription_id) => if same(&kind, "subscription_poll") {
                Some(ClientMessage::SubscriptionPoll { subscription_id })
            } else {
                Some(ClientMessage::SubscriptionClose { subscription_id })
            },
            None => None,
        };
    }
    None
}

proof fn no_message_no_kind(tree: JsonView)
    requires
        field(tree, 1, "message"@) is None,
    ensures
        !is_client_message(tree),
{
}

proof fn kinds_are_apart()
    ensures
        "command"@ != "resume"@,
        "command"@ != "subscribe"@,
        "command"@ != "subscription_poll"@,
        "command"@ != "subscription_close"@,
        "resume"@ != "subscribe"@,
        "resume"@ != "subscription_poll"@,
        "resume"@ != "subscription_close"@,
        "subscribe"@ != "subscription_poll"@,
        "subscribe"@ != "subscription_close"@,
        "subscription_poll"@ != "subscription_close"@,
{
    reveal_strlit("command");
    reveal_strlit("resume");
    reveal_strlit("subscribe");
    reveal_strlit("subscription_poll");
    reveal_strlit("subscription_close");
    assert("command"@.len() == 7);
    assert("resume"@.len() == 6);
    assert("subscribe"@.len() == 9);
    assert("subscription_poll"@.len() == 17);
    assert("subscription_close"@.len() == 18);
}

/// What a client sends reads back from its own tree as exactly what it was, for every message
/// but a command.
pub proof fn requests_read_back(m: ClientMessageView)
    requires
        !(m is Command),
    ensures
        reads_as(client_tree(m), m),
        plain(client_tree(m), 8),
        forall|other: ClientMessageView| reads_as(client_tree(m), other) ==> other == m,
{
    let tree = client_tree(m);
    kinds_are_apart();
    reveal_strlit("kind");
    reveal_strlit("message");
    reveal_strlit("project_id");
    reveal_strlit("after_cursor");
    assert("kind"@.len() == 4 && "message"@.len() == 7);
    assert("project_id"@.len() == 10 && "after_cursor"@.len() == 12);
    match m {
        ClientMessageView::Resume { after_cursor, .. } => {
            crate::protocol::types::decimals_read_back(after_cursor, Seq::empty());
        },
        ClientMessageView::Subscribe { after_cursor, .. } => {
            crate::protocol::types::decimals_read_back(after_cursor, Seq::empty());
        },
        _ => {},
    }
    let message = tree->Object_0["message"@];
    names_are_ordinary();
    assert(plain(message, 7)) by {
        assert forall|name: Seq<char>| message->Object_0.dom().contains(name) implies
            crate::json::ordinary(name) && plain(#[trigger] message->Object_0[name], 6) by {}
    }
    assert forall|name: Seq<char>| tree->Object_0.dom().contains(name) implies
        crate::json::ordinary(name) && plain(#[trigger] tree->Object_0[name], 7) by {}
}

// --- Reading back what is written -------------------------------------------------------------------

proof fn envelope_names_differ()
    ensures
        "protocol_version"@ != "command_id"@,
        "protocol_version"@ != "payload_schema_version"@,
        "command_id"@ != "payload_schema_version"@,
        "protocol_version"@ != "attempt_token"@,
        "command_id"@ != "attempt_token"@,
        "payload_schema_version"@ != "attempt_token"@,
        "protocol_version"@ != "authority_epoch"@,
        "command_id"@ != "authority_epoch"@,
        "payload_schema_version"@ != "authority_epoch"@,
        "attempt_token"@ != "authority_epoch"@,
        "protocol_version"@ != "deadline"@,
        "command_id"@ != "deadline"@,
        "payload_schema_version"@ != "deadline"@,
        "attempt_token"@ != "deadline"@,
        "authority_epoch"@ != "deadline"@,
        "protocol_version"@ != "causation_id"@,
        "command_id"@ != "causation_id"@,
        "payload_schema_version"@ != "causation_id"@,
        "attempt_token"@ != "causation_id"@,
        "authority_epoch"@ != "causation_id"@,
        "deadline"@ != "causation_id"@,
        "protocol_version"@ != "correlation_id"@,
        "command_id"@ != "correlation_id"@,
        "payload_schema_version"@ != "correlation_id"@,
        "attempt_token"@ != "correlation_id"@,
        "authority_epoch"@ != "correlation_id"@,
        "deadline"@ != "correlation_id"@,
        "causation_id"@ != "correlation_id"@,
        "protocol_version"@ != "trace_context"@,
        "command_id"@ != "trace_context"@,
        "payload_schema_version"@ != "trace_context"@,
        "attempt_token"@ != "trace_context"@,
        "authority_epoch"@ != "trace_context"@,
        "deadline"@ != "trace_context"@,
        "causation_id"@ != "trace_context"@,
        "correlation_id"@ != "trace_context"@,
        "protocol_version"@ != "request_digest"@,
        "command_id"@ != "request_digest"@,
        "payload_schema_version"@ != "request_digest"@,
        "attempt_token"@ != "request_digest"@,
        "authority_epoch"@ != "request_digest"@,
        "deadline"@ != "request_digest"@,
        "causation_id"@ != "request_digest"@,
        "correlation_id"@ != "request_digest"@,
        "trace_context"@ != "request_digest"@,
        "protocol_version"@ != "command_type"@,
        "command_id"@ != "command_type"@,
        "payload_schema_version"@ != "command_type"@,
        "attempt_token"@ != "command_type"@,
        "authority_epoch"@ != "command_type"@,
        "deadline"@ != "command_type"@,
        "causation_id"@ != "command_type"@,
        "correlation_id"@ != "command_type"@,
        "trace_context"@ != "command_type"@,
        "request_digest"@ != "command_type"@,
        "protocol_version"@ != "scope"@,
        "command_id"@ != "scope"@,
        "payload_schema_version"@ != "scope"@,
        "attempt_token"@ != "scope"@,
        "authority_epoch"@ != "scope"@,
        "deadline"@ != "scope"@,
        "causation_id"@ != "scope"@,
        "correlation_id"@ != "scope"@,
        "trace_context"@ != "scope"@,
        "request_digest"@ != "scope"@,
        "command_type"@ != "scope"@,
        "protocol_version"@ != "target"@,
        "command_id"@ != "target"@,
        "payload_schema_version"@ != "target"@,
        "attempt_token"@ != "target"@,
        "authority_epoch"@ != "target"@,
        "deadline"@ != "target"@,
        "causation_id"@ != "target"@,
        "correlation_id"@ != "target"@,
        "trace_context"@ != "target"@,
        "request_digest"@ != "target"@,
        "command_type"@ != "target"@,
        "scope"@ != "target"@,
        "protocol_version"@ != "expected_versions"@,
        "command_id"@ != "expected_versions"@,
        "payload_schema_version"@ != "expected_versions"@,
        "attempt_token"@ != "expected_versions"@,
        "authority_epoch"@ != "expected_versions"@,
        "deadline"@ != "expected_versions"@,
        "causation_id"@ != "expected_versions"@,
        "correlation_id"@ != "expected_versions"@,
        "trace_context"@ != "expected_versions"@,
        "request_digest"@ != "expected_versions"@,
        "command_type"@ != "expected_versions"@,
        "scope"@ != "expected_versions"@,
        "target"@ != "expected_versions"@,
        "protocol_version"@ != "payload"@,
        "command_id"@ != "payload"@,
        "payload_schema_version"@ != "payload"@,
        "attempt_token"@ != "payload"@,
        "authority_epoch"@ != "payload"@,
        "deadline"@ != "payload"@,
        "causation_id"@ != "payload"@,
        "correlation_id"@ != "payload"@,
        "trace_context"@ != "payload"@,
        "request_digest"@ != "payload"@,
        "command_type"@ != "payload"@,
        "scope"@ != "payload"@,
        "target"@ != "payload"@,
        "expected_versions"@ != "payload"@,
{
    reveal_strlit("protocol_version");
    reveal_strlit("command_id");
    reveal_strlit("payload_schema_version");
    reveal_strlit("attempt_token");
    reveal_strlit("authority_epoch");
    reveal_strlit("deadline");
    reveal_strlit("causation_id");
    reveal_strlit("correlation_id");
    reveal_strlit("trace_context");
    reveal_strlit("request_digest");
    reveal_strlit("command_type");
    reveal_strlit("scope");
    reveal_strlit("target");
    reveal_strlit("expected_versions");
    reveal_strlit("payload");
    assert("protocol_version"@.len() == 16);
    assert("command_id"@.len() == 10);
    assert("payload_schema_version"@.len() == 22);
    assert("attempt_token"@.len() == 13);
    assert("authority_epoch"@.len() == 15);
    assert("deadline"@.len() == 8);
    assert("causation_id"@.len() == 12);
    assert("correlation_id"@.len() == 14);
    assert("trace_context"@.len() == 13);
    assert("request_digest"@.len() == 14);
    assert("command_type"@.len() == 12);
    assert("scope"@.len() == 5);
    assert("target"@.len() == 6);
    assert("expected_versions"@.len() == 17);
    assert("payload"@.len() == 7);
    assert("trace_context"@[0] != "attempt_token"@[0]);
    assert("request_digest"@[0] != "correlation_id"@[0]);
    assert("command_type"@[1] != "causation_id"@[1]);
}

proof fn payload_names_differ()
    ensures
        "run_id"@ != "goal_work_item_id"@,
        "run_id"@ != "outcome"@,
        "goal_work_item_id"@ != "outcome"@,
        "run_id"@ != "work_item_id"@,
        "goal_work_item_id"@ != "work_item_id"@,
        "outcome"@ != "work_item_id"@,
        "run_id"@ != "acceptance_contract_digest"@,
        "goal_work_item_id"@ != "acceptance_contract_digest"@,
        "outcome"@ != "acceptance_contract_digest"@,
        "work_item_id"@ != "acceptance_contract_digest"@,
        "run_id"@ != "declared_write_scope"@,
        "goal_work_item_id"@ != "declared_write_scope"@,
        "outcome"@ != "declared_write_scope"@,
        "work_item_id"@ != "declared_write_scope"@,
        "acceptance_contract_digest"@ != "declared_write_scope"@,
        "run_id"@ != "unit_id"@,
        "goal_work_item_id"@ != "unit_id"@,
        "outcome"@ != "unit_id"@,
        "work_item_id"@ != "unit_id"@,
        "acceptance_contract_digest"@ != "unit_id"@,
        "declared_write_scope"@ != "unit_id"@,
        "run_id"@ != "holder_id"@,
        "goal_work_item_id"@ != "holder_id"@,
        "outcome"@ != "holder_id"@,
        "work_item_id"@ != "holder_id"@,
        "acceptance_contract_digest"@ != "holder_id"@,
        "declared_write_scope"@ != "holder_id"@,
        "unit_id"@ != "holder_id"@,
{
    reveal_strlit("run_id");
    reveal_strlit("goal_work_item_id");
    reveal_strlit("outcome");
    reveal_strlit("work_item_id");
    reveal_strlit("acceptance_contract_digest");
    reveal_strlit("declared_write_scope");
    reveal_strlit("unit_id");
    reveal_strlit("holder_id");
    assert("run_id"@.len() == 6);
    assert("goal_work_item_id"@.len() == 17);
    assert("outcome"@.len() == 7);
    assert("work_item_id"@.len() == 12);
    assert("acceptance_contract_digest"@.len() == 26);
    assert("declared_write_scope"@.len() == 20);
    assert("unit_id"@.len() == 7);
    assert("holder_id"@.len() == 9);
    assert("unit_id"@[0] != "outcome"@[0]);
}

proof fn command_types_differ()
    ensures
        "run.open"@ != "run.close"@,
        "run.open"@ != "work_item.create"@,
        "run.close"@ != "work_item.create"@,
        "run.open"@ != "unit.admit"@,
        "run.close"@ != "unit.admit"@,
        "work_item.create"@ != "unit.admit"@,
        "run.open"@ != "unit.dispatch"@,
        "run.close"@ != "unit.dispatch"@,
        "work_item.create"@ != "unit.dispatch"@,
        "unit.admit"@ != "unit.dispatch"@,
        "run.open"@ != "unit.progress_report"@,
        "run.close"@ != "unit.progress_report"@,
        "work_item.create"@ != "unit.progress_report"@,
        "unit.admit"@ != "unit.progress_report"@,
        "unit.dispatch"@ != "unit.progress_report"@,
        "run.open"@ != "unit.stamp_bump"@,
        "run.close"@ != "unit.stamp_bump"@,
        "work_item.create"@ != "unit.stamp_bump"@,
        "unit.admit"@ != "unit.stamp_bump"@,
        "unit.dispatch"@ != "unit.stamp_bump"@,
        "unit.progress_report"@ != "unit.stamp_bump"@,
{
    reveal_strlit("run.open");
    reveal_strlit("run.close");
    reveal_strlit("work_item.create");
    reveal_strlit("unit.admit");
    reveal_strlit("unit.dispatch");
    reveal_strlit("unit.progress_report");
    reveal_strlit("unit.stamp_bump");
    assert("run.open"@.len() == 8);
    assert("run.close"@.len() == 9);
    assert("work_item.create"@.len() == 16);
    assert("unit.admit"@.len() == 10);
    assert("unit.dispatch"@.len() == 13);
    assert("unit.progress_report"@.len() == 20);
    assert("unit.stamp_bump"@.len() == 15);
}

proof fn small_names_differ()
    ensures
        "scope_kind"@ != "scope_id"@,
        "scope_kind"@ != "aggregate_kind"@,
        "scope_id"@ != "aggregate_kind"@,
        "scope_kind"@ != "aggregate_id"@,
        "scope_id"@ != "aggregate_id"@,
        "aggregate_kind"@ != "aggregate_id"@,
        "scope_kind"@ != "version"@,
        "scope_id"@ != "version"@,
        "aggregate_kind"@ != "version"@,
        "aggregate_id"@ != "version"@,
        "scope_kind"@ != "kind"@,
        "scope_id"@ != "kind"@,
        "aggregate_kind"@ != "kind"@,
        "aggregate_id"@ != "kind"@,
        "version"@ != "kind"@,
        "scope_kind"@ != "message"@,
        "scope_id"@ != "message"@,
        "aggregate_kind"@ != "message"@,
        "aggregate_id"@ != "message"@,
        "version"@ != "message"@,
        "kind"@ != "message"@,
{
    reveal_strlit("scope_kind");
    reveal_strlit("scope_id");
    reveal_strlit("aggregate_kind");
    reveal_strlit("aggregate_id");
    reveal_strlit("version");
    reveal_strlit("kind");
    reveal_strlit("message");
    assert("scope_kind"@.len() == 10);
    assert("scope_id"@.len() == 8);
    assert("aggregate_kind"@.len() == 14);
    assert("aggregate_id"@.len() == 12);
    assert("version"@.len() == 7);
    assert("kind"@.len() == 4);
    assert("message"@.len() == 7);
    assert("message"@[0] != "version"@[0]);
}

proof fn scopes_read_back(s: ScopeView)
    ensures
        decode_scope(scope_tree(s)) == Some(s),
{
    small_names_differ();
    crate::protocol::types::scope_kind_reads_back(s.scope_kind);
}

proof fn targets_read_back(t: TargetView)
    ensures
        decode_target(target_tree(t)) == Some(t),
{
    small_names_differ();
}

proof fn versions_read_back(list: Seq<ExpectedVersionView>, n: nat)
    requires
        n <= list.len(),
    ensures
        decode_versions(versions_tree(list)->Array_0, n) == Some(list.take(n as int)),
    decreases n,
{
    let items = versions_tree(list)->Array_0;
    if n > 0 {
        versions_read_back(list, (n - 1) as nat);
        let v = list[n - 1];
        assert(items[n - 1] == version_tree(v));
        small_names_differ();
        crate::protocol::types::decimals_read_back(v.version, Seq::empty());
        assert(decode_version(version_tree(v)) == Some(v));
        assert(list.take(n - 1).push(v) =~= list.take(n as int));
    } else {
        assert(list.take(0) =~= Seq::<ExpectedVersionView>::empty());
    }
}

proof fn texts_read_back(list: Seq<Seq<char>>, n: nat)
    requires
        n <= list.len(),
    ensures
        decode_texts(text_array_view(list)->Array_0, n) == Some(list.take(n as int)),
    decreases n,
{
    if n > 0 {
        texts_read_back(list, (n - 1) as nat);
        assert(list.take(n - 1).push(list[n - 1]) =~= list.take(n as int));
    } else {
        assert(list.take(0) =~= Seq::<Seq<char>>::empty());
    }
}

/// The names of the fields of a payload.
pub open spec fn field_names(body: CommandBodyView) -> Seq<Seq<char>> {
    match body {
        CommandBodyView::RunOpen(_) => seq!["run_id"@, "goal_work_item_id"@],
        CommandBodyView::RunClose(_) => seq!["run_id"@, "outcome"@],
        CommandBodyView::WorkItemCreate(_) => seq![
            "work_item_id"@,
            "acceptance_contract_digest"@,
            "declared_write_scope"@,
        ],
        CommandBodyView::UnitAdmit(_) => seq!["unit_id"@, "work_item_id"@, "run_id"@],
        CommandBodyView::UnitDispatch(_) => seq!["unit_id"@, "holder_id"@],
        CommandBodyView::ProgressReport(_) => seq!["unit_id"@],
        CommandBodyView::StampBump(_) => seq!["unit_id"@],
    }
}

/// Whether no extra member of a payload bears the name of a field.
pub open spec fn extras_are_extra(body: CommandBodyView) -> bool {
    forall|name: Seq<char>| #[trigger]
        body.extras().dom().contains(name) ==> !field_names(body).contains(name)
}

proof fn field_names_are_held(body: CommandBodyView, i: int)
    requires
        0 <= i < field_names(body).len(),
        extras_are_extra(body),
    ensures
        !body.extras().dom().contains(field_names(body)[i]),
        payload_tree(body)->Object_0.dom().contains(field_names(body)[i]) == payload_fields(
            body,
        ).dom().contains(field_names(body)[i]),
        payload_tree(body)->Object_0[field_names(body)[i]] == payload_fields(
            body,
        )[field_names(body)[i]],
{
    assert(field_names(body).contains(field_names(body)[i]));
}

proof fn extras_read_back(body: CommandBodyView)
    requires
        extras_are_extra(body),
    ensures
        others(payload_tree(body)->Object_0, field_names(body)) == body.extras(),
{
    let map = payload_tree(body)->Object_0;
    let rest = others(map, field_names(body));
    assert forall|name: Seq<char>| rest.dom().contains(name) implies body.extras().dom().contains(
        name,
    ) by {
        if !body.extras().dom().contains(name) {
            assert(payload_fields(body).dom().contains(name));
            fields_are_named(body, name);
        }
    }
    assert(rest =~= body.extras());
}

proof fn fields_are_named(body: CommandBodyView, name: Seq<char>)
    requires
        payload_fields(body).dom().contains(name),
    ensures
        field_names(body).contains(name),
{
    let names = field_names(body);
    assert(names[0] == names[0]);
    match body {
        CommandBodyView::RunOpen(_) | CommandBodyView::RunClose(_)
        | CommandBodyView::UnitDispatch(_) => {
            assert(name == names[0] || name == names[1]);
        },
        CommandBodyView::WorkItemCreate(_) | CommandBodyView::UnitAdmit(_) => {
            assert(name == names[0] || name == names[1] || name == names[2]);
        },
        CommandBodyView::ProgressReport(_) | CommandBodyView::StampBump(_) => {
            assert(name == names[0]);
        },
    }
}

proof fn bodies_read_back(body: CommandBodyView)
    requires
        extras_are_extra(body),
    ensures
        decode_body(body.kind().wire_text(), payload_tree(body)) == Some(body),
{
    payload_names_differ();
    command_types_differ();
    extras_read_back(body);
    let names = field_names(body);
    field_names_are_held(body, 0);
    match body {
        CommandBodyView::RunOpen(_) => {
            field_names_are_held(body, 1);
        },
        CommandBodyView::RunClose(p) => {
            field_names_are_held(body, 1);
            crate::protocol::types::run_close_outcome_reads_back(p.outcome);
        },
        CommandBodyView::WorkItemCreate(p) => {
            field_names_are_held(body, 1);
            field_names_are_held(body, 2);
            texts_read_back(p.declared_write_scope, p.declared_write_scope.len());
            assert(p.declared_write_scope.take(p.declared_write_scope.len() as int)
                =~= p.declared_write_scope);
        },
        CommandBodyView::UnitAdmit(_) => {
            field_names_are_held(body, 1);
            field_names_are_held(body, 2);
        },
        CommandBodyView::UnitDispatch(_) => {
            field_names_are_held(body, 1);
        },
        CommandBodyView::ProgressReport(_) => {
            assert(others(payload_tree(body)->Object_0, seq!["unit_id"@]) == body.extras());
        },
        CommandBodyView::StampBump(_) => {},
    }
}

/// A command reads back from its own tree as exactly what it was, as long as its deadline is a
/// timestamp and no extra member bears the name of a field.
pub proof fn commands_read_back(c: CommandView)
    requires
        c.deadline is Some ==> timestamp_fault(c.deadline->0, rfc3339_reading(c.deadline->0))
            is None,
        extras_are_extra(c.body),
    ensures
        reads_as(client_tree(ClientMessageView::Command(c)), ClientMessageView::Command(c)),
{
    let tree = command_tree(c);
    small_names_differ();
    envelope_reads_back(c);
    command_type_reads_back(c);
    bodies_read_back(c.body);
    let framed_tree = client_tree(ClientMessageView::Command(c));
    assert(text_member(framed_tree, "kind"@) == Some("command"@));
    assert(member_or_null(framed_tree, "message"@) == tree);
}

proof fn command_type_reads_back(c: CommandView)
    ensures
        text_member(command_tree(c), "command_type"@) == Some(c.body.kind().wire_text()),
        member(command_tree(c), "payload"@) == Some(payload_tree(c.body)),
{
    envelope_names_differ();
}

proof fn envelope_reads_back(c: CommandView)
    requires
        c.deadline is Some ==> timestamp_fault(c.deadline->0, rfc3339_reading(c.deadline->0))
            is None,
    ensures
        is_whole(envelope_of(command_tree(c))),
        is_made_of(c, envelope_of(command_tree(c)), c.body),
{
    let tree = command_tree(c);
    envelope_names_differ();
    scopes_read_back(c.scope);
    targets_read_back(c.target);
    versions_read_back(c.expected_versions, c.expected_versions.len());
    assert(c.expected_versions.take(c.expected_versions.len() as int) =~= c.expected_versions);
    if c.authority_epoch is Some {
        crate::protocol::types::decimals_read_back(c.authority_epoch->0, Seq::empty());
    }
    let map = tree->Object_0;
    assert(map["scope"@] == scope_tree(c.scope));
    assert(map["target"@] == target_tree(c.target));
    assert(map["expected_versions"@] == versions_tree(c.expected_versions));
}

} // verus!
