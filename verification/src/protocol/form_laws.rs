//! How messages are written on the wire: which members each of them has, by name, and when an
//! adapter starts.
use crate::funnel::FunnelView;
use crate::json::{json_parse, raw_fields, reading_of, JsonView};
use crate::protocol::handle::{first_fault, request_fault, start_fault};
use crate::protocol::numbers::numbers_safe;
use crate::protocol::subscription::projected;
use crate::protocol::types::{
    ClientMessageView, CommandBodyView, CommandView, ErrorKind, ErrorView, EventView, ReceiptView,
    ServerMessageView,
};
use crate::protocol::wire::{
    client_tree, command_tree, error_tree, event_tree, is_client_message, payload_tree,
    receipt_tree, server_tree, size_fault, target_tree, versions_tree, wire_fault,
    WireLimitErrorView,
};
use crate::store::laws::reads_miss_nothing;
use crate::store::{later, EventRecordView};
use crate::table::lookup;
use crate::text::dec;
use vstd::prelude::*;
use vstd::string::*;
use vstd::utf8::encode_utf8;

verus! {

// --- Members -------------------------------------------------------------------------------------

/// Members with a text.
pub open spec fn text(
    m: Map<Seq<char>, JsonView>,
    name: Seq<char>,
    s: Seq<char>,
) -> Map<Seq<char>, JsonView> {
    m.insert(name, JsonView::Str(s))
}

/// Members with a number, as a decimal text.
pub open spec fn number(
    m: Map<Seq<char>, JsonView>,
    name: Seq<char>,
    n: u64,
) -> Map<Seq<char>, JsonView> {
    m.insert(name, JsonView::Str(dec(n as nat)))
}

/// Members with a text, where there is one.
pub open spec fn maybe(
    m: Map<Seq<char>, JsonView>,
    name: Seq<char>,
    o: Option<Seq<char>>,
) -> Map<Seq<char>, JsonView> {
    if o is Some {
        text(m, name, o->0)
    } else {
        m
    }
}

/// A message under its kind.
pub open spec fn frame(kind: Seq<char>, message: JsonView) -> JsonView {
    JsonView::Object(text(Map::empty(), "kind"@, kind).insert("message"@, message))
}

// --- What a client sends -------------------------------------------------------------------------

/// A request of a client is a frame with its kind and its message; a cursor is a decimal text.
pub proof fn requests_are_written(m: ClientMessageView)
    ensures
        match m {
            ClientMessageView::Command(c) => client_tree(m) == frame("command"@, command_tree(c)),
            ClientMessageView::Resume { project_id, after_cursor } => client_tree(m) == frame(
                "resume"@,
                JsonView::Object(
                    number(
                        text(Map::empty(), "project_id"@, project_id),
                        "after_cursor"@,
                        after_cursor,
                    ),
                ),
            ),
            ClientMessageView::Subscribe { project_id, after_cursor } => client_tree(m) == frame(
                "subscribe"@,
                JsonView::Object(
                    number(
                        text(Map::empty(), "project_id"@, project_id),
                        "after_cursor"@,
                        after_cursor,
                    ),
                ),
            ),
            ClientMessageView::SubscriptionPoll { subscription_id } => client_tree(m) == frame(
                "subscription_poll"@,
                JsonView::Object(text(Map::empty(), "subscription_id"@, subscription_id)),
            ),
            ClientMessageView::SubscriptionClose { subscription_id } => client_tree(m) == frame(
                "subscription_close"@,
                JsonView::Object(text(Map::empty(), "subscription_id"@, subscription_id)),
            ),
        },
{
}

/// A command is written with every part of its envelope under its own name; what is absent has no
/// member.
pub proof fn commands_are_written(c: CommandView)
    ensures
        ({
            let m0 = Map::<Seq<char>, JsonView>::empty().insert(
                "protocol_version"@,
                JsonView::Uint(c.protocol_version@ as u64),
            );
            let m1 = text(m0, "command_id"@, c.command_id).insert(
                "payload_schema_version"@,
                JsonView::Uint(c.payload_schema_version@ as u64),
            );
            let m2 = maybe(m1, "attempt_token"@, c.attempt_token);
            let m3 = if c.authority_epoch is Some {
                number(m2, "authority_epoch"@, c.authority_epoch->0)
            } else {
                m2
            };
            let m4 = maybe(
                maybe(
                    maybe(
                        maybe(m3, "deadline"@, c.deadline),
                        "causation_id"@,
                        c.causation_id,
                    ),
                    "correlation_id"@,
                    c.correlation_id,
                ),
                "trace_context"@,
                c.trace_context,
            );
            command_tree(c) == JsonView::Object(
                text(
                    text(m4, "request_digest"@, c.request_digest),
                    "command_type"@,
                    c.body.kind().wire_text(),
                ).insert(
                    "scope"@,
                    JsonView::Object(
                        text(
                            text(
                                Map::empty(),
                                "scope_kind"@,
                                c.scope.scope_kind.wire_text(),
                            ),
                            "scope_id"@,
                            c.scope.scope_id,
                        ),
                    ),
                ).insert("target"@, target_tree(c.target)).insert(
                    "expected_versions"@,
                    versions_tree(c.expected_versions),
                ).insert("payload"@, payload_tree(c.body)),
            )
        }),
        target_tree(c.target) == JsonView::Object(
            text(
                text(Map::empty(), "aggregate_kind"@, c.target.aggregate_kind),
                "aggregate_id"@,
                c.target.aggregate_id,
            ),
        ),
        versions_tree(c.expected_versions) is Array,
        versions_tree(c.expected_versions)->Array_0.len() == c.expected_versions.len(),
        forall|i: int|
            0 <= i < c.expected_versions.len() ==> #[trigger] versions_tree(
                c.expected_versions,
            )->Array_0[i] == JsonView::Object(
                number(
                    text(
                        text(
                            Map::empty(),
                            "aggregate_kind"@,
                            c.expected_versions[i].aggregate_kind,
                        ),
                        "aggregate_id"@,
                        c.expected_versions[i].aggregate_id,
                    ),
                    "version"@,
                    c.expected_versions[i].version,
                ),
            ),
{
}

/// A payload is written with every field under its own name, and with the members that are none.
pub proof fn payloads_are_written(b: CommandBodyView)
    ensures
        ({
            let none = Map::<Seq<char>, JsonView>::empty();
            let own = match b {
                CommandBodyView::RunOpen(p) => text(
                    text(none, "run_id"@, p.run_id),
                    "goal_work_item_id"@,
                    p.goal_work_item_id,
                ),
                CommandBodyView::RunClose(p) => text(
                    text(none, "run_id"@, p.run_id),
                    "outcome"@,
                    p.outcome.wire_text(),
                ),
                CommandBodyView::WorkItemCreate(p) => text(
                    text(none, "work_item_id"@, p.work_item_id),
                    "acceptance_contract_digest"@,
                    p.acceptance_contract_digest,
                ).insert(
                    "declared_write_scope"@,
                    JsonView::Array(
                        Seq::new(
                            p.declared_write_scope.len(),
                            |i: int| JsonView::Str(p.declared_write_scope[i]),
                        ),
                    ),
                ),
                CommandBodyView::UnitAdmit(p) => text(
                    text(text(none, "unit_id"@, p.unit_id), "work_item_id"@, p.work_item_id),
                    "run_id"@,
                    p.run_id,
                ),
                CommandBodyView::UnitDispatch(p) => text(
                    text(none, "unit_id"@, p.unit_id),
                    "holder_id"@,
                    p.holder_id,
                ),
                CommandBodyView::ProgressReport(p) => text(none, "unit_id"@, p.unit_id),
                CommandBodyView::StampBump(p) => text(none, "unit_id"@, p.unit_id),
            };
            payload_tree(b) == JsonView::Object(own.union_prefer_right(b.extras()))
        }),
{
    if let CommandBodyView::WorkItemCreate(p) = b {
        assert(crate::json::text_array_view(p.declared_write_scope) == JsonView::Array(
            Seq::new(
                p.declared_write_scope.len(),
                |i: int| JsonView::Str(p.declared_write_scope[i]),
            ),
        )) by {
            assert(crate::json::text_array_view(p.declared_write_scope)->Array_0 =~= Seq::new(
                p.declared_write_scope.len(),
                |i: int| JsonView::Str(p.declared_write_scope[i]),
            ));
        }
    }
}

// --- What a client is answered -------------------------------------------------------------------

/// An answer is a frame with its kind and its message.
pub proof fn answers_are_written(m: ServerMessageView)
    ensures
        ({
            let none = Map::<Seq<char>, JsonView>::empty();
            match m {
                ServerMessageView::Receipt(x) => server_tree(m) == frame(
                    "receipt"@,
                    receipt_tree(x),
                ),
                ServerMessageView::Events(x) => server_tree(m) == frame(
                    "events"@,
                    JsonView::Array(Seq::new(x.len(), |i: int| event_tree(x[i]))),
                ),
                ServerMessageView::Event(x) => server_tree(m) == frame("event"@, event_tree(x)),
                ServerMessageView::CursorExpired(x) => server_tree(m) == frame(
                    "cursor_expired"@,
                    JsonView::Object(number(none, "min_retained_cursor"@, x.min_retained_cursor)),
                ),
                ServerMessageView::SubscriptionOpened(x) => server_tree(m) == frame(
                    "subscription_opened"@,
                    JsonView::Object(
                        text(none, "subscription_id"@, x.subscription_id).insert(
                            "limits"@,
                            JsonView::Object(
                                none.insert(
                                    "durable_event_queue_capacity"@,
                                    JsonView::Uint(x.limits.durable_event_queue_capacity@ as u64),
                                ).insert(
                                    "progress_event_queue_capacity"@,
                                    JsonView::Uint(x.limits.progress_event_queue_capacity@ as u64),
                                ),
                            ),
                        ).insert(
                            "retention"@,
                            JsonView::Object(
                                number(
                                    number(
                                        number(
                                            none,
                                            "min_retained_cursor"@,
                                            x.retention.min_retained_cursor,
                                        ),
                                        "max_age_seconds"@,
                                        x.retention.max_age_seconds,
                                    ),
                                    "max_events_per_project"@,
                                    x.retention.max_events_per_project,
                                ),
                            ),
                        ),
                    ),
                ),
                ServerMessageView::SubscriptionPending(x) => server_tree(m) == frame(
                    "subscription_pending"@,
                    JsonView::Object(text(none, "subscription_id"@, x.subscription_id)),
                ),
                ServerMessageView::SlowConsumer(x) => server_tree(m) == frame(
                    "slow_consumer"@,
                    JsonView::Object(
                        number(
                            number(none, "min_retained_cursor"@, x.min_retained_cursor),
                            "last_delivered_cursor"@,
                            x.last_delivered_cursor,
                        ),
                    ),
                ),
                ServerMessageView::SubscriptionClosed(x) => server_tree(m) == frame(
                    "subscription_closed"@,
                    JsonView::Object(text(none, "subscription_id"@, x.subscription_id)),
                ),
                ServerMessageView::Error(x) => server_tree(m) == frame("error"@, error_tree(x)),
            }
        }),
{
    if let ServerMessageView::Events(x) = m {
        assert(x.map_values(|e: EventView| event_tree(e)) =~= Seq::new(
            x.len(),
            |i: int| event_tree(x[i]),
        ));
    }
}

/// An event is written with every part under its own name; cursors and versions are decimal texts.
pub proof fn events_are_written(x: EventView)
    ensures
        ({
            let m0 = number(
                text(Map::empty(), "event_id"@, x.event_id),
                "cursor"@,
                x.cursor,
            );
            let m1 = text(m0, "stream_class"@, x.stream_class.wire_text());
            let m2 = text(
                text(m1, "aggregate_kind"@, x.aggregate_kind),
                "aggregate_id"@,
                x.aggregate_id,
            );
            let m3 = number(m2, "aggregate_version"@, x.aggregate_version).insert(
                "ordinal"@,
                JsonView::Uint(x.ordinal@ as u64),
            );
            let m4 = text(m3, "event_kind"@, x.event_kind).insert(
                "event_version"@,
                JsonView::Uint(x.event_version@ as u64),
            );
            let m5 = maybe(
                maybe(
                    maybe(
                        text(m4, "occurred_at"@, x.occurred_at),
                        "command_id"@,
                        x.command_id,
                    ),
                    "causation_id"@,
                    x.causation_id,
                ),
                "correlation_id"@,
                x.correlation_id,
            );
            event_tree(x) == JsonView::Object(
                m5.insert(
                    "actor"@,
                    JsonView::Object(
                        text(
                            text(Map::empty(), "principal_kind"@, x.actor.principal_kind),
                            "principal_id"@,
                            x.actor.principal_id,
                        ),
                    ),
                ).insert("payload"@, x.payload),
            )
        }),
{
}

/// A receipt is written with every part under its own name; what is absent has no member.
pub proof fn receipts_are_written(x: ReceiptView)
    ensures
        ({
            let m0 = text(
                text(Map::empty(), "command_id"@, x.command_id),
                "outcome"@,
                x.outcome.wire_text(),
            );
            let m1 = if x.state_version is Some {
                number(m0, "state_version"@, x.state_version->0)
            } else {
                m0
            };
            let m2 = m1.insert(
                "event_cursors"@,
                JsonView::Array(
                    Seq::new(
                        x.event_cursors.len(),
                        |i: int| JsonView::Str(dec(x.event_cursors[i] as nat)),
                    ),
                ),
            ).insert("receipt_version"@, JsonView::Uint(x.receipt_version@ as u64)).insert(
                "scope"@,
                JsonView::Object(
                    text(
                        text(Map::empty(), "scope_kind"@, x.scope.scope_kind.wire_text()),
                        "scope_id"@,
                        x.scope.scope_id,
                    ),
                ),
            );
            let m3 = if x.error is Some {
                m2.insert("error"@, error_tree(x.error->0))
            } else {
                m2
            };
            receipt_tree(x) == JsonView::Object(
                if x.result is Some {
                    m3.insert("result"@, x.result->0)
                } else {
                    m3
                },
            )
        }),
{
    let list = crate::json::text_array_view(crate::protocol::wire::cursor_texts(x.event_cursors));
    assert(list->Array_0 =~= Seq::new(
        x.event_cursors.len(),
        |i: int| JsonView::Str(dec(x.event_cursors[i] as nat)),
    ));
}

/// An error is written with every part under its own name; what is absent has no member.
pub proof fn errors_are_written(x: ErrorView)
    ensures
        ({
            let m0 = text(
                text(
                    text(Map::empty(), "kind"@, x.kind.wire_text()),
                    "reason"@,
                    x.reason,
                ),
                "message"@,
                x.message,
            ).insert("retryable"@, JsonView::Bool(x.retryable));
            let m1 = if x.retry_after_ms is Some {
                m0.insert("retry_after_ms"@, JsonView::Uint(x.retry_after_ms->0@ as u64))
            } else {
                m0
            };
            let m2 = text(
                m1.insert("reconcile_required"@, JsonView::Bool(x.reconcile_required)),
                "occurrence_id"@,
                x.occurrence_id,
            );
            error_tree(x) == JsonView::Object(
                if x.details is Some {
                    m2.insert("details"@, x.details->0)
                } else {
                    m2
                },
            )
        }),
{
}

// --- Starting ------------------------------------------------------------------------------------

proof fn first_faults_show(records: Seq<EventRecordView>, n: nat)
    requires
        n <= records.len(),
    ensures
        first_fault(records, n) is None <==> forall|i: int|
            0 <= i < n ==> projected(#[trigger] records[i]) is Ok,
    decreases n,
{
    if n > 0 {
        first_faults_show(records, (n - 1) as nat);
    }
}

/// An adapter starts over a funnel exactly where the project is the funnel's, every durable event can
/// be told, and every event is owned by the receipt that it names. Another project is an invalid
/// request; anything else is an internal error.
pub proof fn adapters_start(f: FunnelView, project_id: Seq<char>)
    ensures
        ({
            let events = f.store.tables.events;
            let told = events.filter(|e: EventRecordView| e.cursor > 0);
            let fault = start_fault(f, project_id);
            &&& fault is None <==> {
                &&& f.store.project == project_id
                &&& forall|i: int| 0 <= i < told.len() ==> projected(#[trigger] told[i]) is Ok
                &&& forall|i: int|
                    0 <= i < events.len() ==> {
                        let row = lookup(f.store.tables.receipts, (#[trigger] events[i]).receipt_key);
                        &&& row is Some
                        &&& row->0.first_cursor is Some && row->0.first_cursor->0
                            <= events[i].cursor
                        &&& row->0.last_cursor is Some && events[i].cursor <= row->0.last_cursor->0
                    }
            }
            &&& f.store.project != project_id ==> fault is Some && fault->0.kind
                == ErrorKind::InvalidRequest
            &&& f.store.project == project_id && fault is Some ==> fault->0.kind
                == ErrorKind::Internal
        }),
{
    let events = f.store.tables.events;
    reads_miss_nothing(events, 0, 0);
    let records = later(events, 0);
    first_faults_show(records, records.len());
    if crate::protocol::handle::all_owned(f) {
        assert forall|i: int| 0 <= i < events.len() implies {
            let row = lookup(f.store.tables.receipts, (#[trigger] events[i]).receipt_key);
            &&& row is Some
            &&& row->0.first_cursor is Some && row->0.first_cursor->0 <= events[i].cursor
            &&& row->0.last_cursor is Some && events[i].cursor <= row->0.last_cursor->0
        } by {
            assert(crate::store::is_owned(f.store.tables.receipts, events[i]));
        }
    }
}

// --- Numbers -------------------------------------------------------------------------------------

/// Whether a value stands inside another, so many levels down.
pub open spec fn is_inside(value: JsonView, part: JsonView, level: nat) -> bool
    decreases level,
{
    if level == 0 {
        part == value
    } else {
        match value {
            JsonView::Array(items) => exists|i: int|
                0 <= i < items.len() && is_inside(#[trigger] items[i], part, (level - 1) as nat),
            JsonView::Object(members) => exists|name: Seq<char>|
                members.dom().contains(name) && is_inside(
                    #[trigger] members[name],
                    part,
                    (level - 1) as nat,
                ),
            _ => false,
        }
    }
}

/// Whether a part of a message may stand so many levels down: a whole number within the integers that
/// every reader holds, a real that is not larger, and an array or an object only above the limit.
pub open spec fn may_stand(part: JsonView, level: nat, depth: nat) -> bool {
    match part {
        JsonView::Uint(n) => n <= 9_007_199_254_740_991,
        JsonView::Int(n) => n >= -9_007_199_254_740_991,
        JsonView::Real(s) => !crate::protocol::numbers::real_is_large(s),
        JsonView::Array(_) => level < depth,
        JsonView::Object(_) => level < depth,
        _ => true,
    }
}

/// A value is safe exactly where everything inside it may stand where it does.
pub proof fn safe_values_are_safe_throughout(value: JsonView, depth: nat)
    ensures
        numbers_safe(value, depth) <==> forall|part: JsonView, level: nat| #[trigger]
            is_inside(value, part, level) ==> may_stand(part, level, depth),
    decreases depth,
{
    assert(is_inside(value, value, 0));
    if numbers_safe(value, depth) {
        assert forall|part: JsonView, level: nat| #[trigger]
            is_inside(value, part, level) implies may_stand(part, level, depth) by {
            if level > 0 {
                match value {
                    JsonView::Array(items) => {
                        let i = choose|i: int|
                            0 <= i < items.len() && is_inside(
                                #[trigger] items[i],
                                part,
                                (level - 1) as nat,
                            );
                        assert(numbers_safe(items[i], (depth - 1) as nat));
                        safe_values_are_safe_throughout(items[i], (depth - 1) as nat);
                    },
                    JsonView::Object(members) => {
                        let name = choose|name: Seq<char>|
                            members.dom().contains(name) && is_inside(
                                #[trigger] members[name],
                                part,
                                (level - 1) as nat,
                            );
                        assert(numbers_safe(members[name], (depth - 1) as nat));
                        safe_values_are_safe_throughout(members[name], (depth - 1) as nat);
                    },
                    _ => {},
                }
            }
        }
    }
    if forall|part: JsonView, level: nat| #[trigger]
        is_inside(value, part, level) ==> may_stand(part, level, depth) {
        assert(may_stand(value, 0, depth));
        match value {
            JsonView::Array(items) => {
                assert forall|i: int| 0 <= i < items.len() implies numbers_safe(
                    #[trigger] items[i],
                    (depth - 1) as nat,
                ) by {
                    assert forall|part: JsonView, level: nat| #[trigger]
                        is_inside(items[i], part, level) implies may_stand(
                        part,
                        level,
                        (depth - 1) as nat,
                    ) by {
                        assert(is_inside(value, part, level + 1));
                        assert(may_stand(part, level + 1, depth));
                    }
                    safe_values_are_safe_throughout(items[i], (depth - 1) as nat);
                }
            },
            JsonView::Object(members) => {
                assert forall|name: Seq<char>| members.dom().contains(name) implies numbers_safe(
                    #[trigger] members[name],
                    (depth - 1) as nat,
                ) by {
                    assert forall|part: JsonView, level: nat| #[trigger]
                        is_inside(members[name], part, level) implies may_stand(
                        part,
                        level,
                        (depth - 1) as nat,
                    ) by {
                        assert(is_inside(value, part, level + 1));
                        assert(may_stand(part, level + 1, depth));
                    }
                    safe_values_are_safe_throughout(members[name], (depth - 1) as nat);
                }
            },
            _ => {},
        }
    }
}

// --- Requests ------------------------------------------------------------------------------------

/// Which requests are read: one within its limits, whose text reads at most 128 levels deep and is fine
/// to the strict reader, with numbers that every reader holds, in the shape of a message. Over a limit it
/// is too large; anything else is an invalid request.
pub proof fn requests_are_judged(bytes: Seq<u8>, reader: Result<(), String>)
    ensures
        ({
            let fault = request_fault(bytes, reader);
            let limit = wire_fault(bytes);
            let tree = reading_of(bytes, 128);
            &&& bytes.len() > 1_052_672 ==> limit == Some(WireLimitErrorView::Frame)
            &&& fault is None <==> {
                &&& limit is None
                &&& tree is Ok
                &&& reader is Ok
                &&& numbers_safe(tree->Ok_0, 128)
                &&& is_client_message(tree->Ok_0)
            }
            &&& limit is Some && !(limit->0 is Invalid) ==> fault is Some && fault->0.kind
                == ErrorKind::PayloadTooLarge
            &&& fault is Some && (limit is None || limit->0 is Invalid) ==> fault->0.kind
                == ErrorKind::InvalidRequest
        }),
{
}

/// Whether a frame of a given kind is judged by the sizes of its parts: the kind is a text, and the
/// command and its payload are measured as they stand.
pub proof fn frames_are_measured(bytes: Seq<u8>)
    ensures
        ({
            let limit = wire_fault(bytes);
            let parts = raw_fields(bytes, seq!["kind"@, "message"@]);
            let kind = json_parse(parts->Ok_0[0]);
            let payload = raw_fields(encode_utf8(parts->Ok_0[1]), seq!["payload"@]);
            &&& bytes.len() <= 1_052_672 && parts is Err ==> limit == Some(
                WireLimitErrorView::Invalid(parts->Err_0),
            )
            &&& bytes.len() <= 1_052_672 && parts is Ok && !(kind is Ok && kind->Ok_0 is Str)
                ==> limit is Some && limit->0 is Invalid
            &&& bytes.len() <= 1_052_672 && parts is Ok && kind is Ok && kind->Ok_0 is Str ==> limit
                == size_fault(
                bytes.len(),
                kind->Ok_0->Str_0,
                encode_utf8(parts->Ok_0[1]).len(),
                match payload {
                    Ok(texts) => Ok(encode_utf8(texts[0]).len()),
                    Err(e) => Err(e),
                },
            )
        }),
{
}

} // verus!
