//! The event stream of the adapter: resuming from a cursor, subscriptions, and publication.
use crate::json::json_text;
use crate::protocol::adapter::{
    adapter_ok, error_of, handed_out, protocol_error, subscription_id, AdapterView,
    InProcessAdapter,
};
use crate::protocol::event::{event_bytes, event_size, project};
use crate::protocol::project::with_poison;
use crate::protocol::subscription::{
    add_subscription, adding_keeps_order, all_closed, changing_keeps_order, close_all,
    closing_keeps_order, fill_retained, find_subscription, offer_event, place_of, projected,
    queued_bytes, refilled, removing_keeps_order, spread, spreading_keeps_order, subscription_ok,
    total_bytes, with_subscription, DurableSubscription, DurableSubscriptionView, QueuedEventView,
    SubscriptionClosure, SubscriptionClosureView,
};
use crate::protocol::types::{
    bounded_u32, AdapterLimits, AdapterLimitsView, BoundedU32, CursorExpired, CursorExpiredView,
    DecimalU64, ErrorKind, Event, EventView, Retention, RetentionView, ServerMessage,
    ServerMessageView, SubscriptionClosed, SubscriptionClosedView, SubscriptionOpened,
    SubscriptionOpenedView, SubscriptionPending, SubscriptionPendingView,
};
use crate::protocol::wire::{encodable, encode_server_message, server_tree};
use crate::protocol::{
    DEFAULT_DURABLE_QUEUE_CAPACITY, DEFAULT_MAX_AGE_SECONDS, DEFAULT_MAX_EVENTS_PER_PROJECT,
    DEFAULT_PROGRESS_QUEUE_CAPACITY, MAX_DURABLE_SUBSCRIPTIONS, MAX_EVENT_BYTES, MAX_RESUME_BYTES,
    MAX_RESUME_EVENTS,
};
use crate::store::{
    events_after, events_after_lie_above, max_cursor, EventRecord, EventRecordView,
};
use crate::text::{dec, dec_injective, decimal, same};
use vstd::prelude::*;
use vstd::string::*;
use vstd::utf8::encode_utf8;

verus! {

/// The answer that is an error.
pub open spec fn error_answer(kind: ErrorKind, detail: Seq<char>) -> ServerMessageView {
    ServerMessageView::Error(error_of(kind, detail))
}

fn error_message(kind: ErrorKind, detail: &str) -> (r: ServerMessage)
    ensures
        r@ == error_answer(kind, detail@),
        encodable(r@),
{
    ServerMessage::Error(protocol_error(kind, detail))
}

/// The answer that a cursor lies below the retained floor.
pub open spec fn expired(floor: u64) -> ServerMessageView {
    ServerMessageView::CursorExpired(CursorExpiredView { min_retained_cursor: floor })
}

// --- Resuming ------------------------------------------------------------------------------------

/// What was gathered for an answer.
pub enum Gathered {
    Events(Seq<EventView>, nat),
    /// A record that does not project.
    Unreadable(Seq<char>),
    TooLarge,
}

/// The events of the first `n` records with the bytes of the answer that holds them, counted
/// from those of the empty answer: a separator before each event but the first.
pub open spec fn gathered(records: Seq<EventRecordView>, empty: nat, n: nat) -> Gathered
    decreases n,
{
    if n == 0 {
        Gathered::Events(Seq::empty(), empty)
    } else {
        match gathered(records, empty, (n - 1) as nat) {
            Gathered::Events(list, bytes) => match projected(records[n - 1]) {
                Err(detail) => Gathered::Unreadable(detail),
                Ok(event) => {
                    let next = bytes + (if list.len() > 0 {
                        1nat
                    } else {
                        0nat
                    }) + event_size(event);
                    if next > MAX_RESUME_BYTES {
                        Gathered::TooLarge
                    } else {
                        Gathered::Events(list.push(event), next)
                    }
                },
            },
            other => other,
        }
    }
}

proof fn gathering_stops(records: Seq<EventRecordView>, empty: nat, i: nat, n: nat)
    requires
        i <= n,
        !(gathered(records, empty, i) is Events),
    ensures
        gathered(records, empty, n) == gathered(records, empty, i),
    decreases n - i,
{
    if i < n {
        gathering_stops(records, empty, i + 1, n);
    }
}

/// The bytes of the empty answer.
pub open spec fn empty_answer_bytes() -> nat {
    encode_utf8(json_text(server_tree(ServerMessageView::Events(Seq::empty())))).len()
}

/// The answer to a resume, and the adapter then. An unreadable record poisons the funnel.
pub open spec fn resumed(a: AdapterView, project_id: Seq<char>, after: u64) -> (
    ServerMessageView,
    AdapterView,
) {
    let floor = a.funnel.store.min_retained;
    let events = a.funnel.store.tables.events;
    let records = events_after(events, after, (MAX_RESUME_EVENTS + 1) as nat);
    if project_id != a.project_id {
        (error_answer(ErrorKind::InvalidRequest, "cursor belongs to a different project"@), a)
    } else if a.funnel.gate is Some {
        (error_answer(ErrorKind::Unavailable, a.funnel.gate->0), a)
    } else if floor > 1 && after < floor {
        (expired(floor), a)
    } else if records.len() == 0 && after > max_cursor(events) {
        (error_answer(ErrorKind::InvalidRequest, "cursor is ahead of the project journal"@), a)
    } else if records.len() > MAX_RESUME_EVENTS {
        (
            error_answer(
                ErrorKind::ResourceExhausted,
                "resume exceeds 1024 events; use a durable subscription"@,
            ),
            a,
        )
    } else {
        match gathered(records, empty_answer_bytes(), records.len()) {
            Gathered::Events(list, _) => (ServerMessageView::Events(list), a),
            Gathered::Unreadable(detail) => (
                error_answer(ErrorKind::Internal, detail),
                with_poison(a, detail),
            ),
            Gathered::TooLarge => (
                error_answer(
                    ErrorKind::ResourceExhausted,
                    "resume exceeds the response byte limit; use a durable subscription"@,
                ),
                a,
            ),
        }
    }
}

/// A resume that is answered with events is answered with every event above the cursor, as it
/// stands in the journal and in its order.
pub proof fn resumes_are_complete(a: AdapterView, project_id: Seq<char>, after: u64)
    requires
        resumed(a, project_id, after).0 is Events,
    ensures
        ({
            let list = resumed(a, project_id, after).0->Events_0;
            let all = crate::store::later(a.funnel.store.tables.events, after);
            &&& list.len() == all.len()
            &&& forall|i: int|
                0 <= i < all.len() ==> projected(#[trigger] all[i]) == Ok::<EventView, Seq<char>>(
                    list[i],
                )
        }),
{
    let events = a.funnel.store.tables.events;
    let records = events_after(events, after, (MAX_RESUME_EVENTS + 1) as nat);
    gathered_in_order(records, empty_answer_bytes(), records.len());
    assert(records == crate::store::later(events, after));
}

proof fn gathered_in_order(records: Seq<EventRecordView>, empty: nat, n: nat)
    requires
        n <= records.len(),
        gathered(records, empty, n) is Events,
    ensures
        gathered(records, empty, n)->Events_0.len() == n,
        forall|i: int|
            0 <= i < n ==> projected(#[trigger] records[i]) == Ok::<EventView, Seq<char>>(
                gathered(records, empty, n)->Events_0[i],
            ),
    decreases n,
{
    if n > 0 {
        gathered_in_order(records, empty, (n - 1) as nat);
    }
}

// --- Publication ---------------------------------------------------------------------------------

/// An adapter whose subscriptions are all closed for a reason of this side, and whose funnel is
/// poisoned.
pub open spec fn closed_internal(a: AdapterView, detail: Seq<char>) -> AdapterView {
    AdapterView {
        subscriptions: all_closed(a.subscriptions, detail),
        ..with_poison(a, detail)
    }
}

/// The adapter after the first `n` of some records were published, and whether publication
/// stopped at one that does not project.
pub open spec fn published_batch(a: AdapterView, records: Seq<EventRecordView>, n: nat) -> (
    AdapterView,
    bool,
)
    decreases n,
{
    if n == 0 {
        (a, false)
    } else {
        let (b, stopped) = published_batch(a, records, (n - 1) as nat);
        if stopped {
            (b, true)
        } else {
            match projected(records[n - 1]) {
                Err(detail) => (closed_internal(b, detail), true),
                Ok(event) => (
                    AdapterView {
                        published_cursor: event.cursor,
                        subscriptions: spread(
                            b.subscriptions,
                            event,
                            b.funnel.store.min_retained,
                            b.subscriptions.len(),
                        ).0,
                        ..b
                    },
                    false,
                ),
            }
        }
    }
}

/// The adapter after everything up to a cursor was published.
pub open spec fn published_through(a: AdapterView, target: u64) -> AdapterView
    decreases target - a.published_cursor,
{
    if a.published_cursor >= target {
        a
    } else {
        let batch = events_after(
            a.funnel.store.tables.events,
            a.published_cursor,
            MAX_RESUME_EVENTS as nat,
        );
        if batch.len() == 0 {
            closed_internal(
                a,
                "durable event stream ended before committed cursor "@ + dec(target as nat),
            )
        } else {
            let (b, stopped) = published_batch(a, batch, batch.len());
            if stopped || b.published_cursor <= a.published_cursor || b.published_cursor >= target {
                b
            } else {
                published_through(b, target)
            }
        }
    }
}

proof fn batch_stops(a: AdapterView, records: Seq<EventRecordView>, i: nat, n: nat)
    requires
        i <= n,
        published_batch(a, records, i).1,
    ensures
        published_batch(a, records, n) == published_batch(a, records, i),
    decreases n - i,
{
    if i < n {
        batch_stops(a, records, i + 1, n);
    }
}

proof fn closing_is_ok(a: AdapterView, detail: Seq<char>)
    requires
        adapter_ok(a),
    ensures
        adapter_ok(closed_internal(a, detail)),
{
    closing_keeps_order(a.subscriptions, detail);
    let b = closed_internal(a, detail);
    assert forall|i: int| 0 <= i < b.subscriptions.len() implies handed_out(
        (#[trigger] b.subscriptions[i]).id,
        b.next_subscription_id as nat,
    ) by {
        assert(handed_out(a.subscriptions[i].id, a.next_subscription_id as nat));
    }
}

pub(crate) proof fn projected_is_small(e: EventRecordView)
    requires
        projected(e) is Ok,
    ensures
        event_size(projected(e)->Ok_0) <= MAX_EVENT_BYTES,
        projected(e)->Ok_0.cursor == e.cursor,
{
}

impl InProcessAdapter {
    /// The capacities of the queues.
    pub fn limits(&self) -> (r: AdapterLimits)
        ensures
            r@ == adapter_limits(),
    {
        AdapterLimits {
            durable_event_queue_capacity: BoundedU32::new(DEFAULT_DURABLE_QUEUE_CAPACITY as u32),
            progress_event_queue_capacity: BoundedU32::new(DEFAULT_PROGRESS_QUEUE_CAPACITY as u32),
        }
    }

    /// What the journal keeps.
    pub fn retention(&self) -> (r: Retention)
        ensures
            r@ == retention_of(self@),
    {
        Retention {
            min_retained_cursor: DecimalU64::new(self.funnel.store.min_retained_cursor()),
            max_age_seconds: DecimalU64::new(DEFAULT_MAX_AGE_SECONDS),
            max_events_per_project: DecimalU64::new(DEFAULT_MAX_EVENTS_PER_PROJECT),
        }
    }

    /// Answers a resume from a cursor.
    pub fn handle_resume(&mut self, project_id: &str, after_cursor: u64) -> (r: ServerMessage)
        requires
            adapter_ok(old(self)@),
        ensures
            (r@, final(self)@) == resumed(old(self)@, project_id@, after_cursor),
            encodable(r@),
            adapter_ok(final(self)@),
    {
        if !same(project_id, &self.project_id) {
            return error_message(
                ErrorKind::InvalidRequest,
                "cursor belongs to a different project",
            );
        }
        if let Some(detail) = self.funnel.poison_detail() {
            return error_message(ErrorKind::Unavailable, &detail);
        }
        let floor: u64 = self.funnel.store.min_retained_cursor();
        if floor > 1 && after_cursor < floor {
            return ServerMessage::CursorExpired(
                CursorExpired { min_retained_cursor: DecimalU64::new(floor) },
            );
        }
        let records = self.funnel.store.events_after_limit(after_cursor, MAX_RESUME_EVENTS + 1);
        let ghost list = records@.map_values(|e: EventRecord| e@);
        proof {
            assert(list.len() == records.len());
        }
        if records.len() == 0 && after_cursor > self.funnel.store.latest_cursor() {
            return error_message(
                ErrorKind::InvalidRequest,
                "cursor is ahead of the project journal",
            );
        }
        if records.len() > MAX_RESUME_EVENTS {
            return error_message(
                ErrorKind::ResourceExhausted,
                "resume exceeds 1024 events; use a durable subscription",
            );
        }
        let no_events: Vec<Event> = Vec::new();
        proof {
            assert(no_events@.map_values(|e: Event| e@) =~= Seq::<EventView>::empty());
        }
        let blank = encode_server_message(&ServerMessage::Events(no_events));
        let empty: usize = blank.as_str().as_bytes().len();
        let mut events: Vec<Event> = Vec::new();
        let mut bytes: usize = empty;
        let mut i: usize = 0;
        let ghost before = self@;
        proof {
            assert(events@.map_values(|e: Event| e@) =~= Seq::<EventView>::empty());
        }
        while i < records.len()
            invariant
                i <= records.len() <= MAX_RESUME_EVENTS,
                list == records@.map_values(|e: EventRecord| e@),
                list == events_after(
                    before.funnel.store.tables.events,
                    after_cursor,
                    (MAX_RESUME_EVENTS + 1) as nat,
                ),
                empty == empty_answer_bytes(),
                self@ == before,
                before == old(self)@,
                adapter_ok(before),
                project_id@ == before.project_id,
                before.funnel.gate is None,
                !(before.funnel.store.min_retained > 1 && after_cursor
                    < before.funnel.store.min_retained),
                gathered(list, empty as nat, i as nat) == Gathered::Events(
                    events@.map_values(|e: Event| e@),
                    bytes as nat,
                ),
            decreases records.len() - i,
        {
            proof {
                assert(list[i as int] == records@[i as int]@);
                assert(list.len() == records.len());
            }
            let event = match project(&records[i]) {
                Ok(event) => event,
                Err(detail) => {
                    proof {
                        gathering_stops(list, empty as nat, (i + 1) as nat, list.len());
                    }
                    let answer = error_message(ErrorKind::Internal, &detail);
                    self.funnel.poison(detail);
                    return answer;
                },
            };
            proof {
                projected_is_small(list[i as int]);
            }
            let separator: usize = if events.len() > 0 {
                1
            } else {
                0
            };
            let size: usize = event_bytes(&event);
            if bytes > MAX_RESUME_BYTES || separator + size > MAX_RESUME_BYTES - bytes {
                proof {
                    gathering_stops(list, empty as nat, (i + 1) as nat, list.len());
                }
                return error_message(
                    ErrorKind::ResourceExhausted,
                    "resume exceeds the response byte limit; use a durable subscription",
                );
            }
            bytes = bytes + separator + size;
            let ghost seen = events@.map_values(|e: Event| e@);
            events.push(event);
            proof {
                assert(events@.map_values(|e: Event| e@) =~= seen.push(event@));
            }
            i += 1;
        }
        ServerMessage::Events(events)
    }

    /// Closes every subscription for a reason of this side, and poisons the funnel.
    fn close_internal(&mut self, detail: String)
        requires
            adapter_ok(old(self)@),
        ensures
            final(self)@ == closed_internal(old(self)@, detail@),
            adapter_ok(final(self)@),
    {
        proof {
            closing_is_ok(self@, detail@);
        }
        close_all(&mut self.subscriptions, &detail);
        self.funnel.poison(detail);
    }

    fn publish_event(&mut self, event: &Event)
        requires
            adapter_ok(old(self)@),
            event_size(event@) <= MAX_EVENT_BYTES,
        ensures
            final(self)@ == (AdapterView {
                published_cursor: event@.cursor,
                subscriptions: spread(
                    old(self)@.subscriptions,
                    event@,
                    old(self)@.funnel.store.min_retained,
                    old(self)@.subscriptions.len(),
                ).0,
                ..old(self)@
            }),
            adapter_ok(final(self)@),
    {
        let floor: u64 = self.funnel.store.min_retained_cursor();
        proof {
            spreading_keeps_order(
                self@.subscriptions,
                event@,
                floor,
                self@.subscriptions.len(),
            );
        }
        self.published_cursor = event.cursor.get();
        let ghost subs = self@.subscriptions;
        let ghost ids = self@.next_subscription_id as nat;
        offer_event(&mut self.subscriptions, event, floor);
        proof {
            let new = self@.subscriptions;
            assert forall|i: int| 0 <= i < new.len() implies handed_out(
                (#[trigger] new[i]).id,
                ids,
            ) by {
                assert(new[i].id == subs[i].id);
                assert(handed_out(subs[i].id, ids));
            }
        }
    }

    fn publish_batch(&mut self, records: &Vec<EventRecord>) -> (r: bool)
        requires
            adapter_ok(old(self)@),
            records.len() > 0,
        ensures
            (final(self)@, r) == published_batch(
                old(self)@,
                records@.map_values(|e: EventRecord| e@),
                records@.len(),
            ),
            adapter_ok(final(self)@),
            !r ==> final(self)@.published_cursor == records@.last()@.cursor,
    {
        let ghost a = self@;
        let ghost list = records@.map_values(|e: EventRecord| e@);
        let mut i: usize = 0;
        while i < records.len()
            invariant
                i <= records.len(),
                a == old(self)@,
                list == records@.map_values(|e: EventRecord| e@),
                published_batch(a, list, i as nat) == (self@, false),
                adapter_ok(self@),
                i > 0 ==> self@.published_cursor == records@[i - 1]@.cursor,
            decreases records.len() - i,
        {
            proof {
                assert(list[i as int] == records@[i as int]@);
                assert(list.len() == records.len());
            }
            match project(&records[i]) {
                Err(detail) => {
                    proof {
                        batch_stops(a, list, (i + 1) as nat, list.len());
                    }
                    self.close_internal(detail);
                    return true;
                },
                Ok(event) => {
                    proof {
                        projected_is_small(list[i as int]);
                    }
                    self.publish_event(&event);
                },
            }
            i += 1;
        }
        false
    }

    /// Publishes everything up to a cursor to every subscription.
    pub fn publish_through(&mut self, target_cursor: u64)
        requires
            adapter_ok(old(self)@),
        ensures
            final(self)@ == published_through(old(self)@, target_cursor),
            adapter_ok(final(self)@),
    {
        let ghost start = self@;
        while self.published_cursor < target_cursor
            invariant
                adapter_ok(self@),
                start == old(self)@,
                published_through(start, target_cursor) == published_through(self@, target_cursor),
            decreases
                (if self.published_cursor < target_cursor {
                    target_cursor - self.published_cursor
                } else {
                    0
                }),
        {
            let ghost a = self@;
            let records = self.funnel.store.events_after_limit(
                self.published_cursor,
                MAX_RESUME_EVENTS,
            );
            let ghost list = records@.map_values(|e: EventRecord| e@);
            proof {
                assert(list.len() == records.len());
                events_after_lie_above(
                    a.funnel.store.tables.events,
                    a.published_cursor,
                    MAX_RESUME_EVENTS as nat,
                );
            }
            if records.len() == 0 {
                let mut detail = "durable event stream ended before committed cursor ".to_owned();
                detail.append(&decimal(target_cursor));
                self.close_internal(detail);
                return;
            }
            proof {
                assert(list[list.len() - 1] == records@.last()@);
            }
            if self.publish_batch(&records) {
                return;
            }
        }
    }
}

// --- Subscriptions -------------------------------------------------------------------------------

/// The capacities of the queues.
pub open spec fn adapter_limits() -> AdapterLimitsView {
    AdapterLimitsView {
        durable_event_queue_capacity: bounded_u32(DEFAULT_DURABLE_QUEUE_CAPACITY as u32),
        progress_event_queue_capacity: bounded_u32(DEFAULT_PROGRESS_QUEUE_CAPACITY as u32),
    }
}

/// What the journal keeps.
pub open spec fn retention_of(a: AdapterView) -> RetentionView {
    RetentionView {
        min_retained_cursor: a.funnel.store.min_retained,
        max_age_seconds: DEFAULT_MAX_AGE_SECONDS,
        max_events_per_project: DEFAULT_MAX_EVENTS_PER_PROJECT,
    }
}

/// A new subscription from a cursor, before it is filled.
pub open spec fn opened_at(id: Seq<char>, after: u64, available: u64) -> DurableSubscriptionView {
    DurableSubscriptionView {
        id,
        queue: Seq::empty(),
        queued_bytes: 0,
        last_queued_cursor: after,
        last_delivered_cursor: after,
        available_cursor: available,
        closed: None,
    }
}

/// An adapter whose funnel is poisoned where filling found a fault.
pub open spec fn with_fault(a: AdapterView, fault: Option<Seq<char>>) -> AdapterView {
    match fault {
        Some(detail) => with_poison(a, detail),
        None => a,
    }
}

/// The answer to an opened subscription, and the adapter then: it is filled from the journal at
/// once.
pub open spec fn opened_from(a: AdapterView, after: u64, available: u64) -> (
    ServerMessageView,
    AdapterView,
) {
    let sequence = (a.next_subscription_id + 1) as u64;
    let id = subscription_id(sequence as nat);
    let f = refilled(
        opened_at(id, after, available),
        total_bytes(a.subscriptions),
        a.funnel.store.tables.events,
        a.funnel.store.min_retained,
    );
    (
        ServerMessageView::SubscriptionOpened(
            SubscriptionOpenedView {
                subscription_id: id,
                limits: adapter_limits(),
                retention: retention_of(a),
            },
        ),
        with_fault(
            AdapterView {
                subscriptions: with_subscription(a.subscriptions, f.sub),
                next_subscription_id: sequence,
                ..a
            },
            f.fault,
        ),
    )
}

/// The answer to a subscribe, and the adapter then.
pub open spec fn subscribed(a: AdapterView, project_id: Seq<char>, after: u64) -> (
    ServerMessageView,
    AdapterView,
) {
    let floor = a.funnel.store.min_retained;
    let events = a.funnel.store.tables.events;
    if project_id != a.project_id {
        (
            error_answer(
                ErrorKind::InvalidRequest,
                "subscription belongs to a different project"@,
            ),
            a,
        )
    } else if a.funnel.gate is Some {
        (error_answer(ErrorKind::Unavailable, a.funnel.gate->0), a)
    } else if a.subscriptions.len() >= MAX_DURABLE_SUBSCRIPTIONS {
        (
            error_answer(
                ErrorKind::ResourceExhausted,
                "project already has 64 open durable subscriptions"@,
            ),
            a,
        )
    } else if floor > 1 && after < floor {
        (expired(floor), a)
    } else if after > max_cursor(events) {
        (error_answer(ErrorKind::InvalidRequest, "cursor is ahead of the project journal"@), a)
    } else if a.next_subscription_id == u64::MAX {
        (
            error_answer(ErrorKind::ResourceExhausted, "subscription identifier space exhausted"@),
            a,
        )
    } else {
        opened_from(a, after, max_cursor(events))
    }
}

/// A subscription after its first event was taken out.
pub open spec fn delivered(s: DurableSubscriptionView) -> DurableSubscriptionView {
    DurableSubscriptionView {
        queue: s.queue.skip(1),
        queued_bytes: (s.queued_bytes - s.queue[0].bytes) as usize,
        last_delivered_cursor: s.queue[0].event.cursor,
        ..s
    }
}

/// The answer to a poll of a subscription with events, and the adapter then.
pub open spec fn delivered_from(a: AdapterView, i: int) -> (ServerMessageView, AdapterView) {
    let s = a.subscriptions[i];
    let f = refilled(
        delivered(s),
        (total_bytes(a.subscriptions) - s.queue[0].bytes) as nat,
        a.funnel.store.tables.events,
        a.funnel.store.min_retained,
    );
    (
        ServerMessageView::Event(s.queue[0].event),
        with_fault(
            AdapterView { subscriptions: a.subscriptions.update(i, f.sub), ..a },
            f.fault,
        ),
    )
}

/// The answer to a poll, and the adapter then: a closed subscription is told once and goes; an
/// open one delivers the first event of its queue and is filled up.
pub open spec fn polled(a: AdapterView, id: Seq<char>) -> (ServerMessageView, AdapterView) {
    let i = place_of(a.subscriptions, id);
    if a.funnel.gate is Some {
        (error_answer(ErrorKind::Unavailable, a.funnel.gate->0), a)
    } else if i >= a.subscriptions.len() {
        (error_answer(ErrorKind::NotFound, "unknown subscription"@), a)
    } else {
        let s = a.subscriptions[i];
        match s.closed {
            Some(closure) => (
                match closure {
                    SubscriptionClosureView::SlowConsumer(c) => ServerMessageView::SlowConsumer(c),
                    SubscriptionClosureView::Internal(detail) => error_answer(
                        ErrorKind::Internal,
                        detail,
                    ),
                },
                AdapterView { subscriptions: a.subscriptions.remove(i), ..a },
            ),
            None => if s.queue.len() == 0 {
                (
                    ServerMessageView::SubscriptionPending(
                        SubscriptionPendingView { subscription_id: id },
                    ),
                    a,
                )
            } else {
                delivered_from(a, i)
            },
        }
    }
}

/// The answer to a close, and the adapter then.
pub open spec fn closed(a: AdapterView, id: Seq<char>) -> (ServerMessageView, AdapterView) {
    let i = place_of(a.subscriptions, id);
    if a.funnel.gate is Some {
        (error_answer(ErrorKind::Unavailable, a.funnel.gate->0), a)
    } else if i >= a.subscriptions.len() {
        (error_answer(ErrorKind::NotFound, "unknown subscription"@), a)
    } else {
        (
            ServerMessageView::SubscriptionClosed(
                SubscriptionClosedView { subscription_id: id },
            ),
            AdapterView { subscriptions: a.subscriptions.remove(i), ..a },
        )
    }
}

proof fn new_ids_are_new(a: AdapterView)
    requires
        adapter_ok(a),
        a.next_subscription_id < u64::MAX,
    ensures
        forall|i: int|
            0 <= i < a.subscriptions.len() ==> (#[trigger] a.subscriptions[i]).id
                != subscription_id((a.next_subscription_id + 1) as nat),
{
    let n = (a.next_subscription_id + 1) as nat;
    assert forall|i: int| 0 <= i < a.subscriptions.len() implies (
    #[trigger] a.subscriptions[i]).id != subscription_id(n) by {
        let id = a.subscriptions[i].id;
        assert(handed_out(id, a.next_subscription_id as nat));
        let k = choose|k: nat|
            1 <= k <= a.next_subscription_id && id == #[trigger] subscription_id(k);
        if id == subscription_id(n) {
            let prefix = "subscription-"@;
            assert(subscription_id(k).skip(prefix.len() as int) =~= dec(k));
            assert(subscription_id(n).skip(prefix.len() as int) =~= dec(n));
            dec_injective(k, n);
        }
    }
}

proof fn ids_stay_handed_out(
    old_subs: Seq<DurableSubscriptionView>,
    new_subs: Seq<DurableSubscriptionView>,
    n: nat,
    m: nat,
)
    requires
        n <= m,
        forall|i: int|
            0 <= i < old_subs.len() ==> handed_out((#[trigger] old_subs[i]).id, n),
        forall|i: int|
            0 <= i < new_subs.len() ==> (exists|j: int|
                0 <= j < old_subs.len() && (#[trigger] old_subs[j]).id == (
                #[trigger] new_subs[i]).id) || handed_out(new_subs[i].id, m),
    ensures
        forall|i: int|
            0 <= i < new_subs.len() ==> handed_out((#[trigger] new_subs[i]).id, m),
{
    assert forall|i: int| 0 <= i < new_subs.len() implies handed_out(
        (#[trigger] new_subs[i]).id,
        m,
    ) by {
        if !handed_out(new_subs[i].id, m) {
            let j = choose|j: int|
                0 <= j < old_subs.len() && (#[trigger] old_subs[j]).id == new_subs[i].id;
            assert(handed_out(old_subs[j].id, n));
            let k = choose|k: nat| 1 <= k <= n && old_subs[j].id == #[trigger] subscription_id(k);
            assert(1 <= k <= m && new_subs[i].id == subscription_id(k));
        }
    }
}

proof fn opening_is_ok(a: AdapterView, s: DurableSubscriptionView)
    requires
        adapter_ok(a),
        a.subscriptions.len() < MAX_DURABLE_SUBSCRIPTIONS,
        a.next_subscription_id < u64::MAX,
        subscription_ok(s),
        s.id == subscription_id((a.next_subscription_id + 1) as nat),
        total_bytes(a.subscriptions) + s.queued_bytes
            <= crate::protocol::MAX_DURABLE_SUBSCRIPTION_BYTES,
    ensures
        adapter_ok(
            AdapterView {
                subscriptions: with_subscription(a.subscriptions, s),
                next_subscription_id: (a.next_subscription_id + 1) as u64,
                ..a
            },
        ),
{
    let n = (a.next_subscription_id + 1) as nat;
    new_ids_are_new(a);
    adding_keeps_order(a.subscriptions, s);
    let new = with_subscription(a.subscriptions, s);
    let at = crate::protocol::subscription::slot_from(a.subscriptions, s.id, 0);
    crate::protocol::subscription::slot_rule(a.subscriptions, s.id, 0);
    assert forall|i: int| 0 <= i < new.len() implies (exists|j: int|
        0 <= j < a.subscriptions.len() && (#[trigger] a.subscriptions[j]).id == (
        #[trigger] new[i]).id) || handed_out(new[i].id, n) by {
        if i < at {
            assert(a.subscriptions[i].id == new[i].id);
        } else if i > at {
            assert(a.subscriptions[i - 1].id == new[i].id);
        } else {
            assert(new[i].id == subscription_id(n));
        }
    }
    ids_stay_handed_out(a.subscriptions, new, a.next_subscription_id as nat, n);
}

proof fn change_is_ok(a: AdapterView, i: int, s: DurableSubscriptionView)
    requires
        adapter_ok(a),
        0 <= i < a.subscriptions.len(),
        subscription_ok(s),
        s.id == a.subscriptions[i].id,
        total_bytes(a.subscriptions) - a.subscriptions[i].queued_bytes + s.queued_bytes
            <= crate::protocol::MAX_DURABLE_SUBSCRIPTION_BYTES,
    ensures
        adapter_ok(AdapterView { subscriptions: a.subscriptions.update(i, s), ..a }),
{
    changing_keeps_order(a.subscriptions, i, s);
    let new = a.subscriptions.update(i, s);
    assert forall|k: int| 0 <= k < new.len() implies exists|j: int|
        0 <= j < a.subscriptions.len() && (#[trigger] a.subscriptions[j]).id == (
        #[trigger] new[k]).id by {
        assert(a.subscriptions[k].id == new[k].id);
    }
    ids_stay_handed_out(
        a.subscriptions,
        new,
        a.next_subscription_id as nat,
        a.next_subscription_id as nat,
    );
}

proof fn removal_is_ok(a: AdapterView, i: int)
    requires
        adapter_ok(a),
        0 <= i < a.subscriptions.len(),
    ensures
        adapter_ok(AdapterView { subscriptions: a.subscriptions.remove(i), ..a }),
{
    removing_keeps_order(a.subscriptions, i);
    let new = a.subscriptions.remove(i);
    assert forall|k: int| 0 <= k < new.len() implies exists|j: int|
        0 <= j < a.subscriptions.len() && (#[trigger] a.subscriptions[j]).id == (
        #[trigger] new[k]).id by {
        let j = if k < i {
            k
        } else {
            k + 1
        };
        assert(a.subscriptions[j].id == new[k].id);
    }
    ids_stay_handed_out(
        a.subscriptions,
        new,
        a.next_subscription_id as nat,
        a.next_subscription_id as nat,
    );
}

pub(crate) proof fn delivery_keeps_order(s: DurableSubscriptionView)
    requires
        subscription_ok(s),
        s.queue.len() > 0,
    ensures
        subscription_ok(delivered(s)),
        s.queue[0].bytes <= s.queued_bytes,
        delivered(s).queued_bytes + s.queue[0].bytes == s.queued_bytes,
{
    bytes_after_first(s.queue);
    let q = s.queue.skip(1);
    assert forall|i: int| 0 <= i < q.len() implies s.queue[0].event.cursor < (
    #[trigger] q[i]).event.cursor <= s.last_queued_cursor && q[i].bytes == event_size(
        q[i].event,
    ) by {
        assert(q[i] == s.queue[i + 1]);
        assert(s.queue[0].event.cursor < s.queue[i + 1].event.cursor);
    }
    assert forall|i: int, j: int| 0 <= i < j < q.len() implies (#[trigger] q[i]).event.cursor < (
    #[trigger] q[j]).event.cursor by {
        assert(s.queue[i + 1].event.cursor < s.queue[j + 1].event.cursor);
    }
    assert(s.queue[0].event.cursor <= s.last_queued_cursor);
}

proof fn bytes_after_first(queue: Seq<QueuedEventView>)
    requires
        queue.len() > 0,
    ensures
        crate::protocol::subscription::bytes_of(queue) == queue[0].bytes
            + crate::protocol::subscription::bytes_of(queue.skip(1)),
    decreases queue.len(),
{
    if queue.len() == 1 {
        assert(queue.skip(1) =~= Seq::<QueuedEventView>::empty());
        assert(queue.drop_last() =~= Seq::<QueuedEventView>::empty());
    } else {
        bytes_after_first(queue.drop_last());
        assert(queue.drop_last().skip(1) =~= queue.skip(1).drop_last());
        assert(queue.skip(1).last() == queue.last());
    }
}

impl InProcessAdapter {
    /// Answers a subscribe from a cursor.
    pub fn handle_subscribe(&mut self, project_id: &str, after_cursor: u64) -> (r: ServerMessage)
        requires
            adapter_ok(old(self)@),
        ensures
            (r@, final(self)@) == subscribed(old(self)@, project_id@, after_cursor),
            encodable(r@),
            adapter_ok(final(self)@),
    {
        if !same(project_id, &self.project_id) {
            return error_message(
                ErrorKind::InvalidRequest,
                "subscription belongs to a different project",
            );
        }
        if let Some(detail) = self.funnel.poison_detail() {
            return error_message(ErrorKind::Unavailable, &detail);
        }
        if self.subscriptions.len() >= MAX_DURABLE_SUBSCRIPTIONS {
            return error_message(
                ErrorKind::ResourceExhausted,
                "project already has 64 open durable subscriptions",
            );
        }
        let floor: u64 = self.funnel.store.min_retained_cursor();
        if floor > 1 && after_cursor < floor {
            return ServerMessage::CursorExpired(
                CursorExpired { min_retained_cursor: DecimalU64::new(floor) },
            );
        }
        let available: u64 = self.funnel.store.latest_cursor();
        if after_cursor > available {
            return error_message(
                ErrorKind::InvalidRequest,
                "cursor is ahead of the project journal",
            );
        }
        if self.next_subscription_id == u64::MAX {
            return error_message(
                ErrorKind::ResourceExhausted,
                "subscription identifier space exhausted",
            );
        }
        self.open_subscription(after_cursor, available)
    }

    fn open_subscription(&mut self, after_cursor: u64, available: u64) -> (r: ServerMessage)
        requires
            adapter_ok(old(self)@),
            old(self)@.subscriptions.len() < MAX_DURABLE_SUBSCRIPTIONS,
            old(self)@.next_subscription_id < u64::MAX,
        ensures
            (r@, final(self)@) == opened_from(old(self)@, after_cursor, available),
            encodable(r@),
            adapter_ok(final(self)@),
    {
        let ghost a = self@;
        let sequence: u64 = self.next_subscription_id + 1;
        let mut id = "subscription-".to_owned();
        id.append(&decimal(sequence));
        let mut s = DurableSubscription {
            id: id.clone(),
            queue: Vec::new(),
            queued_bytes: 0,
            last_queued_cursor: after_cursor,
            last_delivered_cursor: after_cursor,
            available_cursor: available,
            closed: None,
        };
        proof {
            assert(s@.queue =~= Seq::<QueuedEventView>::empty());
            assert(s@ == opened_at(id@, after_cursor, available));
        }
        let mut total: usize = queued_bytes(&self.subscriptions);
        let fault = fill_retained(&self.funnel.store, &mut s, &mut total);
        proof {
            opening_is_ok(a, s@);
        }
        add_subscription(&mut self.subscriptions, s);
        self.next_subscription_id = sequence;
        let opened = SubscriptionOpened {
            subscription_id: id,
            limits: self.limits(),
            retention: self.retention(),
        };
        if let Some(detail) = fault {
            self.funnel.poison(detail);
        }
        ServerMessage::SubscriptionOpened(opened)
    }

    /// Answers a poll of a subscription.
    pub fn handle_subscription_poll(&mut self, subscription_id: &str) -> (r: ServerMessage)
        requires
            adapter_ok(old(self)@),
        ensures
            (r@, final(self)@) == polled(old(self)@, subscription_id@),
            encodable(r@),
            adapter_ok(final(self)@),
    {
        if let Some(detail) = self.funnel.poison_detail() {
            return error_message(ErrorKind::Unavailable, &detail);
        }
        let i: usize = find_subscription(&self.subscriptions, subscription_id);
        let ghost a = self@;
        if i >= self.subscriptions.len() {
            return error_message(ErrorKind::NotFound, "unknown subscription");
        }
        proof {
            assert(a.subscriptions[i as int] == self.subscriptions@[i as int]@);
            assert(subscription_ok(a.subscriptions[i as int]));
        }
        if self.subscriptions[i].closed.is_some() {
            proof {
                removal_is_ok(a, i as int);
            }
            let s = self.subscriptions.remove(i);
            proof {
                assert(self@.subscriptions =~= a.subscriptions.remove(i as int));
            }
            return match s.closed {
                Some(SubscriptionClosure::SlowConsumer(condition)) => ServerMessage::SlowConsumer(
                    condition,
                ),
                Some(SubscriptionClosure::Internal(detail)) => error_message(
                    ErrorKind::Internal,
                    &detail,
                ),
                None => error_message(ErrorKind::NotFound, "unknown subscription"),
            };
        }
        if self.subscriptions[i].queue.len() == 0 {
            return ServerMessage::SubscriptionPending(
                SubscriptionPending { subscription_id: subscription_id.to_owned() },
            );
        }
        self.deliver_first(i)
    }

    fn deliver_first(&mut self, i: usize) -> (r: ServerMessage)
        requires
            adapter_ok(old(self)@),
            i < old(self)@.subscriptions.len(),
            old(self)@.subscriptions[i as int].queue.len() > 0,
        ensures
            (r@, final(self)@) == delivered_from(old(self)@, i as int),
            encodable(r@),
            adapter_ok(final(self)@),
    {
        let ghost a = self@;
        let mut total: usize = queued_bytes(&self.subscriptions);
        proof {
            assert(a.subscriptions[i as int] == self.subscriptions@[i as int]@);
            assert(subscription_ok(a.subscriptions[i as int]));
        }
        let mut s = self.subscriptions.remove(i);
        let ghost before = s@;
        proof {
            delivery_keeps_order(before);
            changing_keeps_order(a.subscriptions, i as int, before);
            assert(before.queue[0] == s.queue@[0]@);
        }
        let first = s.queue.remove(0);
        proof {
            assert(s@.queue =~= before.queue.skip(1));
        }
        s.queued_bytes = s.queued_bytes - first.bytes;
        total = total - first.bytes;
        s.last_delivered_cursor = first.event.cursor.get();
        proof {
            assert(s@ == delivered(before));
        }
        let fault = fill_retained(&self.funnel.store, &mut s, &mut total);
        let ghost after = s@;
        self.subscriptions.insert(i, s);
        proof {
            assert(self@.subscriptions =~= a.subscriptions.update(i as int, after));
            change_is_ok(a, i as int, after);
        }
        if let Some(detail) = fault {
            self.funnel.poison(detail);
        }
        ServerMessage::Event(first.event)
    }

    /// Answers a close of a subscription.
    pub fn handle_subscription_close(&mut self, subscription_id: &str) -> (r: ServerMessage)
        requires
            adapter_ok(old(self)@),
        ensures
            (r@, final(self)@) == closed(old(self)@, subscription_id@),
            encodable(r@),
            adapter_ok(final(self)@),
    {
        if let Some(detail) = self.funnel.poison_detail() {
            return error_message(ErrorKind::Unavailable, &detail);
        }
        let i: usize = find_subscription(&self.subscriptions, subscription_id);
        let ghost a = self@;
        if i >= self.subscriptions.len() {
            return error_message(ErrorKind::NotFound, "unknown subscription");
        }
        proof {
            removal_is_ok(a, i as int);
        }
        let _ = self.subscriptions.remove(i);
        proof {
            assert(self@.subscriptions =~= a.subscriptions.remove(i as int));
        }
        ServerMessage::SubscriptionClosed(
            SubscriptionClosed { subscription_id: subscription_id.to_owned() },
        )
    }
}

} // verus!
