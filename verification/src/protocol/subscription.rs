//! Durable subscriptions: bounded queues of events that a client drains, filled from the journal
//! and closed where the client falls behind.
use crate::json::json_parse;
use crate::protocol::event::{event_bytes, event_size, project, projection};
use crate::protocol::types::{DecimalU64, Event, EventView, SlowConsumer, SlowConsumerView};
use crate::protocol::{DEFAULT_DURABLE_QUEUE_CAPACITY, MAX_DURABLE_SUBSCRIPTION_BYTES, MAX_EVENT_BYTES};
use crate::store::{events_after, EventRecord, EventRecordView, Store};
use crate::text::{before, same, text_before};
use vstd::prelude::*;
use vstd::string::*;

verus! {

/// An event in a queue, with its size on the wire.
#[derive(Debug)]
pub struct QueuedEvent {
    pub event: Event,
    pub bytes: usize,
}

/// The view of a `QueuedEvent`.
pub struct QueuedEventView {
    pub event: EventView,
    pub bytes: usize,
}

impl View for QueuedEvent {
    type V = QueuedEventView;

    open spec fn view(&self) -> QueuedEventView {
        QueuedEventView {
            event: self.event@,
            bytes: self.bytes,
        }
    }
}

/// Why a subscription was closed from here.
#[derive(Debug)]
pub enum SubscriptionClosure {
    SlowConsumer(SlowConsumer),
    Internal(String),
}

/// The view of a `SubscriptionClosure`.
pub enum SubscriptionClosureView {
    SlowConsumer(SlowConsumerView),
    Internal(Seq<char>),
}

impl View for SubscriptionClosure {
    type V = SubscriptionClosureView;

    open spec fn view(&self) -> SubscriptionClosureView {
        match self {
            SubscriptionClosure::SlowConsumer(x) => SubscriptionClosureView::SlowConsumer(x@),
            SubscriptionClosure::Internal(x) => SubscriptionClosureView::Internal(x@),
        }
    }
}

/// A subscription.
#[derive(Debug)]
pub struct DurableSubscription {
    pub id: String,
    pub queue: Vec<QueuedEvent>,
    pub queued_bytes: usize,
    pub last_queued_cursor: u64,
    pub last_delivered_cursor: u64,
    /// Events up to this cursor may be delivered.
    pub available_cursor: u64,
    pub closed: Option<SubscriptionClosure>,
}

/// The view of a `DurableSubscription`.
pub struct DurableSubscriptionView {
    pub id: Seq<char>,
    pub queue: Seq<QueuedEventView>,
    pub queued_bytes: usize,
    pub last_queued_cursor: u64,
    pub last_delivered_cursor: u64,
    pub available_cursor: u64,
    pub closed: Option<SubscriptionClosureView>,
}

impl View for DurableSubscription {
    type V = DurableSubscriptionView;

    open spec fn view(&self) -> DurableSubscriptionView {
        DurableSubscriptionView {
            id: self.id@,
            queue: self.queue@.map_values(|x: QueuedEvent| x@),
            queued_bytes: self.queued_bytes,
            last_queued_cursor: self.last_queued_cursor,
            last_delivered_cursor: self.last_delivered_cursor,
            available_cursor: self.available_cursor,
            closed: match self.closed { Some(x) => Some(x@), None => None },
        }
    }
}

/// What a journal record projects to.
pub open spec fn projected(e: EventRecordView) -> Result<EventView, Seq<char>> {
    projection(e, json_parse(e.payload))
}

// --- Invariants ----------------------------------------------------------------------------------

/// The bytes of a queue.
pub open spec fn bytes_of(queue: Seq<QueuedEventView>) -> nat
    decreases queue.len(),
{
    if queue.len() == 0 {
        0
    } else {
        bytes_of(queue.drop_last()) + queue.last().bytes as nat
    }
}

/// Whether the cursors of a queue ascend.
pub open spec fn ascends(queue: Seq<QueuedEventView>) -> bool {
    forall|i: int, j: int|
        0 <= i < j < queue.len() ==> (#[trigger] queue[i]).event.cursor < (
        #[trigger] queue[j]).event.cursor
}

/// Whether every event of a queue lies between what was delivered and what was queued, under
/// its own size.
pub open spec fn lies_between(queue: Seq<QueuedEventView>, delivered: u64, queued: u64) -> bool {
    forall|i: int|
        0 <= i < queue.len() ==> delivered < (#[trigger] queue[i]).event.cursor <= queued
            && queue[i].bytes == event_size(queue[i].event)
}

/// What every subscription satisfies: its queue is bounded, in order, ahead of what was
/// delivered, and its bytes are counted.
pub open spec fn subscription_ok(s: DurableSubscriptionView) -> bool {
    &&& s.queue.len() <= DEFAULT_DURABLE_QUEUE_CAPACITY
    &&& s.queued_bytes == bytes_of(s.queue)
    &&& s.last_delivered_cursor <= s.last_queued_cursor
    &&& ascends(s.queue)
    &&& lies_between(s.queue, s.last_delivered_cursor, s.last_queued_cursor)
}

/// The bytes that all subscriptions queue.
pub open spec fn total_bytes(subs: Seq<DurableSubscriptionView>) -> nat
    decreases subs.len(),
{
    if subs.len() == 0 {
        0
    } else {
        total_bytes(subs.drop_last()) + subs.last().queued_bytes as nat
    }
}

/// Whether the ids of subscriptions are in order, so that none occurs twice.
pub open spec fn ids_in_order(subs: Seq<DurableSubscriptionView>) -> bool {
    forall|i: int, j: int|
        0 <= i < j < subs.len() ==> text_before((#[trigger] subs[i]).id, (#[trigger] subs[j]).id)
}

/// What the subscriptions satisfy together.
pub open spec fn subscriptions_ok(subs: Seq<DurableSubscriptionView>) -> bool {
    &&& forall|i: int| 0 <= i < subs.len() ==> subscription_ok(#[trigger] subs[i])
    &&& total_bytes(subs) <= MAX_DURABLE_SUBSCRIPTION_BYTES
    &&& ids_in_order(subs)
}

/// The views of subscriptions.
pub open spec fn sub_views(subs: Seq<DurableSubscription>) -> Seq<DurableSubscriptionView> {
    subs.map_values(|s: DurableSubscription| s@)
}

proof fn total_of_update(subs: Seq<DurableSubscriptionView>, i: int, s: DurableSubscriptionView)
    requires
        0 <= i < subs.len(),
    ensures
        total_bytes(subs.update(i, s)) == total_bytes(subs) - subs[i].queued_bytes
            + s.queued_bytes,
        total_bytes(subs) >= subs[i].queued_bytes,
    decreases subs.len(),
{
    let new = subs.update(i, s);
    if i == subs.len() - 1 {
        assert(new.drop_last() =~= subs.drop_last());
    } else {
        total_of_update(subs.drop_last(), i, s);
        assert(new.drop_last() =~= subs.drop_last().update(i, s));
    }
}

proof fn total_of_removal(subs: Seq<DurableSubscriptionView>, i: int)
    requires
        0 <= i < subs.len(),
    ensures
        total_bytes(subs.remove(i)) == total_bytes(subs) - subs[i].queued_bytes,
    decreases subs.len(),
{
    let new = subs.remove(i);
    if i == subs.len() - 1 {
        assert(new =~= subs.drop_last());
    } else {
        total_of_removal(subs.drop_last(), i);
        assert(new.drop_last() =~= subs.drop_last().remove(i));
        assert(new.last() == subs.last());
    }
}

proof fn total_of_insertion(subs: Seq<DurableSubscriptionView>, i: int, s: DurableSubscriptionView)
    requires
        0 <= i <= subs.len(),
    ensures
        total_bytes(subs.insert(i, s)) == total_bytes(subs) + s.queued_bytes,
    decreases subs.len(),
{
    let new = subs.insert(i, s);
    if i == subs.len() {
        assert(new.drop_last() =~= subs);
        assert(new.last() == s);
    } else {
        total_of_insertion(subs.drop_last(), i, s);
        assert(new.drop_last() =~= subs.drop_last().insert(i, s));
        assert(new.last() == subs.last());
    }
}

// --- Queueing ------------------------------------------------------------------------------------

/// A subscription after an event was offered to it, and the bytes that all queue then. A full
/// queue closes the subscription and frees what it held.
pub open spec fn enqueued(
    s: DurableSubscriptionView,
    total: nat,
    event: EventView,
    floor: u64,
) -> (DurableSubscriptionView, nat) {
    if s.closed is Some || event.cursor <= s.last_queued_cursor {
        (s, total)
    } else if s.queue.len() == DEFAULT_DURABLE_QUEUE_CAPACITY || total + event_size(event)
        > MAX_DURABLE_SUBSCRIPTION_BYTES {
        (
            DurableSubscriptionView {
                queue: Seq::empty(),
                queued_bytes: 0,
                closed: Some(
                    SubscriptionClosureView::SlowConsumer(
                        SlowConsumerView {
                            min_retained_cursor: floor,
                            last_delivered_cursor: s.last_delivered_cursor,
                        },
                    ),
                ),
                ..s
            },
            (total - s.queued_bytes) as nat,
        )
    } else {
        (
            DurableSubscriptionView {
                queue: s.queue.push(QueuedEventView { event, bytes: event_size(event) as usize }),
                queued_bytes: (s.queued_bytes + event_size(event)) as usize,
                last_queued_cursor: event.cursor,
                ..s
            },
            total + event_size(event),
        )
    }
}

/// Offering an event keeps a subscription in order, and counts what it changes.
pub proof fn enqueueing_keeps_order(
    s: DurableSubscriptionView,
    total: nat,
    event: EventView,
    floor: u64,
)
    requires
        subscription_ok(s),
        s.queued_bytes <= total <= MAX_DURABLE_SUBSCRIPTION_BYTES,
    ensures
        subscription_ok(enqueued(s, total, event, floor).0),
        enqueued(s, total, event, floor).1 <= MAX_DURABLE_SUBSCRIPTION_BYTES,
        enqueued(s, total, event, floor).1 - enqueued(s, total, event, floor).0.queued_bytes
            == total - s.queued_bytes,
        enqueued(s, total, event, floor).0.id == s.id,
{
    let r = enqueued(s, total, event, floor).0;
    if r.queue.len() == s.queue.len() + 1 {
        assert(r.queue.drop_last() =~= s.queue);
        assert forall|i: int| 0 <= i < r.queue.len() implies s.last_delivered_cursor < (
        #[trigger] r.queue[i]).event.cursor <= r.last_queued_cursor && r.queue[i].bytes
            == event_size(r.queue[i].event) by {
            if i < s.queue.len() {
                assert(r.queue[i] == s.queue[i]);
            }
        }
        assert forall|i: int, j: int| 0 <= i < j < r.queue.len() implies (
        #[trigger] r.queue[i]).event.cursor < (#[trigger] r.queue[j]).event.cursor by {
            assert(r.queue[i] == s.queue[i]);
            if j < s.queue.len() {
                assert(r.queue[j] == s.queue[j]);
            }
        }
    } else if r.queue.len() == 0 {
        assert(bytes_of(r.queue) == 0);
    }
}

/// Offers an event to a subscription.
pub fn enqueue_event(
    s: &mut DurableSubscription,
    event: &Event,
    event_bytes: usize,
    floor: u64,
    total: &mut usize,
)
    requires
        subscription_ok(old(s)@),
        event_bytes == event_size(event@),
        old(s)@.queued_bytes <= *old(total) <= MAX_DURABLE_SUBSCRIPTION_BYTES,
    ensures
        (final(s)@, *final(total) as nat) == enqueued(
            old(s)@,
            *old(total) as nat,
            event@,
            floor,
        ),
        subscription_ok(final(s)@),
        *final(total) <= MAX_DURABLE_SUBSCRIPTION_BYTES,
        *final(total) - final(s)@.queued_bytes == *old(total) - old(s)@.queued_bytes,
{
    proof {
        enqueueing_keeps_order(s@, *total as nat, event@, floor);
    }
    if s.closed.is_some() || event.cursor.get() <= s.last_queued_cursor {
        return;
    }
    if s.queue.len() == DEFAULT_DURABLE_QUEUE_CAPACITY || event_bytes
        > MAX_DURABLE_SUBSCRIPTION_BYTES - *total {
        *total = *total - s.queued_bytes;
        s.queue = Vec::new();
        s.queued_bytes = 0;
        let condition = SlowConsumer {
            min_retained_cursor: DecimalU64::new(floor),
            last_delivered_cursor: DecimalU64::new(s.last_delivered_cursor),
        };
        s.closed = Some(SubscriptionClosure::SlowConsumer(condition));
        proof {
            assert(s@.queue =~= Seq::<QueuedEventView>::empty());
        }
        return;
    }
    let ghost before = s@.queue;
    s.last_queued_cursor = event.cursor.get();
    s.queued_bytes = s.queued_bytes + event_bytes;
    *total = *total + event_bytes;
    s.queue.push(QueuedEvent { event: event.clone(), bytes: event_bytes });
    proof {
        assert(s@.queue =~= before.push(QueuedEventView { event: event@, bytes: event_bytes }));
    }
}

// --- Filling from the journal --------------------------------------------------------------------

/// A subscription while it is filled.
pub struct Fill {
    pub sub: DurableSubscriptionView,
    pub total: nat,
    /// Why the journal could not be read.
    pub fault: Option<Seq<char>>,
    pub done: bool,
}

/// A subscription after the first `n` of some records were offered to it: up to the cursor that
/// is available, and until it is closed. A record that does not project closes it.
pub open spec fn filled(
    s: DurableSubscriptionView,
    total: nat,
    records: Seq<EventRecordView>,
    n: nat,
    floor: u64,
) -> Fill
    decreases n,
{
    if n == 0 {
        Fill { sub: s, total, fault: None, done: false }
    } else {
        let f = filled(s, total, records, (n - 1) as nat, floor);
        if f.done {
            f
        } else {
            match projected(records[n - 1]) {
                Err(detail) => Fill {
                    sub: DurableSubscriptionView {
                        closed: Some(SubscriptionClosureView::Internal(detail)),
                        ..f.sub
                    },
                    fault: Some(detail),
                    done: true,
                    ..f
                },
                Ok(event) => if event.cursor > f.sub.available_cursor {
                    Fill { done: true, ..f }
                } else {
                    let (sub, total) = enqueued(f.sub, f.total, event, floor);
                    Fill { sub, total, fault: None, done: sub.closed is Some }
                },
            }
        }
    }
}

/// A subscription after it was filled from the journal as far as its queue has room.
pub open spec fn refilled(
    s: DurableSubscriptionView,
    total: nat,
    events: Seq<EventRecordView>,
    floor: u64,
) -> Fill {
    if s.closed is Some || s.queue.len() == DEFAULT_DURABLE_QUEUE_CAPACITY
        || s.last_queued_cursor >= s.available_cursor {
        Fill { sub: s, total, fault: None, done: true }
    } else {
        let records = events_after(
            events,
            s.last_queued_cursor,
            (DEFAULT_DURABLE_QUEUE_CAPACITY - s.queue.len()) as nat,
        );
        filled(s, total, records, records.len(), floor)
    }
}

proof fn filling_stops(
    s: DurableSubscriptionView,
    total: nat,
    records: Seq<EventRecordView>,
    i: nat,
    n: nat,
    floor: u64,
)
    requires
        i <= n,
        filled(s, total, records, i, floor).done,
    ensures
        filled(s, total, records, n, floor) == filled(s, total, records, i, floor),
    decreases n - i,
{
    if i < n {
        filling_stops(s, total, records, i + 1, n, floor);
    }
}

/// Fills a subscription from the journal. An unreadable record is reported, to poison the
/// funnel.
pub fn fill_retained(store: &Store, s: &mut DurableSubscription, total: &mut usize) -> (r: Option<
    String,
>)
    requires
        subscription_ok(old(s)@),
        old(s)@.queued_bytes <= *old(total) <= MAX_DURABLE_SUBSCRIPTION_BYTES,
    ensures
        ({
            let f = refilled(
                old(s)@,
                *old(total) as nat,
                store@.tables.events,
                store@.min_retained,
            );
            &&& final(s)@ == f.sub
            &&& *final(total) == f.total
            &&& crate::text::opt_view(r) == f.fault
        }),
        subscription_ok(final(s)@),
        *final(total) <= MAX_DURABLE_SUBSCRIPTION_BYTES,
        *final(total) - final(s)@.queued_bytes == *old(total) - old(s)@.queued_bytes,
        final(s)@.id == old(s)@.id,
{
    if s.closed.is_some() || s.queue.len() == DEFAULT_DURABLE_QUEUE_CAPACITY
        || s.last_queued_cursor >= s.available_cursor {
        return None;
    }
    let remaining: usize = DEFAULT_DURABLE_QUEUE_CAPACITY - s.queue.len();
    let records = store.events_after_limit(s.last_queued_cursor, remaining);
    let ghost list = records@.map_values(|e: EventRecord| e@);
    let ghost start = s@;
    let ghost start_total = *total as nat;
    let floor: u64 = store.min_retained_cursor();
    let mut i: usize = 0;
    while i < records.len()
        invariant
            i <= records.len(),
            list == records@.map_values(|e: EventRecord| e@),
            floor == store@.min_retained,
            list == events_after(
                store@.tables.events,
                start.last_queued_cursor,
                (DEFAULT_DURABLE_QUEUE_CAPACITY - start.queue.len()) as nat,
            ),
            start == old(s)@,
            start_total == *old(total),
            !(start.closed is Some || start.queue.len() == DEFAULT_DURABLE_QUEUE_CAPACITY
                || start.last_queued_cursor >= start.available_cursor),
            filled(start, start_total, list, i as nat, floor) == (Fill {
                sub: s@,
                total: *total as nat,
                fault: None,
                done: false,
            }),
            subscription_ok(s@),
            s@.queued_bytes <= *total <= MAX_DURABLE_SUBSCRIPTION_BYTES,
            *total - s@.queued_bytes == start_total - start.queued_bytes,
            s@.id == start.id,
        decreases records.len() - i,
    {
        proof {
            assert(list[i as int] == records@[i as int]@);
            assert(list.len() == records.len());
        }
        let event = match project(&records[i]) {
            Ok(event) => event,
            Err(detail) => {
                let shown = detail.clone();
                s.closed = Some(SubscriptionClosure::Internal(shown));
                proof {
                    filling_stops(
                        start,
                        start_total,
                        list,
                        (i + 1) as nat,
                        list.len(),
                        floor,
                    );
                }
                return Some(detail);
            },
        };
        if event.cursor.get() > s.available_cursor {
            proof {
                filling_stops(start, start_total, list, (i + 1) as nat, list.len(), floor);
            }
            return None;
        }
        let size: usize = event_bytes(&event);
        proof {
            enqueueing_keeps_order(s@, *total as nat, event@, floor);
        }
        enqueue_event(s, &event, size, floor, total);
        if s.closed.is_some() {
            proof {
                filling_stops(start, start_total, list, (i + 1) as nat, list.len(), floor);
            }
            return None;
        }
        i += 1;
    }
    None
}

// --- All subscriptions ---------------------------------------------------------------------------

/// The place of the subscription with an id, from `i` on; the length where there is none.
pub open spec fn place_from(subs: Seq<DurableSubscriptionView>, id: Seq<char>, i: int) -> int
    decreases subs.len() - i,
{
    if i < 0 || i >= subs.len() || subs[i].id == id {
        i
    } else {
        place_from(subs, id, i + 1)
    }
}

/// The place of the subscription with an id; the number of subscriptions where there is none.
pub open spec fn place_of(subs: Seq<DurableSubscriptionView>, id: Seq<char>) -> int {
    place_from(subs, id, 0)
}

/// The place of the subscription with an id.
pub fn find_subscription(subs: &Vec<DurableSubscription>, id: &str) -> (r: usize)
    ensures
        r == place_of(sub_views(subs@), id@),
        r <= subs.len(),
        r < subs.len() ==> subs@[r as int]@.id == id@,
{
    let ghost all = sub_views(subs@);
    let mut i: usize = 0;
    while i < subs.len()
        invariant
            i <= subs.len(),
            all == sub_views(subs@),
            place_of(all, id@) == place_from(all, id@, i as int),
        decreases subs.len() - i,
    {
        proof {
            assert(all[i as int] == subs@[i as int]@);
        }
        if same(&subs[i].id, id) {
            return i;
        }
        i += 1;
    }
    i
}

/// Where a new id goes: before the first that comes after it, from `i` on.
pub open spec fn slot_from(subs: Seq<DurableSubscriptionView>, id: Seq<char>, i: int) -> int
    decreases subs.len() - i,
{
    if i < 0 || i >= subs.len() || text_before(id, subs[i].id) {
        i
    } else {
        slot_from(subs, id, i + 1)
    }
}

/// The subscriptions with one more, in the order of the ids.
pub open spec fn with_subscription(
    subs: Seq<DurableSubscriptionView>,
    s: DurableSubscriptionView,
) -> Seq<DurableSubscriptionView> {
    subs.insert(slot_from(subs, s.id, 0), s)
}

pub(crate) proof fn slot_rule(subs: Seq<DurableSubscriptionView>, id: Seq<char>, i: int)
    requires
        0 <= i <= subs.len(),
    ensures
        i <= slot_from(subs, id, i) <= subs.len(),
        forall|k: int| i <= k < slot_from(subs, id, i) ==> !text_before(id, (#[trigger] subs[k]).id),
        slot_from(subs, id, i) < subs.len() ==> text_before(id, subs[slot_from(subs, id, i)].id),
    decreases subs.len() - i,
{
    if i < subs.len() && !text_before(id, subs[i].id) {
        slot_rule(subs, id, i + 1);
    }
}

/// Adding a subscription under a new id keeps all in order.
pub proof fn adding_keeps_order(subs: Seq<DurableSubscriptionView>, s: DurableSubscriptionView)
    requires
        subscriptions_ok(subs),
        subscription_ok(s),
        total_bytes(subs) + s.queued_bytes <= MAX_DURABLE_SUBSCRIPTION_BYTES,
        forall|i: int| 0 <= i < subs.len() ==> (#[trigger] subs[i]).id != s.id,
    ensures
        subscriptions_ok(with_subscription(subs, s)),
        total_bytes(with_subscription(subs, s)) == total_bytes(subs) + s.queued_bytes,
{
    let at = slot_from(subs, s.id, 0);
    slot_rule(subs, s.id, 0);
    total_of_insertion(subs, at, s);
    let new = with_subscription(subs, s);
    assert forall|i: int| 0 <= i < new.len() implies subscription_ok(#[trigger] new[i]) by {
        if i < at {
            assert(new[i] == subs[i]);
        } else if i > at {
            assert(new[i] == subs[i - 1]);
        }
    }
    assert forall|i: int, j: int| 0 <= i < j < new.len() implies text_before(
        (#[trigger] new[i]).id,
        (#[trigger] new[j]).id,
    ) by {
        let a = if i < at { i } else { i - 1 };
        let b = if j < at { j } else { j - 1 };
        if i != at {
            assert(new[i] == subs[a]);
        }
        if j != at {
            assert(new[j] == subs[b]);
        }
        if i == at {
            assert(text_before(s.id, subs[at].id));
            if b > at {
                assert(text_before(subs[at].id, subs[b].id));
                crate::text::text_order_transitive(s.id, subs[at].id, subs[b].id);
            }
        } else if j == at {
            assert(!text_before(s.id, subs[a].id));
            assert(subs[a].id != s.id);
            crate::text::text_order_total(s.id, subs[a].id);
        } else {
            assert(text_before(subs[a].id, subs[b].id));
        }
    }
}

/// Adds a subscription.
pub fn add_subscription(subs: &mut Vec<DurableSubscription>, s: DurableSubscription)
    ensures
        sub_views(final(subs)@) == with_subscription(sub_views(old(subs)@), s@),
{
    let ghost all = sub_views(subs@);
    let mut i: usize = 0;
    while i < subs.len() && !before(&s.id, &subs[i].id)
        invariant
            i <= subs.len(),
            all == sub_views(subs@),
            slot_from(all, s@.id, 0) == slot_from(all, s@.id, i as int),
        decreases subs.len() - i,
    {
        proof {
            assert(all[i as int] == subs@[i as int]@);
        }
        i += 1;
    }
    proof {
        if i < subs.len() {
            assert(all[i as int] == subs@[i as int]@);
        }
    }
    subs.insert(i, s);
    proof {
        assert(sub_views(subs@) =~= all.insert(i as int, s@));
    }
}

/// Taking a subscription out keeps the others in order.
pub proof fn removing_keeps_order(subs: Seq<DurableSubscriptionView>, i: int)
    requires
        subscriptions_ok(subs),
        0 <= i < subs.len(),
    ensures
        subscriptions_ok(subs.remove(i)),
        total_bytes(subs.remove(i)) + subs[i].queued_bytes == total_bytes(subs),
{
    total_of_removal(subs, i);
    let new = subs.remove(i);
    assert forall|k: int| 0 <= k < new.len() implies subscription_ok(#[trigger] new[k]) by {
        assert(new[k] == subs[if k < i { k } else { k + 1 }]);
    }
    assert forall|a: int, b: int| 0 <= a < b < new.len() implies text_before(
        (#[trigger] new[a]).id,
        (#[trigger] new[b]).id,
    ) by {
        assert(new[a] == subs[if a < i { a } else { a + 1 }]);
        assert(new[b] == subs[if b < i { b } else { b + 1 }]);
    }
}

/// Changing a subscription under its id keeps all in order.
pub proof fn changing_keeps_order(
    subs: Seq<DurableSubscriptionView>,
    i: int,
    s: DurableSubscriptionView,
)
    requires
        subscriptions_ok(subs),
        0 <= i < subs.len(),
        subscription_ok(s),
        s.id == subs[i].id,
        total_bytes(subs) - subs[i].queued_bytes + s.queued_bytes
            <= MAX_DURABLE_SUBSCRIPTION_BYTES,
    ensures
        subscriptions_ok(subs.update(i, s)),
        total_bytes(subs.update(i, s)) == total_bytes(subs) - subs[i].queued_bytes
            + s.queued_bytes,
        total_bytes(subs) >= subs[i].queued_bytes,
{
    total_of_update(subs, i, s);
    let new = subs.update(i, s);
    assert forall|a: int, b: int| 0 <= a < b < new.len() implies text_before(
        (#[trigger] new[a]).id,
        (#[trigger] new[b]).id,
    ) by {
        assert(text_before(subs[a].id, subs[b].id));
    }
}

/// The bytes that all subscriptions queue.
pub fn queued_bytes(subs: &Vec<DurableSubscription>) -> (r: usize)
    requires
        total_bytes(sub_views(subs@)) <= MAX_DURABLE_SUBSCRIPTION_BYTES,
    ensures
        r == total_bytes(sub_views(subs@)),
{
    let ghost all = sub_views(subs@);
    let mut sum: usize = 0;
    let mut i: usize = 0;
    proof {
        assert(all.take(0) =~= Seq::<DurableSubscriptionView>::empty());
    }
    while i < subs.len()
        invariant
            i <= subs.len(),
            all == sub_views(subs@),
            sum == total_bytes(all.take(i as int)),
            total_bytes(all) <= MAX_DURABLE_SUBSCRIPTION_BYTES,
        decreases subs.len() - i,
    {
        proof {
            assert(all.take(i + 1).drop_last() =~= all.take(i as int));
            assert(all.take(i + 1).last() == subs@[i as int]@);
            total_of_prefix(all, i + 1);
        }
        sum = sum + subs[i].queued_bytes;
        i += 1;
    }
    proof {
        assert(all.take(all.len() as int) =~= all);
    }
    sum
}

proof fn total_of_prefix(subs: Seq<DurableSubscriptionView>, n: int)
    requires
        0 <= n <= subs.len(),
    ensures
        total_bytes(subs.take(n)) <= total_bytes(subs),
    decreases subs.len() - n,
{
    if n < subs.len() {
        total_of_prefix(subs, n + 1);
        assert(subs.take(n + 1).drop_last() =~= subs.take(n));
    } else {
        assert(subs.take(n) =~= subs);
    }
}

/// The subscriptions after an event was offered to the first `n` of them, and the bytes that
/// all queue then.
pub open spec fn spread(
    subs: Seq<DurableSubscriptionView>,
    event: EventView,
    floor: u64,
    n: nat,
) -> (Seq<DurableSubscriptionView>, nat)
    decreases n,
{
    if n == 0 {
        (subs, total_bytes(subs))
    } else {
        let (list, total) = spread(subs, event, floor, (n - 1) as nat);
        let (s, after) = enqueued(
            DurableSubscriptionView { available_cursor: event.cursor, ..list[n - 1] },
            total,
            event,
            floor,
        );
        (list.update(n - 1, s), after)
    }
}

/// Offering an event to subscriptions keeps them in order.
pub proof fn spreading_keeps_order(
    subs: Seq<DurableSubscriptionView>,
    event: EventView,
    floor: u64,
    n: nat,
)
    requires
        subscriptions_ok(subs),
        n <= subs.len(),
    ensures
        ({
            let (list, total) = spread(subs, event, floor, n);
            &&& subscriptions_ok(list)
            &&& list.len() == subs.len()
            &&& total == total_bytes(list)
            &&& forall|i: int| 0 <= i < list.len() ==> (#[trigger] list[i]).id == subs[i].id
            &&& forall|i: int| n <= i < list.len() ==> #[trigger] list[i] == subs[i]
        }),
    decreases n,
{
    if n > 0 {
        spreading_keeps_order(subs, event, floor, (n - 1) as nat);
        let (list, total) = spread(subs, event, floor, (n - 1) as nat);
        let open = DurableSubscriptionView { available_cursor: event.cursor, ..list[n - 1] };
        total_of_update(list, n - 1, open);
        assert(subscription_ok(list[n - 1]));
        enqueueing_keeps_order(open, total, event, floor);
        changing_keeps_order(list, n - 1, enqueued(open, total, event, floor).0);
    }
}

/// Offers an event to every subscription.
pub fn offer_event(subs: &mut Vec<DurableSubscription>, event: &Event, floor: u64)
    requires
        subscriptions_ok(sub_views(old(subs)@)),
        event_size(event@) <= MAX_EVENT_BYTES,
    ensures
        sub_views(final(subs)@) == spread(
            sub_views(old(subs)@),
            event@,
            floor,
            old(subs)@.len(),
        ).0,
        subscriptions_ok(sub_views(final(subs)@)),
        final(subs)@.len() == old(subs)@.len(),
{
    let ghost start = sub_views(subs@);
    let count: usize = subs.len();
    let mut total: usize = queued_bytes(subs);
    let size: usize = event_bytes(event);
    let mut i: usize = 0;
    while i < count
        invariant
            i <= count,
            count == subs.len(),
            count == start.len(),
            subscriptions_ok(start),
            size == event_size(event@),
            spread(start, event@, floor, i as nat) == (sub_views(subs@), total as nat),
        decreases count - i,
    {
        let ghost list = sub_views(subs@);
        proof {
            spreading_keeps_order(start, event@, floor, i as nat);
            spreading_keeps_order(start, event@, floor, (i + 1) as nat);
            assert(list[i as int] == subs@[i as int]@);
            total_of_update(list, i as int, list[i as int]);
            assert(subscription_ok(list[i as int]));
        }
        let mut s = subs.remove(i);
        s.available_cursor = event.cursor.get();
        enqueue_event(&mut s, event, size, floor, &mut total);
        let ghost after = s@;
        subs.insert(i, s);
        proof {
            assert(sub_views(subs@) =~= list.update(i as int, after));
        }
        i += 1;
    }
    proof {
        spreading_keeps_order(start, event@, floor, count as nat);
    }
}

/// The subscriptions after all were closed for a reason of this side.
pub open spec fn all_closed(subs: Seq<DurableSubscriptionView>, detail: Seq<char>) -> Seq<
    DurableSubscriptionView,
> {
    Seq::new(
        subs.len(),
        |i: int|
            DurableSubscriptionView {
                closed: Some(SubscriptionClosureView::Internal(detail)),
                ..subs[i]
            },
    )
}

proof fn closing_keeps_total(subs: Seq<DurableSubscriptionView>, detail: Seq<char>)
    ensures
        total_bytes(all_closed(subs, detail)) == total_bytes(subs),
    decreases subs.len(),
{
    if subs.len() > 0 {
        closing_keeps_total(subs.drop_last(), detail);
        assert(all_closed(subs, detail).drop_last() =~= all_closed(subs.drop_last(), detail));
    }
}

/// Closing all subscriptions keeps them in order.
pub proof fn closing_keeps_order(subs: Seq<DurableSubscriptionView>, detail: Seq<char>)
    requires
        subscriptions_ok(subs),
    ensures
        subscriptions_ok(all_closed(subs, detail)),
{
    closing_keeps_total(subs, detail);
    let new = all_closed(subs, detail);
    assert forall|i: int| 0 <= i < new.len() implies subscription_ok(#[trigger] new[i]) by {
        assert(subscription_ok(subs[i]));
    }
    assert forall|i: int, j: int| 0 <= i < j < new.len() implies text_before(
        (#[trigger] new[i]).id,
        (#[trigger] new[j]).id,
    ) by {
        assert(text_before(subs[i].id, subs[j].id));
    }
}

/// Closes every subscription for a reason of this side.
pub fn close_all(subs: &mut Vec<DurableSubscription>, detail: &str)
    ensures
        sub_views(final(subs)@) == all_closed(sub_views(old(subs)@), detail@),
{
    let ghost start = sub_views(subs@);
    let ghost wanted = all_closed(start, detail@);
    let count: usize = subs.len();
    let mut i: usize = 0;
    while i < count
        invariant
            i <= count,
            count == subs.len(),
            count == start.len(),
            wanted == all_closed(start, detail@),
            forall|k: int| 0 <= k < i ==> (#[trigger] subs@[k])@ == wanted[k],
            forall|k: int| i <= k < count ==> (#[trigger] subs@[k])@ == start[k],
        decreases count - i,
    {
        let ghost list = subs@;
        let mut s = subs.remove(i);
        s.closed = Some(SubscriptionClosure::Internal(detail.to_owned()));
        let ghost after = s;
        subs.insert(i, s);
        proof {
            assert(subs@ =~= list.update(i as int, after));
        }
        i += 1;
    }
    proof {
        assert(sub_views(subs@) =~= wanted);
    }
}

} // verus!
