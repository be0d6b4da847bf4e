//! What holds of the event stream as a whole: a subscription delivers every event of the
//! journal, in order and without a gap, until it is closed.
use crate::funnel::apply::applied;
use crate::funnel::command::SubmissionView;
use crate::funnel::laws::{journal_ascends, plans_leave_the_journal};
use crate::funnel::pre::rows_for;
use crate::funnel::receipt::receipt_key_of;
use crate::funnel::submit::{
    after_commit, after_refusal, after_staging, answer_after, events_of, has_room, refusal_answer,
    staged, staged_refusal, CommitOutcome,
};
use crate::funnel::validate::{decide, decisions_are_small};
use crate::funnel::FunnelView;
use crate::protocol::adapter::{adapter_ok, subscription_id, AdapterView};
use crate::protocol::handle::{command_leads_to, routed, takes, Route};
use crate::protocol::project::{receipt_of, wire_receipt_key};
use crate::protocol::stream::{
    delivered, opened_at, polled, published_batch, published_through, subscribed,
};
use crate::protocol::subscription::{
    enqueued, enqueueing_keeps_order, filled, place_of, projected, refilled, spread,
    subscription_ok, total_bytes, DurableSubscriptionView, Fill,
};
use crate::protocol::types::{CommandView, EventView, ReceiptView};
use crate::protocol::{
    DEFAULT_DURABLE_QUEUE_CAPACITY, MAX_DURABLE_SUBSCRIPTION_BYTES, MAX_RESUME_EVENTS,
};
use crate::store::{events_after, later, max_cursor, EventRecordView};
use crate::table::{lookup, read_after_write};
use vstd::prelude::*;

verus! {

/// How many events of a journal lie at or below a cursor.
pub open spec fn rank(events: Seq<EventRecordView>, cursor: u64) -> nat
    decreases events.len(),
{
    if events.len() == 0 {
        0
    } else {
        rank(events.drop_last(), cursor) + if events.last().cursor <= cursor {
            1nat
        } else {
            0nat
        }
    }
}

/// Whether the cursors of a journal ascend strictly.
pub open spec fn ascending(events: Seq<EventRecordView>) -> bool {
    forall|i: int, j: int|
        0 <= i < j < events.len() ==> (#[trigger] events[i]).cursor < (#[trigger] events[j]).cursor
}

proof fn rank_splits(events: Seq<EventRecordView>, cursor: u64)
    requires
        ascending(events),
    ensures
        rank(events, cursor) <= events.len(),
        forall|i: int|
            0 <= i < events.len() ==> (i < rank(events, cursor) <==> (#[trigger] events[i]).cursor
                <= cursor),
    decreases events.len(),
{
    if events.len() > 0 {
        let front = events.drop_last();
        assert forall|i: int, j: int| 0 <= i < j < front.len() implies (
        #[trigger] front[i]).cursor < (#[trigger] front[j]).cursor by {
            assert(events[i].cursor < events[j].cursor);
        }
        rank_splits(front, cursor);
        assert forall|i: int| 0 <= i < events.len() implies (i < rank(events, cursor) <==> (
        #[trigger] events[i]).cursor <= cursor) by {
            if i < front.len() {
                assert(front[i] == events[i]);
                assert(events[i].cursor < events[events.len() - 1].cursor);
            }
            if events.last().cursor <= cursor && front.len() > 0 {
                let last = front.len() - 1;
                assert(front[last].cursor < events.last().cursor) by {
                    assert(events[last].cursor < events[events.len() - 1].cursor);
                }
                assert(last < rank(front, cursor));
            }
        }
    }
}

proof fn rank_is(events: Seq<EventRecordView>, cursor: u64, k: nat)
    requires
        ascending(events),
        k <= events.len(),
        k > 0 ==> events[k - 1].cursor <= cursor,
        k < events.len() ==> cursor < events[k as int].cursor,
    ensures
        rank(events, cursor) == k,
{
    rank_splits(events, cursor);
    let r = rank(events, cursor);
    if r < k {
        assert(events[k - 1].cursor <= cursor);
    } else if r > k {
        assert(!(events[k as int].cursor <= cursor));
    }
}

proof fn ranks_ascend(events: Seq<EventRecordView>, a: u64, b: u64)
    requires
        a <= b,
    ensures
        rank(events, a) <= rank(events, b),
    decreases events.len(),
{
    if events.len() > 0 {
        ranks_ascend(events.drop_last(), a, b);
    }
}

proof fn later_is_the_rest(events: Seq<EventRecordView>, cursor: u64)
    requires
        ascending(events),
    ensures
        rank(events, cursor) <= events.len(),
        later(events, cursor) == events.skip(rank(events, cursor) as int),
    decreases events.len(),
{
    rank_splits(events, cursor);
    if events.len() > 0 {
        let front = events.drop_last();
        assert forall|i: int, j: int| 0 <= i < j < front.len() implies (
        #[trigger] front[i]).cursor < (#[trigger] front[j]).cursor by {
            assert(events[i].cursor < events[j].cursor);
        }
        later_is_the_rest(front, cursor);
        rank_splits(front, cursor);
        let r = rank(front, cursor) as int;
        if events.last().cursor <= cursor {
            if front.len() > 0 {
                let last = front.len() - 1;
                assert(events[last].cursor < events[events.len() - 1].cursor);
                assert(front[last].cursor <= cursor);
            }
            assert(later(events, cursor) =~= events.skip(rank(events, cursor) as int));
        } else {
            assert(front.skip(r).push(events.last()) =~= events.skip(r));
        }
    } else {
        assert(later(events, cursor) =~= events.skip(0));
    }
}

/// Whether the queue of a subscription holds exactly the events of the journal between what was
/// delivered and what was queued.
pub open spec fn holds_segment(s: DurableSubscriptionView, events: Seq<EventRecordView>) -> bool {
    let first = rank(events, s.last_delivered_cursor);
    &&& first + s.queue.len() == rank(events, s.last_queued_cursor)
    &&& forall|i: int|
        0 <= i < s.queue.len() ==> projected(events[first + i]) == Ok::<EventView, Seq<char>>(
            (#[trigger] s.queue[i]).event,
        )
}

/// Whether an open subscription is in step with the journal: its queue holds a segment without a
/// gap, and where it has room nothing that is available is missing.
pub open spec fn in_step(s: DurableSubscriptionView, events: Seq<EventRecordView>) -> bool {
    s.closed is None ==> {
        &&& holds_segment(s, events)
        &&& s.last_queued_cursor <= s.available_cursor
        &&& s.queue.len() < DEFAULT_DURABLE_QUEUE_CAPACITY ==> rank(events, s.available_cursor)
            <= rank(events, s.last_queued_cursor)
    }
}

/// What filling keeps of a subscription that held `had` events and had `start` events of the
/// journal behind it, after `n` more records.
spec fn fill_keeps(
    f: Fill,
    s: DurableSubscriptionView,
    events: Seq<EventRecordView>,
    n: nat,
) -> bool {
    &&& f.sub.available_cursor == s.available_cursor
    &&& f.sub.last_delivered_cursor == s.last_delivered_cursor
    &&& subscription_ok(f.sub)
    &&& f.sub.queued_bytes <= f.total <= MAX_DURABLE_SUBSCRIPTION_BYTES
    &&& f.sub.last_queued_cursor <= f.sub.available_cursor
    &&& !f.done ==> {
        &&& f.sub.closed is None
        &&& holds_segment(f.sub, events)
        &&& f.sub.queue.len() == s.queue.len() + n
        &&& rank(events, f.sub.last_queued_cursor) == rank(events, s.last_queued_cursor) + n
    }
    &&& f.done && f.sub.closed is None ==> {
        &&& holds_segment(f.sub, events)
        &&& rank(events, f.sub.available_cursor) <= rank(events, f.sub.last_queued_cursor)
    }
}

proof fn offering_keeps_segments(
    f: Fill,
    s: DurableSubscriptionView,
    events: Seq<EventRecordView>,
    event: EventView,
    n: nat,
    floor: u64,
)
    requires
        ascending(events),
        !f.done,
        fill_keeps(f, s, events, n),
        rank(events, s.last_queued_cursor) + n < events.len(),
        projected(events[rank(events, s.last_queued_cursor) + n as int]) == Ok::<
            EventView,
            Seq<char>,
        >(event),
        event.cursor == events[rank(events, s.last_queued_cursor) + n as int].cursor,
        event.cursor <= f.sub.available_cursor,
        f.sub.queue.len() < DEFAULT_DURABLE_QUEUE_CAPACITY,
    ensures
        ({
            let (sub, total) = enqueued(f.sub, f.total, event, floor);
            fill_keeps(
                Fill { sub, total, fault: None, done: sub.closed is Some },
                s,
                events,
                n + 1,
            )
        }),
{
    let place = rank(events, s.last_queued_cursor) + n;
    rank_splits(events, f.sub.last_queued_cursor);
    assert(events[place as int].cursor > f.sub.last_queued_cursor);
    enqueueing_keeps_order(f.sub, f.total, event, floor);
    let g = enqueued(f.sub, f.total, event, floor).0;
    if g.closed is None {
        assert(g.queue.take(f.sub.queue.len() as int) =~= f.sub.queue);
        extending_keeps_segments(f.sub, g, events, event, place);
    }
}

proof fn filling_keeps_segments(
    s: DurableSubscriptionView,
    total: nat,
    events: Seq<EventRecordView>,
    records: Seq<EventRecordView>,
    n: nat,
    floor: u64,
)
    requires
        ascending(events),
        subscription_ok(s),
        s.closed is None,
        s.queued_bytes <= total <= MAX_DURABLE_SUBSCRIPTION_BYTES,
        holds_segment(s, events),
        s.last_queued_cursor <= s.available_cursor,
        n <= records.len(),
        s.queue.len() + records.len() <= DEFAULT_DURABLE_QUEUE_CAPACITY,
        rank(events, s.last_queued_cursor) + records.len() <= events.len(),
        forall|i: int|
            0 <= i < records.len() ==> #[trigger] records[i] == events[rank(
                events,
                s.last_queued_cursor,
            ) + i],
    ensures
        fill_keeps(filled(s, total, records, n, floor), s, events, n),
    decreases n,
{
    if n > 0 {
        let m = (n - 1) as nat;
        filling_keeps_segments(s, total, events, records, m, floor);
        let f = filled(s, total, records, m, floor);
        if !f.done {
            let place = rank(events, s.last_queued_cursor) + m as int;
            assert(records[m as int] == events[place]);
            match projected(records[m as int]) {
                Err(_) => {},
                Ok(event) => {
                    crate::protocol::stream::projected_is_small(events[place]);
                    if event.cursor > f.sub.available_cursor {
                        rank_splits(events, f.sub.available_cursor);
                        assert(!(place < rank(events, f.sub.available_cursor)));
                    } else {
                        offering_keeps_segments(f, s, events, event, m, floor);
                    }
                },
            }
        }
    }
}

proof fn extending_keeps_segments(
    s: DurableSubscriptionView,
    g: DurableSubscriptionView,
    events: Seq<EventRecordView>,
    event: EventView,
    place: nat,
)
    requires
        ascending(events),
        place < events.len(),
        holds_segment(s, events),
        rank(events, s.last_queued_cursor) == place,
        projected(events[place as int]) == Ok::<EventView, Seq<char>>(event),
        event.cursor == events[place as int].cursor,
        g.queue.len() == s.queue.len() + 1,
        g.queue.take(s.queue.len() as int) == s.queue,
        g.queue.last().event == event,
        g.last_delivered_cursor == s.last_delivered_cursor,
        g.last_queued_cursor == event.cursor,
    ensures
        holds_segment(g, events),
        rank(events, g.last_queued_cursor) == place + 1,
{
    rank_is(events, event.cursor, (place + 1) as nat);
    let first = rank(events, s.last_delivered_cursor);
    assert forall|i: int| 0 <= i < g.queue.len() implies projected(events[first + i]) == Ok::<
        EventView,
        Seq<char>,
    >((#[trigger] g.queue[i]).event) by {
        if i < s.queue.len() {
            assert(g.queue[i] == g.queue.take(s.queue.len() as int)[i]);
            assert(s.queue[i] == g.queue[i]);
        }
    }
}

proof fn refilling_restores_step(
    s: DurableSubscriptionView,
    total: nat,
    events: Seq<EventRecordView>,
    floor: u64,
)
    requires
        ascending(events),
        subscription_ok(s),
        s.closed is None,
        s.queued_bytes <= total <= MAX_DURABLE_SUBSCRIPTION_BYTES,
        holds_segment(s, events),
        s.last_queued_cursor <= s.available_cursor,
    ensures
        in_step(refilled(s, total, events, floor).sub, events),
        refilled(s, total, events, floor).sub.available_cursor == s.available_cursor,
        refilled(s, total, events, floor).sub.last_delivered_cursor == s.last_delivered_cursor,
{
    if s.queue.len() == DEFAULT_DURABLE_QUEUE_CAPACITY {
    } else if s.last_queued_cursor >= s.available_cursor {
        ranks_ascend(events, s.available_cursor, s.last_queued_cursor);
    } else {
        let room = (DEFAULT_DURABLE_QUEUE_CAPACITY - s.queue.len()) as nat;
        let records = events_after(events, s.last_queued_cursor, room);
        let start = rank(events, s.last_queued_cursor);
        later_is_the_rest(events, s.last_queued_cursor);
        assert forall|i: int| 0 <= i < records.len() implies #[trigger] records[i] == events[start
            + i] by {
            assert(records[i] == events.skip(start as int)[i]);
        }
        filling_keeps_segments(s, total, events, records, records.len(), floor);
        let f = filled(s, total, records, records.len(), floor);
        if !f.done && f.sub.queue.len() < DEFAULT_DURABLE_QUEUE_CAPACITY {
            rank_splits(events, f.sub.available_cursor);
            assert(rank(events, f.sub.last_queued_cursor) == events.len());
        }
    }
}

/// Whether every subscription of an adapter is in step with the journal, as far as it was
/// published.
pub open spec fn all_in_step(a: AdapterView) -> bool {
    let events = a.funnel.store.tables.events;
    &&& ascending(events)
    &&& forall|i: int|
        0 <= i < a.subscriptions.len() ==> in_step(#[trigger] a.subscriptions[i], events)
            && a.subscriptions[i].available_cursor == a.published_cursor
    &&& a.published_cursor == max_cursor(events)
}

proof fn max_is_last(events: Seq<EventRecordView>)
    requires
        ascending(events),
    ensures
        events.len() == 0 ==> max_cursor(events) == 0,
        events.len() > 0 ==> max_cursor(events) == events.last().cursor,
    decreases events.len(),
{
    if events.len() > 0 {
        let front = events.drop_last();
        assert forall|i: int, j: int| 0 <= i < j < front.len() implies (
        #[trigger] front[i]).cursor < (#[trigger] front[j]).cursor by {
            assert(events[i].cursor < events[j].cursor);
        }
        max_is_last(front);
        if front.len() > 0 {
            assert(events[front.len() - 1].cursor < events[events.len() - 1].cursor);
        }
    }
}

/// A subscription that is in step and has nothing queued was given every event of the journal.
pub(crate) proof fn nothing_is_left(
    s: DurableSubscriptionView,
    events: Seq<EventRecordView>,
    published: u64,
)
    requires
        ascending(events),
        in_step(s, events),
        s.closed is None,
        s.queue.len() == 0,
        s.available_cursor == published,
        published == max_cursor(events),
    ensures
        later(events, s.last_delivered_cursor).len() == 0,
{
    max_is_last(events);
    rank_is(events, published, events.len());
    later_is_the_rest(events, s.last_delivered_cursor);
}

/// A subscription that is opened is in step with the journal, and so stay the others.
pub proof fn subscribing_keeps_step(a: AdapterView, project_id: Seq<char>, after: u64)
    requires
        adapter_ok(a),
        all_in_step(a),
    ensures
        all_in_step(subscribed(a, project_id, after).1),
{
    let b = subscribed(a, project_id, after).1;
    let events = a.funnel.store.tables.events;
    if subscribed(a, project_id, after).0 is SubscriptionOpened {
        let available = max_cursor(events);
        let id = subscription_id((a.next_subscription_id + 1) as nat);
        let s = opened_at(id, after, available);
        refilling_restores_step(
            s,
            total_bytes(a.subscriptions),
            events,
            a.funnel.store.min_retained,
        );
        let f = refilled(s, total_bytes(a.subscriptions), events, a.funnel.store.min_retained);
        refilling_keeps_the_id(s, total_bytes(a.subscriptions), events, a.funnel.store.min_retained);
        let at = crate::protocol::subscription::slot_from(a.subscriptions, f.sub.id, 0);
        crate::protocol::subscription::slot_rule(a.subscriptions, f.sub.id, 0);
        assert forall|i: int| 0 <= i < b.subscriptions.len() implies in_step(
            #[trigger] b.subscriptions[i],
            events,
        ) && b.subscriptions[i].available_cursor == b.published_cursor by {
            if i < at {
                assert(b.subscriptions[i] == a.subscriptions[i]);
            } else if i > at {
                assert(b.subscriptions[i] == a.subscriptions[i - 1]);
            }
        }
    }
}

proof fn refilling_keeps_the_id(
    s: DurableSubscriptionView,
    total: nat,
    events: Seq<EventRecordView>,
    floor: u64,
)
    ensures
        refilled(s, total, events, floor).sub.id == s.id,
{
    let records = events_after(
        events,
        s.last_queued_cursor,
        (DEFAULT_DURABLE_QUEUE_CAPACITY - s.queue.len()) as nat,
    );
    filling_keeps_the_id(s, total, records, records.len(), floor);
}

proof fn filling_keeps_the_id(
    s: DurableSubscriptionView,
    total: nat,
    records: Seq<EventRecordView>,
    n: nat,
    floor: u64,
)
    ensures
        filled(s, total, records, n, floor).sub.id == s.id,
    decreases n,
{
    if n > 0 {
        filling_keeps_the_id(s, total, records, (n - 1) as nat, floor);
    }
}

proof fn delivering_keeps_segments(s: DurableSubscriptionView, events: Seq<EventRecordView>)
    requires
        ascending(events),
        subscription_ok(s),
        s.queue.len() > 0,
        holds_segment(s, events),
    ensures
        holds_segment(delivered(s), events),
        projected(events[rank(events, s.last_delivered_cursor) as int]) == Ok::<
            EventView,
            Seq<char>,
        >(s.queue[0].event),
        rank(events, s.last_delivered_cursor) < events.len(),
{
    let first = rank(events, s.last_delivered_cursor);
    rank_splits(events, s.last_queued_cursor);
    assert(projected(events[first + 0int]) == Ok::<EventView, Seq<char>>(s.queue[0].event));
    let cursor = s.queue[0].event.cursor;
    assert(cursor == events[first as int].cursor);
    if first + 1 < events.len() {
        assert(events[first as int].cursor < events[first + 1int].cursor);
    }
    rank_is(events, cursor, first + 1);
    let d = delivered(s);
    assert forall|i: int| 0 <= i < d.queue.len() implies projected(
        events[rank(events, d.last_delivered_cursor) + i],
    ) == Ok::<EventView, Seq<char>>((#[trigger] d.queue[i]).event) by {
        assert(d.queue[i] == s.queue[i + 1]);
        assert(projected(events[first + (i + 1)]) == Ok::<EventView, Seq<char>>(
            s.queue[i + 1].event,
        ));
    }
}

/// A poll that delivers an event delivers the very next one of the journal after what was
/// delivered before, and the subscriptions stay in step.
pub proof fn polls_deliver_the_next_event(a: AdapterView, id: Seq<char>)
    requires
        adapter_ok(a),
        all_in_step(a),
    ensures
        all_in_step(polled(a, id).1),
        polled(a, id).0 is Event ==> ({
            let s = a.subscriptions[place_of(a.subscriptions, id)];
            let rest = later(a.funnel.store.tables.events, s.last_delivered_cursor);
            &&& rest.len() > 0
            &&& projected(rest[0]) == Ok::<EventView, Seq<char>>(polled(a, id).0->Event_0)
        }),
{
    let i = place_of(a.subscriptions, id);
    let events = a.funnel.store.tables.events;
    crate::protocol::laws::place_is_in_range(a.subscriptions, id, 0);
    if a.funnel.gate is None && i < a.subscriptions.len() {
        let s = a.subscriptions[i];
        assert(in_step(s, events));
        assert(subscription_ok(s));
        let b = polled(a, id).1;
        if s.closed is Some {
            assert forall|k: int| 0 <= k < b.subscriptions.len() implies in_step(
                #[trigger] b.subscriptions[k],
                events,
            ) && b.subscriptions[k].available_cursor == b.published_cursor by {
                let j = if k < i {
                    k
                } else {
                    k + 1
                };
                assert(b.subscriptions[k] == a.subscriptions[j]);
            }
        } else if s.queue.len() > 0 {
            delivering_keeps_segments(s, events);
            later_is_the_rest(events, s.last_delivered_cursor);
            let d = delivered(s);
            let total = (total_bytes(a.subscriptions) - s.queue[0].bytes) as nat;
            crate::protocol::subscription::changing_keeps_order(a.subscriptions, i, s);
            crate::protocol::stream::delivery_keeps_order(s);
            refilling_restores_step(d, total, events, a.funnel.store.min_retained);
            let f = refilled(d, total, events, a.funnel.store.min_retained);
            assert forall|k: int| 0 <= k < b.subscriptions.len() implies in_step(
                #[trigger] b.subscriptions[k],
                events,
            ) && b.subscriptions[k].available_cursor == b.published_cursor by {
                if k != i {
                    assert(b.subscriptions[k] == a.subscriptions[k]);
                }
            }
        }
    }
}

pub(crate) proof fn place_is_in_range(subs: Seq<DurableSubscriptionView>, id: Seq<char>, i: int)
    requires
        0 <= i <= subs.len(),
    ensures
        i <= crate::protocol::subscription::place_from(subs, id, i) <= subs.len(),
    decreases subs.len() - i,
{
    if i < subs.len() && subs[i].id != id {
        place_is_in_range(subs, id, i + 1);
    }
}

// --- Publication ---------------------------------------------------------------------------------

proof fn appending_keeps_ranks(events: Seq<EventRecordView>, e: EventRecordView, cursor: u64)
    requires
        cursor < e.cursor,
    ensures
        rank(events.push(e), cursor) == rank(events, cursor),
{
    assert(events.push(e).drop_last() =~= events);
}

proof fn offered_in_step(
    s: DurableSubscriptionView,
    total: nat,
    events: Seq<EventRecordView>,
    e: EventRecordView,
    floor: u64,
)
    requires
        ascending(events.push(e)),
        ascending(events),
        subscription_ok(s),
        in_step(s, events),
        s.available_cursor == max_cursor(events),
        s.queued_bytes <= total <= MAX_DURABLE_SUBSCRIPTION_BYTES,
        max_cursor(events) < e.cursor,
        projected(e) is Ok,
    ensures
        in_step(
            enqueued(
                DurableSubscriptionView { available_cursor: e.cursor, ..s },
                total,
                projected(e)->Ok_0,
                floor,
            ).0,
            events.push(e),
        ),
        enqueued(
            DurableSubscriptionView { available_cursor: e.cursor, ..s },
            total,
            projected(e)->Ok_0,
            floor,
        ).0.available_cursor == e.cursor,
{
    let event = projected(e)->Ok_0;
    let open = DurableSubscriptionView { available_cursor: e.cursor, ..s };
    let all = events.push(e);
    crate::protocol::stream::projected_is_small(e);
    enqueueing_keeps_order(open, total, event, floor);
    let g = enqueued(open, total, event, floor).0;
    if g.closed is None {
        max_is_last(events);
        rank_is(events, max_cursor(events), events.len());
        rank_splits(events, s.last_queued_cursor);
        appending_keeps_ranks(events, e, s.last_queued_cursor);
        appending_keeps_ranks(events, e, s.last_delivered_cursor);
        let first = rank(events, s.last_delivered_cursor);
        assert(holds_segment(open, all)) by {
            assert forall|i: int| 0 <= i < open.queue.len() implies projected(all[first + i])
                == Ok::<EventView, Seq<char>>((#[trigger] open.queue[i]).event) by {
                assert(s.queue[i] == open.queue[i]);
                assert(all[first + i] == events[first + i]);
            }
        }
        assert(g.queue.take(open.queue.len() as int) =~= open.queue);
        extending_keeps_segments(open, g, all, event, events.len());
        rank_is(all, e.cursor, (events.len() + 1) as nat);
    }
}

proof fn spread_in_step(
    subs: Seq<DurableSubscriptionView>,
    events: Seq<EventRecordView>,
    e: EventRecordView,
    floor: u64,
    n: nat,
)
    requires
        crate::protocol::subscription::subscriptions_ok(subs),
        n <= subs.len(),
        ascending(events.push(e)),
        ascending(events),
        forall|i: int|
            0 <= i < subs.len() ==> in_step(#[trigger] subs[i], events)
                && subs[i].available_cursor == max_cursor(events),
        max_cursor(events) < e.cursor,
        projected(e) is Ok,
    ensures
        forall|i: int|
            0 <= i < n ==> in_step(
                #[trigger] spread(subs, projected(e)->Ok_0, floor, n).0[i],
                events.push(e),
            ) && spread(subs, projected(e)->Ok_0, floor, n).0[i].available_cursor == e.cursor,
    decreases n,
{
    if n > 0 {
        let event = projected(e)->Ok_0;
        let m = (n - 1) as nat;
        spread_in_step(subs, events, e, floor, m);
        crate::protocol::subscription::spreading_keeps_order(subs, event, floor, m);
        crate::protocol::stream::projected_is_small(e);
        let (list, total) = spread(subs, event, floor, m);
        assert(list[m as int] == subs[m as int]);
        assert(subscription_ok(list[m as int]));
        crate::protocol::subscription::changing_keeps_order(list, m as int, list[m as int]);
        offered_in_step(list[m as int], total, events, e, floor);
        let new = spread(subs, event, floor, n).0;
        assert forall|i: int| 0 <= i < n implies in_step(#[trigger] new[i], events.push(e))
            && new[i].available_cursor == e.cursor by {
            if i < m {
                assert(new[i] == list[i]);
            }
        }
    }
}

/// An adapter with another journal.
pub open spec fn with_events(a: AdapterView, events: Seq<EventRecordView>) -> AdapterView {
    AdapterView {
        funnel: FunnelView {
            store: crate::store::StoreView {
                tables: crate::store::TablesView { events, ..a.funnel.store.tables },
                ..a.funnel.store
            },
            ..a.funnel
        },
        ..a
    }
}

/// Publishing an event that was just committed keeps every subscription in step.
pub proof fn publishing_keeps_step(a: AdapterView, e: EventRecordView)
    requires
        adapter_ok(a),
        all_in_step(a),
        ascending(a.funnel.store.tables.events.push(e)),
        max_cursor(a.funnel.store.tables.events) < e.cursor,
        projected(e) is Ok,
    ensures
        all_in_step(
            published_through(with_events(a, a.funnel.store.tables.events.push(e)), e.cursor),
        ),
{
    let events = a.funnel.store.tables.events;
    let all = events.push(e);
    let b = with_events(a, all);
    max_is_last(events);
    max_is_last(all);
    rank_is(all, a.published_cursor, events.len());
    later_is_the_rest(all, a.published_cursor);
    let batch = events_after(all, a.published_cursor, MAX_RESUME_EVENTS as nat);
    assert(batch =~= seq![e]);
    crate::protocol::stream::projected_is_small(e);
    spread_in_step(
        a.subscriptions,
        events,
        e,
        a.funnel.store.min_retained,
        a.subscriptions.len(),
    );
    crate::protocol::subscription::spreading_keeps_order(
        a.subscriptions,
        projected(e)->Ok_0,
        a.funnel.store.min_retained,
        a.subscriptions.len(),
    );
    assert(published_batch(b, batch, 0) == (b, false));
    assert(published_batch(b, batch, 1).1 == false);
    let c = published_batch(b, batch, 1).0;
    assert(c.published_cursor == e.cursor);
    assert(published_through(b, e.cursor) == c);
}

/// Whether two adapters have the same journal, subscriptions and published cursor.
spec fn same_stream(a: AdapterView, b: AdapterView) -> bool {
    &&& a.funnel.store.tables.events == b.funnel.store.tables.events
    &&& a.subscriptions == b.subscriptions
    &&& a.published_cursor == b.published_cursor
}

proof fn receipts_keep_the_stream(a: AdapterView, c: CommandView, s: SubmissionView)
    ensures
        same_stream(a, receipt_of(a, c, s).1),
        receipt_of(a, c, s).1.funnel.store == a.funnel.store,
        a.funnel.gate is Some ==> receipt_of(a, c, s).1.funnel.gate is Some,
{
}

proof fn publishing_nothing_new(b: AdapterView, target: u64)
    requires
        all_in_step(b),
        published_through(b, target).funnel.gate is None,
    ensures
        published_through(b, target) == b,
{
    if b.published_cursor < target {
        let events = b.funnel.store.tables.events;
        max_is_last(events);
        rank_is(events, b.published_cursor, events.len());
        later_is_the_rest(events, b.published_cursor);
        assert(events_after(events, b.published_cursor, MAX_RESUME_EVENTS as nat).len() == 0);
    }
}

/// A command keeps every subscription in step with the journal: what it commits is published
/// before it is answered. The one exception is an adapter that it poisons, which answers no poll
/// any more.
pub proof fn commands_keep_step(
    a: AdapterView,
    c: CommandView,
    outcome: CommitOutcome,
    receipt: ReceiptView,
    b: AdapterView,
)
    requires
        adapter_ok(a),
        has_room(a.funnel),
        all_in_step(a),
        journal_ascends(a.funnel.store),
        a.funnel.store.next_cursor > 0,
        command_leads_to(a, c, outcome, receipt, b),
    ensures
        b.funnel.gate is None ==> all_in_step(b),
{
    let r = choose|r: Route| takes(a, c, r) && (receipt, b) == #[trigger] routed(a, c, r, outcome);
    match r {
        Route::Refuse { .. } => {},
        Route::Keyed { command, detail } => {
            let s = staged_refusal(
                a.funnel,
                command,
                crate::error::ErrorKind::InvalidRequest,
                detail@,
            );
            let m = AdapterView { funnel: after_refusal(a.funnel, s, outcome), ..a };
            receipts_keep_the_stream(m, c, refusal_answer(s, outcome));
            assert(same_stream(a, m));
        },
        Route::Submit { command } => {
            submissions_keep_step(a, c, command, outcome);
        },
    }
}

proof fn submissions_keep_step(
    a: AdapterView,
    c: CommandView,
    command: crate::funnel::command::Command,
    outcome: CommitOutcome,
)
    requires
        adapter_ok(a),
        has_room(a.funnel),
        all_in_step(a),
        journal_ascends(a.funnel.store),
        a.funnel.store.next_cursor > 0,
        wire_receipt_key(c) == receipt_key_of(command),
    ensures
        ({
            let b = routed(a, c, Route::Submit { command }, outcome).1;
            b.funnel.gate is None ==> all_in_step(b)
        }),
{
    let s = staged(a.funnel, command);
    let m = AdapterView {
        funnel: after_commit(after_staging(a.funnel, command), s, outcome),
        ..a
    };
    let answer = answer_after(s, outcome);
    let (receipt, b) = receipt_of(m, c, answer);
    receipts_keep_the_stream(m, c, answer);
    if b.funnel.gate is None {
        if s is Commit && outcome is Committed {
            committed_submissions_keep_step(a, c, command);
        } else {
            assert(same_stream(a, m));
            assert(all_in_step(b));
            if receipt.event_cursors.len() > 0 && published_through(
                b,
                receipt.event_cursors.last(),
            ).funnel.gate is None {
                publishing_nothing_new(b, receipt.event_cursors.last());
            }
        }
    } else if receipt.event_cursors.len() > 0 {
        poison_stays(b, receipt.event_cursors.last());
    }
}

proof fn poison_stays(b: AdapterView, target: u64)
    requires
        b.funnel.gate is Some,
    ensures
        published_through(b, target).funnel.gate is Some,
    decreases target - b.published_cursor,
{
    if b.published_cursor < target {
        let batch = events_after(
            b.funnel.store.tables.events,
            b.published_cursor,
            MAX_RESUME_EVENTS as nat,
        );
        poison_stays_in_batch(b, batch, batch.len());
        let d = published_batch(b, batch, batch.len()).0;
        if d.published_cursor > b.published_cursor && d.published_cursor < target {
            poison_stays(d, target);
        }
    }
}

proof fn poison_stays_in_batch(b: AdapterView, batch: Seq<EventRecordView>, n: nat)
    requires
        b.funnel.gate is Some,
    ensures
        published_batch(b, batch, n).0.funnel.gate is Some,
    decreases n,
{
    if n > 0 {
        poison_stays_in_batch(b, batch, (n - 1) as nat);
    }
}

proof fn commits_append_at_most_one(f: FunnelView, command: crate::funnel::command::Command)
    requires
        has_room(f),
        staged(f, command) is Commit,
    ensures
        ({
            let s = staged(f, command);
            let m = after_commit(after_staging(f, command), s, CommitOutcome::Committed);
            let row = s->Commit_receipt;
            let added = s->Commit_events;
            &&& m.store.tables.events == f.store.tables.events + added
            &&& m.store.min_retained == f.store.min_retained
            &&& added.len() <= 1
            &&& lookup(m.store.tables.receipts, receipt_key_of(command)) == Some(row)
            &&& added.len() == 0 ==> row.first_cursor is None
            &&& added.len() == 1 ==> row.first_cursor == Some(f.store.next_cursor)
                && row.last_cursor == Some(f.store.next_cursor) && added[0].cursor
                == f.store.next_cursor
        }),
{
    let s = staged(f, command);
    let pre = rows_for(command.method, f.store.tables);
    decisions_are_small(f, command, pre);
    plans_leave_the_journal(f.store.tables, s->Commit_plan);
    let written = applied(f.store.tables, s->Commit_plan);
    read_after_write(
        written.receipts,
        receipt_key_of(command),
        s->Commit_receipt,
        receipt_key_of(command),
    );
    let accepted = decide(f, command, pre)->Ok_0;
    assert(s->Commit_events == events_of(f, command, accepted));
}

#[verifier::spinoff_prover]
#[verifier::rlimit(60)]
proof fn committed_submissions_keep_step(
    a: AdapterView,
    c: CommandView,
    command: crate::funnel::command::Command,
)
    requires
        adapter_ok(a),
        has_room(a.funnel),
        all_in_step(a),
        journal_ascends(a.funnel.store),
        a.funnel.store.next_cursor > 0,
        wire_receipt_key(c) == receipt_key_of(command),
        staged(a.funnel, command) is Commit,
    ensures
        ({
            let b = routed(a, c, Route::Submit { command }, CommitOutcome::Committed).1;
            b.funnel.gate is None ==> all_in_step(b)
        }),
{
    let f = a.funnel;
    let s = staged(f, command);
    commits_append_at_most_one(f, command);
    appended_streams_keep_step(
        a,
        AdapterView {
            funnel: after_commit(after_staging(f, command), s, CommitOutcome::Committed),
            ..a
        },
        c,
        s->Commit_result,
        s->Commit_events,
        s->Commit_receipt,
    );
}

proof fn appended_streams_keep_step(
    a: AdapterView,
    m: AdapterView,
    c: CommandView,
    result: crate::json::JsonView,
    added: Seq<EventRecordView>,
    row: crate::store::ReceiptRowView,
)
    requires
        adapter_ok(a),
        all_in_step(a),
        journal_ascends(a.funnel.store),
        m.subscriptions == a.subscriptions,
        m.published_cursor == a.published_cursor,
        m.funnel.store.min_retained == a.funnel.store.min_retained,
        m.funnel.store.tables.events == a.funnel.store.tables.events + added,
        added.len() <= 1,
        lookup(m.funnel.store.tables.receipts, wire_receipt_key(c)) == Some(row),
        added.len() == 0 ==> row.first_cursor is None,
        added.len() == 1 ==> row.first_cursor == Some(a.funnel.store.next_cursor)
            && row.last_cursor == Some(a.funnel.store.next_cursor) && added[0].cursor
            == a.funnel.store.next_cursor,
        a.funnel.store.next_cursor > 0,
    ensures
        ({
            let (receipt, b) = receipt_of(m, c, SubmissionView::Completed { result });
            let d = if receipt.event_cursors.len() > 0 {
                published_through(b, receipt.event_cursors.last())
            } else {
                b
            };
            d.funnel.gate is None ==> all_in_step(d)
        }),
{
    let events = a.funnel.store.tables.events;
    let (receipt, b) = receipt_of(m, c, SubmissionView::Completed { result });
    receipts_keep_the_stream(m, c, SubmissionView::Completed { result });
    if b.funnel.gate is Some {
        if receipt.event_cursors.len() > 0 {
            poison_stays(b, receipt.event_cursors.last());
        }
    } else if added.len() == 0 {
        assert(m.funnel.store.tables.events =~= events);
        assert(receipt.event_cursors =~= Seq::<u64>::empty());
    } else {
        let e = added[0];
        assert(added =~= seq![e]);
        let all = events.push(e);
        assert(events + added =~= all);
        max_is_last(events);
        assert forall|i: int, j: int| 0 <= i < j < all.len() implies (#[trigger] all[i]).cursor < (
        #[trigger] all[j]).cursor by {
            if j < events.len() {
                assert(events[i].cursor < events[j].cursor);
            } else {
                assert(all[i] == events[i]);
            }
        }
        assert(receipt.event_cursors =~= seq![e.cursor]);
        if published_through(b, e.cursor).funnel.gate is None {
            publishing_in_place(a, b, e);
        }
    }
}

proof fn publishing_in_place(a: AdapterView, b: AdapterView, e: EventRecordView)
    requires
        adapter_ok(a),
        all_in_step(a),
        ascending(a.funnel.store.tables.events.push(e)),
        max_cursor(a.funnel.store.tables.events) < e.cursor,
        b.funnel.store.tables.events == a.funnel.store.tables.events.push(e),
        b.subscriptions == a.subscriptions,
        b.published_cursor == a.published_cursor,
        b.funnel.store.min_retained == a.funnel.store.min_retained,
        published_through(b, e.cursor).funnel.gate is None,
    ensures
        all_in_step(published_through(b, e.cursor)),
{
    let events = a.funnel.store.tables.events;
    let all = events.push(e);
    max_is_last(events);
    max_is_last(all);
    rank_is(all, a.published_cursor, events.len());
    later_is_the_rest(all, a.published_cursor);
    let batch = events_after(all, a.published_cursor, MAX_RESUME_EVENTS as nat);
    assert(batch =~= seq![e]);
    assert(published_batch(b, batch, 0) == (b, false));
    assert(published_batch(b, batch, 1).1 == (projected(e) is Err));
    if projected(e) is Ok {
        crate::protocol::stream::projected_is_small(e);
        publishing_keeps_step(a, e);
        let x = with_events(a, all);
        assert(published_batch(x, batch, 0) == (x, false));
        assert(published_batch(x, batch, 1).1 == false);
        assert(published_through(x, e.cursor) == published_batch(x, batch, 1).0);
        assert(published_through(b, e.cursor) == published_batch(b, batch, 1).0);
    }
}

} // verus!
