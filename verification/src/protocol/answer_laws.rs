//! What a client is answered when it resumes, subscribes, polls and closes: when each succeeds, what
//! it then gets, and what becomes of the subscriptions.
use crate::protocol::adapter::{adapter_ok, subscription_id, AdapterView};
use crate::protocol::event::event_size;
use crate::protocol::handle::{retained, RetentionAnswer};
use crate::protocol::laws::{all_in_step, in_step};
use crate::protocol::stream::{
    closed, delivered, empty_answer_bytes, gathered, polled, resumed, subscribed, Gathered,
};
use crate::protocol::subscription::{
    enqueued, filled, place_of, projected, refilled, slot_rule, DurableSubscriptionView,
    SubscriptionClosureView,
};
use crate::protocol::types::{
    bounded_numbers_are_kept, ErrorKind, EventView, ServerMessageView, SlowConsumerView,
};
use crate::funnel::FunnelView;
use crate::store::laws::{reads_miss_nothing, the_highest_cursor_is_there};
use crate::store::{later, max_cursor, EventRecordView};
use vstd::prelude::*;
use vstd::string::*;

verus! {

/// Whether an answer is an error of a kind.
pub open spec fn is_error(m: ServerMessageView, kind: ErrorKind) -> bool {
    m is Error && m->Error_0.kind == kind
}

/// Whether a cursor lies ahead of a journal: above every event of it.
pub open spec fn is_ahead(events: Seq<EventRecordView>, after: u64) -> bool {
    after > 0 && forall|i: int| 0 <= i < events.len() ==> (#[trigger] events[i]).cursor < after
}

/// The events of a journal above a cursor.
pub open spec fn above(events: Seq<EventRecordView>, after: u64) -> Seq<EventRecordView> {
    events.filter(|e: EventRecordView| e.cursor > after)
}

proof fn ahead_shows(events: Seq<EventRecordView>, after: u64)
    ensures
        is_ahead(events, after) <==> after > max_cursor(events),
        is_ahead(events, after) ==> later(events, after).len() == 0,
{
    the_highest_cursor_is_there(events);
    if is_ahead(events, after) {
        if max_cursor(events) > 0 {
            let i = choose|i: int|
                0 <= i < events.len() && (#[trigger] events[i]).cursor == max_cursor(events);
        }
        crate::store::events_after_lie_above(events, after, 1);
        if later(events, after).len() > 0 {
            let list = crate::store::events_after(events, after, 1);
            assert(list[0].cursor > after);
            assert(events.contains(list[0]));
        }
    }
}

// --- Resuming ------------------------------------------------------------------------------------

/// The bytes of an answer that holds events: those of the empty one, those of each event, and a
/// separator before each but the first.
pub open spec fn answer_size(list: Seq<EventView>, empty: nat) -> nat
    decreases list.len(),
{
    if list.len() == 0 {
        empty
    } else {
        answer_size(list.drop_last(), empty) + event_size(list.last()) + if list.len() > 1 {
            1nat
        } else {
            0nat
        }
    }
}

proof fn gathering_shows(records: Seq<EventRecordView>, empty: nat, n: nat)
    requires
        n <= records.len(),
        empty <= 1_052_672,
        forall|i: int| 0 <= i < n ==> projected(#[trigger] records[i]) is Ok,
    ensures
        ({
            let list = Seq::new(n, |i: int| projected(records[i])->Ok_0);
            &&& answer_size(list, empty) <= 1_052_672 ==> gathered(records, empty, n)
                == Gathered::Events(list, answer_size(list, empty))
            &&& answer_size(list, empty) > 1_052_672 ==> gathered(records, empty, n)
                == Gathered::TooLarge
        }),
    decreases n,
{
    let list = Seq::new(n, |i: int| projected(records[i])->Ok_0);
    if n > 0 {
        let front = Seq::new((n - 1) as nat, |i: int| projected(records[i])->Ok_0);
        assert(list.drop_last() =~= front);
        gathering_shows(records, empty, (n - 1) as nat);
        assert(projected(records[n - 1]) is Ok);
        assert(front.push(projected(records[n - 1])->Ok_0) =~= list);
    } else {
        assert(list =~= Seq::<EventView>::empty());
    }
}

/// What a resume is answered with: an error for another project, a stopped funnel, a cursor ahead
/// of the journal, more than 1024 events, or more bytes than a frame holds; the floor for a
/// cursor below what is retained; and else every event above the cursor. It changes nothing.
pub proof fn resumes_are_answered(a: AdapterView, project_id: Seq<char>, after: u64)
    requires
        empty_answer_bytes() <= 1_052_672,
        forall|i: int|
            0 <= i < a.funnel.store.tables.events.len() ==> projected(
                #[trigger] a.funnel.store.tables.events[i],
            ) is Ok,
    ensures
        ({
            let (m, b) = resumed(a, project_id, after);
            let events = a.funnel.store.tables.events;
            let floor = a.funnel.store.min_retained;
            let rest = above(events, after);
            let list = Seq::new(rest.len(), |i: int| projected(rest[i])->Ok_0);
            let own = project_id == a.project_id;
            let open = own && a.funnel.gate is None;
            let held = open && (floor <= 1 || floor <= after);
            &&& b == a
            &&& !own ==> is_error(m, ErrorKind::InvalidRequest)
            &&& own && a.funnel.gate is Some ==> is_error(m, ErrorKind::Unavailable)
            &&& open && !held ==> m is CursorExpired && m->CursorExpired_0.min_retained_cursor
                == floor
            &&& held && is_ahead(events, after) ==> is_error(m, ErrorKind::InvalidRequest)
            &&& held && !is_ahead(events, after) && rest.len() > 1024 ==> is_error(
                m,
                ErrorKind::ResourceExhausted,
            )
            &&& held && !is_ahead(events, after) && rest.len() <= 1024 ==> {
                &&& answer_size(list, empty_answer_bytes()) <= 1_052_672 ==> m
                    == ServerMessageView::Events(list)
                &&& answer_size(list, empty_answer_bytes()) > 1_052_672 ==> is_error(
                    m,
                    ErrorKind::ResourceExhausted,
                )
            }
        }),
{
    let events = a.funnel.store.tables.events;
    reads_miss_nothing(events, after, 1025);
    ahead_shows(events, after);
    let records = crate::store::events_after(events, after, 1025);
    let rest = above(events, after);
    assert(rest == later(events, after));
    if rest.len() <= 1024 {
        assert(records =~= rest);
        crate::store::events_after_lie_above(events, after, 1025);
        assert forall|i: int| 0 <= i < records.len() implies projected(
            #[trigger] records[i],
        ) is Ok by {
            assert(events.contains(records[i]));
        }
        gathering_shows(records, empty_answer_bytes(), records.len());
    } else {
        assert(records.len() == 1025);
    }
}

// --- Queues --------------------------------------------------------------------------------------

/// What an event that is offered does to a subscription: nothing to one that is closed or has it
/// queued already; one whose queue holds 1024 events, or that would bring all queues over 16 MiB,
/// is closed as too slow, told what is retained and what it got last, and its queue is emptied; any
/// other has the event at the end of its queue.
pub proof fn offers_are_queued(
    s: DurableSubscriptionView,
    total: nat,
    event: EventView,
    floor: u64,
)
    requires
        s.queued_bytes <= total,
        total <= 16_777_216,
        event_size(event) <= 16_777_216,
    ensures
        ({
            let (t, after) = enqueued(s, total, event, floor);
            let news = s.closed is None && event.cursor > s.last_queued_cursor;
            let full = s.queue.len() == 1024 || total + event_size(event) > 16_777_216;
            &&& !news ==> t == s && after == total
            &&& news && full ==> {
                &&& t.closed == Some(
                    SubscriptionClosureView::SlowConsumer(
                        SlowConsumerView {
                            min_retained_cursor: floor,
                            last_delivered_cursor: s.last_delivered_cursor,
                        },
                    ),
                )
                &&& t.queue.len() == 0
                &&& t.queued_bytes == 0
                &&& after == total - s.queued_bytes
            }
            &&& news && !full ==> {
                &&& t.closed is None
                &&& t.queue.len() == s.queue.len() + 1
                &&& t.queue.drop_last() == s.queue
                &&& t.queue.last().event == event
                &&& t.queue.last().bytes == event_size(event)
                &&& t.queued_bytes == s.queued_bytes + event_size(event)
                &&& t.last_queued_cursor == event.cursor
                &&& after == total + event_size(event)
            }
            &&& t.id == s.id
            &&& t.last_delivered_cursor == s.last_delivered_cursor
            &&& t.available_cursor == s.available_cursor
        }),
{
    let t = enqueued(s, total, event, floor).0;
    if t.queue.len() == s.queue.len() + 1 {
        assert(t.queue.drop_last() =~= s.queue);
    }
}

proof fn filling_moves_nothing_else(
    s: DurableSubscriptionView,
    total: nat,
    records: Seq<EventRecordView>,
    n: nat,
    floor: u64,
)
    ensures
        ({
            let f = filled(s, total, records, n, floor);
            &&& f.sub.id == s.id
            &&& f.sub.last_delivered_cursor == s.last_delivered_cursor
            &&& f.sub.available_cursor == s.available_cursor
        }),
    decreases n,
{
    if n > 0 {
        filling_moves_nothing_else(s, total, records, (n - 1) as nat, floor);
    }
}

proof fn refilling_moves_nothing_else(
    s: DurableSubscriptionView,
    total: nat,
    events: Seq<EventRecordView>,
    floor: u64,
)
    ensures
        ({
            let f = refilled(s, total, events, floor);
            &&& f.sub.id == s.id
            &&& f.sub.last_delivered_cursor == s.last_delivered_cursor
            &&& f.sub.available_cursor == s.available_cursor
        }),
{
    let records = crate::store::events_after(
        events,
        s.last_queued_cursor,
        (1024 - s.queue.len()) as nat,
    );
    filling_moves_nothing_else(s, total, records, records.len(), floor);
}

// --- Subscribing ---------------------------------------------------------------------------------

/// What a subscribe is answered with: an error for another project, a stopped funnel, 64 that are
/// open, a cursor ahead of the journal, or no id left; the floor for a cursor below what is
/// retained; and else a subscription under the next id, from the cursor on, beside the others.
#[verifier::spinoff_prover]
pub proof fn subscribes_are_answered(a: AdapterView, project_id: Seq<char>, after: u64)
    ensures
        ({
            let (m, b) = subscribed(a, project_id, after);
            let events = a.funnel.store.tables.events;
            let floor = a.funnel.store.min_retained;
            let own = project_id == a.project_id;
            let open = own && a.funnel.gate is None;
            let few = open && a.subscriptions.len() < 64;
            let held = few && (floor <= 1 || floor <= after);
            let behind = held && !is_ahead(events, after);
            let id = "subscription-"@ + crate::text::dec((a.next_subscription_id + 1) as nat);
            &&& !own ==> is_error(m, ErrorKind::InvalidRequest)
            &&& own && a.funnel.gate is Some ==> is_error(m, ErrorKind::Unavailable)
            &&& open && !few ==> is_error(m, ErrorKind::ResourceExhausted)
            &&& few && !held ==> m is CursorExpired && m->CursorExpired_0.min_retained_cursor
                == floor
            &&& held && !behind ==> is_error(m, ErrorKind::InvalidRequest)
            &&& behind && a.next_subscription_id == u64::MAX ==> is_error(
                m,
                ErrorKind::ResourceExhausted,
            )
            &&& !(behind && a.next_subscription_id < u64::MAX) ==> b == a
            &&& behind && a.next_subscription_id < u64::MAX ==> {
                &&& m is SubscriptionOpened
                &&& m->SubscriptionOpened_0.subscription_id == id
                &&& m->SubscriptionOpened_0.retention.min_retained_cursor == floor
                &&& m->SubscriptionOpened_0.limits.durable_event_queue_capacity@ == 1024
                &&& m->SubscriptionOpened_0.limits.progress_event_queue_capacity@ == 256
                &&& m->SubscriptionOpened_0.retention.max_age_seconds == 1_209_600
                &&& m->SubscriptionOpened_0.retention.max_events_per_project == 1_000_000
                &&& b.next_subscription_id == a.next_subscription_id + 1
                &&& b.subscriptions.len() == a.subscriptions.len() + 1
                &&& exists|i: int|
                    #![trigger b.subscriptions[i]]
                    0 <= i < b.subscriptions.len() && b.subscriptions.remove(i) == a.subscriptions
                        && b.subscriptions[i].id == id && b.subscriptions[i].last_delivered_cursor
                        == after && b.subscriptions[i].available_cursor == max_cursor(events)
                &&& b == (AdapterView {
                    subscriptions: b.subscriptions,
                    next_subscription_id: b.next_subscription_id,
                    funnel: FunnelView { gate: b.funnel.gate, ..a.funnel },
                    ..a
                })
            }
        }),
{
    let (m, b) = subscribed(a, project_id, after);
    let events = a.funnel.store.tables.events;
    ahead_shows(events, after);
    bounded_numbers_are_kept(1024);
    bounded_numbers_are_kept(256);
    if m is SubscriptionOpened {
        let id = subscription_id((a.next_subscription_id + 1) as nat);
        let s = crate::protocol::stream::opened_at(id, after, max_cursor(events));
        let total = crate::protocol::subscription::total_bytes(a.subscriptions);
        let f = refilled(s, total, events, a.funnel.store.min_retained);
        refilling_moves_nothing_else(s, total, events, a.funnel.store.min_retained);
        slot_rule(a.subscriptions, f.sub.id, 0);
        let at = crate::protocol::subscription::slot_from(a.subscriptions, f.sub.id, 0);
        assert(b.subscriptions == a.subscriptions.insert(at, f.sub));
        assert(b.subscriptions.remove(at) =~= a.subscriptions);
        assert(b.subscriptions[at] == f.sub);
    }
}

// --- Polling and closing -------------------------------------------------------------------------

/// Whether the subscription at a place is the one that an id names.
pub open spec fn is_named_at(a: AdapterView, id: Seq<char>, i: int) -> bool {
    &&& 0 <= i < a.subscriptions.len()
    &&& a.subscriptions[i].id == id
    &&& forall|j: int| 0 <= j < i ==> (#[trigger] a.subscriptions[j]).id != id
}

proof fn places_show(subs: Seq<DurableSubscriptionView>, id: Seq<char>, i: int)
    requires
        0 <= i <= subs.len(),
    ensures
        ({
            let p = crate::protocol::subscription::place_from(subs, id, i);
            &&& i <= p <= subs.len()
            &&& p < subs.len() ==> subs[p].id == id
            &&& forall|j: int| i <= j < p ==> (#[trigger] subs[j]).id != id
        }),
    decreases subs.len() - i,
{
    if i < subs.len() && subs[i].id != id {
        places_show(subs, id, i + 1);
    }
}

proof fn names_show(a: AdapterView, id: Seq<char>)
    ensures
        place_of(a.subscriptions, id) < a.subscriptions.len() ==> is_named_at(
            a,
            id,
            place_of(a.subscriptions, id),
        ),
        forall|i: int| #[trigger] is_named_at(a, id, i) ==> i == place_of(a.subscriptions, id),
        0 <= place_of(a.subscriptions, id) <= a.subscriptions.len(),
{
    places_show(a.subscriptions, id, 0);
    let p = place_of(a.subscriptions, id);
    assert forall|i: int| #[trigger] is_named_at(a, id, i) implies i == p by {
        if p < i {
            assert(a.subscriptions[p].id != id);
        }
        if i < p {
            assert(a.subscriptions[i].id != id);
        }
    }
}

/// What a poll is answered with: an error where the funnel is stopped or nothing has the id. A
/// subscription that was closed tells why, once, and is gone. An open one with nothing queued is
/// pending, and one with events gives the first of its queue and has then delivered up to there.
/// No other subscription changes.
#[verifier::spinoff_prover]
pub proof fn polls_are_answered(a: AdapterView, id: Seq<char>)
    ensures
        ({
            let (m, b) = polled(a, id);
            &&& a.funnel.gate is Some ==> is_error(m, ErrorKind::Unavailable) && b == a
            &&& a.funnel.gate is None && (forall|i: int| !#[trigger] is_named_at(a, id, i))
                ==> is_error(m, ErrorKind::NotFound) && b == a
            &&& a.funnel.gate is None ==> forall|i: int| #[trigger]
                is_named_at(a, id, i) ==> {
                    let s = a.subscriptions[i];
                    &&& s.closed is Some ==> b == (AdapterView {
                        subscriptions: a.subscriptions.remove(i),
                        ..a
                    }) && match s.closed->0 {
                        SubscriptionClosureView::SlowConsumer(c) => m
                            == ServerMessageView::SlowConsumer(c),
                        SubscriptionClosureView::Internal(detail) => is_error(
                            m,
                            ErrorKind::Internal,
                        ),
                    }
                    &&& s.closed is None && s.queue.len() == 0 ==> m is SubscriptionPending
                        && m->SubscriptionPending_0.subscription_id == id && b == a
                    &&& s.closed is None && s.queue.len() > 0 ==> {
                        let t = b.subscriptions[i];
                        &&& m == ServerMessageView::Event(s.queue[0].event)
                        &&& b.subscriptions.len() == a.subscriptions.len()
                        &&& t.id == id
                        &&& t.last_delivered_cursor == s.queue[0].event.cursor
                        &&& t.available_cursor == s.available_cursor
                        &&& b == (AdapterView {
                            subscriptions: a.subscriptions.update(i, t),
                            funnel: FunnelView { gate: b.funnel.gate, ..a.funnel },
                            ..a
                        })
                    }
                }
        }),
{
    names_show(a, id);
    let (m, b) = polled(a, id);
    assert forall|i: int| a.funnel.gate is None && #[trigger] is_named_at(a, id, i) implies {
        let s = a.subscriptions[i];
        s.closed is None && s.queue.len() > 0 ==> {
            let t = b.subscriptions[i];
            &&& t.id == id
            &&& t.last_delivered_cursor == s.queue[0].event.cursor
            &&& t.available_cursor == s.available_cursor
            &&& b.subscriptions == a.subscriptions.update(i, t)
        }
    } by {
        let s = a.subscriptions[i];
        if s.closed is None && s.queue.len() > 0 {
            let d = delivered(s);
            let total = (crate::protocol::subscription::total_bytes(a.subscriptions)
                - s.queue[0].bytes) as nat;
            refilling_moves_nothing_else(
                d,
                total,
                a.funnel.store.tables.events,
                a.funnel.store.min_retained,
            );
        }
    }
}

/// A poll is pending only where the subscription was given everything: no event of the journal lies
/// above what it got last.
pub proof fn polls_wait_for_nothing(a: AdapterView, id: Seq<char>, i: int)
    requires
        adapter_ok(a),
        all_in_step(a),
        is_named_at(a, id, i),
        polled(a, id).0 is SubscriptionPending,
    ensures
        above(a.funnel.store.tables.events, a.subscriptions[i].last_delivered_cursor).len() == 0,
{
    names_show(a, id);
    let events = a.funnel.store.tables.events;
    let s = a.subscriptions[i];
    assert(in_step(s, events));
    reads_miss_nothing(events, s.last_delivered_cursor, 0);
    crate::protocol::laws::nothing_is_left(s, events, a.published_cursor);
}

/// What a close is answered with: an error where the funnel is stopped or nothing has the id; and
/// else the subscription is gone, and no other changes.
pub proof fn closes_are_answered(a: AdapterView, id: Seq<char>)
    ensures
        ({
            let (m, b) = closed(a, id);
            &&& a.funnel.gate is Some ==> is_error(m, ErrorKind::Unavailable) && b == a
            &&& a.funnel.gate is None && (forall|i: int| !#[trigger] is_named_at(a, id, i))
                ==> is_error(m, ErrorKind::NotFound) && b == a
            &&& a.funnel.gate is None ==> forall|i: int| #[trigger]
                is_named_at(a, id, i) ==> m is SubscriptionClosed
                    && m->SubscriptionClosed_0.subscription_id == id && b == (AdapterView {
                    subscriptions: a.subscriptions.remove(i),
                    ..a
                })
        }),
{
    names_show(a, id);
}

// --- Retention -----------------------------------------------------------------------------------

/// A new floor stands exactly where the store kept it, in an adapter that is not stopped; then a resume
/// from below it is told the floor. Where the store cannot tell, the adapter is stopped; and otherwise
/// nothing changes.
pub proof fn floors_stand_where_they_are_kept(
    a: AdapterView,
    cursor: u64,
    answer: RetentionAnswer,
    after: u64,
)
    ensures
        ({
            let b = retained(a, cursor, answer);
            &&& b.funnel.store.tables == a.funnel.store.tables
            &&& b.subscriptions == a.subscriptions
            &&& a.funnel.gate is Some ==> b == a
            &&& a.funnel.gate is None && answer is Kept ==> b.funnel.store.min_retained == cursor
                && b.funnel.gate is None
            &&& a.funnel.gate is None && answer is Kept && 1 < cursor && after < cursor ==> resumed(
                b,
                a.project_id,
                after,
            ).0 is CursorExpired
            &&& a.funnel.gate is None && answer is Unknown ==> b.funnel.gate is Some
                && b.funnel.store == a.funnel.store
            &&& a.funnel.gate is None && (answer is Invalid || answer is Failed) ==> b == a
        }),
{
}

} // verus!
