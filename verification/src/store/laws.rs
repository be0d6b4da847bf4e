//! What the store's own operations do: what is read above a cursor, what recovery restores, and
//! what the durable rows say of a token.
use crate::store::{
    allocated, claims_standing, created, events_after, first_claim, is_owned, later, max_cursor,
    recovered, takeover, AttemptTokenClaimsView, AuthorityRowView, EventRecordView, ReceiptRowView,
    StoreView, TablesView,
};
use crate::table::lookup;
use crate::text::dec;
use vstd::prelude::*;
use vstd::string::*;

verus! {

/// What is read above a cursor is every event of the journal that lies above it and no other, in the
/// order of the journal, up to the limit.
pub proof fn reads_miss_nothing(events: Seq<EventRecordView>, after: u64, limit: nat)
    ensures
        later(events, after) == events.filter(|e: EventRecordView| e.cursor > after),
        events_after(events, after, limit).is_prefix_of(
            events.filter(|e: EventRecordView| e.cursor > after),
        ),
        events_after(events, after, limit).len() == limit || events_after(events, after, limit)
            == events.filter(|e: EventRecordView| e.cursor > after),
        events_after(events, after, limit).len() <= limit,
    decreases events.len(),
{
    let above = |e: EventRecordView| e.cursor > after;
    reveal(Seq::filter);
    if events.len() > 0 {
        reads_miss_nothing(events.drop_last(), after, limit);
    }
}

/// The highest cursor of a journal is that of one of its events, and none lies above it; that of an
/// empty journal is 0.
pub proof fn the_highest_cursor_is_there(events: Seq<EventRecordView>)
    ensures
        events.len() == 0 ==> max_cursor(events) == 0,
        max_cursor(events) > 0 ==> exists|i: int|
            0 <= i < events.len() && (#[trigger] events[i]).cursor == max_cursor(events),
        forall|i: int| 0 <= i < events.len() ==> (#[trigger] events[i]).cursor <= max_cursor(events),
    decreases events.len(),
{
    if events.len() > 0 {
        let front = events.drop_last();
        the_highest_cursor_is_there(front);
        assert(events[events.len() - 1] == events.last());
        if events.last().cursor <= max_cursor(front) && max_cursor(front) > 0 {
            let i = choose|i: int|
                0 <= i < front.len() && (#[trigger] front[i]).cursor == max_cursor(front);
            assert(events[i] == front[i]);
        }
        assert forall|i: int| 0 <= i < events.len() implies (#[trigger] events[i]).cursor
            <= max_cursor(events) by {
            if i < front.len() {
                assert(events[i] == front[i]);
            }
        }
    }
}

/// Who holds a control graph: a fresh one is held at epoch 1 by the instance that made it, after no
/// other; one that is taken over, one epoch on, by the instance that takes it, after the one that
/// held it.
pub proof fn claims_follow_each_other(row: AuthorityRowView, instance_id: Seq<char>)
    requires
        row.authority_epoch < u64::MAX,
    ensures
        first_claim(instance_id).authority_epoch == 1,
        first_claim(instance_id).holder_instance_id == instance_id,
        first_claim(instance_id).prior_instance_id is None,
        first_claim(instance_id).status == "active"@,
        takeover(row, instance_id).authority_epoch == row.authority_epoch + 1,
        takeover(row, instance_id).holder_instance_id == instance_id,
        takeover(row, instance_id).prior_instance_id == Some(row.holder_instance_id),
        takeover(row, instance_id).status == "active"@,
{
}

/// An event is owned by the receipt that it names exactly when the receipt is there and spans its
/// cursor.
pub proof fn owned_events_lie_in_range(
    receipts: Seq<(Seq<char>, ReceiptRowView)>,
    e: EventRecordView,
)
    ensures
        is_owned(receipts, e) <==> exists|first: u64, last: u64|
            first <= e.cursor <= last && lookup(receipts, e.receipt_key) is Some && lookup(
                receipts,
                e.receipt_key,
            )->0.first_cursor == Some(first) && #[trigger] spans(first, last) && lookup(
                receipts,
                e.receipt_key,
            )->0.last_cursor == Some(last),
{
    if is_owned(receipts, e) {
        let row = lookup(receipts, e.receipt_key)->0;
        assert(spans(row.first_cursor->0, row.last_cursor->0));
    }
}

/// Whether two cursors span a range.
pub open spec fn spans(first: u64, last: u64) -> bool {
    first <= last
}

/// What the durable rows say of the claims of a dispatch: nothing, unless the attempt and the unit
/// are there, the attempt is the one that was dispatched to this holder, and the unit has got that
/// far; and else, whether the token is still of the current authority, attempt, stamp and lease.
pub proof fn durable_claims_are_told(
    store: StoreView,
    claims: AttemptTokenClaimsView,
    attempt_id: Seq<char>,
    version: u64,
)
    ensures
        ({
            let t = store.tables;
            let attempt = lookup(
                t.attempts,
                claims.unit_id + "/"@ + dec(claims.attempt_epoch.0 as nat),
            );
            let unit = lookup(t.units, claims.unit_id);
            let lease = lookup(t.leases, claims.unit_id);
            let told = claims_standing(store, claims, attempt_id, version);
            &&& told is Ok <==> {
                &&& attempt is Some
                &&& unit is Some
                &&& attempt->0.attempt_id == attempt_id
                &&& attempt->0.holder_id == claims.holder_id
                &&& version <= unit->0.version
            }
            &&& told is Ok ==> (told->Ok_0 <==> {
                &&& claims.authority_epoch == store.epoch
                &&& claims.attempt_epoch.0 == unit->0.epoch
                &&& claims.stamp.0 == unit->0.stamp
                &&& lease is Some
                &&& lease->0.status == "active"@
                &&& lease->0.holder_id == claims.holder_id
            })
        }),
{
}

/// A fresh control graph holds nothing but its claim: it hands out cursors from 1, under epoch 1.
pub proof fn fresh_stores_are_empty(instance_id: Seq<char>, project_id: Seq<char>)
    ensures
        ({
            let s = created(instance_id, project_id);
            &&& s.next_cursor == 1
            &&& s.epoch.0 == 1
            &&& s.project == project_id
            &&& s.min_retained == 0
            &&& s.tables.authority is Some
            &&& s.tables.authority->0.authority_epoch == 1
            &&& s.tables.authority->0.holder_instance_id == instance_id
            &&& s.tables.authority->0.prior_instance_id is None
            &&& s.tables.runs.len() == 0
            &&& s.tables.work_items.len() == 0
            &&& s.tables.units.len() == 0
            &&& s.tables.attempts.len() == 0
            &&& s.tables.leases.len() == 0
            &&& s.tables.receipts.len() == 0
            &&& s.tables.effects.len() == 0
            &&& s.tables.requests.len() == 0
            &&& s.tables.deliveries.len() == 0
            &&& s.tables.events.len() == 0
        }),
{
}

/// A control graph that is taken over keeps every row but the claim, is one epoch on, under which no
/// earlier command passes, and hands out cursors strictly above every event, the next one after the
/// last.
pub proof fn recoveries_lose_nothing(
    tables: TablesView,
    instance_id: Seq<char>,
    project_id: Seq<char>,
)
    requires
        tables.authority is Some,
        tables.authority->0.authority_epoch < u64::MAX,
        max_cursor(tables.events) < u64::MAX,
    ensures
        ({
            let s = recovered(tables, instance_id, project_id);
            &&& s.tables == (TablesView { authority: s.tables.authority, ..tables })
            &&& s.tables.authority is Some
            &&& s.tables.authority->0.authority_epoch == s.epoch.0
            &&& s.epoch.0 == tables.authority->0.authority_epoch + 1
            &&& s.tables.authority->0.holder_instance_id == instance_id
            &&& s.tables.authority->0.prior_instance_id == Some(
                tables.authority->0.holder_instance_id,
            )
            &&& s.project == project_id
            &&& s.min_retained == 0
            &&& forall|i: int|
                0 <= i < tables.events.len() ==> (#[trigger] tables.events[i]).cursor
                    < s.next_cursor
            &&& s.next_cursor == 1 || exists|i: int|
                0 <= i < tables.events.len() && (#[trigger] tables.events[i]).cursor + 1
                    == s.next_cursor
        }),
{
    the_highest_cursor_is_there(tables.events);
}

/// A cursor is handed out once: the next one is greater, and nothing else changes.
pub proof fn cursors_are_handed_out_once(s: StoreView)
    requires
        s.next_cursor < u64::MAX,
    ensures
        allocated(s).next_cursor > s.next_cursor,
        allocated(s) == (StoreView { next_cursor: allocated(s).next_cursor, ..s }),
{
}

} // verus!
