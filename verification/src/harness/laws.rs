//! Laws that span the store and the auditor: an accepted commit keeps a clean store clean.
use crate::harness::audit::{
    agrees, confirmed_key, event_row, event_rows, kept, one_to, receipt_count, receipt_row,
    receipt_rows, snapshot_of, unit_row, unit_rows, versions_of, AuditSnapshotView, EventRowView,
    ReceiptRowView,
};
use crate::harness::sidecar::ConfirmedView;
use crate::harness::store::{
    applied, event_entry, fault_of, insert_number, receipt_key_of, sorted_numbers, unit_after,
    EventEntryView, ReceiptEntryView, StoreView, UnitEntryView,
};
use crate::harness::workload::CommitSpecView;
use crate::table::{lookup, place, place_from, place_from_rule, read_after_write, unique, upsert};
use vstd::prelude::*;

verus! {

/// Whether a spec is one that the workload would produce against a store: one event, of the
/// spec's unit, at the next version, with an id and a receipt key that are not taken.
pub open spec fn well_formed(store: StoreView, spec: CommitSpecView) -> bool {
    &&& spec.events.len() == 1
    &&& spec.events[0].aggregate_id == spec.unit_id
    &&& spec.events[0].aggregate_version == spec.expected_version + 1
    &&& lookup(store.events, spec.events[0].event_id) is None
    &&& lookup(store.receipts, receipt_key_of(spec.unit_id, spec.command_id)) is None
}

proof fn same_places<K, A, B>(a: Seq<(K, A)>, b: Seq<(K, B)>, key: K, i: int)
    requires
        a.len() == b.len(),
        0 <= i <= a.len(),
        forall|k: int| 0 <= k < a.len() ==> (#[trigger] a[k]).0 == b[k].0,
    ensures
        place_from(a, key, i) == place_from(b, key, i),
    decreases a.len() - i,
{
    if i < a.len() {
        assert(a[i].0 == b[i].0);
        if a[i].0 != key {
            same_places(a, b, key, i + 1);
        }
    }
}

proof fn unit_rows_follow(units: Seq<(u64, UnitEntryView)>, id: u64, e: UnitEntryView)
    ensures
        unit_rows(upsert(units, id, e)) == upsert(unit_rows(units), id, unit_row(e)),
        lookup(unit_rows(units), id) == (match lookup(units, id) {
            Some(u) => Some(unit_row(u)),
            None => None,
        }),
{
    same_places(units, unit_rows(units), id, 0);
    place_from_rule(units, id, 0);
    assert(unit_rows(upsert(units, id, e)) =~= upsert(unit_rows(units), id, unit_row(e)));
}

proof fn event_rows_follow(events: Seq<(u64, EventEntryView)>, id: u64, e: EventEntryView)
    ensures
        event_rows(upsert(events, id, e)) == upsert(event_rows(events), id, event_row(e)),
        lookup(event_rows(events), id) == (match lookup(events, id) {
            Some(u) => Some(event_row(u)),
            None => None,
        }),
{
    same_places(events, event_rows(events), id, 0);
    place_from_rule(events, id, 0);
    assert(event_rows(upsert(events, id, e)) =~= upsert(event_rows(events), id, event_row(e)));
}

proof fn receipt_rows_follow(
    receipts: Seq<(Seq<char>, ReceiptEntryView)>,
    key: Seq<char>,
    e: ReceiptEntryView,
)
    ensures
        receipt_rows(upsert(receipts, key, e)) == upsert(
            receipt_rows(receipts),
            key,
            receipt_row(e),
        ),
        lookup(receipt_rows(receipts), key) == (match lookup(receipts, key) {
            Some(u) => Some(receipt_row(u)),
            None => None,
        }),
{
    same_places(receipts, receipt_rows(receipts), key, 0);
    place_from_rule(receipts, key, 0);
    assert(receipt_rows(upsert(receipts, key, e)) =~= upsert(
        receipt_rows(receipts),
        key,
        receipt_row(e),
    ));
}

/// What the auditor reads after an accepted commit: the unit replaced, the event and the receipt
/// added.
pub open spec fn snapshot_after(snap: AuditSnapshotView, store: StoreView, spec: CommitSpecView) -> AuditSnapshotView {
    AuditSnapshotView {
        units: upsert(
            snap.units,
            spec.unit_id,
            unit_row(unit_after(lookup(store.units, spec.unit_id), spec)),
        ),
        events: snap.events.push(
            (spec.events[0].event_id, event_row(event_entry(spec.events[0]))),
        ),
        receipts: snap.receipts.push(
            (
                receipt_key_of(spec.unit_id, spec.command_id),
                ReceiptRowView {
                    request_digest: spec.request_digest,
                    transition_ref: spec.events[0].event_id,
                },
            ),
        ),
        effects: snapshot_of(applied(store, spec)).effects,
        artifacts: snapshot_of(applied(store, spec)).artifacts,
    }
}

proof fn snapshot_follows(store: StoreView, spec: CommitSpecView)
    requires
        well_formed(store, spec),
    ensures
        snapshot_of(applied(store, spec)) == snapshot_after(snapshot_of(store), store, spec),
{
    let snap = snapshot_of(store);
    let unit = unit_after(lookup(store.units, spec.unit_id), spec);
    unit_rows_follow(store.units, spec.unit_id, unit);
    let ev = event_entry(spec.events[0]);
    event_rows_follow(store.events, spec.events[0].event_id, ev);
    let receipt = ReceiptEntryView {
        request_digest: spec.request_digest,
        transition_ref: spec.events[0].event_id,
    };
    let key = receipt_key_of(spec.unit_id, spec.command_id);
    receipt_rows_follow(store.receipts, key, receipt);
    place_from_rule(snap.events, spec.events[0].event_id, 0);
    place_from_rule(snap.receipts, key, 0);
}

proof fn no_versions(events: Seq<(u64, EventRowView)>, id: u64)
    requires
        forall|i: int| 0 <= i < events.len() ==> (#[trigger] events[i]).1.aggregate_id != id,
    ensures
        versions_of(events, id) == Seq::<u64>::empty(),
    decreases events.len(),
{
    if events.len() > 0 {
        let front = events.drop_last();
        assert forall|i: int| 0 <= i < front.len() implies (#[trigger] front[i]).1.aggregate_id
            != id by {
            assert(events[i].1.aggregate_id != id);
        }
        no_versions(front, id);
        assert(events[events.len() - 1].1.aggregate_id != id);
    }
}

proof fn versions_push(events: Seq<(u64, EventRowView)>, p: (u64, EventRowView), id: u64)
    ensures
        versions_of(events.push(p), id) == if p.1.aggregate_id == id {
            versions_of(events, id).push(p.1.aggregate_version)
        } else {
            versions_of(events, id)
        },
{
    assert(events.push(p).drop_last() =~= events);
}

proof fn counting_on(n: u64)
    requires
        n < u64::MAX,
    ensures
        insert_number(one_to(n), (n + 1) as u64) == one_to((n + 1) as u64),
{
    let s = one_to(n);
    if s.len() > 0 {
        assert(s.last() == n);
    }
    assert(s.push((n + 1) as u64) =~= one_to((n + 1) as u64));
}

proof fn no_receipts(receipts: Seq<(Seq<char>, ReceiptRowView)>, id: u64)
    requires
        forall|i: int| 0 <= i < receipts.len() ==> (#[trigger] receipts[i]).1.transition_ref != id,
    ensures
        receipt_count(receipts, id) == 0,
    decreases receipts.len(),
{
    if receipts.len() > 0 {
        let front = receipts.drop_last();
        assert forall|i: int| 0 <= i < front.len() implies (#[trigger] front[i]).1.transition_ref
            != id by {
            assert(receipts[i].1.transition_ref != id);
        }
        no_receipts(front, id);
        assert(receipts[receipts.len() - 1].1.transition_ref != id);
    }
}

proof fn receipts_push(
    receipts: Seq<(Seq<char>, ReceiptRowView)>,
    p: (Seq<char>, ReceiptRowView),
    id: u64,
)
    ensures
        receipt_count(receipts.push(p), id) == receipt_count(receipts, id) + if p.1.transition_ref
            == id {
            1nat
        } else {
            0nat
        },
{
    assert(receipts.push(p).drop_last() =~= receipts);
}

/// An accepted commit of a well-formed spec keeps state, journal and receipts in agreement: from
/// a clean store no sequence of commits leads to a store that the auditor faults.
pub proof fn commits_keep_agreement(store: StoreView, spec: CommitSpecView)
    requires
        agrees(snapshot_of(store)),
        unique(store.units),
        fault_of(store, spec) is None,
        well_formed(store, spec),
        spec.expected_version < u64::MAX,
    ensures
        agrees(snapshot_of(applied(store, spec))),
{
    let old_snap = snapshot_of(store);
    let new_snap = snapshot_of(applied(store, spec));
    snapshot_follows(store, spec);
    let id = spec.unit_id;
    let ev_id = spec.events[0].event_id;
    let ev_row = event_row(event_entry(spec.events[0]));
    let unit = unit_after(lookup(store.units, id), spec);
    unit_rows_follow(store.units, id, unit);
    event_rows_follow(store.events, ev_id, event_entry(spec.events[0]));
    place_from_rule(old_snap.units, id, 0);
    place_from_rule(old_snap.events, ev_id, 0);
    let at = place(old_snap.units, id);
    assert(unique(old_snap.units)) by {
        assert forall|i: int, j: int| 0 <= i < j < old_snap.units.len() implies (
        #[trigger] old_snap.units[i]).0 != (#[trigger] old_snap.units[j]).0 by {
            assert(store.units[i].0 != store.units[j].0);
        }
    }
    // The journal of the unit grows by its next version.
    if at < old_snap.units.len() {
        assert(sorted_numbers(versions_of(old_snap.events, id)) == one_to(spec.expected_version))
            by {
            assert(old_snap.units[at].0 == id);
        }
    } else {
        assert forall|i: int| 0 <= i < old_snap.events.len() implies (
        #[trigger] old_snap.events[i]).1.aggregate_id != id by {
            assert(lookup(old_snap.units, old_snap.events[i].1.aggregate_id) is Some);
        }
        no_versions(old_snap.events, id);
        assert(one_to(0) =~= Seq::<u64>::empty());
        assert(spec.expected_version == 0);
        assert(sorted_numbers(Seq::<u64>::empty()) =~= Seq::<u64>::empty());
        assert(sorted_numbers(versions_of(old_snap.events, id)) == one_to(spec.expected_version));
    }
    versions_push(old_snap.events, (ev_id, ev_row), id);
    let grown = versions_of(old_snap.events, id).push((spec.expected_version + 1) as u64);
    assert(grown.drop_last() =~= versions_of(old_snap.events, id));
    counting_on(spec.expected_version);
    assert(versions_of(new_snap.events, id) == grown);
    assert(grown.last() == (spec.expected_version + 1) as u64);
    assert(sorted_numbers(grown) == insert_number(
        sorted_numbers(grown.drop_last()),
        grown.last(),
    ));
    assert(sorted_numbers(versions_of(new_snap.events, id)) == one_to(
        (spec.expected_version + 1) as u64,
    ));
    assert forall|i: int| 0 <= i < new_snap.units.len() implies {
        &&& sorted_numbers(versions_of(new_snap.events, (#[trigger] new_snap.units[i]).0))
            == one_to(new_snap.units[i].1.version)
        &&& new_snap.units[i].1.artifact_ref is Some ==> new_snap.artifacts.contains(
            new_snap.units[i].1.artifact_ref->0,
        )
    } by {
        let p = new_snap.units[i];
        versions_push(old_snap.events, (ev_id, ev_row), p.0);
        if i == at {
            assert(p == (id, unit_row(unit)));
            if at < old_snap.units.len() {
                assert(old_snap.units[at].1 == unit_row(lookup(store.units, id)->0));
            }
            match spec.artifact_ref {
                Some(a) => {
                    assert(new_snap.artifacts == old_snap.artifacts.push(a));
                    assert(new_snap.artifacts[old_snap.artifacts.len() as int] == a);
                    if at < old_snap.units.len() {
                        assert(p.1.artifact_ref == Some(a));
                    }
                },
                None => {},
            }
        } else {
            assert(p == old_snap.units[i]);
            assert(p.0 != id);
            if p.1.artifact_ref is Some {
                artifacts_stay(store, spec, p.1.artifact_ref->0);
            }
        }
    }
    // Every event has its unit and one receipt.
    let key = receipt_key_of(id, spec.command_id);
    let receipt = ReceiptRowView { request_digest: spec.request_digest, transition_ref: ev_id };
    assert forall|i: int| 0 <= i < old_snap.receipts.len() implies (
    #[trigger] old_snap.receipts[i]).1.transition_ref != ev_id by {
        assert(lookup(old_snap.events, old_snap.receipts[i].1.transition_ref) is Some);
    }
    no_receipts(old_snap.receipts, ev_id);
    assert forall|i: int| 0 <= i < new_snap.events.len() implies {
        &&& lookup(new_snap.units, (#[trigger] new_snap.events[i]).1.aggregate_id) is Some
        &&& receipt_count(new_snap.receipts, new_snap.events[i].0) == 1
    } by {
        let p = new_snap.events[i];
        read_after_write(old_snap.units, id, unit_row(unit), p.1.aggregate_id);
        receipts_push(old_snap.receipts, (key, receipt), p.0);
        if i < old_snap.events.len() {
            assert(p == old_snap.events[i]);
            assert(p.0 != ev_id);
        } else {
            assert(p.0 == ev_id);
            assert(p.1.aggregate_id == id);
        }
    }
    // Every receipt has its event.
    assert forall|i: int| 0 <= i < new_snap.receipts.len() implies lookup(
        new_snap.events,
        (#[trigger] new_snap.receipts[i]).1.transition_ref,
    ) is Some by {
        let p = new_snap.receipts[i];
        read_after_write(old_snap.events, ev_id, ev_row, p.1.transition_ref);
        assert(new_snap.events == upsert(old_snap.events, ev_id, ev_row));
        if i < old_snap.receipts.len() {
            assert(p == old_snap.receipts[i]);
        }
    }
}

proof fn artifacts_stay(store: StoreView, spec: CommitSpecView, a: Seq<char>)
    requires
        store.artifacts.contains(a),
    ensures
        applied(store, spec).artifacts.contains(a),
{
    let i = choose|i: int| 0 <= i < store.artifacts.len() && store.artifacts[i] == a;
    assert(applied(store, spec).artifacts[i] == a);
}

/// A confirmed commit stays kept through every later commit: the journal and the receipts only
/// grow, and versions only rise.
pub proof fn kept_commits_stay_kept(store: StoreView, spec: CommitSpecView, rec: ConfirmedView)
    requires
        kept(snapshot_of(store), rec),
        fault_of(store, spec) is None,
        well_formed(store, spec),
        spec.expected_version < u64::MAX,
    ensures
        kept(snapshot_of(applied(store, spec)), rec),
{
    let old_snap = snapshot_of(store);
    let new_snap = snapshot_of(applied(store, spec));
    snapshot_follows(store, spec);
    let id = spec.unit_id;
    let ev_id = spec.events[0].event_id;
    let key = receipt_key_of(id, spec.command_id);
    let unit = unit_after(lookup(store.units, id), spec);
    unit_rows_follow(store.units, id, unit);
    unit_rows_follow(store.units, rec.spec.unit_id, unit);
    event_rows_follow(store.events, ev_id, event_entry(spec.events[0]));
    let receipt = ReceiptEntryView { request_digest: spec.request_digest, transition_ref: ev_id };
    receipt_rows_follow(store.receipts, key, receipt);
    read_after_write(
        old_snap.events,
        ev_id,
        event_row(event_entry(spec.events[0])),
        rec.spec.events[0].event_id,
    );
    read_after_write(old_snap.receipts, key, receipt_row(receipt), confirmed_key(rec));
    read_after_write(old_snap.units, id, unit_row(unit), rec.spec.unit_id);
    place_from_rule(old_snap.events, ev_id, 0);
    place_from_rule(old_snap.receipts, key, 0);
    assert(new_snap.events == upsert(
        old_snap.events,
        ev_id,
        event_row(event_entry(spec.events[0])),
    ));
    assert(new_snap.receipts == upsert(old_snap.receipts, key, receipt_row(receipt)));
}

/// A commit that was just accepted is kept.
pub proof fn accepted_commits_are_kept(store: StoreView, spec: CommitSpecView, rec: ConfirmedView)
    requires
        fault_of(store, spec) is None,
        well_formed(store, spec),
        spec.expected_version < u64::MAX,
        rec.spec == spec,
        !rec.stale_accepted,
    ensures
        kept(snapshot_of(applied(store, spec)), rec),
{
    let old_snap = snapshot_of(store);
    let new_snap = snapshot_of(applied(store, spec));
    snapshot_follows(store, spec);
    let id = spec.unit_id;
    let ev_id = spec.events[0].event_id;
    let key = receipt_key_of(id, spec.command_id);
    let unit = unit_after(lookup(store.units, id), spec);
    unit_rows_follow(store.units, id, unit);
    event_rows_follow(store.events, ev_id, event_entry(spec.events[0]));
    let receipt = ReceiptEntryView { request_digest: spec.request_digest, transition_ref: ev_id };
    receipt_rows_follow(store.receipts, key, receipt);
    read_after_write(old_snap.events, ev_id, event_row(event_entry(spec.events[0])), ev_id);
    read_after_write(old_snap.receipts, key, receipt_row(receipt), key);
    read_after_write(old_snap.units, id, unit_row(unit), id);
    place_from_rule(old_snap.events, ev_id, 0);
    place_from_rule(old_snap.receipts, key, 0);
    assert(new_snap.events == upsert(
        old_snap.events,
        ev_id,
        event_row(event_entry(spec.events[0])),
    ));
    assert(new_snap.receipts == upsert(old_snap.receipts, key, receipt_row(receipt)));
}

} // verus!
