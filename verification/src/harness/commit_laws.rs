//! What a commit of the harness does to its store, and what the auditor calls a fault: told by the
//! rows themselves.
use crate::harness::audit::{
    artifact_fault, claim_fault, dangling_fault, event_loss, journal_fault, nonterminal,
    receipt_count, receipt_loss, stale_fault, stray_fault, unit_loss, versions_of,
    AuditSnapshotView, Bar, EffectStoreRowView, EventRowView, ReceiptRowView, UnitRowView,
};
use crate::harness::schema::CommandKind;
use crate::harness::sidecar::ConfirmedView;
use crate::harness::store::{
    applied, fault_of, refusal, sorted_numbers, ApplyErrorView, AttemptEntryView, EffectEntryView,
    EventEntryView, LeaseEntryView, ReceiptEntryView, RejectionView, StoreView,
};
use crate::harness::workload::CommitSpecView;
use crate::table::{lookup, read_after_write};
use crate::text::dec;
use vstd::prelude::*;
use vstd::string::*;

verus! {

// --- Decisions -----------------------------------------------------------------------------------

/// What a spec is refused for: another version than the unit's; an epoch that is not the unit's, or
/// for a dispatch not the next one; another holder than the unit's, but for a dispatch; or a unit
/// that is not there, but for a first dispatch.
pub proof fn specs_are_decided(store: StoreView, spec: CommitSpecView)
    ensures
        ({
            let r = refusal(store, spec);
            let held = lookup(store.units, spec.unit_id);
            let u = held->0;
            let dispatch = spec.kind == CommandKind::Dispatch;
            let timely = held is Some && spec.expected_version == u.version;
            let leased = timely && spec.attempt_epoch == if dispatch {
                u.attempt_epoch + 1
            } else {
                u.attempt_epoch as int
            };
            &&& r is None <==> {
                ||| leased && (dispatch || spec.holder_id == u.holder_id)
                ||| held is None && dispatch && spec.expected_version == 0
            }
            &&& held is Some && !timely ==> r == Some(
                RejectionView::StaleVersion {
                    unit_id: spec.unit_id,
                    expected: spec.expected_version,
                    actual: u.version,
                },
            )
            &&& timely && !leased ==> r == Some(
                RejectionView::StaleLease {
                    unit_id: spec.unit_id,
                    claimed_epoch: spec.attempt_epoch,
                    current_epoch: u.attempt_epoch,
                },
            )
            &&& leased && !dispatch && spec.holder_id != u.holder_id ==> r == Some(
                RejectionView::StaleHolder {
                    unit_id: spec.unit_id,
                    claimed_holder: spec.holder_id,
                    current_holder: u.holder_id,
                },
            )
            &&& held is None && r is Some ==> r == Some(
                RejectionView::UnknownUnit { unit_id: spec.unit_id },
            )
            &&& r is Some ==> fault_of(store, spec) == Some(ApplyErrorView::Rejected(r->0))
            &&& fault_of(store, spec) is None <==> r is None && (spec.kind
                == CommandKind::Cancellation || spec.kind == CommandKind::OwnerDecision ==> lookup(
                store.attempts,
                dec(spec.unit_id as nat) + "/"@ + dec(spec.attempt_epoch as nat),
            ) is Some)
        }),
{
}

/// What an accepted spec leaves in the store: the unit one version further on and in its new phase;
/// a dispatch opens the attempt and its lease under the new epoch and holder, a renewal extends the
/// lease, a cancellation or a decision ends the attempt; and the event, the receipt, the effect and
/// the artifact that it carries. Nothing else changes.
#[verifier::spinoff_prover]
#[verifier::rlimit(40)]
pub proof fn specs_are_applied(store: StoreView, spec: CommitSpecView)
    requires
        spec.events.len() > 0,
        spec.expected_version < u64::MAX,
        fault_of(store, spec) is None,
    ensures
        ({
            let after = applied(store, spec);
            let id = spec.unit_id;
            let key = dec(id as nat) + "/"@ + dec(spec.attempt_epoch as nat);
            let held = lookup(store.units, id);
            let u = lookup(after.units, id)->0;
            let dispatch = spec.kind == CommandKind::Dispatch;
            let ev = spec.events[0];
            &&& lookup(after.units, id) is Some
            &&& u.version == spec.expected_version + 1
            &&& u.phase == spec.new_phase.name_text()
            &&& u.attempt_epoch == spec.attempt_epoch
            &&& u.holder_id == spec.holder_id
            &&& held is Some && spec.artifact_ref is Some ==> u.artifact_ref == spec.artifact_ref
            &&& held is Some && spec.artifact_ref is None ==> u.artifact_ref
                == held->0.artifact_ref
            &&& held is None ==> u.artifact_ref is None
            &&& forall|other: u64|
                other != id ==> #[trigger] lookup(after.units, other) == lookup(store.units, other)
            &&& dispatch ==> lookup(after.attempts, key) == Some(
                AttemptEntryView {
                    unit_id: id,
                    attempt_epoch: spec.attempt_epoch,
                    holder_id: spec.holder_id,
                    state: "active"@,
                },
            ) && lookup(after.leases, key) == Some(
                LeaseEntryView {
                    holder_id: spec.holder_id,
                    expiry: (spec.step + 100) as u64,
                    last_renewal: spec.step as u64,
                },
            )
            &&& spec.kind == CommandKind::Cancellation ==> lookup(after.attempts, key) == Some(
                AttemptEntryView { state: "cancelled"@, ..lookup(store.attempts, key)->0 },
            )
            &&& spec.kind == CommandKind::OwnerDecision ==> lookup(after.attempts, key) == Some(
                AttemptEntryView { state: "decided"@, ..lookup(store.attempts, key)->0 },
            )
            &&& spec.kind == CommandKind::LeaseRenewal && lookup(store.leases, key) is Some
                ==> lookup(after.leases, key) == Some(
                LeaseEntryView {
                    expiry: (spec.step + 100) as u64,
                    last_renewal: spec.step as u64,
                    ..lookup(store.leases, key)->0
                },
            )
            &&& !dispatch && spec.kind != CommandKind::Cancellation && spec.kind
                != CommandKind::OwnerDecision ==> after.attempts == store.attempts
            &&& !dispatch && spec.kind != CommandKind::LeaseRenewal ==> after.leases
                == store.leases
            &&& forall|other: Seq<char>|
                other != key ==> #[trigger] lookup(after.attempts, other) == lookup(
                    store.attempts,
                    other,
                )
            &&& forall|other: Seq<char>|
                other != key ==> #[trigger] lookup(after.leases, other) == lookup(
                    store.leases,
                    other,
                )
            &&& lookup(after.events, ev.event_id) == Some(
                EventEntryView {
                    aggregate_id: ev.aggregate_id,
                    aggregate_version: ev.aggregate_version,
                    ordinal: ev.ordinal,
                    kind: ev.kind,
                    payload: ev.payload,
                    causation_ref: if ev.causation_ref is Some {
                        ev.causation_ref->0
                    } else {
                        0
                    },
                },
            )
            &&& forall|other: u64|
                other != ev.event_id ==> #[trigger] lookup(after.events, other) == lookup(
                    store.events,
                    other,
                )
            &&& lookup(
                after.receipts,
                dec(id as nat) + "/"@ + dec(spec.command_id as nat),
            ) == Some(
                ReceiptEntryView {
                    request_digest: spec.request_digest,
                    transition_ref: ev.event_id,
                },
            )
            &&& forall|other: Seq<char>|
                other != dec(id as nat) + "/"@ + dec(spec.command_id as nat) ==> #[trigger] lookup(
                    after.receipts,
                    other,
                ) == lookup(store.receipts, other)
            &&& spec.effect is Some ==> lookup(after.effects, spec.effect->0.intent_id) == Some(
                EffectEntryView {
                    operation_key: spec.effect->0.operation_key,
                    state: spec.effect->0.state.name_text(),
                    unit_id: id,
                    attempt_epoch: spec.attempt_epoch,
                },
            )
            &&& spec.effect is None ==> after.effects == store.effects
            &&& spec.artifact_ref is Some ==> after.artifacts == store.artifacts.push(
                spec.artifact_ref->0,
            )
            &&& spec.artifact_ref is None ==> after.artifacts == store.artifacts
        }),
{
    let after = applied(store, spec);
    let id = spec.unit_id;
    let key = dec(id as nat) + "/"@ + dec(spec.attempt_epoch as nat);
    let ev = spec.events[0];
    let unit = crate::harness::store::unit_after(lookup(store.units, id), spec);
    let event = crate::harness::store::event_entry(ev);
    let own = dec(id as nat) + "/"@ + dec(spec.command_id as nat);
    let receipt = ReceiptEntryView {
        request_digest: spec.request_digest,
        transition_ref: ev.event_id,
    };
    read_after_write(store.units, id, unit, id);
    read_after_write(store.events, ev.event_id, event, ev.event_id);
    read_after_write(store.receipts, own, receipt, own);
    assert forall|other: u64| other != id implies #[trigger] lookup(after.units, other) == lookup(
        store.units,
        other,
    ) by {
        read_after_write(store.units, id, unit, other);
    }
    assert forall|other: u64| other != ev.event_id implies #[trigger] lookup(after.events, other)
        == lookup(store.events, other) by {
        read_after_write(store.events, ev.event_id, event, other);
    }
    assert forall|other: Seq<char>| other != own implies #[trigger] lookup(after.receipts, other)
        == lookup(store.receipts, other) by {
        read_after_write(store.receipts, own, receipt, other);
    }
    if spec.effect is Some {
        let e = spec.effect->0;
        let row = EffectEntryView {
            operation_key: e.operation_key,
            state: e.state.name_text(),
            unit_id: id,
            attempt_epoch: spec.attempt_epoch,
        };
        read_after_write(store.effects, e.intent_id, row, e.intent_id);
    }
    let attempt = if spec.kind == CommandKind::Dispatch {
        AttemptEntryView {
            unit_id: id,
            attempt_epoch: spec.attempt_epoch,
            holder_id: spec.holder_id,
            state: "active"@,
        }
    } else if spec.kind == CommandKind::Cancellation {
        AttemptEntryView { state: "cancelled"@, ..lookup(store.attempts, key)->0 }
    } else {
        AttemptEntryView { state: "decided"@, ..lookup(store.attempts, key)->0 }
    };
    read_after_write(store.attempts, key, attempt, key);
    assert forall|other: Seq<char>| other != key implies #[trigger] lookup(after.attempts, other)
        == lookup(store.attempts, other) by {
        read_after_write(store.attempts, key, attempt, other);
    }
    let lease = if spec.kind == CommandKind::Dispatch {
        LeaseEntryView {
            holder_id: spec.holder_id,
            expiry: (spec.step + 100) as u64,
            last_renewal: spec.step as u64,
        }
    } else {
        LeaseEntryView {
            expiry: (spec.step + 100) as u64,
            last_renewal: spec.step as u64,
            ..lookup(store.leases, key)->0
        }
    };
    read_after_write(store.leases, key, lease, key);
    assert forall|other: Seq<char>| other != key implies #[trigger] lookup(after.leases, other)
        == lookup(store.leases, other) by {
        read_after_write(store.leases, key, lease, other);
    }
}

// --- Faults --------------------------------------------------------------------------------------

/// What is lost of a confirmed commit: its event, where it is not there or has another payload; its
/// receipt, where it is not there; and its unit, where it is not there or not that far. A receipt
/// that says otherwise is a disagreement, and a stale spec that was accepted a fault of its own.
pub proof fn losses_have_their_bars(snap: AuditSnapshotView, rec: ConfirmedView)
    ensures
        ({
            let ev = rec.spec.events[0];
            let event = lookup(snap.events, ev.event_id);
            let receipt = lookup(
                snap.receipts,
                dec(rec.spec.unit_id as nat) + "/"@ + dec(rec.spec.command_id as nat),
            );
            let unit = lookup(snap.units, rec.spec.unit_id);
            &&& stale_fault(rec) is Some <==> rec.stale_accepted
            &&& stale_fault(rec) is Some ==> stale_fault(rec)->0.bar == Bar::StaleLeaseAcceptance
            &&& event_loss(snap, rec) is Some <==> event is None || event->0.payload != ev.payload
            &&& event_loss(snap, rec) is Some ==> event_loss(snap, rec)->0.bar
                == Bar::CommittedTransitionLoss
            &&& receipt_loss(snap, rec) is Some <==> receipt is None || receipt->0.request_digest
                != rec.spec.request_digest || receipt->0.transition_ref != ev.event_id
            &&& receipt is None ==> receipt_loss(snap, rec)->0.bar == Bar::CommittedTransitionLoss
            &&& receipt is Some && receipt_loss(snap, rec) is Some ==> receipt_loss(
                snap,
                rec,
            )->0.bar == Bar::Agreement
            &&& unit_loss(snap, rec) is Some <==> unit is None || unit->0.version
                < ev.aggregate_version
            &&& unit_loss(snap, rec) is Some ==> unit_loss(snap, rec)->0.bar
                == Bar::CommittedTransitionLoss
        }),
{
}

/// What state, journal and receipts disagree in: a journal that does not hold exactly the versions
/// of its unit, an artifact that is not there, or an event without a receipt breaks atomicity; an
/// event of no unit or with several receipts, or a receipt of no event, breaks agreement.
pub proof fn disagreements_have_their_bars(
    snap: AuditSnapshotView,
    id: u64,
    unit: UnitRowView,
    row: EventRowView,
    n: int,
)
    ensures
        journal_fault(snap, id, unit) is Some <==> sorted_numbers(versions_of(snap.events, id))
            != Seq::new(unit.version as nat, |i: int| (i + 1) as u64),
        journal_fault(snap, id, unit) is Some ==> journal_fault(snap, id, unit)->0.bar
            == Bar::Atomicity,
        artifact_fault(snap, id, unit) is Some <==> unit.artifact_ref is Some
            && !snap.artifacts.contains(unit.artifact_ref->0),
        artifact_fault(snap, id, unit) is Some ==> artifact_fault(snap, id, unit)->0.bar
            == Bar::Atomicity,
        claim_fault(snap, id, row) is None <==> receipt_count(snap.receipts, id) == 1,
        receipt_count(snap.receipts, id) == 0 ==> claim_fault(snap, id, row)->0.bar
            == Bar::Atomicity,
        receipt_count(snap.receipts, id) > 1 ==> claim_fault(snap, id, row)->0.bar
            == Bar::Agreement,
        stray_fault(snap, n) is Some ==> stray_fault(snap, n)->0.bar == Bar::Agreement && lookup(
            snap.units,
            snap.events[n].1.aggregate_id,
        ) is None,
        dangling_fault(snap, n) is Some ==> dangling_fault(snap, n)->0.bar == Bar::Agreement
            && lookup(snap.events, snap.receipts[n].1.transition_ref) is None,
{
}

/// The versions that a journal holds of an aggregate are those of its events, in order.
pub proof fn versions_are_of_the_events(events: Seq<(u64, EventRowView)>, id: u64)
    ensures
        versions_of(events, id) == events.filter(
            |e: (u64, EventRowView)| e.1.aggregate_id == id,
        ).map_values(|e: (u64, EventRowView)| e.1.aggregate_version),
    decreases events.len(),
{
    reveal(Seq::filter);
    let own = |e: (u64, EventRowView)| e.1.aggregate_id == id;
    let version = |e: (u64, EventRowView)| e.1.aggregate_version;
    if events.len() > 0 {
        versions_are_of_the_events(events.drop_last(), id);
        let front = events.drop_last().filter(own);
        if own(events.last()) {
            assert(front.push(events.last()).map_values(version) =~= front.map_values(version).push(
                version(events.last()),
            ));
        }
    } else {
        assert(events.filter(own).map_values(version) =~= Seq::<u64>::empty());
    }
}

/// The receipts that are counted of an event are those that reference it.
pub proof fn receipts_are_counted(receipts: Seq<(Seq<char>, ReceiptRowView)>, id: u64)
    ensures
        receipt_count(receipts, id) == receipts.filter(
            |r: (Seq<char>, ReceiptRowView)| r.1.transition_ref == id,
        ).len(),
    decreases receipts.len(),
{
    reveal(Seq::filter);
    if receipts.len() > 0 {
        receipts_are_counted(receipts.drop_last(), id);
    }
}

/// Whether an intent is open: prepared or dispatched, with no other state under its key.
pub open spec fn is_open_intent(all: Seq<(u64, EffectStoreRowView)>, e: EffectStoreRowView) -> bool {
    &&& e.state == "Prepared"@ || e.state == "Dispatched"@
    &&& forall|k: int|
        0 <= k < all.len() && (#[trigger] all[k]).1.operation_key == e.operation_key ==> all[k].1.state
            == "Prepared"@ || all[k].1.state == "Dispatched"@
}

/// The intents that are reported open are the ones that are, in order.
pub proof fn open_intents_are_reported(
    all: Seq<(u64, EffectStoreRowView)>,
    effects: Seq<(u64, EffectStoreRowView)>,
)
    ensures
        nonterminal(all, effects) == effects.filter(
            |e: (u64, EffectStoreRowView)| is_open_intent(all, e.1),
        ).map_values(|e: (u64, EffectStoreRowView)| e.0),
    decreases effects.len(),
{
    reveal(Seq::filter);
    let open = |e: (u64, EffectStoreRowView)| is_open_intent(all, e.1);
    let id = |e: (u64, EffectStoreRowView)| e.0;
    if effects.len() > 0 {
        open_intents_are_reported(all, effects.drop_last());
        let front = effects.drop_last().filter(open);
        if open(effects.last()) {
            assert(front.push(effects.last()).map_values(id) =~= front.map_values(id).push(
                id(effects.last()),
            ));
        }
    } else {
        assert(effects.filter(open).map_values(id) =~= Seq::<u64>::empty());
    }
}

/// What the auditor reads of a store is what its rows say, one by one and in order.
pub proof fn snapshots_mirror_the_store(store: StoreView, i: int)
    ensures
        ({
            let snap = crate::harness::audit::snapshot_of(store);
            &&& snap.units.len() == store.units.len()
            &&& snap.events.len() == store.events.len()
            &&& snap.receipts.len() == store.receipts.len()
            &&& snap.effects.len() == store.effects.len()
            &&& snap.artifacts == store.artifacts
            &&& 0 <= i < store.units.len() ==> {
                &&& snap.units[i].0 == store.units[i].0
                &&& snap.units[i].1.version == store.units[i].1.version
                &&& snap.units[i].1.attempt_epoch == store.units[i].1.attempt_epoch
                &&& snap.units[i].1.phase == store.units[i].1.phase
                &&& snap.units[i].1.artifact_ref == store.units[i].1.artifact_ref
            }
            &&& 0 <= i < store.events.len() ==> {
                &&& snap.events[i].0 == store.events[i].0
                &&& snap.events[i].1.aggregate_id == store.events[i].1.aggregate_id
                &&& snap.events[i].1.aggregate_version == store.events[i].1.aggregate_version
                &&& snap.events[i].1.payload == store.events[i].1.payload
            }
            &&& 0 <= i < store.receipts.len() ==> {
                &&& snap.receipts[i].0 == store.receipts[i].0
                &&& snap.receipts[i].1.request_digest == store.receipts[i].1.request_digest
                &&& snap.receipts[i].1.transition_ref == store.receipts[i].1.transition_ref
            }
            &&& 0 <= i < store.effects.len() ==> {
                &&& snap.effects[i].0 == store.effects[i].0
                &&& snap.effects[i].1.operation_key == store.effects[i].1.operation_key
                &&& snap.effects[i].1.state == store.effects[i].1.state
                &&& snap.effects[i].1.unit_id == store.effects[i].1.unit_id
            }
        }),
{
}

} // verus!
