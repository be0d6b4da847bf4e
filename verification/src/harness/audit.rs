//! The auditor: zero-tolerance scoring of a recovered store against the confirmed commits.
//!
//! A confirmed commit must be fully present. A durable commit that was not confirmed is legal,
//! but must still be internally consistent. The auditor names the affected rows; it never
//! repairs.
use crate::harness::sidecar::{record_views, Confirmed, ConfirmedView};
use crate::harness::store::{
    sort_numbers, sorted_numbers, EffectEntryView, EventEntryView, ReceiptEntryView, Store,
    StoreView, UnitEntryView,
};
use crate::table::{lookup, place, place_from_rule, unique, upsert, IdTable, Table};
use crate::text::{dec, decimal, holds, opt_view, same, views};
use vstd::prelude::*;
use vstd::string::*;

verus! {

/// The bars that an audit scores.
#[derive(Debug, Clone, Copy, PartialEq, Eq, Structural)]
pub enum Bar {
    /// Current state without its paired journal event, or the reverse.
    Atomicity,
    /// A confirmed commit is missing or different after reopen.
    CommittedTransitionLoss,
    /// Receipt, state and event disagree after recovery.
    Agreement,
    /// A spec that was planned to be stale was accepted.
    StaleLeaseAcceptance,
}

/// One violation, which names the affected row.
#[derive(Debug)]
pub struct Violation {
    pub bar: Bar,
    pub detail: String,
}

/// The view of a `Violation`.
pub struct ViolationView {
    pub bar: Bar,
    pub detail: Seq<char>,
}

impl View for Violation {
    type V = ViolationView;

    open spec fn view(&self) -> ViolationView {
        ViolationView {
            bar: self.bar,
            detail: self.detail@,
        }
    }
}

/// The result of an audit. Nonterminal effect intents are reported, not counted as violations.
#[derive(Debug)]
pub struct AuditReport {
    pub violations: Vec<Violation>,
    pub nonterminal_intents: Vec<u64>,
    pub units_checked: usize,
    pub events_checked: usize,
    pub confirmed_checked: usize,
}

/// A unit, as the auditor reads it.
#[derive(Debug)]
pub struct UnitRow {
    pub version: u64,
    pub attempt_epoch: u32,
    pub phase: String,
    pub artifact_ref: Option<String>,
}

/// The view of a `UnitRow`.
pub struct UnitRowView {
    pub version: u64,
    pub attempt_epoch: u32,
    pub phase: Seq<char>,
    pub artifact_ref: Option<Seq<char>>,
}

impl View for UnitRow {
    type V = UnitRowView;

    open spec fn view(&self) -> UnitRowView {
        UnitRowView {
            version: self.version,
            attempt_epoch: self.attempt_epoch,
            phase: self.phase@,
            artifact_ref: opt_view(self.artifact_ref),
        }
    }
}

/// An event, as the auditor reads it.
#[derive(Debug)]
pub struct EventRow {
    pub aggregate_id: u64,
    pub aggregate_version: u64,
    pub payload: String,
}

/// The view of a `EventRow`.
pub struct EventRowView {
    pub aggregate_id: u64,
    pub aggregate_version: u64,
    pub payload: Seq<char>,
}

impl View for EventRow {
    type V = EventRowView;

    open spec fn view(&self) -> EventRowView {
        EventRowView {
            aggregate_id: self.aggregate_id,
            aggregate_version: self.aggregate_version,
            payload: self.payload@,
        }
    }
}

/// A receipt, as the auditor reads it.
#[derive(Debug)]
pub struct ReceiptRow {
    pub request_digest: String,
    pub transition_ref: u64,
}

/// The view of a `ReceiptRow`.
pub struct ReceiptRowView {
    pub request_digest: Seq<char>,
    pub transition_ref: u64,
}

impl View for ReceiptRow {
    type V = ReceiptRowView;

    open spec fn view(&self) -> ReceiptRowView {
        ReceiptRowView {
            request_digest: self.request_digest@,
            transition_ref: self.transition_ref,
        }
    }
}

/// An effect observation, as the auditor reads it.
#[derive(Debug)]
pub struct EffectStoreRow {
    pub operation_key: String,
    pub state: String,
    pub unit_id: u64,
}

/// The view of a `EffectStoreRow`.
pub struct EffectStoreRowView {
    pub operation_key: Seq<char>,
    pub state: Seq<char>,
    pub unit_id: u64,
}

impl View for EffectStoreRow {
    type V = EffectStoreRowView;

    open spec fn view(&self) -> EffectStoreRowView {
        EffectStoreRowView {
            operation_key: self.operation_key@,
            state: self.state@,
            unit_id: self.unit_id,
        }
    }
}

/// The rows that the auditor scores.
#[derive(Debug)]
pub struct AuditSnapshot {
    pub units: IdTable<UnitRow>,
    pub events: IdTable<EventRow>,
    pub receipts: Table<ReceiptRow>,
    pub effects: IdTable<EffectStoreRow>,
    pub artifacts: Vec<String>,
}

/// The view of an `AuditSnapshot`.
pub struct AuditSnapshotView {
    pub units: Seq<(u64, UnitRowView)>,
    pub events: Seq<(u64, EventRowView)>,
    pub receipts: Seq<(Seq<char>, ReceiptRowView)>,
    pub effects: Seq<(u64, EffectStoreRowView)>,
    pub artifacts: Seq<Seq<char>>,
}

impl View for AuditSnapshot {
    type V = AuditSnapshotView;

    open spec fn view(&self) -> AuditSnapshotView {
        AuditSnapshotView {
            units: self.units@,
            events: self.events@,
            receipts: self.receipts@,
            effects: self.effects@,
            artifacts: views(self.artifacts@),
        }
    }
}

/// What the auditor reads of a unit.
pub open spec fn unit_row(e: UnitEntryView) -> UnitRowView {
    UnitRowView {
        version: e.version,
        attempt_epoch: e.attempt_epoch,
        phase: e.phase,
        artifact_ref: e.artifact_ref,
    }
}

/// What the auditor reads of the units.
pub open spec fn unit_rows(rows: Seq<(u64, UnitEntryView)>) -> Seq<(u64, UnitRowView)> {
    Seq::new(rows.len(), |i: int| (rows[i].0, unit_row(rows[i].1)))
}

/// What the auditor reads of an event.
pub open spec fn event_row(e: EventEntryView) -> EventRowView {
    EventRowView {
        aggregate_id: e.aggregate_id,
        aggregate_version: e.aggregate_version,
        payload: e.payload,
    }
}

/// What the auditor reads of the events.
pub open spec fn event_rows(rows: Seq<(u64, EventEntryView)>) -> Seq<(u64, EventRowView)> {
    Seq::new(rows.len(), |i: int| (rows[i].0, event_row(rows[i].1)))
}

/// What the auditor reads of a receipt.
pub open spec fn receipt_row(e: ReceiptEntryView) -> ReceiptRowView {
    ReceiptRowView { request_digest: e.request_digest, transition_ref: e.transition_ref }
}

/// What the auditor reads of the receipts.
pub open spec fn receipt_rows(rows: Seq<(Seq<char>, ReceiptEntryView)>) -> Seq<(Seq<char>, ReceiptRowView)> {
    Seq::new(rows.len(), |i: int| (rows[i].0, receipt_row(rows[i].1)))
}

/// What the auditor reads of an effect.
pub open spec fn effect_row(e: EffectEntryView) -> EffectStoreRowView {
    EffectStoreRowView { operation_key: e.operation_key, state: e.state, unit_id: e.unit_id }
}

/// What the auditor reads of the effects.
pub open spec fn effect_rows(rows: Seq<(u64, EffectEntryView)>) -> Seq<(u64, EffectStoreRowView)> {
    Seq::new(rows.len(), |i: int| (rows[i].0, effect_row(rows[i].1)))
}

/// What the auditor reads of a store.
pub open spec fn snapshot_of(store: StoreView) -> AuditSnapshotView {
    AuditSnapshotView {
        units: unit_rows(store.units),
        events: event_rows(store.events),
        receipts: receipt_rows(store.receipts),
        effects: effect_rows(store.effects),
        artifacts: store.artifacts,
    }
}

proof fn mapped_push<K, A, B>(rows: Seq<(K, A)>, out: Seq<(K, B)>, key: K, row: B)
    requires
        unique(rows),
        out.len() < rows.len(),
        forall|i: int| 0 <= i < out.len() ==> (#[trigger] out[i]).0 == rows[i].0,
        key == rows[out.len() as int].0,
    ensures
        upsert(out, key, row) == out.push((key, row)),
{
    place_from_rule(out, key, 0);
    let p = place(out, key);
    if p < out.len() {
        assert(rows[p].0 == key);
    }
}

impl Store {
    /// One coherent reading of the rows for the auditor.
    pub fn audit_snapshot(&self) -> (r: AuditSnapshot)
        ensures
            r@ == snapshot_of(self@),
    {
        let mut units: IdTable<UnitRow> = IdTable::new();
        let mut i: usize = 0;
        proof {
            assert(unit_rows(self@.units).take(0) =~= Seq::<(u64, UnitRowView)>::empty());
        }
        let n_units: usize = self.units.len();
        while i < n_units
            invariant
                n_units == self@.units.len(),
                i <= self@.units.len(),
                unique(self@.units),
                units@ == unit_rows(self@.units).take(i as int),
            decreases self@.units.len() - i,
        {
            let key: u64 = self.units.key_at(i);
            let e = self.units.row_at(i);
            proof {
                mapped_push(self@.units, units@, key, unit_row(e@));
                assert(unit_rows(self@.units).take(i + 1) =~= unit_rows(self@.units).take(
                    i as int,
                ).push((key, unit_row(e@))));
            }
            units.set(
                key,
                UnitRow {
                    version: e.version,
                    attempt_epoch: e.attempt_epoch,
                    phase: e.phase.clone(),
                    artifact_ref: e.artifact_ref.clone(),
                },
            );
            i += 1;
        }
        proof {
            assert(unit_rows(self@.units).take(self@.units.len() as int) =~= unit_rows(
                self@.units,
            ));
        }
        let mut events: IdTable<EventRow> = IdTable::new();
        i = 0;
        proof {
            assert(event_rows(self@.events).take(0) =~= Seq::<(u64, EventRowView)>::empty());
        }
        let n_events: usize = self.events.len();
        while i < n_events
            invariant
                n_events == self@.events.len(),
                i <= self@.events.len(),
                unique(self@.events),
                events@ == event_rows(self@.events).take(i as int),
            decreases self@.events.len() - i,
        {
            let key: u64 = self.events.key_at(i);
            let e = self.events.row_at(i);
            proof {
                mapped_push(self@.events, events@, key, event_row(e@));
                assert(event_rows(self@.events).take(i + 1) =~= event_rows(self@.events).take(
                    i as int,
                ).push((key, event_row(e@))));
            }
            events.set(
                key,
                EventRow {
                    aggregate_id: e.aggregate_id,
                    aggregate_version: e.aggregate_version,
                    payload: e.payload.clone(),
                },
            );
            i += 1;
        }
        proof {
            assert(event_rows(self@.events).take(self@.events.len() as int) =~= event_rows(
                self@.events,
            ));
        }
        let mut receipts: Table<ReceiptRow> = Table::new();
        i = 0;
        proof {
            assert(
                receipt_rows(self@.receipts).take(0) =~= Seq::<(Seq<char>, ReceiptRowView)>::empty()
            );
        }
        let n_receipts: usize = self.receipts.len();
        while i < n_receipts
            invariant
                n_receipts == self@.receipts.len(),
                i <= self@.receipts.len(),
                unique(self@.receipts),
                receipts@ == receipt_rows(self@.receipts).take(i as int),
            decreases self@.receipts.len() - i,
        {
            let key = self.receipts.key_at(i);
            let e = self.receipts.row_at(i);
            proof {
                mapped_push(self@.receipts, receipts@, key@, receipt_row(e@));
                assert(receipt_rows(self@.receipts).take(i + 1) =~= receipt_rows(self@.receipts).take(
                    i as int,
                ).push((key@, receipt_row(e@))));
            }
            receipts.set(
                key,
                ReceiptRow {
                    request_digest: e.request_digest.clone(),
                    transition_ref: e.transition_ref,
                },
            );
            i += 1;
        }
        proof {
            assert(receipt_rows(self@.receipts).take(self@.receipts.len() as int) =~= receipt_rows(
                self@.receipts,
            ));
        }
        let mut effects: IdTable<EffectStoreRow> = IdTable::new();
        i = 0;
        proof {
            assert(effect_rows(self@.effects).take(0) =~= Seq::<(u64, EffectStoreRowView)>::empty());
        }
        let n_effects: usize = self.effects.len();
        while i < n_effects
            invariant
                n_effects == self@.effects.len(),
                i <= self@.effects.len(),
                unique(self@.effects),
                effects@ == effect_rows(self@.effects).take(i as int),
            decreases self@.effects.len() - i,
        {
            let key: u64 = self.effects.key_at(i);
            let e = self.effects.row_at(i);
            proof {
                mapped_push(self@.effects, effects@, key, effect_row(e@));
                assert(effect_rows(self@.effects).take(i + 1) =~= effect_rows(self@.effects).take(
                    i as int,
                ).push((key, effect_row(e@))));
            }
            effects.set(
                key,
                EffectStoreRow {
                    operation_key: e.operation_key.clone(),
                    state: e.state.clone(),
                    unit_id: e.unit_id,
                },
            );
            i += 1;
        }
        proof {
            assert(effect_rows(self@.effects).take(self@.effects.len() as int) =~= effect_rows(
                self@.effects,
            ));
        }
        AuditSnapshot {
            units,
            events,
            receipts,
            effects,
            artifacts: crate::text::copy_list(&self.artifacts),
        }
    }
}

// --- Confirmed commits ---------------------------------------------------------------------------

/// A violation.
pub open spec fn violation(bar: Bar, detail: Seq<char>) -> ViolationView {
    ViolationView { bar, detail }
}

/// The violation of an accepted stale spec.
pub open spec fn stale_fault(rec: ConfirmedView) -> Option<ViolationView> {
    if rec.stale_accepted {
        Some(
            violation(
                Bar::StaleLeaseAcceptance,
                "unit "@ + dec(rec.spec.unit_id as nat) + " accepted epoch "@ + dec(
                    rec.spec.attempt_epoch as nat,
                ) + " while current epoch was newer"@,
            ),
        )
    } else {
        None
    }
}

/// The violation of a confirmed event that is missing or different.
pub open spec fn event_loss(snap: AuditSnapshotView, rec: ConfirmedView) -> Option<ViolationView> {
    let ev = rec.spec.events[0];
    match lookup(snap.events, ev.event_id) {
        None => Some(
            violation(
                Bar::CommittedTransitionLoss,
                "event "@ + dec(ev.event_id as nat) + " (unit "@ + dec(ev.aggregate_id as nat)
                    + ", version "@ + dec(ev.aggregate_version as nat)
                    + ") confirmed durable but absent after reopen"@,
            ),
        ),
        Some(row) => if row.payload != ev.payload {
            Some(
                violation(
                    Bar::CommittedTransitionLoss,
                    "event "@ + dec(ev.event_id as nat) + " payload differs after reopen"@,
                ),
            )
        } else {
            None
        },
    }
}

/// The key of the receipt of a confirmed commit.
pub open spec fn confirmed_key(rec: ConfirmedView) -> Seq<char> {
    dec(rec.spec.unit_id as nat) + "/"@ + dec(rec.spec.command_id as nat)
}

/// The violation of a confirmed receipt that is missing or disagrees.
pub open spec fn receipt_loss(snap: AuditSnapshotView, rec: ConfirmedView) -> Option<
    ViolationView,
> {
    let key = confirmed_key(rec);
    match lookup(snap.receipts, key) {
        None => Some(
            violation(
                Bar::CommittedTransitionLoss,
                "receipt "@ + key + " confirmed durable but absent after reopen"@,
            ),
        ),
        Some(row) => if row.request_digest != rec.spec.request_digest || row.transition_ref
            != rec.spec.events[0].event_id {
            Some(
                violation(
                    Bar::Agreement,
                    "receipt "@ + key + " disagrees with its confirmed spec"@,
                ),
            )
        } else {
            None
        },
    }
}

/// The violation of a confirmed unit that is missing or behind.
pub open spec fn unit_loss(snap: AuditSnapshotView, rec: ConfirmedView) -> Option<ViolationView> {
    let ev = rec.spec.events[0];
    match lookup(snap.units, rec.spec.unit_id) {
        None => Some(
            violation(
                Bar::CommittedTransitionLoss,
                "unit "@ + dec(rec.spec.unit_id as nat)
                    + " confirmed durable but absent after reopen"@,
            ),
        ),
        Some(u) => if u.version < ev.aggregate_version {
            Some(
                violation(
                    Bar::CommittedTransitionLoss,
                    "unit "@ + dec(rec.spec.unit_id as nat) + " at version "@ + dec(
                        u.version as nat,
                    ) + " below confirmed transition "@ + dec(ev.aggregate_version as nat),
                ),
            )
        } else {
            None
        },
    }
}

/// A list with a violation added, where there is one.
pub open spec fn plus(list: Seq<ViolationView>, v: Option<ViolationView>) -> Seq<ViolationView> {
    match v {
        Some(x) => list.push(x),
        None => list,
    }
}

/// The violations of the confirmed commits.
pub open spec fn losses(snap: AuditSnapshotView, records: Seq<ConfirmedView>) -> Seq<ViolationView>
    decreases records.len(),
{
    if records.len() == 0 {
        Seq::empty()
    } else {
        let front = losses(snap, records.drop_last());
        let rec = records.last();
        plus(
            plus(
                plus(plus(front, stale_fault(rec)), event_loss(snap, rec)),
                receipt_loss(snap, rec),
            ),
            unit_loss(snap, rec),
        )
    }
}

// --- Agreement and atomicity ---------------------------------------------------------------------

/// The versions that the journal holds of an aggregate, in the order of the rows.
pub open spec fn versions_of(events: Seq<(u64, EventRowView)>, aggregate_id: u64) -> Seq<u64>
    decreases events.len(),
{
    if events.len() == 0 {
        Seq::empty()
    } else {
        let front = versions_of(events.drop_last(), aggregate_id);
        if events.last().1.aggregate_id == aggregate_id {
            front.push(events.last().1.aggregate_version)
        } else {
            front
        }
    }
}

/// The versions from 1 to `n`.
pub open spec fn one_to(n: u64) -> Seq<u64> {
    Seq::new(n as nat, |i: int| (i + 1) as u64)
}

/// A list of numbers as text.
pub open spec fn list_text(list: Seq<u64>) -> Seq<char> {
    "["@ + joined(list) + "]"@
}

/// Numbers separated by commas.
pub open spec fn joined(list: Seq<u64>) -> Seq<char>
    decreases list.len(),
{
    if list.len() == 0 {
        Seq::empty()
    } else {
        let front = joined(list.drop_last());
        let sep = if list.len() == 1 {
            front
        } else {
            front + ", "@
        };
        sep + dec(list.last() as nat)
    }
}

/// The violation of a unit whose journal does not hold exactly its versions.
pub open spec fn journal_fault(snap: AuditSnapshotView, id: u64, unit: UnitRowView) -> Option<
    ViolationView,
> {
    let versions = sorted_numbers(versions_of(snap.events, id));
    if versions != one_to(unit.version) {
        Some(
            violation(
                Bar::Atomicity,
                "unit "@ + dec(id as nat) + " at version "@ + dec(unit.version as nat)
                    + " has journal versions "@ + list_text(versions) + " (want 1..="@ + dec(
                    unit.version as nat,
                ) + ")"@,
            ),
        )
    } else {
        None
    }
}

/// The violation of a unit that references an artifact that is not there.
pub open spec fn artifact_fault(snap: AuditSnapshotView, id: u64, unit: UnitRowView) -> Option<
    ViolationView,
> {
    match unit.artifact_ref {
        Some(a) => if !snap.artifacts.contains(a) {
            Some(
                violation(
                    Bar::Atomicity,
                    "unit "@ + dec(id as nat) + " references unpublished artifact "@ + a,
                ),
            )
        } else {
            None
        },
        None => None,
    }
}

/// The violations of the units.
pub open spec fn unit_faults(snap: AuditSnapshotView, units: Seq<(u64, UnitRowView)>) -> Seq<
    ViolationView,
>
    decreases units.len(),
{
    if units.len() == 0 {
        Seq::empty()
    } else {
        let front = unit_faults(snap, units.drop_last());
        let last = units.last();
        plus(
            plus(front, journal_fault(snap, last.0, last.1)),
            artifact_fault(snap, last.0, last.1),
        )
    }
}

/// Whether an earlier event has the aggregate of the one at `n`.
pub open spec fn aggregate_seen(events: Seq<(u64, EventRowView)>, n: int) -> bool {
    exists|k: int|
        0 <= k < n && (#[trigger] events[k]).1.aggregate_id == events[n].1.aggregate_id
}

/// The violation of events without their unit, reported at the first of them.
pub open spec fn stray_fault(snap: AuditSnapshotView, n: int) -> Option<ViolationView> {
    let id = snap.events[n].1.aggregate_id;
    if lookup(snap.units, id) is None && !aggregate_seen(snap.events, n) {
        Some(
            violation(
                Bar::Agreement,
                "events "@ + list_text(versions_of(snap.events, id)) + " exist for unknown unit "@
                    + dec(id as nat),
            ),
        )
    } else {
        None
    }
}

/// The violations of events without their unit, among the first `n`.
pub open spec fn stray_faults(snap: AuditSnapshotView, n: nat) -> Seq<ViolationView>
    decreases n,
{
    if n == 0 {
        Seq::empty()
    } else {
        plus(stray_faults(snap, (n - 1) as nat), stray_fault(snap, n - 1))
    }
}

/// How many receipts reference an event.
pub open spec fn receipt_count(receipts: Seq<(Seq<char>, ReceiptRowView)>, event_id: u64) -> nat
    decreases receipts.len(),
{
    if receipts.len() == 0 {
        0
    } else {
        receipt_count(receipts.drop_last(), event_id) + if receipts.last().1.transition_ref
            == event_id {
            1nat
        } else {
            0nat
        }
    }
}

/// The violation of an event without exactly one receipt.
pub open spec fn claim_fault(snap: AuditSnapshotView, id: u64, row: EventRowView) -> Option<
    ViolationView,
> {
    let n = receipt_count(snap.receipts, id);
    if n == 1 {
        None
    } else if n == 0 {
        Some(
            violation(
                Bar::Atomicity,
                "event "@ + dec(id as nat) + " (unit "@ + dec(row.aggregate_id as nat)
                    + ") has no receipt"@,
            ),
        )
    } else {
        Some(
            violation(
                Bar::Agreement,
                "event "@ + dec(id as nat) + " (unit "@ + dec(row.aggregate_id as nat) + ") has "@
                    + dec(n) + " receipts"@,
            ),
        )
    }
}

/// The violations of events without exactly one receipt.
pub open spec fn claim_faults(snap: AuditSnapshotView, events: Seq<(u64, EventRowView)>) -> Seq<
    ViolationView,
>
    decreases events.len(),
{
    if events.len() == 0 {
        Seq::empty()
    } else {
        plus(
            claim_faults(snap, events.drop_last()),
            claim_fault(snap, events.last().0, events.last().1),
        )
    }
}

/// Whether an earlier receipt references the event of the one at `n`.
pub open spec fn reference_seen(receipts: Seq<(Seq<char>, ReceiptRowView)>, n: int) -> bool {
    exists|k: int|
        0 <= k < n && (#[trigger] receipts[k]).1.transition_ref == receipts[n].1.transition_ref
}

/// The violation of receipts without their event, reported at the first of them.
pub open spec fn dangling_fault(snap: AuditSnapshotView, n: int) -> Option<ViolationView> {
    let id = snap.receipts[n].1.transition_ref;
    if lookup(snap.events, id) is None && !reference_seen(snap.receipts, n) {
        Some(
            violation(
                Bar::Agreement,
                dec(receipt_count(snap.receipts, id)) + " receipt(s) reference nonexistent event "@
                    + dec(id as nat),
            ),
        )
    } else {
        None
    }
}

/// The violations of receipts without their event, among the first `n`.
pub open spec fn dangling_faults(snap: AuditSnapshotView, n: nat) -> Seq<ViolationView>
    decreases n,
{
    if n == 0 {
        Seq::empty()
    } else {
        plus(dangling_faults(snap, (n - 1) as nat), dangling_fault(snap, n - 1))
    }
}

/// All violations of a store.
pub open spec fn violations_of(snap: AuditSnapshotView, records: Seq<ConfirmedView>) -> Seq<
    ViolationView,
> {
    losses(snap, records) + unit_faults(snap, snap.units) + stray_faults(snap, snap.events.len())
        + claim_faults(snap, snap.events) + dangling_faults(snap, snap.receipts.len())
}

/// Whether an effect state is an open one.
pub open spec fn is_open_state(state: Seq<char>) -> bool {
    state == "Prepared"@ || state == "Dispatched"@
}

/// Whether an operation has a terminal observation.
pub open spec fn has_terminal(effects: Seq<(u64, EffectStoreRowView)>, key: Seq<char>) -> bool {
    exists|k: int|
        0 <= k < effects.len() && !is_open_state((#[trigger] effects[k]).1.state)
            && effects[k].1.operation_key == key
}

/// The intents that are open and have no terminal observation under their key.
pub open spec fn nonterminal(
    all: Seq<(u64, EffectStoreRowView)>,
    effects: Seq<(u64, EffectStoreRowView)>,
) -> Seq<u64>
    decreases effects.len(),
{
    if effects.len() == 0 {
        Seq::empty()
    } else {
        let front = nonterminal(all, effects.drop_last());
        let last = effects.last();
        if is_open_state(last.1.state) && !has_terminal(all, last.1.operation_key) {
            front.push(last.0)
        } else {
            front
        }
    }
}

// --- The auditor ---------------------------------------------------------------------------------

/// The views of a list of violations.
pub open spec fn violation_views(list: Seq<Violation>) -> Seq<ViolationView> {
    list.map_values(|v: Violation| v@)
}

fn report(list: &mut Vec<Violation>, bar: Bar, detail: String)
    ensures
        violation_views(final(list)@) == violation_views(old(list)@).push(violation(bar, detail@)),
{
    let ghost before = violation_views(list@);
    list.push(Violation { bar, detail });
    proof {
        assert(violation_views(list@) =~= before.push(violation(bar, detail@)));
    }
}

fn number_list(list: &Vec<u64>) -> (r: String)
    ensures
        r@ == list_text(list@),
{
    let mut out = String::new();
    let mut i: usize = 0;
    proof {
        assert(list@.take(0) =~= Seq::<u64>::empty());
    }
    while i < list.len()
        invariant
            i <= list.len(),
            out@ == joined(list@.take(i as int)),
        decreases list.len() - i,
    {
        proof {
            assert(list@.take(i + 1).drop_last() =~= list@.take(i as int));
        }
        if i > 0 {
            out.append(", ");
        }
        out.append(&decimal(list[i]));
        i += 1;
    }
    proof {
        assert(list@.take(list@.len() as int) =~= list@);
    }
    let mut s = "[".to_owned();
    s.append(&out);
    s.append("]");
    s
}

fn collect_versions(events: &IdTable<EventRow>, aggregate_id: u64) -> (r: Vec<u64>)
    ensures
        r@ == versions_of(events@, aggregate_id),
{
    let mut out: Vec<u64> = Vec::new();
    let mut i: usize = 0;
    proof {
        assert(events@.take(0) =~= Seq::<(u64, EventRowView)>::empty());
    }
    while i < events.len()
        invariant
            i <= events@.len(),
            out@ == versions_of(events@.take(i as int), aggregate_id),
        decreases events@.len() - i,
    {
        let row = events.row_at(i);
        proof {
            assert(events@.take(i + 1).drop_last() =~= events@.take(i as int));
        }
        if row.aggregate_id == aggregate_id {
            out.push(row.aggregate_version);
        }
        i += 1;
    }
    proof {
        assert(events@.take(events@.len() as int) =~= events@);
    }
    out
}

fn counts_up_to(list: &Vec<u64>, n: u64) -> (r: bool)
    ensures
        r == (list@ == one_to(n)),
{
    if list.len() as u64 != n {
        proof {
            assert(one_to(n).len() == n);
        }
        return false;
    }
    let mut i: usize = 0;
    while i < list.len()
        invariant
            i <= list.len(),
            list.len() == n,
            forall|k: int| 0 <= k < i ==> #[trigger] list@[k] == k + 1,
        decreases list.len() - i,
    {
        if list[i] != i as u64 + 1 {
            proof {
                assert(one_to(n)[i as int] == i + 1);
            }
            return false;
        }
        i += 1;
    }
    proof {
        assert(list@ =~= one_to(n));
    }
    true
}

fn count_receipts(receipts: &Table<ReceiptRow>, event_id: u64) -> (r: usize)
    ensures
        r == receipt_count(receipts@, event_id),
{
    let mut n: usize = 0;
    let mut i: usize = 0;
    proof {
        assert(receipts@.take(0) =~= Seq::<(Seq<char>, ReceiptRowView)>::empty());
    }
    while i < receipts.len()
        invariant
            n <= i <= receipts@.len(),
            n == receipt_count(receipts@.take(i as int), event_id),
        decreases receipts@.len() - i,
    {
        let row = receipts.row_at(i);
        proof {
            assert(receipts@.take(i + 1).drop_last() =~= receipts@.take(i as int));
        }
        if row.transition_ref == event_id {
            n += 1;
        }
        i += 1;
    }
    proof {
        assert(receipts@.take(receipts@.len() as int) =~= receipts@);
    }
    n
}

fn score_record(snap: &AuditSnapshot, rec: &Confirmed, v: &mut Vec<Violation>)
    requires
        rec@.spec.events.len() > 0,
    ensures
        violation_views(final(v)@) == plus(
            plus(
                plus(
                    plus(violation_views(old(v)@), stale_fault(rec@)),
                    event_loss(snap@, rec@),
                ),
                receipt_loss(snap@, rec@),
            ),
            unit_loss(snap@, rec@),
        ),
{
    if rec.stale_accepted {
        let mut d = "unit ".to_owned();
        d.append(&decimal(rec.spec.unit_id));
        d.append(" accepted epoch ");
        d.append(&decimal(rec.spec.attempt_epoch as u64));
        d.append(" while current epoch was newer");
        report(v, Bar::StaleLeaseAcceptance, d);
    }
    let ev = &rec.spec.events[0];
    proof {
        assert(rec@.spec.events[0] == ev@);
    }
    match snap.events.get(ev.event_id) {
        None => {
            let mut d = "event ".to_owned();
            d.append(&decimal(ev.event_id));
            d.append(" (unit ");
            d.append(&decimal(ev.aggregate_id));
            d.append(", version ");
            d.append(&decimal(ev.aggregate_version));
            d.append(") confirmed durable but absent after reopen");
            report(v, Bar::CommittedTransitionLoss, d);
        },
        Some(row) => {
            if !same(&row.payload, &ev.payload) {
                let mut d = "event ".to_owned();
                d.append(&decimal(ev.event_id));
                d.append(" payload differs after reopen");
                report(v, Bar::CommittedTransitionLoss, d);
            }
        },
    }
    let key = crate::harness::store::pair_key(rec.spec.unit_id, rec.spec.command_id);
    match snap.receipts.get(&key) {
        None => {
            let mut d = "receipt ".to_owned();
            d.append(&key);
            d.append(" confirmed durable but absent after reopen");
            report(v, Bar::CommittedTransitionLoss, d);
        },
        Some(row) => {
            if !same(&row.request_digest, &rec.spec.request_digest) || row.transition_ref
                != ev.event_id {
                let mut d = "receipt ".to_owned();
                d.append(&key);
                d.append(" disagrees with its confirmed spec");
                report(v, Bar::Agreement, d);
            }
        },
    }
    match snap.units.get(rec.spec.unit_id) {
        None => {
            let mut d = "unit ".to_owned();
            d.append(&decimal(rec.spec.unit_id));
            d.append(" confirmed durable but absent after reopen");
            report(v, Bar::CommittedTransitionLoss, d);
        },
        Some(u) => {
            if u.version < ev.aggregate_version {
                let mut d = "unit ".to_owned();
                d.append(&decimal(rec.spec.unit_id));
                d.append(" at version ");
                d.append(&decimal(u.version));
                d.append(" below confirmed transition ");
                d.append(&decimal(ev.aggregate_version));
                report(v, Bar::CommittedTransitionLoss, d);
            }
        },
    }
}

fn score_unit(snap: &AuditSnapshot, id: u64, unit: &UnitRow, v: &mut Vec<Violation>)
    ensures
        violation_views(final(v)@) == plus(
            plus(violation_views(old(v)@), journal_fault(snap@, id, unit@)),
            artifact_fault(snap@, id, unit@),
        ),
{
    let versions = sort_numbers(&collect_versions(&snap.events, id));
    if !counts_up_to(&versions, unit.version) {
        let mut d = "unit ".to_owned();
        d.append(&decimal(id));
        d.append(" at version ");
        d.append(&decimal(unit.version));
        d.append(" has journal versions ");
        d.append(&number_list(&versions));
        d.append(" (want 1..=");
        d.append(&decimal(unit.version));
        d.append(")");
        report(v, Bar::Atomicity, d);
    }
    if let Some(a) = &unit.artifact_ref {
        if !holds(&snap.artifacts, a) {
            let mut d = "unit ".to_owned();
            d.append(&decimal(id));
            d.append(" references unpublished artifact ");
            d.append(a);
            report(v, Bar::Atomicity, d);
        }
    }
}

fn score_stray(snap: &AuditSnapshot, n: usize, v: &mut Vec<Violation>)
    requires
        n < snap@.events.len(),
    ensures
        violation_views(final(v)@) == plus(violation_views(old(v)@), stray_fault(snap@, n as int)),
{
    let id: u64 = snap.events.row_at(n).aggregate_id;
    if snap.units.has(id) {
        return ;
    }
    let mut k: usize = 0;
    while k < n
        invariant
            k <= n < snap@.events.len(),
            id == snap@.events[n as int].1.aggregate_id,
            violation_views(v@) == violation_views(old(v)@),
            forall|j: int| 0 <= j < k ==> (#[trigger] snap@.events[j]).1.aggregate_id != id,
        decreases n - k,
    {
        if snap.events.row_at(k).aggregate_id == id {
            proof {
                assert(aggregate_seen(snap@.events, n as int));
            }
            return ;
        }
        k += 1;
    }
    let mut d = "events ".to_owned();
    d.append(&number_list(&collect_versions(&snap.events, id)));
    d.append(" exist for unknown unit ");
    d.append(&decimal(id));
    report(v, Bar::Agreement, d);
}

fn score_claim(snap: &AuditSnapshot, id: u64, row: &EventRow, v: &mut Vec<Violation>)
    ensures
        violation_views(final(v)@) == plus(
            violation_views(old(v)@),
            claim_fault(snap@, id, row@),
        ),
{
    let n: usize = count_receipts(&snap.receipts, id);
    if n == 1 {
        return ;
    }
    let mut d = "event ".to_owned();
    d.append(&decimal(id));
    d.append(" (unit ");
    d.append(&decimal(row.aggregate_id));
    if n == 0 {
        d.append(") has no receipt");
        report(v, Bar::Atomicity, d);
    } else {
        d.append(") has ");
        d.append(&decimal(n as u64));
        d.append(" receipts");
        report(v, Bar::Agreement, d);
    }
}

fn score_dangling(snap: &AuditSnapshot, n: usize, v: &mut Vec<Violation>)
    requires
        n < snap@.receipts.len(),
    ensures
        violation_views(final(v)@) == plus(
            violation_views(old(v)@),
            dangling_fault(snap@, n as int),
        ),
{
    let id: u64 = snap.receipts.row_at(n).transition_ref;
    if snap.events.has(id) {
        return ;
    }
    let mut k: usize = 0;
    while k < n
        invariant
            k <= n < snap@.receipts.len(),
            id == snap@.receipts[n as int].1.transition_ref,
            violation_views(v@) == violation_views(old(v)@),
            forall|j: int| 0 <= j < k ==> (#[trigger] snap@.receipts[j]).1.transition_ref != id,
        decreases n - k,
    {
        if snap.receipts.row_at(k).transition_ref == id {
            proof {
                assert(reference_seen(snap@.receipts, n as int));
            }
            return ;
        }
        k += 1;
    }
    let mut d = decimal(count_receipts(&snap.receipts, id) as u64);
    d.append(" receipt(s) reference nonexistent event ");
    d.append(&decimal(id));
    report(v, Bar::Agreement, d);
}

fn is_terminal_op(effects: &IdTable<EffectStoreRow>, key: &str) -> (r: bool)
    ensures
        r == has_terminal(effects@, key@),
{
    let mut i: usize = 0;
    while i < effects.len()
        invariant
            i <= effects@.len(),
            forall|k: int|
                0 <= k < i ==> !(!is_open_state((#[trigger] effects@[k]).1.state)
                    && effects@[k].1.operation_key == key@),
        decreases effects@.len() - i,
    {
        let row = effects.row_at(i);
        if !(same(&row.state, "Prepared") || same(&row.state, "Dispatched")) && same(
            &row.operation_key,
            key,
        ) {
            proof {
                assert(!is_open_state(effects@[i as int].1.state));
            }
            return true;
        }
        i += 1;
    }
    false
}

fn list_nonterminal(effects: &IdTable<EffectStoreRow>) -> (r: Vec<u64>)
    ensures
        r@ == nonterminal(effects@, effects@),
{
    let mut out: Vec<u64> = Vec::new();
    let mut i: usize = 0;
    proof {
        assert(effects@.take(0) =~= Seq::<(u64, EffectStoreRowView)>::empty());
    }
    while i < effects.len()
        invariant
            i <= effects@.len(),
            out@ == nonterminal(effects@, effects@.take(i as int)),
        decreases effects@.len() - i,
    {
        let row = effects.row_at(i);
        proof {
            assert(effects@.take(i + 1).drop_last() =~= effects@.take(i as int));
        }
        if (same(&row.state, "Prepared") || same(&row.state, "Dispatched")) && !is_terminal_op(
            effects,
            &row.operation_key,
        ) {
            out.push(effects.key_at(i));
        }
        i += 1;
    }
    proof {
        assert(effects@.take(effects@.len() as int) =~= effects@);
    }
    out
}

/// Whether every confirmed commit has its event.
pub open spec fn records_have_events(records: Seq<ConfirmedView>) -> bool {
    forall|i: int| 0 <= i < records.len() ==> (#[trigger] records[i]).spec.events.len() > 0
}

/// Scores a store against the confirmed commits.
pub fn score(snap: &AuditSnapshot, confirmed: &Vec<Confirmed>) -> (r: AuditReport)
    requires
        records_have_events(record_views(confirmed@)),
    ensures
        violation_views(r.violations@) == violations_of(snap@, record_views(confirmed@)),
        r.nonterminal_intents@ == nonterminal(snap@.effects, snap@.effects),
        r.units_checked == snap@.units.len(),
        r.events_checked == snap@.events.len(),
        r.confirmed_checked == confirmed@.len(),
{
    let ghost records = record_views(confirmed@);
    let mut v: Vec<Violation> = Vec::new();
    proof {
        assert(violation_views(v@) =~= Seq::<ViolationView>::empty());
        assert(records.take(0) =~= Seq::<ConfirmedView>::empty());
    }
    let mut i: usize = 0;
    while i < confirmed.len()
        invariant
            i <= confirmed.len(),
            records == record_views(confirmed@),
            records_have_events(records),
            violation_views(v@) == losses(snap@, records.take(i as int)),
        decreases confirmed.len() - i,
    {
        proof {
            assert(records[i as int] == confirmed@[i as int]@);
            assert(records.take(i + 1).drop_last() =~= records.take(i as int));
            assert(records.take(i + 1).last() == confirmed@[i as int]@);
        }
        score_record(snap, &confirmed[i], &mut v);
        i += 1;
    }
    proof {
        assert(records.take(records.len() as int) =~= records);
        assert(snap@.units.take(0) =~= Seq::<(u64, UnitRowView)>::empty());
    }
    let ghost a = losses(snap@, records);
    proof {
        assert(a + Seq::<ViolationView>::empty() =~= a);
    }
    i = 0;
    while i < snap.units.len()
        invariant
            i <= snap@.units.len(),
            violation_views(v@) == a + unit_faults(snap@, snap@.units.take(i as int)),
        decreases snap@.units.len() - i,
    {
        let id: u64 = snap.units.key_at(i);
        let row = snap.units.row_at(i);
        proof {
            assert(snap@.units.take(i + 1).drop_last() =~= snap@.units.take(i as int));
            assert(snap@.units.take(i + 1).last() == (id, row@));
            plus_after(
                a,
                unit_faults(snap@, snap@.units.take(i as int)),
                journal_fault(snap@, id, row@),
            );
            plus_after(
                a,
                plus(
                    unit_faults(snap@, snap@.units.take(i as int)),
                    journal_fault(snap@, id, row@),
                ),
                artifact_fault(snap@, id, row@),
            );
        }
        score_unit(snap, id, row, &mut v);
        i += 1;
    }
    let ghost b = a + unit_faults(snap@, snap@.units);
    proof {
        assert(snap@.units.take(snap@.units.len() as int) =~= snap@.units);
        assert(b + Seq::<ViolationView>::empty() =~= b);
    }
    i = 0;
    while i < snap.events.len()
        invariant
            i <= snap@.events.len(),
            violation_views(v@) == b + stray_faults(snap@, i as nat),
        decreases snap@.events.len() - i,
    {
        proof {
            plus_after(b, stray_faults(snap@, i as nat), stray_fault(snap@, i as int));
        }
        score_stray(snap, i, &mut v);
        i += 1;
    }
    let ghost c = b + stray_faults(snap@, snap@.events.len());
    proof {
        assert(snap@.events.take(0) =~= Seq::<(u64, EventRowView)>::empty());
        assert(c + Seq::<ViolationView>::empty() =~= c);
    }
    i = 0;
    while i < snap.events.len()
        invariant
            i <= snap@.events.len(),
            violation_views(v@) == c + claim_faults(snap@, snap@.events.take(i as int)),
        decreases snap@.events.len() - i,
    {
        let id: u64 = snap.events.key_at(i);
        let row = snap.events.row_at(i);
        proof {
            assert(snap@.events.take(i + 1).drop_last() =~= snap@.events.take(i as int));
            assert(snap@.events.take(i + 1).last() == (id, row@));
            plus_after(
                c,
                claim_faults(snap@, snap@.events.take(i as int)),
                claim_fault(snap@, id, row@),
            );
        }
        score_claim(snap, id, row, &mut v);
        i += 1;
    }
    let ghost d = c + claim_faults(snap@, snap@.events);
    proof {
        assert(snap@.events.take(snap@.events.len() as int) =~= snap@.events);
        assert(d + Seq::<ViolationView>::empty() =~= d);
    }
    i = 0;
    while i < snap.receipts.len()
        invariant
            i <= snap@.receipts.len(),
            violation_views(v@) == d + dangling_faults(snap@, i as nat),
        decreases snap@.receipts.len() - i,
    {
        proof {
            plus_after(d, dangling_faults(snap@, i as nat), dangling_fault(snap@, i as int));
        }
        score_dangling(snap, i, &mut v);
        i += 1;
    }
    AuditReport {
        violations: v,
        nonterminal_intents: list_nonterminal(&snap.effects),
        units_checked: snap.units.len(),
        events_checked: snap.events.len(),
        confirmed_checked: confirmed.len(),
    }
}

proof fn plus_after(a: Seq<ViolationView>, b: Seq<ViolationView>, v: Option<ViolationView>)
    ensures
        plus(a + b, v) == a + plus(b, v),
{
    assert(plus(a + b, v) =~= a + plus(b, v));
}

// --- Laws ----------------------------------------------------------------------------------------

/// Whether a confirmed commit is fully present: accepted rightly, its event byte for byte, its
/// receipt in agreement, and its unit at or past its version.
pub open spec fn kept(snap: AuditSnapshotView, rec: ConfirmedView) -> bool {
    let ev = rec.spec.events[0];
    &&& !rec.stale_accepted
    &&& lookup(snap.events, ev.event_id) is Some
    &&& lookup(snap.events, ev.event_id)->0.payload == ev.payload
    &&& lookup(snap.receipts, confirmed_key(rec)) is Some
    &&& lookup(snap.receipts, confirmed_key(rec))->0.request_digest == rec.spec.request_digest
    &&& lookup(snap.receipts, confirmed_key(rec))->0.transition_ref == ev.event_id
    &&& lookup(snap.units, rec.spec.unit_id) is Some
    &&& lookup(snap.units, rec.spec.unit_id)->0.version >= ev.aggregate_version
}

/// Whether state, journal and receipts agree: the journal of every unit holds exactly its
/// versions, every event has its unit and exactly one receipt, every receipt has its event, and
/// every referenced artifact is there.
pub open spec fn agrees(snap: AuditSnapshotView) -> bool {
    &&& forall|i: int|
        0 <= i < snap.units.len() ==> {
            &&& sorted_numbers(versions_of(snap.events, (#[trigger] snap.units[i]).0)) == one_to(
                snap.units[i].1.version,
            )
            &&& snap.units[i].1.artifact_ref is Some ==> snap.artifacts.contains(
                snap.units[i].1.artifact_ref->0,
            )
        }
    &&& forall|i: int|
        0 <= i < snap.events.len() ==> {
            &&& lookup(snap.units, (#[trigger] snap.events[i]).1.aggregate_id) is Some
            &&& receipt_count(snap.receipts, snap.events[i].0) == 1
        }
    &&& forall|i: int|
        0 <= i < snap.receipts.len() ==> lookup(
            snap.events,
            (#[trigger] snap.receipts[i]).1.transition_ref,
        ) is Some
}

proof fn losses_empty(snap: AuditSnapshotView, records: Seq<ConfirmedView>)
    ensures
        losses(snap, records).len() == 0 <==> forall|i: int|
            0 <= i < records.len() ==> kept(snap, #[trigger] records[i]),
    decreases records.len(),
{
    if records.len() > 0 {
        let front = records.drop_last();
        losses_empty(snap, front);
        if losses(snap, records).len() == 0 {
            assert forall|i: int| 0 <= i < records.len() implies kept(
                snap,
                #[trigger] records[i],
            ) by {
                if i < front.len() {
                    assert(kept(snap, front[i]));
                }
            }
        }
        if forall|i: int| 0 <= i < records.len() ==> kept(snap, #[trigger] records[i]) {
            assert forall|i: int| 0 <= i < front.len() implies kept(snap, #[trigger] front[i]) by {
                assert(kept(snap, records[i]));
            }
            assert(kept(snap, records[records.len() - 1]));
        }
    }
}

spec fn unit_fine(snap: AuditSnapshotView, p: (u64, UnitRowView)) -> bool {
    journal_fault(snap, p.0, p.1) is None && artifact_fault(snap, p.0, p.1) is None
}

proof fn unit_faults_empty(snap: AuditSnapshotView, units: Seq<(u64, UnitRowView)>)
    ensures
        unit_faults(snap, units).len() == 0 <==> forall|i: int|
            0 <= i < units.len() ==> unit_fine(snap, #[trigger] units[i]),
    decreases units.len(),
{
    if units.len() > 0 {
        let front = units.drop_last();
        unit_faults_empty(snap, front);
        if unit_faults(snap, units).len() == 0 {
            assert forall|i: int| 0 <= i < units.len() implies unit_fine(
                snap,
                #[trigger] units[i],
            ) by {
                if i < front.len() {
                    assert(unit_fine(snap, front[i]));
                }
            }
        }
        if forall|i: int| 0 <= i < units.len() ==> unit_fine(snap, #[trigger] units[i]) {
            assert forall|i: int| 0 <= i < front.len() implies unit_fine(
                snap,
                #[trigger] front[i],
            ) by {
                assert(unit_fine(snap, units[i]));
            }
            assert(unit_fine(snap, units[units.len() - 1]));
        }
    }
}

proof fn claim_faults_empty(snap: AuditSnapshotView, events: Seq<(u64, EventRowView)>)
    ensures
        claim_faults(snap, events).len() == 0 <==> forall|i: int|
            0 <= i < events.len() ==> receipt_count(snap.receipts, (#[trigger] events[i]).0) == 1,
    decreases events.len(),
{
    if events.len() > 0 {
        let front = events.drop_last();
        claim_faults_empty(snap, front);
        if claim_faults(snap, events).len() == 0 {
            assert forall|i: int| 0 <= i < events.len() implies receipt_count(
                snap.receipts,
                (#[trigger] events[i]).0,
            ) == 1 by {
                if i < front.len() {
                    assert(receipt_count(snap.receipts, front[i].0) == 1);
                }
            }
        }
        if forall|i: int|
            0 <= i < events.len() ==> receipt_count(snap.receipts, (#[trigger] events[i]).0) == 1 {
            assert forall|i: int| 0 <= i < front.len() implies receipt_count(
                snap.receipts,
                (#[trigger] front[i]).0,
            ) == 1 by {
                assert(receipt_count(snap.receipts, events[i].0) == 1);
            }
            assert(receipt_count(snap.receipts, events[events.len() - 1].0) == 1);
        }
    }
}

proof fn first_stray(snap: AuditSnapshotView, n: int) -> (k: int)
    requires
        0 <= n < snap.events.len(),
        lookup(snap.units, snap.events[n].1.aggregate_id) is None,
    ensures
        0 <= k <= n,
        stray_fault(snap, k) is Some,
    decreases n,
{
    if aggregate_seen(snap.events, n) {
        let j = choose|j: int|
            0 <= j < n && (#[trigger] snap.events[j]).1.aggregate_id
                == snap.events[n].1.aggregate_id;
        first_stray(snap, j)
    } else {
        n
    }
}

proof fn stray_faults_empty(snap: AuditSnapshotView, n: nat)
    requires
        n <= snap.events.len(),
    ensures
        stray_faults(snap, n).len() == 0 <==> forall|i: int|
            0 <= i < n ==> (#[trigger] stray_fault(snap, i)) is None,
    decreases n,
{
    if n > 0 {
        stray_faults_empty(snap, (n - 1) as nat);
        if stray_faults(snap, n).len() == 0 {
            assert forall|i: int| 0 <= i < n implies (#[trigger] stray_fault(snap, i)) is None by {
            }
        }
    }
}

proof fn first_dangling(snap: AuditSnapshotView, n: int) -> (k: int)
    requires
        0 <= n < snap.receipts.len(),
        lookup(snap.events, snap.receipts[n].1.transition_ref) is None,
    ensures
        0 <= k <= n,
        dangling_fault(snap, k) is Some,
    decreases n,
{
    if reference_seen(snap.receipts, n) {
        let j = choose|j: int|
            0 <= j < n && (#[trigger] snap.receipts[j]).1.transition_ref
                == snap.receipts[n].1.transition_ref;
        first_dangling(snap, j)
    } else {
        n
    }
}

proof fn dangling_faults_empty(snap: AuditSnapshotView, n: nat)
    requires
        n <= snap.receipts.len(),
    ensures
        dangling_faults(snap, n).len() == 0 <==> forall|i: int|
            0 <= i < n ==> (#[trigger] dangling_fault(snap, i)) is None,
    decreases n,
{
    if n > 0 {
        dangling_faults_empty(snap, (n - 1) as nat);
        if dangling_faults(snap, n).len() == 0 {
            assert forall|i: int| 0 <= i < n implies (#[trigger] dangling_fault(snap, i))
                is None by {}
        }
    }
}

/// The auditor reports no violation exactly when every confirmed commit is kept and state,
/// journal and receipts agree: it misses nothing, and it invents nothing.
pub proof fn audit_is_exact(snap: AuditSnapshotView, records: Seq<ConfirmedView>)
    ensures
        violations_of(snap, records).len() == 0 <==> agrees(snap) && forall|i: int|
            0 <= i < records.len() ==> kept(snap, #[trigger] records[i]),
{
    losses_empty(snap, records);
    unit_faults_empty(snap, snap.units);
    claim_faults_empty(snap, snap.events);
    stray_faults_empty(snap, snap.events.len());
    dangling_faults_empty(snap, snap.receipts.len());
    if violations_of(snap, records).len() == 0 {
        assert forall|i: int| 0 <= i < snap.units.len() implies {
            &&& sorted_numbers(versions_of(snap.events, (#[trigger] snap.units[i]).0)) == one_to(
                snap.units[i].1.version,
            )
            &&& snap.units[i].1.artifact_ref is Some ==> snap.artifacts.contains(
                snap.units[i].1.artifact_ref->0,
            )
        } by {
            assert(unit_fine(snap, snap.units[i]));
        }
        assert forall|i: int| 0 <= i < snap.events.len() implies {
            &&& lookup(snap.units, (#[trigger] snap.events[i]).1.aggregate_id) is Some
            &&& receipt_count(snap.receipts, snap.events[i].0) == 1
        } by {
            if lookup(snap.units, snap.events[i].1.aggregate_id) is None {
                let k = first_stray(snap, i);
                assert(stray_fault(snap, k) is None);
            }
        }
        assert forall|i: int| 0 <= i < snap.receipts.len() implies lookup(
            snap.events,
            (#[trigger] snap.receipts[i]).1.transition_ref,
        ) is Some by {
            if lookup(snap.events, snap.receipts[i].1.transition_ref) is None {
                let k = first_dangling(snap, i);
                assert(dangling_fault(snap, k) is None);
            }
        }
    }
    if agrees(snap) && forall|i: int|
        0 <= i < records.len() ==> kept(snap, #[trigger] records[i]) {
        assert forall|i: int| 0 <= i < snap.units.len() implies unit_fine(
            snap,
            #[trigger] snap.units[i],
        ) by {}
        assert forall|i: int| 0 <= i < snap.events.len() implies (#[trigger] stray_fault(snap, i))
            is None by {
            assert(lookup(snap.units, snap.events[i].1.aggregate_id) is Some);
        }
        assert forall|i: int| 0 <= i < snap.receipts.len() implies (#[trigger] dangling_fault(
            snap,
            i,
        )) is None by {
            assert(lookup(snap.events, snap.receipts[i].1.transition_ref) is Some);
        }
    }
}

} // verus!
