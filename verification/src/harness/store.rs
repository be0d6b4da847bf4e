//! The harness store: what one commit spec writes, decided against the rows as they stand.
//!
//! Every write goes through [`Store::apply`]: the version check, the epoch and holder checks, and
//! the refusal of journal deletes are enforced here; uniqueness and immutability of journal
//! properties are the engine's.
use crate::harness::schema::{CommandKind, SemanticEventView};
use crate::harness::workload::{CommitSpec, CommitSpecView};
use crate::table::{lookup, upsert, IdTable, Table};
use crate::text::{dec, decimal, opt_view, views};
use vstd::prelude::*;
use vstd::string::*;

verus! {

/// A typed refusal; nothing is written.
#[derive(Debug, PartialEq, Eq)]
pub enum Rejection {
    StaleVersion { unit_id: u64, expected: u64, actual: u64 },
    StaleLease { unit_id: u64, claimed_epoch: u32, current_epoch: u32 },
    UnknownUnit { unit_id: u64 },
    /// A wrong holder for the current epoch.
    StaleHolder { unit_id: u64, claimed_holder: u64, current_holder: u64 },
    /// Committed journal rows are never deleted.
    JournalDelete { event_id: u64 },
}

/// The view of a `Rejection`.
pub enum RejectionView {
    StaleVersion { unit_id: u64, expected: u64, actual: u64 },
    StaleLease { unit_id: u64, claimed_epoch: u32, current_epoch: u32 },
    UnknownUnit { unit_id: u64 },
    StaleHolder { unit_id: u64, claimed_holder: u64, current_holder: u64 },
    JournalDelete { event_id: u64 },
}

impl View for Rejection {
    type V = RejectionView;

    open spec fn view(&self) -> RejectionView {
        match self {
            Rejection::StaleVersion { unit_id, expected, actual } => RejectionView::StaleVersion {
                unit_id: *unit_id,
                expected: *expected,
                actual: *actual,
            },
            Rejection::StaleLease {
                unit_id,
                claimed_epoch,
                current_epoch,
            } => RejectionView::StaleLease {
                unit_id: *unit_id,
                claimed_epoch: *claimed_epoch,
                current_epoch: *current_epoch,
            },
            Rejection::UnknownUnit { unit_id } => RejectionView::UnknownUnit { unit_id: *unit_id },
            Rejection::StaleHolder {
                unit_id,
                claimed_holder,
                current_holder,
            } => RejectionView::StaleHolder {
                unit_id: *unit_id,
                claimed_holder: *claimed_holder,
                current_holder: *current_holder,
            },
            Rejection::JournalDelete { event_id } => RejectionView::JournalDelete {
                event_id: *event_id,
            },
        }
    }
}

/// A delete request. Nothing is deletable.
#[derive(Debug, Clone, PartialEq, Eq)]
pub enum DeleteTarget {
    Event { event_id: u64 },
    Receipt { receipt_key: String },
    Artifact { digest: String },
}

/// Why an apply failed.
#[derive(Debug)]
pub enum ApplyError {
    Rejected(Rejection),
    /// The engine refused or lost the transaction.
    Graph(String),
    /// Incoherence inside the harness; never a domain refusal.
    Harness(String),
}

/// The view of a `ApplyError`.
pub enum ApplyErrorView {
    Rejected(RejectionView),
    Graph(Seq<char>),
    Harness(Seq<char>),
}

impl View for ApplyError {
    type V = ApplyErrorView;

    open spec fn view(&self) -> ApplyErrorView {
        match self {
            ApplyError::Rejected(x) => ApplyErrorView::Rejected(x@),
            ApplyError::Graph(x) => ApplyErrorView::Graph(x@),
            ApplyError::Harness(x) => ApplyErrorView::Harness(x@),
        }
    }
}

/// What an accepted commit reports.
#[derive(Debug, Clone, Copy, PartialEq, Eq, Structural)]
pub struct Applied {
    pub generation: u64,
    /// The store-global cursor: monotonic, maybe gapped.
    pub durable_at: Option<u64>,
}

/// What the engine says of a transaction.
#[derive(Debug)]
pub enum EngineAnswer {
    Committed(Applied),
    Failed(String),
}

/// The current state of a unit.
#[derive(Debug)]
pub struct UnitEntry {
    pub phase: String,
    pub version: u64,
    pub attempt_epoch: u32,
    pub holder_id: u64,
    pub artifact_ref: Option<String>,
}

/// The view of a `UnitEntry`.
pub struct UnitEntryView {
    pub phase: Seq<char>,
    pub version: u64,
    pub attempt_epoch: u32,
    pub holder_id: u64,
    pub artifact_ref: Option<Seq<char>>,
}

impl View for UnitEntry {
    type V = UnitEntryView;

    open spec fn view(&self) -> UnitEntryView {
        UnitEntryView {
            phase: self.phase@,
            version: self.version,
            attempt_epoch: self.attempt_epoch,
            holder_id: self.holder_id,
            artifact_ref: opt_view(self.artifact_ref),
        }
    }
}

impl Clone for UnitEntry {
    fn clone(&self) -> (r: Self)
        ensures
            r@ == self@,
    {
        UnitEntry {
            phase: self.phase.clone(),
            version: self.version,
            attempt_epoch: self.attempt_epoch,
            holder_id: self.holder_id,
            artifact_ref: self.artifact_ref.clone(),
        }
    }
}

/// An attempt, under `unit/epoch`.
#[derive(Debug)]
pub struct AttemptEntry {
    pub unit_id: u64,
    pub attempt_epoch: u32,
    pub holder_id: u64,
    pub state: String,
}

/// The view of a `AttemptEntry`.
pub struct AttemptEntryView {
    pub unit_id: u64,
    pub attempt_epoch: u32,
    pub holder_id: u64,
    pub state: Seq<char>,
}

impl View for AttemptEntry {
    type V = AttemptEntryView;

    open spec fn view(&self) -> AttemptEntryView {
        AttemptEntryView {
            unit_id: self.unit_id,
            attempt_epoch: self.attempt_epoch,
            holder_id: self.holder_id,
            state: self.state@,
        }
    }
}

impl Clone for AttemptEntry {
    fn clone(&self) -> (r: Self)
        ensures
            r@ == self@,
    {
        AttemptEntry {
            unit_id: self.unit_id,
            attempt_epoch: self.attempt_epoch,
            holder_id: self.holder_id,
            state: self.state.clone(),
        }
    }
}

/// A lease, under `unit/epoch`.
#[derive(Debug)]
pub struct LeaseEntry {
    pub holder_id: u64,
    pub expiry: u64,
    pub last_renewal: u64,
}

/// The view of a `LeaseEntry`.
pub struct LeaseEntryView {
    pub holder_id: u64,
    pub expiry: u64,
    pub last_renewal: u64,
}

impl View for LeaseEntry {
    type V = LeaseEntryView;

    open spec fn view(&self) -> LeaseEntryView {
        LeaseEntryView {
            holder_id: self.holder_id,
            expiry: self.expiry,
            last_renewal: self.last_renewal,
        }
    }
}

impl Clone for LeaseEntry {
    fn clone(&self) -> (r: Self)
        ensures
            r@ == self@,
    {
        LeaseEntry {
            holder_id: self.holder_id,
            expiry: self.expiry,
            last_renewal: self.last_renewal,
        }
    }
}

/// A journal event.
#[derive(Debug)]
pub struct EventEntry {
    pub aggregate_id: u64,
    pub aggregate_version: u64,
    pub ordinal: u32,
    pub kind: String,
    pub payload: String,
    pub causation_ref: u64,
}

/// The view of a `EventEntry`.
pub struct EventEntryView {
    pub aggregate_id: u64,
    pub aggregate_version: u64,
    pub ordinal: u32,
    pub kind: Seq<char>,
    pub payload: Seq<char>,
    pub causation_ref: u64,
}

impl View for EventEntry {
    type V = EventEntryView;

    open spec fn view(&self) -> EventEntryView {
        EventEntryView {
            aggregate_id: self.aggregate_id,
            aggregate_version: self.aggregate_version,
            ordinal: self.ordinal,
            kind: self.kind@,
            payload: self.payload@,
            causation_ref: self.causation_ref,
        }
    }
}

impl Clone for EventEntry {
    fn clone(&self) -> (r: Self)
        ensures
            r@ == self@,
    {
        EventEntry {
            aggregate_id: self.aggregate_id,
            aggregate_version: self.aggregate_version,
            ordinal: self.ordinal,
            kind: self.kind.clone(),
            payload: self.payload.clone(),
            causation_ref: self.causation_ref,
        }
    }
}

/// A receipt, under `unit/command`.
#[derive(Debug)]
pub struct ReceiptEntry {
    pub request_digest: String,
    pub transition_ref: u64,
}

/// The view of a `ReceiptEntry`.
pub struct ReceiptEntryView {
    pub request_digest: Seq<char>,
    pub transition_ref: u64,
}

impl View for ReceiptEntry {
    type V = ReceiptEntryView;

    open spec fn view(&self) -> ReceiptEntryView {
        ReceiptEntryView {
            request_digest: self.request_digest@,
            transition_ref: self.transition_ref,
        }
    }
}

impl Clone for ReceiptEntry {
    fn clone(&self) -> (r: Self)
        ensures
            r@ == self@,
    {
        ReceiptEntry {
            request_digest: self.request_digest.clone(),
            transition_ref: self.transition_ref,
        }
    }
}

/// An observation of an effect.
#[derive(Debug)]
pub struct EffectEntry {
    pub operation_key: String,
    pub state: String,
    pub unit_id: u64,
    pub attempt_epoch: u32,
}

/// The view of a `EffectEntry`.
pub struct EffectEntryView {
    pub operation_key: Seq<char>,
    pub state: Seq<char>,
    pub unit_id: u64,
    pub attempt_epoch: u32,
}

impl View for EffectEntry {
    type V = EffectEntryView;

    open spec fn view(&self) -> EffectEntryView {
        EffectEntryView {
            operation_key: self.operation_key@,
            state: self.state@,
            unit_id: self.unit_id,
            attempt_epoch: self.attempt_epoch,
        }
    }
}

impl Clone for EffectEntry {
    fn clone(&self) -> (r: Self)
        ensures
            r@ == self@,
    {
        EffectEntry {
            operation_key: self.operation_key.clone(),
            state: self.state.clone(),
            unit_id: self.unit_id,
            attempt_epoch: self.attempt_epoch,
        }
    }
}

/// The rows of the harness store.
#[derive(Debug)]
pub struct Store {
    pub units: IdTable<UnitEntry>,
    pub attempts: Table<AttemptEntry>,
    pub leases: Table<LeaseEntry>,
    pub events: IdTable<EventEntry>,
    pub receipts: Table<ReceiptEntry>,
    pub effects: IdTable<EffectEntry>,
    pub artifacts: Vec<String>,
}

/// The view of a `Store`.
pub struct StoreView {
    pub units: Seq<(u64, UnitEntryView)>,
    pub attempts: Seq<(Seq<char>, AttemptEntryView)>,
    pub leases: Seq<(Seq<char>, LeaseEntryView)>,
    pub events: Seq<(u64, EventEntryView)>,
    pub receipts: Seq<(Seq<char>, ReceiptEntryView)>,
    pub effects: Seq<(u64, EffectEntryView)>,
    pub artifacts: Seq<Seq<char>>,
}

impl View for Store {
    type V = StoreView;

    open spec fn view(&self) -> StoreView {
        StoreView {
            units: self.units@,
            attempts: self.attempts@,
            leases: self.leases@,
            events: self.events@,
            receipts: self.receipts@,
            effects: self.effects@,
            artifacts: views(self.artifacts@),
        }
    }
}

/// A store with no rows.
pub open spec fn empty_store() -> StoreView {
    StoreView {
        units: Seq::empty(),
        attempts: Seq::empty(),
        leases: Seq::empty(),
        events: Seq::empty(),
        receipts: Seq::empty(),
        effects: Seq::empty(),
        artifacts: Seq::empty(),
    }
}

/// The key of an attempt and its lease.
pub open spec fn epoch_key(unit_id: u64, epoch: u32) -> Seq<char> {
    dec(unit_id as nat) + "/"@ + dec(epoch as nat)
}

/// The key of a receipt.
pub open spec fn receipt_key_of(unit_id: u64, command_id: u64) -> Seq<char> {
    dec(unit_id as nat) + "/"@ + dec(command_id as nat)
}

/// A key made of two numbers.
pub fn pair_key(a: u64, b: u64) -> (r: String)
    ensures
        r@ == dec(a as nat) + "/"@ + dec(b as nat),
{
    let mut s = decimal(a);
    s.append("/");
    s.append(&decimal(b));
    s
}

/// Why a spec is refused; `None` where it is accepted.
pub open spec fn refusal(store: StoreView, spec: CommitSpecView) -> Option<RejectionView> {
    match lookup(store.units, spec.unit_id) {
        Some(unit) => if unit.version != spec.expected_version {
            Some(
                RejectionView::StaleVersion {
                    unit_id: spec.unit_id,
                    expected: spec.expected_version,
                    actual: unit.version,
                },
            )
        } else if spec.attempt_epoch != (if spec.kind == CommandKind::Dispatch {
            unit.attempt_epoch + 1
        } else {
            unit.attempt_epoch as int
        }) {
            Some(
                RejectionView::StaleLease {
                    unit_id: spec.unit_id,
                    claimed_epoch: spec.attempt_epoch,
                    current_epoch: unit.attempt_epoch,
                },
            )
        } else if spec.kind != CommandKind::Dispatch && spec.holder_id != unit.holder_id {
            Some(
                RejectionView::StaleHolder {
                    unit_id: spec.unit_id,
                    claimed_holder: spec.holder_id,
                    current_holder: unit.holder_id,
                },
            )
        } else {
            None
        },
        None => if spec.kind != CommandKind::Dispatch || spec.expected_version != 0 {
            Some(RejectionView::UnknownUnit { unit_id: spec.unit_id })
        } else {
            None
        },
    }
}

/// Whether a command ends its attempt.
pub open spec fn ends_attempt(kind: CommandKind) -> bool {
    kind == CommandKind::Cancellation || kind == CommandKind::OwnerDecision
}

/// The fault of a spec: refused, or incoherent because its attempt is missing.
pub open spec fn fault_of(store: StoreView, spec: CommitSpecView) -> Option<ApplyErrorView> {
    match refusal(store, spec) {
        Some(r) => Some(ApplyErrorView::Rejected(r)),
        None => if ends_attempt(spec.kind) && lookup(
            store.attempts,
            epoch_key(spec.unit_id, spec.attempt_epoch),
        ) is None {
            Some(
                ApplyErrorView::Harness(
                    "attempt "@ + epoch_key(spec.unit_id, spec.attempt_epoch)
                        + " missing from address book"@,
                ),
            )
        } else {
            None
        },
    }
}

/// The unit after a spec: one version further on; a dispatch takes the epoch and the holder.
pub open spec fn unit_after(existing: Option<UnitEntryView>, spec: CommitSpecView) -> UnitEntryView {
    match existing {
        Some(u) => UnitEntryView {
            version: (spec.expected_version + 1) as u64,
            phase: spec.new_phase.name_text(),
            attempt_epoch: if spec.kind == CommandKind::Dispatch {
                spec.attempt_epoch
            } else {
                u.attempt_epoch
            },
            holder_id: if spec.kind == CommandKind::Dispatch {
                spec.holder_id
            } else {
                u.holder_id
            },
            artifact_ref: match spec.artifact_ref {
                Some(a) => Some(a),
                None => u.artifact_ref,
            },
        },
        None => UnitEntryView {
            version: 1,
            phase: spec.new_phase.name_text(),
            attempt_epoch: spec.attempt_epoch,
            holder_id: spec.holder_id,
            artifact_ref: None,
        },
    }
}

/// The attempts after a spec.
pub open spec fn attempts_after(
    attempts: Seq<(Seq<char>, AttemptEntryView)>,
    spec: CommitSpecView,
) -> Seq<(Seq<char>, AttemptEntryView)> {
    let key = epoch_key(spec.unit_id, spec.attempt_epoch);
    if spec.kind == CommandKind::Dispatch {
        upsert(
            attempts,
            key,
            AttemptEntryView {
                unit_id: spec.unit_id,
                attempt_epoch: spec.attempt_epoch,
                holder_id: spec.holder_id,
                state: "active"@,
            },
        )
    } else if ends_attempt(spec.kind) {
        match lookup(attempts, key) {
            Some(row) => upsert(
                attempts,
                key,
                AttemptEntryView {
                    state: if spec.kind == CommandKind::Cancellation {
                        "cancelled"@
                    } else {
                        "decided"@
                    },
                    ..row
                },
            ),
            None => attempts,
        }
    } else {
        attempts
    }
}

/// The leases after a spec: opened by a dispatch, extended by a renewal.
pub open spec fn leases_after(
    leases: Seq<(Seq<char>, LeaseEntryView)>,
    spec: CommitSpecView,
) -> Seq<(Seq<char>, LeaseEntryView)> {
    let key = epoch_key(spec.unit_id, spec.attempt_epoch);
    let expiry = (spec.step + 100) as u64;
    if spec.kind == CommandKind::Dispatch {
        upsert(
            leases,
            key,
            LeaseEntryView {
                holder_id: spec.holder_id,
                expiry,
                last_renewal: spec.step as u64,
            },
        )
    } else if spec.kind == CommandKind::LeaseRenewal {
        match lookup(leases, key) {
            Some(row) => upsert(
                leases,
                key,
                LeaseEntryView { expiry, last_renewal: spec.step as u64, ..row },
            ),
            None => leases,
        }
    } else {
        leases
    }
}

/// The journal row of an event.
pub open spec fn event_entry(ev: SemanticEventView) -> EventEntryView {
    EventEntryView {
        aggregate_id: ev.aggregate_id,
        aggregate_version: ev.aggregate_version,
        ordinal: ev.ordinal,
        kind: ev.kind,
        payload: ev.payload,
        causation_ref: match ev.causation_ref {
            Some(c) => c,
            None => 0,
        },
    }
}

/// The store after an accepted spec: state, journal and receipt in one transaction.
pub open spec fn applied(store: StoreView, spec: CommitSpecView) -> StoreView {
    StoreView {
        units: upsert(
            store.units,
            spec.unit_id,
            unit_after(lookup(store.units, spec.unit_id), spec),
        ),
        attempts: attempts_after(store.attempts, spec),
        leases: leases_after(store.leases, spec),
        events: upsert(store.events, spec.events[0].event_id, event_entry(spec.events[0])),
        receipts: upsert(
            store.receipts,
            receipt_key_of(spec.unit_id, spec.command_id),
            ReceiptEntryView {
                request_digest: spec.request_digest,
                transition_ref: spec.events[0].event_id,
            },
        ),
        effects: match spec.effect {
            Some(e) => upsert(
                store.effects,
                e.intent_id,
                EffectEntryView {
                    operation_key: e.operation_key,
                    state: e.state.name_text(),
                    unit_id: spec.unit_id,
                    attempt_epoch: spec.attempt_epoch,
                },
            ),
            None => store.effects,
        },
        artifacts: match spec.artifact_ref {
            Some(a) => store.artifacts.push(a),
            None => store.artifacts,
        },
    }
}

/// The composite key of an event: the place that it takes in its aggregate.
pub open spec fn place_key(e: EventEntryView) -> Seq<char> {
    dec(e.aggregate_id as nat) + "/"@ + dec(e.aggregate_version as nat) + "/"@ + dec(
        e.ordinal as nat,
    )
}

/// The composite key of an event.
pub fn agg_ver_ord(e: &EventEntry) -> (r: String)
    ensures
        r@ == place_key(e@),
{
    let mut s = decimal(e.aggregate_id);
    s.append("/");
    s.append(&decimal(e.aggregate_version));
    s.append("/");
    s.append(&decimal(e.ordinal as u64));
    s
}

/// Whether the counters of a store have room for a spec: a version, and an epoch for a dispatch.
pub open spec fn has_room(store: StoreView, spec: CommitSpecView) -> bool {
    match lookup(store.units, spec.unit_id) {
        Some(u) => u.version < u64::MAX && (spec.kind == CommandKind::Dispatch ==> u.attempt_epoch
            < u32::MAX),
        None => true,
    }
}

impl Store {
    /// A store with no rows.
    pub fn empty() -> (r: Store)
        ensures
            r@ == empty_store(),
    {
        let r = Store {
            units: IdTable::new(),
            attempts: Table::new(),
            leases: Table::new(),
            events: IdTable::new(),
            receipts: Table::new(),
            effects: IdTable::new(),
            artifacts: Vec::new(),
        };
        proof {
            assert(r@.artifacts =~= Seq::<Seq<char>>::empty());
        }
        r
    }

    fn refuse(&self, spec: &CommitSpec) -> (r: Option<Rejection>)
        requires
            has_room(self@, spec@),
        ensures
            match r {
                Some(x) => refusal(self@, spec@) == Some(x@),
                None => refusal(self@, spec@) is None,
            },
    {
        let dispatch = matches!(spec.kind, CommandKind::Dispatch);
        match self.units.get(spec.unit_id) {
            Some(unit) => {
                if unit.version != spec.expected_version {
                    return Some(
                        Rejection::StaleVersion {
                            unit_id: spec.unit_id,
                            expected: spec.expected_version,
                            actual: unit.version,
                        },
                    );
                }
                let current: u32 = if dispatch {
                    unit.attempt_epoch + 1
                } else {
                    unit.attempt_epoch
                };
                if spec.attempt_epoch != current {
                    return Some(
                        Rejection::StaleLease {
                            unit_id: spec.unit_id,
                            claimed_epoch: spec.attempt_epoch,
                            current_epoch: unit.attempt_epoch,
                        },
                    );
                }
                if !dispatch && spec.holder_id != unit.holder_id {
                    return Some(
                        Rejection::StaleHolder {
                            unit_id: spec.unit_id,
                            claimed_holder: spec.holder_id,
                            current_holder: unit.holder_id,
                        },
                    );
                }
                None
            },
            None => {
                if !dispatch || spec.expected_version != 0 {
                    return Some(Rejection::UnknownUnit { unit_id: spec.unit_id });
                }
                None
            },
        }
    }

    /// Whether a spec is accepted against the rows as they stand.
    pub fn decide(&self, spec: &CommitSpec) -> (r: Result<(), ApplyError>)
        requires
            has_room(self@, spec@),
        ensures
            match r {
                Ok(()) => fault_of(self@, spec@) is None,
                Err(e) => fault_of(self@, spec@) == Some(e@),
            },
    {
        if let Some(r) = self.refuse(spec) {
            return Err(ApplyError::Rejected(r));
        }
        if matches!(spec.kind, CommandKind::Cancellation | CommandKind::OwnerDecision) {
            let key = pair_key(spec.unit_id, spec.attempt_epoch as u64);
            if !self.attempts.has(&key) {
                let mut detail = "attempt ".to_owned();
                detail.append(&key);
                detail.append(" missing from address book");
                return Err(ApplyError::Harness(detail));
            }
        }
        Ok(())
    }

    fn write_unit(&mut self, spec: &CommitSpec)
        requires
            has_room(old(self)@, spec@),
            refusal(old(self)@, spec@) is None,
        ensures
            final(self)@ == (StoreView {
                units: upsert(
                    old(self)@.units,
                    spec@.unit_id,
                    unit_after(lookup(old(self)@.units, spec@.unit_id), spec@),
                ),
                ..old(self)@
            }),
    {
        let existing = match self.units.get(spec.unit_id) {
            Some(u) => Some(u.clone()),
            None => None,
        };
        let row = match existing {
            Some(mut u) => {
                u.version = spec.expected_version + 1;
                u.phase = spec.new_phase.name().to_owned();
                if matches!(spec.kind, CommandKind::Dispatch) {
                    u.attempt_epoch = spec.attempt_epoch;
                    u.holder_id = spec.holder_id;
                }
                if let Some(a) = &spec.artifact_ref {
                    u.artifact_ref = Some(a.clone());
                }
                u
            },
            None => UnitEntry {
                version: 1,
                phase: spec.new_phase.name().to_owned(),
                attempt_epoch: spec.attempt_epoch,
                holder_id: spec.holder_id,
                artifact_ref: None,
            },
        };
        self.units.set(spec.unit_id, row);
    }

    fn write_attempt(&mut self, spec: &CommitSpec)
        ensures
            final(self)@ == (StoreView {
                attempts: attempts_after(old(self)@.attempts, spec@),
                leases: leases_after(old(self)@.leases, spec@),
                ..old(self)@
            }),
    {
        let key = pair_key(spec.unit_id, spec.attempt_epoch as u64);
        let step: u64 = spec.step as u64;
        match spec.kind {
            CommandKind::Dispatch => {
                self.attempts.set(
                    &key,
                    AttemptEntry {
                        unit_id: spec.unit_id,
                        attempt_epoch: spec.attempt_epoch,
                        holder_id: spec.holder_id,
                        state: "active".to_owned(),
                    },
                );
                self.leases.set(
                    &key,
                    LeaseEntry {
                        holder_id: spec.holder_id,
                        expiry: step + 100,
                        last_renewal: step,
                    },
                );
            },
            CommandKind::LeaseRenewal => {
                let found = match self.leases.get(&key) {
                    Some(l) => Some(l.clone()),
                    None => None,
                };
                if let Some(mut l) = found {
                    l.expiry = step + 100;
                    l.last_renewal = step;
                    self.leases.set(&key, l);
                }
            },
            CommandKind::Cancellation | CommandKind::OwnerDecision => {
                let found = match self.attempts.get(&key) {
                    Some(a) => Some(a.clone()),
                    None => None,
                };
                if let Some(mut a) = found {
                    a.state = match spec.kind {
                        CommandKind::Cancellation => "cancelled".to_owned(),
                        _ => "decided".to_owned(),
                    };
                    self.attempts.set(&key, a);
                }
            },
            _ => {},
        }
    }

    /// Executes a spec as one transaction, which ends as the engine says: the change of state,
    /// the receipt, the journal event, and the effect and artifact rows.
    pub fn apply(&mut self, spec: &CommitSpec, answer: EngineAnswer) -> (r: Result<
        Applied,
        ApplyError,
    >)
        requires
            has_room(old(self)@, spec@),
            spec@.events.len() > 0,
        ensures
            match r {
                Ok(a) => {
                    &&& fault_of(old(self)@, spec@) is None
                    &&& answer == EngineAnswer::Committed(a)
                    &&& final(self)@ == applied(old(self)@, spec@)
                },
                Err(e) => {
                    &&& final(self)@ == old(self)@
                    &&& match fault_of(old(self)@, spec@) {
                        Some(fault) => e@ == fault,
                        None => answer is Failed && e@ == ApplyErrorView::Graph(
                            answer->Failed_0@,
                        ),
                    }
                },
            },
    {
        if let Err(e) = self.decide(spec) {
            return Err(e);
        }
        let done = match answer {
            EngineAnswer::Failed(detail) => {
                return Err(ApplyError::Graph(detail));
            },
            EngineAnswer::Committed(done) => done,
        };
        self.write_unit(spec);
        self.write_attempt(spec);
        let ev = &spec.events[0];
        proof {
            assert(spec@.events[0] == ev@);
        }
        let causation_ref: u64 = match ev.causation_ref {
            Some(c) => c,
            None => 0,
        };
        self.events.set(
            ev.event_id,
            EventEntry {
                aggregate_id: ev.aggregate_id,
                aggregate_version: ev.aggregate_version,
                ordinal: ev.ordinal,
                kind: ev.kind.clone(),
                payload: ev.payload.clone(),
                causation_ref,
            },
        );
        let key = pair_key(spec.unit_id, spec.command_id);
        self.receipts.set(
            &key,
            ReceiptEntry {
                request_digest: spec.request_digest.clone(),
                transition_ref: ev.event_id,
            },
        );
        if let Some(e) = &spec.effect {
            self.effects.set(
                e.intent_id,
                EffectEntry {
                    operation_key: e.operation_key.clone(),
                    state: e.state.name().to_owned(),
                    unit_id: spec.unit_id,
                    attempt_epoch: spec.attempt_epoch,
                },
            );
        }
        if let Some(a) = &spec.artifact_ref {
            let ghost before = self.artifacts@;
            self.artifacts.push(a.clone());
            proof {
                assert(views(self.artifacts@) =~= views(before).push(a@));
            }
        }
        Ok(done)
    }

    /// A delete request: journal events are refused by type, and receipts and artifacts are
    /// evidence that nothing deletes.
    pub fn apply_delete(&self, target: DeleteTarget) -> (r: Result<(), ApplyError>)
        ensures
            r is Err,
            r->Err_0@ == (match target {
                DeleteTarget::Event { event_id } => ApplyErrorView::Rejected(
                    RejectionView::JournalDelete { event_id },
                ),
                DeleteTarget::Receipt { receipt_key } => ApplyErrorView::Harness(
                    "receipt "@ + receipt_key@
                        + " is journal-class evidence; deletes are not implemented in the v0 funnel"@,
                ),
                DeleteTarget::Artifact { digest } => ApplyErrorView::Harness(
                    "artifact "@ + digest@
                        + " is content-addressed evidence; deletes are not implemented in the v0 funnel"@,
                ),
            }),
    {
        match target {
            DeleteTarget::Event { event_id } => Err(
                ApplyError::Rejected(Rejection::JournalDelete { event_id }),
            ),
            DeleteTarget::Receipt { receipt_key } => {
                let mut d = "receipt ".to_owned();
                d.append(&receipt_key);
                d.append(
                    " is journal-class evidence; deletes are not implemented in the v0 funnel",
                );
                Err(ApplyError::Harness(d))
            },
            DeleteTarget::Artifact { digest } => {
                let mut d = "artifact ".to_owned();
                d.append(&digest);
                d.append(
                    " is content-addressed evidence; deletes are not implemented in the v0 funnel",
                );
                Err(ApplyError::Harness(d))
            },
        }
    }

    /// The version, epoch and phase of a unit.
    pub fn unit_state(&self, unit_id: u64) -> (r: Option<(u64, u32, String)>)
        ensures
            match r {
                Some(s) => lookup(self@.units, unit_id) is Some && lookup(
                    self@.units,
                    unit_id,
                )->0.version == s.0 && lookup(self@.units, unit_id)->0.attempt_epoch == s.1
                    && lookup(self@.units, unit_id)->0.phase == s.2@,
                None => lookup(self@.units, unit_id) is None,
            },
    {
        match self.units.get(unit_id) {
            Some(u) => Some((u.version, u.attempt_epoch, u.phase.clone())),
            None => None,
        }
    }

    /// The payload of an event.
    pub fn event_payload(&self, event_id: u64) -> (r: Option<String>)
        ensures
            opt_view(r) == (match lookup(self@.events, event_id) {
                Some(e) => Some(e.payload),
                None => None,
            }),
    {
        match self.events.get(event_id) {
            Some(e) => Some(e.payload.clone()),
            None => None,
        }
    }

    /// The ids of all events, in ascending order.
    pub fn snapshot_event_ids(&self) -> (r: Vec<u64>)
        ensures
            r@ == sorted_numbers(Seq::new(self@.events.len(), |i: int| self@.events[i].0)),
    {
        let ghost ids = Seq::new(self@.events.len(), |i: int| self@.events[i].0);
        let mut out: Vec<u64> = Vec::new();
        let mut i: usize = 0;
        while i < self.events.len()
            invariant
                i <= self@.events.len(),
                ids == Seq::new(self@.events.len(), |i: int| self@.events[i].0),
                out@ == ids.take(i as int),
            decreases self@.events.len() - i,
        {
            out.push(self.events.key_at(i));
            proof {
                assert(ids.take(i + 1) =~= ids.take(i as int).push(ids[i as int]));
            }
            i += 1;
        }
        proof {
            assert(ids.take(ids.len() as int) =~= ids);
        }
        sort_numbers(&out)
    }
}

// --- Sorting -------------------------------------------------------------------------------------

/// A number put into a sorted list.
pub open spec fn insert_number(sorted: Seq<u64>, n: u64) -> Seq<u64>
    decreases sorted.len(),
{
    if sorted.len() > 0 && n < sorted.last() {
        insert_number(sorted.drop_last(), n).push(sorted.last())
    } else {
        sorted.push(n)
    }
}

/// The numbers in ascending order.
pub open spec fn sorted_numbers(list: Seq<u64>) -> Seq<u64>
    decreases list.len(),
{
    if list.len() == 0 {
        Seq::empty()
    } else {
        insert_number(sorted_numbers(list.drop_last()), list.last())
    }
}

/// Whether the numbers ascend.
pub open spec fn ascends(list: Seq<u64>) -> bool {
    forall|i: int, j: int| 0 <= i < j < list.len() ==> #[trigger] list[i] <= #[trigger] list[j]
}

spec fn at_most(list: Seq<u64>, b: u64) -> bool {
    forall|k: int| 0 <= k < list.len() ==> #[trigger] list[k] <= b
}

proof fn insert_number_rule(sorted: Seq<u64>, n: u64)
    requires
        ascends(sorted),
    ensures
        ascends(insert_number(sorted, n)),
        insert_number(sorted, n).to_multiset() == sorted.to_multiset().insert(n),
        insert_number(sorted, n).len() == sorted.len() + 1,
        forall|b: u64| #[trigger]
            at_most(sorted, b) && n <= b ==> at_most(insert_number(sorted, n), b),
    decreases sorted.len(),
{
    broadcast use vstd::seq_lib::group_to_multiset_ensures;

    let new = insert_number(sorted, n);
    if sorted.len() > 0 && n < sorted.last() {
        let front = sorted.drop_last();
        assert(sorted =~= front.push(sorted.last()));
        assert(ascends(front)) by {
            assert forall|i: int, j: int| 0 <= i < j < front.len() implies #[trigger] front[i]
                <= #[trigger] front[j] by {
                assert(front[i] == sorted[i] && front[j] == sorted[j]);
            }
        }
        insert_number_rule(front, n);
        let mid = insert_number(front, n);
        assert forall|k: int| 0 <= k < front.len() implies #[trigger] front[k]
            <= sorted.last() by {
            assert(front[k] == sorted[k]);
            assert(sorted[sorted.len() - 1] == sorted.last());
        }
        assert(at_most(front, sorted.last()));
        assert forall|i: int, j: int| 0 <= i < j < new.len() implies #[trigger] new[i]
            <= #[trigger] new[j] by {
            if j < mid.len() {
                assert(new[i] == mid[i] && new[j] == mid[j]);
            } else {
                assert(new[i] == mid[i]);
            }
        }
        assert(new.to_multiset() =~= sorted.to_multiset().insert(n));
        assert forall|b: u64| #[trigger] at_most(sorted, b) && n <= b implies at_most(new, b) by {
            assert forall|k: int| 0 <= k < front.len() implies #[trigger] front[k] <= b by {
                assert(front[k] == sorted[k]);
            }
            assert(at_most(front, b));
            assert forall|k: int| 0 <= k < new.len() implies #[trigger] new[k] <= b by {
                if k < mid.len() {
                    assert(new[k] == mid[k]);
                } else {
                    assert(sorted[sorted.len() - 1] == sorted.last());
                }
            }
        }
    } else {
        assert forall|i: int, j: int| 0 <= i < j < new.len() implies #[trigger] new[i]
            <= #[trigger] new[j] by {
            if j == sorted.len() {
                if i < sorted.len() - 1 {
                    assert(sorted[i] <= sorted[sorted.len() - 1]);
                }
            } else {
                assert(new[i] == sorted[i] && new[j] == sorted[j]);
            }
        }
    }
}

/// Sorting gives the same numbers, in ascending order.
pub proof fn sorting_orders(list: Seq<u64>)
    ensures
        ascends(sorted_numbers(list)),
        sorted_numbers(list).to_multiset() == list.to_multiset(),
        sorted_numbers(list).len() == list.len(),
    decreases list.len(),
{
    broadcast use vstd::seq_lib::group_to_multiset_ensures;

    if list.len() > 0 {
        sorting_orders(list.drop_last());
        insert_number_rule(sorted_numbers(list.drop_last()), list.last());
        assert(list =~= list.drop_last().push(list.last()));
    } else {
        assert(list =~= Seq::<u64>::empty());
    }
}

proof fn insert_number_at(sorted: Seq<u64>, n: u64, at: int)
    requires
        0 <= at <= sorted.len(),
        forall|k: int| at <= k < sorted.len() ==> n < #[trigger] sorted[k],
        at > 0 ==> !(n < sorted[at - 1]),
    ensures
        insert_number(sorted, n) == sorted.insert(at, n),
    decreases sorted.len(),
{
    if at < sorted.len() {
        let front = sorted.drop_last();
        assert(sorted[sorted.len() - 1] == sorted.last());
        insert_number_at(front, n, at);
        assert(insert_number(sorted, n) =~= sorted.insert(at, n));
    } else {
        assert(sorted.insert(at, n) =~= sorted.push(n));
    }
}

/// The numbers in ascending order.
pub fn sort_numbers(list: &Vec<u64>) -> (r: Vec<u64>)
    ensures
        r@ == sorted_numbers(list@),
{
    let mut out: Vec<u64> = Vec::new();
    let mut i: usize = 0;
    proof {
        assert(list@.take(0) =~= Seq::<u64>::empty());
    }
    while i < list.len()
        invariant
            i <= list.len(),
            out@ == sorted_numbers(list@.take(i as int)),
        decreases list.len() - i,
    {
        let n: u64 = list[i];
        let mut at: usize = out.len();
        while at > 0 && n < out[at - 1]
            invariant
                at <= out.len(),
                forall|k: int| at <= k < out.len() ==> n < #[trigger] out@[k],
            decreases at,
        {
            at -= 1;
        }
        proof {
            insert_number_at(out@, n, at as int);
            assert(list@.take(i + 1).drop_last() =~= list@.take(i as int));
        }
        out.insert(at, n);
        i += 1;
    }
    proof {
        assert(list@.take(list@.len() as int) =~= list@);
    }
    out
}

// --- Laws ----------------------------------------------------------------------------------------

/// A spec that was planned to be stale is refused: an accepted one acts under the current epoch
/// and as the holder of record.
pub proof fn stale_triples_are_refused(store: StoreView, spec: CommitSpecView)
    requires
        fault_of(store, spec) is None,
        spec.kind != CommandKind::Dispatch,
    ensures
        lookup(store.units, spec.unit_id) is Some,
        lookup(store.units, spec.unit_id)->0.attempt_epoch == spec.attempt_epoch,
        lookup(store.units, spec.unit_id)->0.holder_id == spec.holder_id,
        lookup(store.units, spec.unit_id)->0.version == spec.expected_version,
{
}

} // verus!
