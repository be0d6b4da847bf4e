//! Kernel control store: the rows that the mutation funnel reads and writes, the holder fence,
//! the cursor allocator, and the authority claim.
//!
//! The durable engine keeps these rows; the store holds them as plain values. It interprets
//! no commands.
use crate::cancel::{CancelDelivery, CancelDeliveryView, CancelRequest, CancelRequestView};
use crate::effect::{EffectIntent, EffectIntentView};
use crate::ids::{debug_form, debug_text, AttemptEpoch, AuthorityEpoch, Stamp};
use crate::table::{lookup, Table};
use crate::text::{dec, decimal, opt_view, same};
use vstd::prelude::*;
use vstd::string::*;

pub mod laws;
pub mod schema;

verus! {

/// The one row that says which daemon instance owns the control graph.
#[derive(Debug)]
pub struct AuthorityRow {
    pub authority_epoch: u64,
    pub holder_instance_id: String,
    pub prior_instance_id: Option<String>,
    pub status: String,
}

/// The view of a `AuthorityRow`.
pub struct AuthorityRowView {
    pub authority_epoch: u64,
    pub holder_instance_id: Seq<char>,
    pub prior_instance_id: Option<Seq<char>>,
    pub status: Seq<char>,
}

impl View for AuthorityRow {
    type V = AuthorityRowView;

    open spec fn view(&self) -> AuthorityRowView {
        AuthorityRowView {
            authority_epoch: self.authority_epoch,
            holder_instance_id: self.holder_instance_id@,
            prior_instance_id: opt_view(self.prior_instance_id),
            status: self.status@,
        }
    }
}

impl Clone for AuthorityRow {
    fn clone(&self) -> (r: Self)
        ensures
            r@ == self@,
    {
        AuthorityRow {
            authority_epoch: self.authority_epoch,
            holder_instance_id: self.holder_instance_id.clone(),
            prior_instance_id: self.prior_instance_id.clone(),
            status: self.status.clone(),
        }
    }
}

/// A run: the root that owns cancellation.
#[derive(Debug)]
pub struct RunRow {
    pub run_id: String,
    pub version: u64,
    pub status: String,
    pub goal_work_item_id: String,
}

/// The view of a `RunRow`.
pub struct RunRowView {
    pub run_id: Seq<char>,
    pub version: u64,
    pub status: Seq<char>,
    pub goal_work_item_id: Seq<char>,
}

impl View for RunRow {
    type V = RunRowView;

    open spec fn view(&self) -> RunRowView {
        RunRowView {
            run_id: self.run_id@,
            version: self.version,
            status: self.status@,
            goal_work_item_id: self.goal_work_item_id@,
        }
    }
}

impl Clone for RunRow {
    fn clone(&self) -> (r: Self)
        ensures
            r@ == self@,
    {
        RunRow {
            run_id: self.run_id.clone(),
            version: self.version,
            status: self.status.clone(),
            goal_work_item_id: self.goal_work_item_id.clone(),
        }
    }
}

/// A work item.
#[derive(Debug)]
pub struct WorkItemRow {
    pub work_item_id: String,
    pub version: u64,
    pub status: String,
    pub acceptance_contract_digest: String,
    /// A JSON array of paths.
    pub declared_write_scope: String,
}

/// The view of a `WorkItemRow`.
pub struct WorkItemRowView {
    pub work_item_id: Seq<char>,
    pub version: u64,
    pub status: Seq<char>,
    pub acceptance_contract_digest: Seq<char>,
    pub declared_write_scope: Seq<char>,
}

impl View for WorkItemRow {
    type V = WorkItemRowView;

    open spec fn view(&self) -> WorkItemRowView {
        WorkItemRowView {
            work_item_id: self.work_item_id@,
            version: self.version,
            status: self.status@,
            acceptance_contract_digest: self.acceptance_contract_digest@,
            declared_write_scope: self.declared_write_scope@,
        }
    }
}

impl Clone for WorkItemRow {
    fn clone(&self) -> (r: Self)
        ensures
            r@ == self@,
    {
        WorkItemRow {
            work_item_id: self.work_item_id.clone(),
            version: self.version,
            status: self.status.clone(),
            acceptance_contract_digest: self.acceptance_contract_digest.clone(),
            declared_write_scope: self.declared_write_scope.clone(),
        }
    }
}

/// An execution unit. The holder is on the lease, not here.
#[derive(Debug)]
pub struct UnitRow {
    pub unit_id: String,
    pub version: u64,
    /// The current attempt epoch; 0 before the first dispatch.
    pub epoch: u64,
    pub stamp: u64,
    pub status: String,
    pub work_item_id: String,
    pub run_id: String,
}

/// The view of a `UnitRow`.
pub struct UnitRowView {
    pub unit_id: Seq<char>,
    pub version: u64,
    pub epoch: u64,
    pub stamp: u64,
    pub status: Seq<char>,
    pub work_item_id: Seq<char>,
    pub run_id: Seq<char>,
}

impl View for UnitRow {
    type V = UnitRowView;

    open spec fn view(&self) -> UnitRowView {
        UnitRowView {
            unit_id: self.unit_id@,
            version: self.version,
            epoch: self.epoch,
            stamp: self.stamp,
            status: self.status@,
            work_item_id: self.work_item_id@,
            run_id: self.run_id@,
        }
    }
}

impl Clone for UnitRow {
    fn clone(&self) -> (r: Self)
        ensures
            r@ == self@,
    {
        UnitRow {
            unit_id: self.unit_id.clone(),
            version: self.version,
            epoch: self.epoch,
            stamp: self.stamp,
            status: self.status.clone(),
            work_item_id: self.work_item_id.clone(),
            run_id: self.run_id.clone(),
        }
    }
}

/// One attempt at a unit.
#[derive(Debug)]
pub struct AttemptRow {
    /// `unit_id/epoch`.
    pub attempt_key: String,
    pub attempt_id: String,
    pub unit_id: String,
    pub attempt_epoch: u64,
    pub holder_id: String,
    pub status: String,
}

/// The view of a `AttemptRow`.
pub struct AttemptRowView {
    pub attempt_key: Seq<char>,
    pub attempt_id: Seq<char>,
    pub unit_id: Seq<char>,
    pub attempt_epoch: u64,
    pub holder_id: Seq<char>,
    pub status: Seq<char>,
}

impl View for AttemptRow {
    type V = AttemptRowView;

    open spec fn view(&self) -> AttemptRowView {
        AttemptRowView {
            attempt_key: self.attempt_key@,
            attempt_id: self.attempt_id@,
            unit_id: self.unit_id@,
            attempt_epoch: self.attempt_epoch,
            holder_id: self.holder_id@,
            status: self.status@,
        }
    }
}

impl Clone for AttemptRow {
    fn clone(&self) -> (r: Self)
        ensures
            r@ == self@,
    {
        AttemptRow {
            attempt_key: self.attempt_key.clone(),
            attempt_id: self.attempt_id.clone(),
            unit_id: self.unit_id.clone(),
            attempt_epoch: self.attempt_epoch,
            holder_id: self.holder_id.clone(),
            status: self.status.clone(),
        }
    }
}

/// The one lease of a unit.
#[derive(Debug)]
pub struct LeaseRow {
    pub unit_id: String,
    pub attempt_epoch: u64,
    pub holder_id: String,
    pub status: String,
    pub version: u64,
}

/// The view of a `LeaseRow`.
pub struct LeaseRowView {
    pub unit_id: Seq<char>,
    pub attempt_epoch: u64,
    pub holder_id: Seq<char>,
    pub status: Seq<char>,
    pub version: u64,
}

impl View for LeaseRow {
    type V = LeaseRowView;

    open spec fn view(&self) -> LeaseRowView {
        LeaseRowView {
            unit_id: self.unit_id@,
            attempt_epoch: self.attempt_epoch,
            holder_id: self.holder_id@,
            status: self.status@,
            version: self.version,
        }
    }
}

impl Clone for LeaseRow {
    fn clone(&self) -> (r: Self)
        ensures
            r@ == self@,
    {
        LeaseRow {
            unit_id: self.unit_id.clone(),
            attempt_epoch: self.attempt_epoch,
            holder_id: self.holder_id.clone(),
            status: self.status.clone(),
            version: self.version,
        }
    }
}

/// The durable answer to one command.
#[derive(Debug)]
pub struct ReceiptRow {
    pub receipt_key: String,
    pub command_type: String,
    pub receipt_version: u64,
    pub request_digest: String,
    pub principal_kind: String,
    pub principal_id: String,
    /// `completed` or `rejected`.
    pub status: String,
    /// The answer as JSON text.
    pub result: String,
    pub first_cursor: Option<u64>,
    pub last_cursor: Option<u64>,
}

/// The view of a `ReceiptRow`.
pub struct ReceiptRowView {
    pub receipt_key: Seq<char>,
    pub command_type: Seq<char>,
    pub receipt_version: u64,
    pub request_digest: Seq<char>,
    pub principal_kind: Seq<char>,
    pub principal_id: Seq<char>,
    pub status: Seq<char>,
    pub result: Seq<char>,
    pub first_cursor: Option<u64>,
    pub last_cursor: Option<u64>,
}

impl View for ReceiptRow {
    type V = ReceiptRowView;

    open spec fn view(&self) -> ReceiptRowView {
        ReceiptRowView {
            receipt_key: self.receipt_key@,
            command_type: self.command_type@,
            receipt_version: self.receipt_version,
            request_digest: self.request_digest@,
            principal_kind: self.principal_kind@,
            principal_id: self.principal_id@,
            status: self.status@,
            result: self.result@,
            first_cursor: self.first_cursor,
            last_cursor: self.last_cursor,
        }
    }
}

impl Clone for ReceiptRow {
    fn clone(&self) -> (r: Self)
        ensures
            r@ == self@,
    {
        ReceiptRow {
            receipt_key: self.receipt_key.clone(),
            command_type: self.command_type.clone(),
            receipt_version: self.receipt_version,
            request_digest: self.request_digest.clone(),
            principal_kind: self.principal_kind.clone(),
            principal_id: self.principal_id.clone(),
            status: self.status.clone(),
            result: self.result.clone(),
            first_cursor: self.first_cursor,
            last_cursor: self.last_cursor,
        }
    }
}

/// One event of the journal. Nothing of it ever changes.
#[derive(Debug)]
pub struct EventRecord {
    pub cursor: u64,
    pub event_id: String,
    pub aggregate_kind: String,
    pub aggregate_id: String,
    pub aggregate_version: u64,
    pub ordinal: u64,
    pub event_kind: String,
    /// JSON text.
    pub payload: String,
    pub receipt_key: String,
    pub command_id: String,
    pub actor_kind: String,
    pub actor_id: String,
    pub occurred_at_ms: u64,
    pub causation_id: Option<String>,
    pub correlation_id: Option<String>,
}

/// The view of a `EventRecord`.
pub struct EventRecordView {
    pub cursor: u64,
    pub event_id: Seq<char>,
    pub aggregate_kind: Seq<char>,
    pub aggregate_id: Seq<char>,
    pub aggregate_version: u64,
    pub ordinal: u64,
    pub event_kind: Seq<char>,
    pub payload: Seq<char>,
    pub receipt_key: Seq<char>,
    pub command_id: Seq<char>,
    pub actor_kind: Seq<char>,
    pub actor_id: Seq<char>,
    pub occurred_at_ms: u64,
    pub causation_id: Option<Seq<char>>,
    pub correlation_id: Option<Seq<char>>,
}

impl View for EventRecord {
    type V = EventRecordView;

    open spec fn view(&self) -> EventRecordView {
        EventRecordView {
            cursor: self.cursor,
            event_id: self.event_id@,
            aggregate_kind: self.aggregate_kind@,
            aggregate_id: self.aggregate_id@,
            aggregate_version: self.aggregate_version,
            ordinal: self.ordinal,
            event_kind: self.event_kind@,
            payload: self.payload@,
            receipt_key: self.receipt_key@,
            command_id: self.command_id@,
            actor_kind: self.actor_kind@,
            actor_id: self.actor_id@,
            occurred_at_ms: self.occurred_at_ms,
            causation_id: opt_view(self.causation_id),
            correlation_id: opt_view(self.correlation_id),
        }
    }
}

impl Clone for EventRecord {
    fn clone(&self) -> (r: Self)
        ensures
            r@ == self@,
    {
        EventRecord {
            cursor: self.cursor,
            event_id: self.event_id.clone(),
            aggregate_kind: self.aggregate_kind.clone(),
            aggregate_id: self.aggregate_id.clone(),
            aggregate_version: self.aggregate_version,
            ordinal: self.ordinal,
            event_kind: self.event_kind.clone(),
            payload: self.payload.clone(),
            receipt_key: self.receipt_key.clone(),
            command_id: self.command_id.clone(),
            actor_kind: self.actor_kind.clone(),
            actor_id: self.actor_id.clone(),
            occurred_at_ms: self.occurred_at_ms,
            causation_id: self.causation_id.clone(),
            correlation_id: self.correlation_id.clone(),
        }
    }
}

/// What is stored of an effect's intent: the intent, or why its record cannot be read.
#[derive(Debug)]
pub enum IntentRecord {
    Readable(EffectIntent),
    Unreadable(String),
}

/// The view of an `IntentRecord`.
pub enum IntentRecordView {
    Readable(EffectIntentView),
    Unreadable(Seq<char>),
}

impl View for IntentRecord {
    type V = IntentRecordView;

    open spec fn view(&self) -> IntentRecordView {
        match self {
            IntentRecord::Readable(intent) => IntentRecordView::Readable(intent@),
            IntentRecord::Unreadable(error) => IntentRecordView::Unreadable(error@),
        }
    }
}

impl Clone for IntentRecord {
    fn clone(&self) -> (r: Self)
        ensures
            r@ == self@,
    {
        match self {
            IntentRecord::Readable(intent) => IntentRecord::Readable(intent.clone()),
            IntentRecord::Unreadable(error) => IntentRecord::Unreadable(error.clone()),
        }
    }
}

/// An effect, under its operation key.
#[derive(Debug)]
pub struct EffectRow {
    pub operation_key: String,
    pub effect_intent_id: String,
    pub unit_id: String,
    pub attempt_epoch: u64,
    /// The effect's own version axis.
    pub version: u64,
    pub state: String,
    /// Absent until the effect settles.
    pub terminal: Option<String>,
    pub record: IntentRecord,
}

/// The view of a `EffectRow`.
pub struct EffectRowView {
    pub operation_key: Seq<char>,
    pub effect_intent_id: Seq<char>,
    pub unit_id: Seq<char>,
    pub attempt_epoch: u64,
    pub version: u64,
    pub state: Seq<char>,
    pub terminal: Option<Seq<char>>,
    pub record: IntentRecordView,
}

impl View for EffectRow {
    type V = EffectRowView;

    open spec fn view(&self) -> EffectRowView {
        EffectRowView {
            operation_key: self.operation_key@,
            effect_intent_id: self.effect_intent_id@,
            unit_id: self.unit_id@,
            attempt_epoch: self.attempt_epoch,
            version: self.version,
            state: self.state@,
            terminal: opt_view(self.terminal),
            record: self.record@,
        }
    }
}

impl Clone for EffectRow {
    fn clone(&self) -> (r: Self)
        ensures
            r@ == self@,
    {
        EffectRow {
            operation_key: self.operation_key.clone(),
            effect_intent_id: self.effect_intent_id.clone(),
            unit_id: self.unit_id.clone(),
            attempt_epoch: self.attempt_epoch,
            version: self.version,
            state: self.state.clone(),
            terminal: self.terminal.clone(),
            record: self.record.clone(),
        }
    }
}

/// A committed cancellation.
#[derive(Debug)]
pub struct CancelRequestRow {
    pub cancel_request_id: String,
    pub version: u64,
    pub root_kind: String,
    pub root_id: String,
    pub policy: String,
    pub reason: String,
    pub status: String,
    pub record: CancelRequest,
}

/// The view of a `CancelRequestRow`.
pub struct CancelRequestRowView {
    pub cancel_request_id: Seq<char>,
    pub version: u64,
    pub root_kind: Seq<char>,
    pub root_id: Seq<char>,
    pub policy: Seq<char>,
    pub reason: Seq<char>,
    pub status: Seq<char>,
    pub record: CancelRequestView,
}

impl View for CancelRequestRow {
    type V = CancelRequestRowView;

    open spec fn view(&self) -> CancelRequestRowView {
        CancelRequestRowView {
            cancel_request_id: self.cancel_request_id@,
            version: self.version,
            root_kind: self.root_kind@,
            root_id: self.root_id@,
            policy: self.policy@,
            reason: self.reason@,
            status: self.status@,
            record: self.record@,
        }
    }
}

impl Clone for CancelRequestRow {
    fn clone(&self) -> (r: Self)
        ensures
            r@ == self@,
    {
        CancelRequestRow {
            cancel_request_id: self.cancel_request_id.clone(),
            version: self.version,
            root_kind: self.root_kind.clone(),
            root_id: self.root_id.clone(),
            policy: self.policy.clone(),
            reason: self.reason.clone(),
            status: self.status.clone(),
            record: self.record.clone(),
        }
    }
}

/// A recorded delivery; written once.
#[derive(Debug)]
pub struct CancelDeliveryRow {
    /// `cancel_request_id|member_id`.
    pub delivery_key: String,
    pub cancel_request_id: String,
    pub member_id: String,
    pub member_kind: String,
    pub outcome: String,
    pub record: CancelDelivery,
}

/// The view of a `CancelDeliveryRow`.
pub struct CancelDeliveryRowView {
    pub delivery_key: Seq<char>,
    pub cancel_request_id: Seq<char>,
    pub member_id: Seq<char>,
    pub member_kind: Seq<char>,
    pub outcome: Seq<char>,
    pub record: CancelDeliveryView,
}

impl View for CancelDeliveryRow {
    type V = CancelDeliveryRowView;

    open spec fn view(&self) -> CancelDeliveryRowView {
        CancelDeliveryRowView {
            delivery_key: self.delivery_key@,
            cancel_request_id: self.cancel_request_id@,
            member_id: self.member_id@,
            member_kind: self.member_kind@,
            outcome: self.outcome@,
            record: self.record@,
        }
    }
}

impl Clone for CancelDeliveryRow {
    fn clone(&self) -> (r: Self)
        ensures
            r@ == self@,
    {
        CancelDeliveryRow {
            delivery_key: self.delivery_key.clone(),
            cancel_request_id: self.cancel_request_id.clone(),
            member_id: self.member_id.clone(),
            member_kind: self.member_kind.clone(),
            outcome: self.outcome.clone(),
            record: self.record.clone(),
        }
    }
}

/// Everything that is durable: the authority row, the rows of each kind, and the journal.
#[derive(Debug)]
pub struct Tables {
    pub authority: Option<AuthorityRow>,
    pub runs: Table<RunRow>,
    pub work_items: Table<WorkItemRow>,
    pub units: Table<UnitRow>,
    pub attempts: Table<AttemptRow>,
    pub leases: Table<LeaseRow>,
    pub receipts: Table<ReceiptRow>,
    pub effects: Table<EffectRow>,
    pub requests: Table<CancelRequestRow>,
    pub deliveries: Table<CancelDeliveryRow>,
    pub events: Vec<EventRecord>,
}

/// The view of `Tables`.
pub struct TablesView {
    pub authority: Option<AuthorityRowView>,
    pub runs: Seq<(Seq<char>, RunRowView)>,
    pub work_items: Seq<(Seq<char>, WorkItemRowView)>,
    pub units: Seq<(Seq<char>, UnitRowView)>,
    pub attempts: Seq<(Seq<char>, AttemptRowView)>,
    pub leases: Seq<(Seq<char>, LeaseRowView)>,
    pub receipts: Seq<(Seq<char>, ReceiptRowView)>,
    pub effects: Seq<(Seq<char>, EffectRowView)>,
    pub requests: Seq<(Seq<char>, CancelRequestRowView)>,
    pub deliveries: Seq<(Seq<char>, CancelDeliveryRowView)>,
    pub events: Seq<EventRecordView>,
}

impl View for Tables {
    type V = TablesView;

    open spec fn view(&self) -> TablesView {
        TablesView {
            authority: match self.authority {
                Some(row) => Some(row@),
                None => None,
            },
            runs: self.runs@,
            work_items: self.work_items@,
            units: self.units@,
            attempts: self.attempts@,
            leases: self.leases@,
            receipts: self.receipts@,
            effects: self.effects@,
            requests: self.requests@,
            deliveries: self.deliveries@,
            events: self.events@.map_values(|e: EventRecord| e@),
        }
    }
}

impl Tables {
    /// No rows at all.
    pub fn empty() -> (r: Tables)
        ensures
            r@ == empty_tables(),
    {
        let r = Tables {
            authority: None,
            runs: Table::new(),
            work_items: Table::new(),
            units: Table::new(),
            attempts: Table::new(),
            leases: Table::new(),
            receipts: Table::new(),
            effects: Table::new(),
            requests: Table::new(),
            deliveries: Table::new(),
            events: Vec::new(),
        };
        proof {
            assert(r@.events =~= Seq::<EventRecordView>::empty());
        }
        r
    }
}

/// Tables without any row.
pub open spec fn empty_tables() -> TablesView {
    TablesView {
        authority: None,
        runs: Seq::empty(),
        work_items: Seq::empty(),
        units: Seq::empty(),
        attempts: Seq::empty(),
        leases: Seq::empty(),
        receipts: Seq::empty(),
        effects: Seq::empty(),
        requests: Seq::empty(),
        deliveries: Seq::empty(),
        events: Seq::empty(),
    }
}

/// The row under which the authority of a fresh control graph is claimed.
pub open spec fn first_claim(instance_id: Seq<char>) -> AuthorityRowView {
    AuthorityRowView {
        authority_epoch: 1,
        holder_instance_id: instance_id,
        prior_instance_id: None,
        status: "active"@,
    }
}

/// The row after a takeover: the epoch is one higher and the prior instance is recorded.
pub open spec fn takeover(row: AuthorityRowView, instance_id: Seq<char>) -> AuthorityRowView {
    AuthorityRowView {
        authority_epoch: (row.authority_epoch + 1) as u64,
        holder_instance_id: instance_id,
        prior_instance_id: Some(row.holder_instance_id),
        status: "active"@,
    }
}

/// A fresh control graph of a project, claimed by an instance.
pub open spec fn created(instance_id: Seq<char>, project_id: Seq<char>) -> StoreView {
    StoreView {
        tables: TablesView { authority: Some(first_claim(instance_id)), ..empty_tables() },
        next_cursor: 1,
        epoch: AuthorityEpoch(1),
        project: project_id,
        min_retained: 0,
    }
}

/// A control graph that an instance takes over from its durable rows.
pub open spec fn recovered(
    tables: TablesView,
    instance_id: Seq<char>,
    project_id: Seq<char>,
) -> StoreView {
    StoreView {
        tables: TablesView {
            authority: Some(takeover(tables.authority->0, instance_id)),
            ..tables
        },
        next_cursor: (max_cursor(tables.events) + 1) as u64,
        epoch: AuthorityEpoch((tables.authority->0.authority_epoch + 1) as u64),
        project: project_id,
        min_retained: 0,
    }
}

/// A store after it handed out its next cursor.
pub open spec fn allocated(s: StoreView) -> StoreView {
    StoreView { next_cursor: (s.next_cursor + 1) as u64, ..s }
}

/// The highest cursor of a journal; 0 for an empty one.
pub open spec fn max_cursor(events: Seq<EventRecordView>) -> u64
    decreases events.len(),
{
    if events.len() == 0 {
        0
    } else {
        let front = max_cursor(events.drop_last());
        if events.last().cursor > front {
            events.last().cursor
        } else {
            front
        }
    }
}

/// No event of a journal lies above its highest cursor.
pub proof fn max_cursor_bounds(events: Seq<EventRecordView>, i: int)
    requires
        0 <= i < events.len(),
    ensures
        events[i].cursor <= max_cursor(events),
    decreases events.len(),
{
    if i < events.len() - 1 {
        max_cursor_bounds(events.drop_last(), i);
        assert(events.drop_last()[i] == events[i]);
    }
}

/// What an attempt token seals.
#[derive(Debug)]
pub struct AttemptTokenClaims {
    pub unit_id: String,
    pub attempt_epoch: AttemptEpoch,
    pub stamp: Stamp,
    pub authority_epoch: AuthorityEpoch,
    pub holder_id: String,
    pub nonce: String,
}

/// The view of a `AttemptTokenClaims`.
pub struct AttemptTokenClaimsView {
    pub unit_id: Seq<char>,
    pub attempt_epoch: AttemptEpoch,
    pub stamp: Stamp,
    pub authority_epoch: AuthorityEpoch,
    pub holder_id: Seq<char>,
    pub nonce: Seq<char>,
}

impl View for AttemptTokenClaims {
    type V = AttemptTokenClaimsView;

    open spec fn view(&self) -> AttemptTokenClaimsView {
        AttemptTokenClaimsView {
            unit_id: self.unit_id@,
            attempt_epoch: self.attempt_epoch,
            stamp: self.stamp,
            authority_epoch: self.authority_epoch,
            holder_id: self.holder_id@,
            nonce: self.nonce@,
        }
    }
}

impl Clone for AttemptTokenClaims {
    fn clone(&self) -> (r: Self)
        ensures
            r@ == self@,
    {
        AttemptTokenClaims {
            unit_id: self.unit_id.clone(),
            attempt_epoch: self.attempt_epoch,
            stamp: self.stamp,
            authority_epoch: self.authority_epoch,
            holder_id: self.holder_id.clone(),
            nonce: self.nonce.clone(),
        }
    }
}

/// A typed refusal by the store. The detail says which axis failed; clients branch on the
/// kind alone.
#[derive(Debug, Clone, PartialEq, Eq)]
pub enum StoreRejection {
    FenceRejected { detail: String },
    VersionConflict { aggregate: String, expected: u64, actual: u64 },
    JournalImmutable { detail: String },
    NotFound { aggregate: String },
    TerminalAlreadySet { operation_key: String },
}

/// The view of a `StoreRejection`.
pub enum StoreRejectionView {
    FenceRejected { detail: Seq<char> },
    VersionConflict { aggregate: Seq<char>, expected: u64, actual: u64 },
    JournalImmutable { detail: Seq<char> },
    NotFound { aggregate: Seq<char> },
    TerminalAlreadySet { operation_key: Seq<char> },
}

impl View for StoreRejection {
    type V = StoreRejectionView;

    open spec fn view(&self) -> StoreRejectionView {
        match self {
            StoreRejection::FenceRejected { detail } => StoreRejectionView::FenceRejected {
                detail: detail@,
            },
            StoreRejection::VersionConflict { aggregate, expected, actual } =>
                StoreRejectionView::VersionConflict {
                aggregate: aggregate@,
                expected: *expected,
                actual: *actual,
            },
            StoreRejection::JournalImmutable { detail } => StoreRejectionView::JournalImmutable {
                detail: detail@,
            },
            StoreRejection::NotFound { aggregate } => StoreRejectionView::NotFound {
                aggregate: aggregate@,
            },
            StoreRejection::TerminalAlreadySet { operation_key } =>
                StoreRejectionView::TerminalAlreadySet { operation_key: operation_key@ },
        }
    }
}

/// Why a store operation failed.
#[derive(Debug)]
pub enum StoreError {
    Rejected(StoreRejection),
    /// A control graph already stands where a fresh one was asked for.
    AlreadyInitialized(String),
    /// A commit that may or may not be durable.
    CommitUnknown(String),
    /// Incoherence inside the kernel; never a domain rejection.
    Internal(String),
}

/// Fence-relevant fields of a unit row.
#[derive(Debug, Clone, Copy)]
pub struct UnitFence {
    pub attempt_epoch: AttemptEpoch,
    pub stamp: Stamp,
}

/// Fence-relevant fields of a lease row.
#[derive(Debug)]
pub struct LeaseFence {
    pub holder_id: String,
    pub status: String,
}

/// The view of a `LeaseFence`.
pub struct LeaseFenceView {
    pub holder_id: Seq<char>,
    pub status: Seq<char>,
}

impl View for LeaseFence {
    type V = LeaseFenceView;

    open spec fn view(&self) -> LeaseFenceView {
        LeaseFenceView {
            holder_id: self.holder_id@,
            status: self.status@,
        }
    }
}

impl Clone for LeaseFence {
    fn clone(&self) -> (r: Self)
        ensures
            r@ == self@,
    {
        LeaseFence {
            holder_id: self.holder_id.clone(),
            status: self.status.clone(),
        }
    }
}

/// What the fence reads for the unit that a token is sealed for.
#[derive(Debug)]
pub struct FenceRead {
    pub unit: Option<UnitFence>,
    pub lease: Option<LeaseFence>,
}

/// The view of a `FenceRead`.
pub struct FenceReadView {
    pub unit: Option<UnitFence>,
    pub lease: Option<LeaseFenceView>,
}

impl View for FenceRead {
    type V = FenceReadView;

    open spec fn view(&self) -> FenceReadView {
        FenceReadView {
            unit: self.unit,
            lease: match self.lease { Some(x) => Some(x@), None => None },
        }
    }
}

/// The five axes of the holder fence, in the order in which they are checked: authority
/// epoch, attempt epoch, stamp, lease liveness, holder. `None` where all five hold.
pub open spec fn fence_fault(
    current: AuthorityEpoch,
    read: FenceReadView,
    claims: AttemptTokenClaimsView,
) -> Option<StoreRejectionView> {
    if claims.authority_epoch != current {
        Some(
            StoreRejectionView::FenceRejected {
                detail: "authority epoch "@ + dec(claims.authority_epoch.0 as nat)
                    + " behind current "@ + dec(current.0 as nat),
            },
        )
    } else {
        match read.unit {
            None => Some(StoreRejectionView::NotFound { aggregate: "unit "@ + claims.unit_id }),
            Some(unit) => if claims.attempt_epoch != unit.attempt_epoch {
                Some(
                    StoreRejectionView::FenceRejected {
                        detail: "attempt epoch "@ + dec(claims.attempt_epoch.0 as nat)
                            + " vs current "@ + dec(unit.attempt_epoch.0 as nat),
                    },
                )
            } else if claims.stamp != unit.stamp {
                Some(
                    StoreRejectionView::FenceRejected {
                        detail: "stamp "@ + dec(claims.stamp.0 as nat) + " vs current "@ + dec(
                            unit.stamp.0 as nat,
                        ),
                    },
                )
            } else {
                match read.lease {
                    None => Some(
                        StoreRejectionView::NotFound {
                            aggregate: "lease for unit "@ + claims.unit_id,
                        },
                    ),
                    Some(lease) => if lease.status != "active"@ {
                        Some(
                            StoreRejectionView::FenceRejected {
                                detail: "lease status "@ + lease.status,
                            },
                        )
                    } else if lease.holder_id != claims.holder_id {
                        Some(
                            StoreRejectionView::FenceRejected {
                                detail: "holder "@ + claims.holder_id + " vs lease holder "@
                                    + lease.holder_id,
                            },
                        )
                    } else {
                        None
                    },
                }
            },
        }
    }
}

/// A token passes the fence exactly when it agrees with the store on all five axes.
pub proof fn fence_checks_all_five_axes(
    current: AuthorityEpoch,
    read: FenceReadView,
    claims: AttemptTokenClaimsView,
)
    ensures
        fence_fault(current, read, claims) is None <==> {
            &&& claims.authority_epoch == current
            &&& read.unit is Some
            &&& claims.attempt_epoch == read.unit->0.attempt_epoch
            &&& claims.stamp == read.unit->0.stamp
            &&& read.lease is Some
            &&& read.lease->0.status == "active"@
            &&& read.lease->0.holder_id == claims.holder_id
        },
{
}

/// The control store of one daemon lifetime.
#[derive(Debug)]
pub struct Store {
    pub tables: Tables,
    /// The next cursor to hand out: monotonic, maybe gapped, never reused.
    pub next_cursor: u64,
    pub epoch: AuthorityEpoch,
    pub project: String,
    /// Events at or below this cursor may be gone.
    pub min_retained: u64,
}

/// The view of a `Store`.
pub struct StoreView {
    pub tables: TablesView,
    pub next_cursor: u64,
    pub epoch: AuthorityEpoch,
    pub project: Seq<char>,
    pub min_retained: u64,
}

impl View for Store {
    type V = StoreView;

    open spec fn view(&self) -> StoreView {
        StoreView {
            tables: self.tables@,
            next_cursor: self.next_cursor,
            epoch: self.epoch,
            project: self.project@,
            min_retained: self.min_retained,
        }
    }
}

impl Store {
    /// A fresh control graph: claims authority at epoch 1 and hands out cursors from 1.
    pub fn create(instance_id: &str) -> (r: Store)
        ensures
            r@ == (StoreView {
                tables: TablesView {
                    authority: Some(first_claim(instance_id@)),
                    ..empty_tables()
                },
                next_cursor: 1,
                epoch: AuthorityEpoch(1),
                project: ""@,
                min_retained: 0,
            }),
            r@ == created(instance_id@, ""@),
    {
        Store::create_project(instance_id, "")
    }

    /// A fresh control graph of a project.
    pub fn create_project(instance_id: &str, project_id: &str) -> (r: Store)
        ensures
            r@ == (StoreView {
                tables: TablesView {
                    authority: Some(first_claim(instance_id@)),
                    ..empty_tables()
                },
                next_cursor: 1,
                epoch: AuthorityEpoch(1),
                project: project_id@,
                min_retained: 0,
            }),
            r@ == created(instance_id@, project_id@),
    {
        let mut tables = Tables::empty();
        tables.authority = Some(
            AuthorityRow {
                authority_epoch: 1,
                holder_instance_id: instance_id.to_owned(),
                prior_instance_id: None,
                status: "active".to_owned(),
            },
        );
        Store {
            tables,
            next_cursor: 1,
            epoch: AuthorityEpoch(1),
            project: project_id.to_owned(),
            min_retained: 0,
        }
    }

    /// Reopens the durable rows after a kill: the cursor allocator is restored strictly above
    /// the highest committed cursor, and the claim raises the authority epoch by one and
    /// records the prior instance. Rows without an authority row are incoherent.
    pub fn recover(tables: Tables, instance_id: &str, project_id: &str) -> (r: Result<
        Store,
        StoreError,
    >)
        requires
            tables@.authority is Some ==> tables@.authority->0.authority_epoch < u64::MAX,
            max_cursor(tables@.events) < u64::MAX,
        ensures
            match r {
                Ok(store) => {
                    &&& tables@.authority is Some
                    &&& store@ == StoreView {
                        tables: TablesView {
                            authority: Some(takeover(tables@.authority->0, instance_id@)),
                            ..tables@
                        },
                        next_cursor: (max_cursor(tables@.events) + 1) as u64,
                        epoch: AuthorityEpoch((tables@.authority->0.authority_epoch + 1) as u64),
                        project: project_id@,
                        min_retained: 0,
                    }
                },
                Err(StoreError::Internal(detail)) => tables@.authority is None && detail@
                    == "control graph has no Authority row"@,
                Err(_) => false,
            },
            r is Ok <==> tables@.authority is Some,
            r is Ok ==> r->Ok_0@ == recovered(tables@, instance_id@, project_id@),
    {
        let mut tables = tables;
        let next_cursor: u64 = highest_cursor(&tables.events) + 1;
        let claimed = match &tables.authority {
            None => None,
            Some(row) => Some(
                AuthorityRow {
                    authority_epoch: row.authority_epoch + 1,
                    holder_instance_id: instance_id.to_owned(),
                    prior_instance_id: Some(row.holder_instance_id.clone()),
                    status: "active".to_owned(),
                },
            ),
        };
        match claimed {
            None => Err(StoreError::Internal("control graph has no Authority row".to_owned())),
            Some(row) => {
                let epoch: u64 = row.authority_epoch;
                tables.authority = Some(row);
                Ok(
                    Store {
                        tables,
                        next_cursor,
                        epoch: AuthorityEpoch(epoch),
                        project: project_id.to_owned(),
                        min_retained: 0,
                    },
                )
            },
        }
    }

    /// The ownership epoch of this lifetime.
    pub fn authority_epoch(&self) -> (r: AuthorityEpoch)
        ensures
            r == self@.epoch,
    {
        self.epoch
    }

    /// The project that the control graph belongs to.
    pub fn project_id(&self) -> (r: &str)
        ensures
            r@ == self@.project,
    {
        &self.project
    }

    /// Events at or below this cursor may be gone.
    pub fn min_retained_cursor(&self) -> (r: u64)
        ensures
            r == self@.min_retained,
    {
        self.min_retained
    }

    /// Hands out the next cursor. It is burned whether or not anything commits under it.
    pub fn allocate_cursor(&mut self) -> (r: u64)
        requires
            old(self)@.next_cursor < u64::MAX,
        ensures
            r == old(self)@.next_cursor,
            final(self)@ == (StoreView {
                next_cursor: (old(self)@.next_cursor + 1) as u64,
                ..old(self)@
            }),
            final(self)@ == allocated(old(self)@),
    {
        let v: u64 = self.next_cursor;
        self.next_cursor = v + 1;
        v
    }

    /// The holder fence: authority epoch, attempt epoch, stamp, lease liveness and holder, all
    /// five, at every boundary that a holder crosses.
    pub fn check_holder_fence(&self, read: &FenceRead, claims: &AttemptTokenClaims) -> (r: Result<
        (),
        StoreRejection,
    >)
        ensures
            match r {
                Ok(()) => fence_fault(self@.epoch, read@, claims@) is None,
                Err(e) => fence_fault(self@.epoch, read@, claims@) == Some(e@),
            },
    {
        if claims.authority_epoch.0 != self.epoch.0 {
            let mut detail = "authority epoch ".to_owned();
            detail.append(&decimal(claims.authority_epoch.0));
            detail.append(" behind current ");
            detail.append(&decimal(self.epoch.0));
            return Err(StoreRejection::FenceRejected { detail });
        }
        let unit = match &read.unit {
            None => {
                let mut aggregate = "unit ".to_owned();
                aggregate.append(&claims.unit_id);
                return Err(StoreRejection::NotFound { aggregate });
            },
            Some(unit) => unit,
        };
        if claims.attempt_epoch.0 != unit.attempt_epoch.0 {
            let mut detail = "attempt epoch ".to_owned();
            detail.append(&decimal(claims.attempt_epoch.0));
            detail.append(" vs current ");
            detail.append(&decimal(unit.attempt_epoch.0));
            return Err(StoreRejection::FenceRejected { detail });
        }
        if claims.stamp.0 != unit.stamp.0 {
            let mut detail = "stamp ".to_owned();
            detail.append(&decimal(claims.stamp.0));
            detail.append(" vs current ");
            detail.append(&decimal(unit.stamp.0));
            return Err(StoreRejection::FenceRejected { detail });
        }
        let lease = match &read.lease {
            None => {
                let mut aggregate = "lease for unit ".to_owned();
                aggregate.append(&claims.unit_id);
                return Err(StoreRejection::NotFound { aggregate });
            },
            Some(lease) => lease,
        };
        if !same(&lease.status, "active") {
            let mut detail = "lease status ".to_owned();
            detail.append(&lease.status);
            return Err(StoreRejection::FenceRejected { detail });
        }
        if !same(&lease.holder_id, &claims.holder_id) {
            let mut detail = "holder ".to_owned();
            detail.append(&claims.holder_id);
            detail.append(" vs lease holder ");
            detail.append(&lease.holder_id);
            return Err(StoreRejection::FenceRejected { detail });
        }
        Ok(())
    }

    /// A request to delete a journal event is always refused.
    pub fn request_journal_delete(&self, event_id: &str) -> (r: StoreRejection)
        ensures
            r@ == (StoreRejectionView::JournalImmutable {
                detail: "delete of committed event "@ + event_id@,
            }),
    {
        let mut detail = "delete of committed event ".to_owned();
        detail.append(event_id);
        StoreRejection::JournalImmutable { detail }
    }
}

/// The highest cursor of a journal.
fn highest_cursor(events: &Vec<EventRecord>) -> (r: u64)
    ensures
        r == max_cursor(events@.map_values(|e: EventRecord| e@)),
{
    let ghost journal = events@.map_values(|e: EventRecord| e@);
    let mut best: u64 = 0;
    let mut i: usize = 0;
    proof {
        assert(journal.take(0) =~= Seq::<EventRecordView>::empty());
    }
    while i < events.len()
        invariant
            i <= events.len(),
            journal == events@.map_values(|e: EventRecord| e@),
            best == max_cursor(journal.take(i as int)),
        decreases events.len() - i,
    {
        proof {
            assert(journal.take(i + 1).drop_last() =~= journal.take(i as int));
            assert(journal.take(i + 1).last() == events@[i as int]@);
        }
        if events[i].cursor > best {
            best = events[i].cursor;
        }
        i += 1;
    }
    proof {
        assert(journal.take(journal.len() as int) =~= journal);
    }
    best
}

/// The events above a cursor, in the order of the journal.
pub open spec fn later(events: Seq<EventRecordView>, after: u64) -> Seq<EventRecordView>
    decreases events.len(),
{
    if events.len() == 0 {
        Seq::empty()
    } else if events.last().cursor > after {
        later(events.drop_last(), after).push(events.last())
    } else {
        later(events.drop_last(), after)
    }
}

/// The first `limit` events above a cursor.
pub open spec fn events_after(events: Seq<EventRecordView>, after: u64, limit: nat) -> Seq<
    EventRecordView,
> {
    let all = later(events, after);
    if all.len() > limit {
        all.take(limit as int)
    } else {
        all
    }
}

proof fn later_grows(events: Seq<EventRecordView>, after: u64, n: int)
    requires
        0 <= n <= events.len(),
    ensures
        later(events.take(n), after).len() <= later(events, after).len(),
        later(events, after).take(later(events.take(n), after).len() as int) == later(
            events.take(n),
            after,
        ),
    decreases events.len() - n,
{
    let front = later(events.take(n), after);
    if n < events.len() {
        later_grows(events, after, n + 1);
        assert(events.take(n + 1).drop_last() =~= events.take(n));
        let next = later(events.take(n + 1), after);
        assert(next.take(front.len() as int) =~= front);
        assert(later(events, after).take(front.len() as int) =~= later(events, after).take(
            next.len() as int,
        ).take(front.len() as int));
    } else {
        assert(events.take(n) =~= events);
        assert(later(events, after).take(front.len() as int) =~= front);
    }
}

pub(crate) proof fn later_is_no_longer(events: Seq<EventRecordView>, after: u64)
    ensures
        later(events, after).len() <= events.len(),
    decreases events.len(),
{
    if events.len() > 0 {
        later_is_no_longer(events.drop_last(), after);
    }
}

/// Every event that is read above a cursor lies above it, and is an event of the journal.
pub proof fn events_after_lie_above(events: Seq<EventRecordView>, after: u64, limit: nat)
    ensures
        events_after(events, after, limit).len() <= limit,
        forall|i: int|
            0 <= i < events_after(events, after, limit).len() ==> (#[trigger] events_after(
                events,
                after,
                limit,
            )[i]).cursor > after && events.contains(events_after(events, after, limit)[i]),
{
    later_lies_above(events, after);
    let list = events_after(events, after, limit);
    assert forall|i: int| 0 <= i < list.len() implies (#[trigger] list[i]).cursor > after
        && events.contains(list[i]) by {
        assert(list[i] == later(events, after)[i]);
    }
}

proof fn later_lies_above(events: Seq<EventRecordView>, after: u64)
    ensures
        forall|i: int|
            0 <= i < later(events, after).len() ==> (#[trigger] later(events, after)[i]).cursor
                > after && events.contains(later(events, after)[i]),
    decreases events.len(),
{
    if events.len() > 0 {
        let front = events.drop_last();
        later_lies_above(front, after);
        let list = later(events, after);
        assert forall|i: int| 0 <= i < list.len() implies (#[trigger] list[i]).cursor > after
            && events.contains(list[i]) by {
            if i < later(front, after).len() {
                assert(list[i] == later(front, after)[i]);
                let k = choose|k: int| 0 <= k < front.len() && front[k] == list[i];
                assert(events[k] == list[i]);
            } else {
                assert(events[events.len() - 1] == list[i]);
            }
        }
    }
}

/// Whether an event is owned by the receipt that it names: the receipt is there, and its range
/// of cursors covers the event.
pub open spec fn is_owned(receipts: Seq<(Seq<char>, ReceiptRowView)>, e: EventRecordView) -> bool {
    match lookup(receipts, e.receipt_key) {
        Some(row) => row.first_cursor is Some && row.last_cursor is Some && row.first_cursor->0
            <= e.cursor <= row.last_cursor->0,
        None => false,
    }
}

/// The composite key of an event: the place that it takes in its aggregate. The kind comes first,
/// since identifiers are unique within a kind only.
pub open spec fn place_key(e: EventRecordView) -> Seq<char> {
    e.aggregate_kind + "/"@ + e.aggregate_id + "/"@ + dec(e.aggregate_version as nat) + "/"@ + dec(
        e.ordinal as nat,
    )
}

/// The composite key of an event.
pub fn agg_ver_ord(e: &EventRecord) -> (r: String)
    ensures
        r@ == place_key(e@),
{
    let mut s = e.aggregate_kind.clone();
    s.append("/");
    s.append(&e.aggregate_id);
    s.append("/");
    s.append(&decimal(e.aggregate_version));
    s.append("/");
    s.append(&decimal(e.ordinal));
    s
}

/// How a fault of the store's own shows: by its name, with the detail quoted.
pub open spec fn internal_form(detail: Seq<char>) -> Seq<char> {
    "Internal("@ + debug_form(detail) + ")"@
}

/// How a fault of the store's own shows.
pub fn internal_text(detail: &str) -> (r: String)
    ensures
        r@ == internal_form(detail@),
{
    let mut s = "Internal(".to_owned();
    s.append(&debug_text(detail));
    s.append(")");
    s
}

/// What the durable rows say of the claims of a dispatch: whether they are current, or why
/// they are none of a dispatch that happened.
pub open spec fn claims_standing(
    store: StoreView,
    claims: AttemptTokenClaimsView,
    attempt_id: Seq<char>,
    version: u64,
) -> Result<bool, Seq<char>> {
    let key = claims.unit_id + "/"@ + dec(claims.attempt_epoch.0 as nat);
    match (lookup(store.tables.attempts, key), lookup(store.tables.units, claims.unit_id)) {
        (Some(attempt), Some(unit)) => if attempt.attempt_id != attempt_id || attempt.holder_id
            != claims.holder_id {
            Err("attempt does not match its row"@)
        } else if unit.version < version {
            Err("unit version lies ahead of its row"@)
        } else {
            Ok(
                fence_fault(
                    store.epoch,
                    fence_rows_of(store.tables, claims.unit_id),
                    claims,
                ) is None,
            )
        },
        _ => Err("attempt or unit is not there"@),
    }
}

/// The rows that the holder fence reads of a unit.
pub open spec fn fence_rows_of(tables: TablesView, unit_id: Seq<char>) -> FenceReadView {
    FenceReadView {
        unit: match lookup(tables.units, unit_id) {
            Some(u) => Some(
                UnitFence { attempt_epoch: AttemptEpoch(u.epoch), stamp: Stamp(u.stamp) },
            ),
            None => None,
        },
        lease: match lookup(tables.leases, unit_id) {
            Some(l) => Some(LeaseFenceView { status: l.status, holder_id: l.holder_id }),
            None => None,
        },
    }
}

impl Store {
    /// The highest cursor of the journal.
    pub fn latest_cursor(&self) -> (r: u64)
        ensures
            r == max_cursor(self@.tables.events),
    {
        highest_cursor(&self.tables.events)
    }

    /// The first `limit` events above a cursor.
    pub fn events_after_limit(&self, after: u64, limit: usize) -> (r: Vec<EventRecord>)
        ensures
            r@.map_values(|e: EventRecord| e@) == events_after(
                self@.tables.events,
                after,
                limit as nat,
            ),
    {
        let events = &self.tables.events;
        let ghost journal = self@.tables.events;
        let mut out: Vec<EventRecord> = Vec::new();
        let mut i: usize = 0;
        proof {
            assert(journal.take(0) =~= Seq::<EventRecordView>::empty());
            assert(out@.map_values(|e: EventRecord| e@) =~= Seq::<EventRecordView>::empty());
        }
        while i < events.len() && out.len() < limit
            invariant
                i <= events.len(),
                journal == events@.map_values(|e: EventRecord| e@),
                out@.map_values(|e: EventRecord| e@) == later(journal.take(i as int), after),
                out.len() <= limit,
            decreases events.len() - i,
        {
            proof {
                assert(journal.take(i + 1).drop_last() =~= journal.take(i as int));
                assert(journal.take(i + 1).last() == events@[i as int]@);
            }
            if events[i].cursor > after {
                let ghost before = out@.map_values(|e: EventRecord| e@);
                out.push(events[i].clone());
                proof {
                    assert(out@.map_values(|e: EventRecord| e@) =~= before.push(
                        events@[i as int]@,
                    ));
                }
            }
            i += 1;
        }
        proof {
            later_grows(journal, after, i as int);
            assert(journal.take(journal.len() as int) =~= journal);
            assert(out@.map_values(|e: EventRecord| e@).len() == out@.len());
            let all = later(journal, after);
            assert(all.take(all.len() as int) =~= all);
        }
        out
    }

    /// Checks that every event of the journal is owned by the receipt that it names.
    pub fn validate_event_receipts(&self) -> (r: Result<(), String>)
        ensures
            match r {
                Ok(()) => forall|i: int|
                    0 <= i < self@.tables.events.len() ==> is_owned(
                        self@.tables.receipts,
                        #[trigger] self@.tables.events[i],
                    ),
                Err(e) => e@ == "event is not owned by its receipt"@ && exists|i: int|
                    0 <= i < self@.tables.events.len() && !is_owned(
                        self@.tables.receipts,
                        #[trigger] self@.tables.events[i],
                    ),
            },
    {
        let events = &self.tables.events;
        let mut i: usize = 0;
        while i < events.len()
            invariant
                i <= events.len(),
                self@.tables.events == events@.map_values(|e: EventRecord| e@),
                forall|k: int|
                    0 <= k < i ==> is_owned(
                        self@.tables.receipts,
                        #[trigger] self@.tables.events[k],
                    ),
            decreases events.len() - i,
        {
            proof {
                assert(self@.tables.events[i as int] == events@[i as int]@);
            }
            let owned = match self.tables.receipts.get(&events[i].receipt_key) {
                Some(row) => match (row.first_cursor, row.last_cursor) {
                    (Some(first), Some(last)) => first <= events[i].cursor && events[i].cursor
                        <= last,
                    _ => false,
                },
                None => false,
            };
            if !owned {
                return Err("event is not owned by its receipt".to_owned());
            }
            i += 1;
        }
        Ok(())
    }

    /// Holds the claims of a dispatch against the durable rows.
    pub fn validate_dispatch_claims(
        &self,
        claims: &AttemptTokenClaims,
        attempt_id: &str,
        version: u64,
    ) -> (r: Result<bool, String>)
        ensures
            match r {
                Ok(current) => claims_standing(self@, claims@, attempt_id@, version) == Ok::<
                    bool,
                    Seq<char>,
                >(current),
                Err(e) => claims_standing(self@, claims@, attempt_id@, version) == Err::<
                    bool,
                    Seq<char>,
                >(e@),
            },
    {
        let mut key = claims.unit_id.clone();
        key.append("/");
        key.append(&decimal(claims.attempt_epoch.0));
        let attempt = match self.tables.attempts.get(&key) {
            Some(a) => a,
            None => {
                return Err("attempt or unit is not there".to_owned());
            },
        };
        let unit = match self.tables.units.get(&claims.unit_id) {
            Some(u) => u,
            None => {
                return Err("attempt or unit is not there".to_owned());
            },
        };
        if !same(&attempt.attempt_id, attempt_id) || !same(&attempt.holder_id, &claims.holder_id) {
            return Err("attempt does not match its row".to_owned());
        }
        if unit.version < version {
            return Err("unit version lies ahead of its row".to_owned());
        }
        let lease = match self.tables.leases.get(&claims.unit_id) {
            Some(l) => Some(
                LeaseFence { status: l.status.clone(), holder_id: l.holder_id.clone() },
            ),
            None => None,
        };
        let read = FenceRead {
            unit: Some(
                UnitFence { attempt_epoch: AttemptEpoch(unit.epoch), stamp: Stamp(unit.stamp) },
            ),
            lease,
        };
        Ok(self.check_holder_fence(&read, claims).is_ok())
    }
}

/// Every takeover raises the authority epoch by exactly one, so no two lifetimes share one.
pub proof fn takeover_raises_the_epoch(row: AuthorityRowView, instance_id: Seq<char>)
    requires
        row.authority_epoch < u64::MAX,
    ensures
        takeover(row, instance_id).authority_epoch == row.authority_epoch + 1,
        takeover(row, instance_id).prior_instance_id == Some(row.holder_instance_id),
{
}

} // verus!
