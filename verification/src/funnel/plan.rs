//! The staged mutation plan and event draft.
//!
//! A `Plan` is what an accepted command will do, staged as concrete values so that the
//! mutation phase decides nothing. An `EventDraft` pairs one event with the aggregate version
//! that it stamps.
use crate::cancel::{
    CancelDelivery, CancelDeliveryView, CancelKind, CancelRequest, CancelRequestView,
    DeliveryOutcome,
};
use crate::effect::{EffectIntent, EffectIntentView, EffectState, EffectTerminal};
use crate::funnel::command::{Rejection, RejectionView, RunOutcome};
use crate::json::{plain, Json, JsonView};
use crate::text::opt_view;
use vstd::prelude::*;
use vstd::string::*;

verus! {

/// The park half of a delivery: the effect waits for reconciliation, its terminal unset.
#[derive(Debug)]
pub struct EffectParkPlan {
    pub operation_key: String,
    pub intent: EffectIntent,
}

/// The view of a `EffectParkPlan`.
pub struct EffectParkPlanView {
    pub operation_key: Seq<char>,
    pub intent: EffectIntentView,
}

impl View for EffectParkPlan {
    type V = EffectParkPlanView;

    open spec fn view(&self) -> EffectParkPlanView {
        EffectParkPlanView {
            operation_key: self.operation_key@,
            intent: self.intent@,
        }
    }
}

/// A request row to create. The scope was frozen in validation.
#[derive(Debug)]
pub struct CancelRequestPlan {
    pub request_id: String,
    pub request: CancelRequest,
}

/// The view of a `CancelRequestPlan`.
pub struct CancelRequestPlanView {
    pub request_id: Seq<char>,
    pub request: CancelRequestView,
}

impl View for CancelRequestPlan {
    type V = CancelRequestPlanView;

    open spec fn view(&self) -> CancelRequestPlanView {
        CancelRequestPlanView {
            request_id: self.request_id@,
            request: self.request@,
        }
    }
}

/// One recorded delivery: the row, the advance of the request, and the park of a dispatched effect.
#[derive(Debug)]
pub struct CancelDeliveryPlan {
    pub delivery_key: String,
    pub request_id: String,
    pub request_version_after: u64,
    /// The request with the advanced status.
    pub request_after: CancelRequest,
    pub member_id: String,
    pub member_kind: CancelKind,
    pub order_index: u32,
    pub outcome: DeliveryOutcome,
    pub delivery: CancelDelivery,
    pub park_effect: Option<EffectParkPlan>,
}

/// The view of a `CancelDeliveryPlan`.
pub struct CancelDeliveryPlanView {
    pub delivery_key: Seq<char>,
    pub request_id: Seq<char>,
    pub request_version_after: u64,
    pub request_after: CancelRequestView,
    pub member_id: Seq<char>,
    pub member_kind: CancelKind,
    pub order_index: u32,
    pub outcome: DeliveryOutcome,
    pub delivery: CancelDeliveryView,
    pub park_effect: Option<EffectParkPlanView>,
}

impl View for CancelDeliveryPlan {
    type V = CancelDeliveryPlanView;

    open spec fn view(&self) -> CancelDeliveryPlanView {
        CancelDeliveryPlanView {
            delivery_key: self.delivery_key@,
            request_id: self.request_id@,
            request_version_after: self.request_version_after,
            request_after: self.request_after@,
            member_id: self.member_id@,
            member_kind: self.member_kind,
            order_index: self.order_index,
            outcome: self.outcome,
            delivery: self.delivery@,
            park_effect: match self.park_effect { Some(x) => Some(x@), None => None },
        }
    }
}

/// What an accepted command will do.
#[derive(Debug)]
pub enum Plan {
    CreateRun { run_id: String, goal_work_item_id: String },
    CloseRun { run_id: String, new_version: u64, status: RunOutcome },
    CreateWorkItem {
        work_item_id: String,
        acceptance_contract_digest: String,
        declared_write_scope: String,
    },
    CreateUnit { unit_id: String, work_item_id: String, run_id: String },
    /// A new attempt: the prior one is superseded and the lease passes to the new holder.
    Dispatch {
        unit_id: String,
        new_version: u64,
        new_epoch: u64,
        stamp: u64,
        authority_epoch: u64,
        holder_id: String,
        attempt_id: String,
        token_nonce: String,
        existing_lease: Option<u64>,
        prior_attempt: Option<String>,
    },
    BumpUnit { unit_id: String, new_version: u64, new_stamp: Option<u64> },
    CreateEffect { operation_key: String, intent: EffectIntent },
    /// The terminal is given exactly once, at settle.
    UpdateEffect {
        operation_key: String,
        new_version: u64,
        state: EffectState,
        terminal: Option<EffectTerminal>,
        intent: EffectIntent,
    },
    CreateCancelRequest(CancelRequestPlan),
    RecordDelivery(CancelDeliveryPlan),
    Nothing,
}

/// The view of a `Plan`.
pub enum PlanView {
    CreateRun { run_id: Seq<char>, goal_work_item_id: Seq<char> },
    CloseRun { run_id: Seq<char>, new_version: u64, status: RunOutcome },
    CreateWorkItem {
        work_item_id: Seq<char>,
        acceptance_contract_digest: Seq<char>,
        declared_write_scope: Seq<char>,
    },
    CreateUnit { unit_id: Seq<char>, work_item_id: Seq<char>, run_id: Seq<char> },
    Dispatch {
        unit_id: Seq<char>,
        new_version: u64,
        new_epoch: u64,
        stamp: u64,
        authority_epoch: u64,
        holder_id: Seq<char>,
        attempt_id: Seq<char>,
        token_nonce: Seq<char>,
        existing_lease: Option<u64>,
        prior_attempt: Option<Seq<char>>,
    },
    BumpUnit { unit_id: Seq<char>, new_version: u64, new_stamp: Option<u64> },
    CreateEffect { operation_key: Seq<char>, intent: EffectIntentView },
    UpdateEffect {
        operation_key: Seq<char>,
        new_version: u64,
        state: EffectState,
        terminal: Option<EffectTerminal>,
        intent: EffectIntentView,
    },
    CreateCancelRequest(CancelRequestPlanView),
    RecordDelivery(CancelDeliveryPlanView),
    Nothing,
}

impl View for Plan {
    type V = PlanView;

    open spec fn view(&self) -> PlanView {
        match self {
            Plan::CreateRun { run_id, goal_work_item_id } => PlanView::CreateRun {
                run_id: run_id@,
                goal_work_item_id: goal_work_item_id@,
            },
            Plan::CloseRun { run_id, new_version, status } => PlanView::CloseRun {
                run_id: run_id@,
                new_version: *new_version,
                status: *status,
            },
            Plan::CreateWorkItem {
                work_item_id,
                acceptance_contract_digest,
                declared_write_scope,
            } => PlanView::CreateWorkItem {
                work_item_id: work_item_id@,
                acceptance_contract_digest: acceptance_contract_digest@,
                declared_write_scope: declared_write_scope@,
            },
            Plan::CreateUnit { unit_id, work_item_id, run_id } => PlanView::CreateUnit {
                unit_id: unit_id@,
                work_item_id: work_item_id@,
                run_id: run_id@,
            },
            Plan::Dispatch {
                unit_id,
                new_version,
                new_epoch,
                stamp,
                authority_epoch,
                holder_id,
                attempt_id,
                token_nonce,
                existing_lease,
                prior_attempt,
            } => PlanView::Dispatch {
                unit_id: unit_id@,
                new_version: *new_version,
                new_epoch: *new_epoch,
                stamp: *stamp,
                authority_epoch: *authority_epoch,
                holder_id: holder_id@,
                attempt_id: attempt_id@,
                token_nonce: token_nonce@,
                existing_lease: *existing_lease,
                prior_attempt: opt_view(*prior_attempt),
            },
            Plan::BumpUnit { unit_id, new_version, new_stamp } => PlanView::BumpUnit {
                unit_id: unit_id@,
                new_version: *new_version,
                new_stamp: *new_stamp,
            },
            Plan::CreateEffect { operation_key, intent } => PlanView::CreateEffect {
                operation_key: operation_key@,
                intent: intent@,
            },
            Plan::UpdateEffect {
                operation_key,
                new_version,
                state,
                terminal,
                intent,
            } => PlanView::UpdateEffect {
                operation_key: operation_key@,
                new_version: *new_version,
                state: *state,
                terminal: *terminal,
                intent: intent@,
            },
            Plan::CreateCancelRequest(p) => PlanView::CreateCancelRequest(p@),
            Plan::RecordDelivery(p) => PlanView::RecordDelivery(p@),
            Plan::Nothing => PlanView::Nothing,
        }
    }
}

/// One event to append.
#[derive(Debug)]
pub struct EventDraft {
    pub aggregate_kind: &'static str,
    pub aggregate_id: String,
    pub aggregate_version: u64,
    pub event_kind: &'static str,
    pub payload: Json,
}

/// The view of a `EventDraft`.
pub struct EventDraftView {
    pub aggregate_kind: Seq<char>,
    pub aggregate_id: Seq<char>,
    pub aggregate_version: u64,
    pub event_kind: Seq<char>,
    pub payload: JsonView,
}

impl View for EventDraft {
    type V = EventDraftView;

    open spec fn view(&self) -> EventDraftView {
        EventDraftView {
            aggregate_kind: self.aggregate_kind@,
            aggregate_id: self.aggregate_id@,
            aggregate_version: self.aggregate_version,
            event_kind: self.event_kind@,
            payload: self.payload@,
        }
    }
}

/// What an accepted command will do, append and answer.
#[derive(Debug)]
pub struct Accepted {
    pub plan: Plan,
    pub events: Vec<EventDraft>,
    pub result: Json,
    /// How many identifiers the plan has minted.
    pub minted: u64,
}

/// The view of a `Accepted`.
pub struct AcceptedView {
    pub plan: PlanView,
    pub events: Seq<EventDraftView>,
    pub result: JsonView,
    pub minted: u64,
}

impl View for Accepted {
    type V = AcceptedView;

    open spec fn view(&self) -> AcceptedView {
        AcceptedView {
            plan: self.plan@,
            events: self.events@.map_values(|x: EventDraft| x@),
            result: self.result@,
            minted: self.minted,
        }
    }
}

/// Whether everything that will be written as JSON text can be.
pub open spec fn writable(a: AcceptedView) -> bool {
    &&& plain(a.result, 8)
    &&& forall|i: int| 0 <= i < a.events.len() ==> plain((#[trigger] a.events[i]).payload, 8)
}

/// A decision on a command.
pub open spec fn verdict(r: Result<Accepted, Rejection>) -> Result<AcceptedView, RejectionView> {
    match r {
        Ok(a) => Ok(a@),
        Err(e) => Err(e@),
    }
}

/// The fault that a check reports.
pub open spec fn fault_of(r: Result<(), Rejection>) -> Option<RejectionView> {
    match r {
        Ok(()) => None,
        Err(e) => Some(e@),
    }
}

/// The list of one event.
pub fn one_event(draft: EventDraft) -> (r: Vec<EventDraft>)
    ensures
        r@.map_values(|x: EventDraft| x@) == seq![draft@],
{
    let mut r: Vec<EventDraft> = Vec::new();
    r.push(draft);
    proof {
        assert(r@.map_values(|x: EventDraft| x@) =~= seq![draft@]);
    }
    r
}

/// The list of no events.
pub fn no_events() -> (r: Vec<EventDraft>)
    ensures
        r@.map_values(|x: EventDraft| x@) == Seq::<EventDraftView>::empty(),
{
    let r: Vec<EventDraft> = Vec::new();
    proof {
        assert(r@.map_values(|x: EventDraft| x@) =~= Seq::<EventDraftView>::empty());
    }
    r
}

} // verus!
