//! The mutation phase: writes a staged plan into the tables and decides nothing.
use crate::effect::{EffectIntentView, EffectState};
use crate::funnel::plan::{Plan, PlanView};
use crate::funnel::pre::attempt_key;
use crate::ids::uuid_text;
use crate::store::{
    AttemptRow, AttemptRowView, CancelDeliveryRow, CancelDeliveryRowView, CancelRequestRow,
    CancelRequestRowView, EffectRow, EffectRowView, IntentRecord, IntentRecordView, LeaseRow,
    LeaseRowView, RunRow, RunRowView, Tables, TablesView, UnitRow, UnitRowView, WorkItemRow,
    WorkItemRowView,
};
use crate::table::{lookup, upsert};
use crate::text::{decimal, opt_view};
use vstd::prelude::*;
use vstd::string::*;

verus! {

/// An effect row after its intent changed. A terminal, once given, is kept.
pub open spec fn updated_effect(
    row: EffectRowView,
    version: u64,
    state: Seq<char>,
    terminal: Option<Seq<char>>,
    intent: EffectIntentView,
) -> EffectRowView {
    EffectRowView {
        version,
        state,
        terminal: match terminal {
            Some(t) => Some(t),
            None => row.terminal,
        },
        record: IntentRecordView::Readable(intent),
        ..row
    }
}

/// The attempts after a dispatch: the prior one superseded, the new one active.
pub open spec fn attempts_after(
    attempts: Seq<(Seq<char>, AttemptRowView)>,
    prior: Option<Seq<char>>,
    unit_id: Seq<char>,
    epoch: u64,
    holder_id: Seq<char>,
    attempt_id: Seq<char>,
) -> Seq<(Seq<char>, AttemptRowView)> {
    let superseded = match prior {
        Some(key) => match lookup(attempts, key) {
            Some(row) => upsert(
                attempts,
                key,
                AttemptRowView { status: "superseded"@, ..row },
            ),
            None => attempts,
        },
        None => attempts,
    };
    upsert(
        superseded,
        attempt_key(unit_id, epoch),
        AttemptRowView {
            attempt_key: attempt_key(unit_id, epoch),
            attempt_id,
            unit_id,
            attempt_epoch: epoch,
            holder_id,
            status: "active"@,
        },
    )
}

/// The tables after a plan.
pub open spec fn applied(t: TablesView, plan: PlanView) -> TablesView {
    match plan {
        PlanView::CreateRun { run_id, goal_work_item_id } => TablesView {
            runs: upsert(
                t.runs,
                run_id,
                RunRowView { run_id, version: 1, status: "open"@, goal_work_item_id },
            ),
            ..t
        },
        PlanView::CloseRun { run_id, new_version, status } => match lookup(t.runs, run_id) {
            Some(row) => TablesView {
                runs: upsert(
                    t.runs,
                    run_id,
                    RunRowView { version: new_version, status: status.wire_text(), ..row },
                ),
                ..t
            },
            None => t,
        },
        PlanView::CreateWorkItem {
            work_item_id,
            acceptance_contract_digest,
            declared_write_scope,
        } => TablesView {
            work_items: upsert(
                t.work_items,
                work_item_id,
                WorkItemRowView {
                    work_item_id,
                    version: 1,
                    status: "ready"@,
                    acceptance_contract_digest,
                    declared_write_scope,
                },
            ),
            ..t
        },
        PlanView::CreateUnit { unit_id, work_item_id, run_id } => TablesView {
            units: upsert(
                t.units,
                unit_id,
                UnitRowView {
                    unit_id,
                    version: 1,
                    epoch: 0,
                    stamp: 0,
                    status: "admitted"@,
                    work_item_id,
                    run_id,
                },
            ),
            ..t
        },
        PlanView::Dispatch {
            unit_id,
            new_version,
            new_epoch,
            stamp,
            authority_epoch,
            holder_id,
            attempt_id,
            token_nonce,
            existing_lease,
            prior_attempt,
        } => TablesView {
            units: match lookup(t.units, unit_id) {
                Some(row) => upsert(
                    t.units,
                    unit_id,
                    UnitRowView {
                        version: new_version,
                        epoch: new_epoch,
                        status: "dispatched"@,
                        ..row
                    },
                ),
                None => t.units,
            },
            attempts: attempts_after(
                t.attempts,
                prior_attempt,
                unit_id,
                new_epoch,
                holder_id,
                attempt_id,
            ),
            leases: upsert(
                t.leases,
                unit_id,
                LeaseRowView {
                    unit_id,
                    attempt_epoch: new_epoch,
                    holder_id,
                    status: "active"@,
                    version: match existing_lease {
                        Some(v) => (v + 1) as u64,
                        None => 1,
                    },
                },
            ),
            ..t
        },
        PlanView::BumpUnit { unit_id, new_version, new_stamp } => match lookup(t.units, unit_id) {
            Some(row) => TablesView {
                units: upsert(
                    t.units,
                    unit_id,
                    UnitRowView {
                        version: new_version,
                        stamp: match new_stamp {
                            Some(s) => s,
                            None => row.stamp,
                        },
                        ..row
                    },
                ),
                ..t
            },
            None => t,
        },
        PlanView::CreateEffect { operation_key, intent } => TablesView {
            effects: upsert(
                t.effects,
                operation_key,
                EffectRowView {
                    operation_key,
                    effect_intent_id: uuid_text(intent.effect_intent_id),
                    unit_id: intent.unit_id,
                    attempt_epoch: intent.attempt_epoch.0,
                    version: 1,
                    state: EffectState::Prepared.wire_text(),
                    terminal: None,
                    record: IntentRecordView::Readable(intent),
                },
            ),
            ..t
        },
        PlanView::UpdateEffect { operation_key, new_version, state, terminal, intent } =>
            match lookup(t.effects, operation_key) {
            Some(row) => TablesView {
                effects: upsert(
                    t.effects,
                    operation_key,
                    updated_effect(
                        row,
                        new_version,
                        state.wire_text(),
                        match terminal {
                            Some(x) => Some(x.wire_text()),
                            None => None,
                        },
                        intent,
                    ),
                ),
                ..t
            },
            None => t,
        },
        PlanView::CreateCancelRequest(p) => TablesView {
            requests: upsert(
                t.requests,
                p.request_id,
                CancelRequestRowView {
                    cancel_request_id: p.request_id,
                    version: 1,
                    root_kind: p.request.scope.root_kind.wire_text(),
                    root_id: p.request.scope.root_id,
                    policy: p.request.policy.wire_text(),
                    reason: p.request.reason.wire_text(),
                    status: "requested"@,
                    record: p.request,
                },
            ),
            ..t
        },
        PlanView::RecordDelivery(p) => TablesView {
            deliveries: upsert(
                t.deliveries,
                p.delivery_key,
                CancelDeliveryRowView {
                    delivery_key: p.delivery_key,
                    cancel_request_id: p.request_id,
                    member_id: p.member_id,
                    member_kind: p.member_kind.wire_text(),
                    outcome: p.outcome.wire_text(),
                    record: p.delivery,
                },
            ),
            requests: match lookup(t.requests, p.request_id) {
                Some(row) => upsert(
                    t.requests,
                    p.request_id,
                    CancelRequestRowView {
                        version: p.request_version_after,
                        status: p.request_after.status.wire_text(),
                        record: p.request_after,
                        ..row
                    },
                ),
                None => t.requests,
            },
            effects: match p.park_effect {
                Some(park) => match lookup(t.effects, park.operation_key) {
                    Some(row) => upsert(
                        t.effects,
                        park.operation_key,
                        updated_effect(
                            row,
                            park.intent.version,
                            EffectState::Reconciling.wire_text(),
                            None,
                            park.intent,
                        ),
                    ),
                    None => t.effects,
                },
                None => t.effects,
            },
            ..t
        },
        PlanView::Nothing => t,
    }
}

/// Whether a plan leaves every version in range.
pub open spec fn in_range(plan: PlanView) -> bool {
    match plan {
        PlanView::Dispatch { existing_lease: Some(v), .. } => v < u64::MAX,
        _ => true,
    }
}

impl Tables {
    fn update_effect(
        &mut self,
        key: &str,
        version: u64,
        state: &str,
        terminal: Option<&'static str>,
        intent: &crate::effect::EffectIntent,
    )
        ensures
            final(self)@ == (TablesView {
                effects: match lookup(old(self)@.effects, key@) {
                    Some(row) => upsert(
                        old(self)@.effects,
                        key@,
                        updated_effect(
                            row,
                            version,
                            state@,
                            match terminal {
                                Some(x) => Some(x@),
                                None => None,
                            },
                            intent@,
                        ),
                    ),
                    None => old(self)@.effects,
                },
                ..old(self)@
            }),
    {
        let found = match self.effects.get(key) {
            Some(row) => Some(row.clone()),
            None => None,
        };
        if let Some(mut row) = found {
            row.version = version;
            row.state = state.to_owned();
            if let Some(t) = terminal {
                row.terminal = Some(t.to_owned());
            }
            row.record = IntentRecord::Readable(intent.clone());
            self.effects.set(key, row);
        }
    }

    fn dispatch_unit(
        &mut self,
        unit_id: &String,
        new_version: u64,
        new_epoch: u64,
        holder_id: &String,
        attempt_id: &String,
        existing_lease: Option<u64>,
        prior_attempt: &Option<String>,
    )
        requires
            existing_lease is Some ==> existing_lease->0 < u64::MAX,
        ensures
            final(self)@ == (TablesView {
                units: match lookup(old(self)@.units, unit_id@) {
                    Some(row) => upsert(
                        old(self)@.units,
                        unit_id@,
                        UnitRowView {
                            version: new_version,
                            epoch: new_epoch,
                            status: "dispatched"@,
                            ..row
                        },
                    ),
                    None => old(self)@.units,
                },
                attempts: attempts_after(
                    old(self)@.attempts,
                    opt_view(*prior_attempt),
                    unit_id@,
                    new_epoch,
                    holder_id@,
                    attempt_id@,
                ),
                leases: upsert(
                    old(self)@.leases,
                    unit_id@,
                    LeaseRowView {
                        unit_id: unit_id@,
                        attempt_epoch: new_epoch,
                        holder_id: holder_id@,
                        status: "active"@,
                        version: match existing_lease {
                            Some(v) => (v + 1) as u64,
                            None => 1,
                        },
                    },
                ),
                ..old(self)@
            }),
    {
        let unit = match self.units.get(unit_id) {
            Some(row) => Some(row.clone()),
            None => None,
        };
        if let Some(mut row) = unit {
            row.version = new_version;
            row.epoch = new_epoch;
            row.status = "dispatched".to_owned();
            self.units.set(unit_id, row);
        }
        if let Some(prior) = prior_attempt {
            let found = match self.attempts.get(prior) {
                Some(row) => Some(row.clone()),
                None => None,
            };
            if let Some(mut row) = found {
                row.status = "superseded".to_owned();
                self.attempts.set(prior, row);
            }
        }
        let mut key = unit_id.clone();
        key.append("/");
        key.append(&decimal(new_epoch));
        let attempt = AttemptRow {
            attempt_key: key.clone(),
            attempt_id: attempt_id.clone(),
            unit_id: unit_id.clone(),
            attempt_epoch: new_epoch,
            holder_id: holder_id.clone(),
            status: "active".to_owned(),
        };
        self.attempts.set(&key, attempt);
        let lease_version: u64 = match existing_lease {
            Some(v) => v + 1,
            None => 1,
        };
        let lease = LeaseRow {
            unit_id: unit_id.clone(),
            attempt_epoch: new_epoch,
            holder_id: holder_id.clone(),
            status: "active".to_owned(),
            version: lease_version,
        };
        self.leases.set(unit_id, lease);
    }

    fn record_delivery(&mut self, p: &crate::funnel::plan::CancelDeliveryPlan)
        ensures
            final(self)@ == applied(old(self)@, PlanView::RecordDelivery(p@)),
    {
        let row = CancelDeliveryRow {
            delivery_key: p.delivery_key.clone(),
            cancel_request_id: p.request_id.clone(),
            member_id: p.member_id.clone(),
            member_kind: p.member_kind.wire().to_owned(),
            outcome: p.outcome.wire().to_owned(),
            record: p.delivery.clone(),
        };
        self.deliveries.set(&p.delivery_key, row);
        let request = match self.requests.get(&p.request_id) {
            Some(row) => Some(row.clone()),
            None => None,
        };
        if let Some(mut row) = request {
            row.version = p.request_version_after;
            row.status = p.request_after.status.wire().to_owned();
            row.record = p.request_after.clone();
            self.requests.set(&p.request_id, row);
        }
        if let Some(park) = &p.park_effect {
            self.update_effect(
                &park.operation_key,
                park.intent.version,
                EffectState::Reconciling.wire(),
                None,
                &park.intent,
            );
        }
    }

    /// Writes a plan.
    pub fn apply(&mut self, plan: &Plan)
        requires
            in_range(plan@),
        ensures
            final(self)@ == applied(old(self)@, plan@),
    {
        match plan {
            Plan::CreateRun { run_id, goal_work_item_id } => {
                let row = RunRow {
                    run_id: run_id.clone(),
                    version: 1,
                    status: "open".to_owned(),
                    goal_work_item_id: goal_work_item_id.clone(),
                };
                self.runs.set(run_id, row);
            },
            Plan::CloseRun { run_id, new_version, status } => {
                let found = match self.runs.get(run_id) {
                    Some(row) => Some(row.clone()),
                    None => None,
                };
                if let Some(mut row) = found {
                    row.version = *new_version;
                    row.status = status.wire().to_owned();
                    self.runs.set(run_id, row);
                }
            },
            Plan::CreateWorkItem {
                work_item_id,
                acceptance_contract_digest,
                declared_write_scope,
            } => {
                let row = WorkItemRow {
                    work_item_id: work_item_id.clone(),
                    version: 1,
                    status: "ready".to_owned(),
                    acceptance_contract_digest: acceptance_contract_digest.clone(),
                    declared_write_scope: declared_write_scope.clone(),
                };
                self.work_items.set(work_item_id, row);
            },
            Plan::CreateUnit { unit_id, work_item_id, run_id } => {
                let row = UnitRow {
                    unit_id: unit_id.clone(),
                    version: 1,
                    epoch: 0,
                    stamp: 0,
                    status: "admitted".to_owned(),
                    work_item_id: work_item_id.clone(),
                    run_id: run_id.clone(),
                };
                self.units.set(unit_id, row);
            },
            Plan::Dispatch {
                unit_id,
                new_version,
                new_epoch,
                stamp: _,
                authority_epoch: _,
                holder_id,
                attempt_id,
                token_nonce: _,
                existing_lease,
                prior_attempt,
            } => {
                self.dispatch_unit(
                    unit_id,
                    *new_version,
                    *new_epoch,
                    holder_id,
                    attempt_id,
                    *existing_lease,
                    prior_attempt,
                );
            },
            Plan::BumpUnit { unit_id, new_version, new_stamp } => {
                let found = match self.units.get(unit_id) {
                    Some(row) => Some(row.clone()),
                    None => None,
                };
                if let Some(mut row) = found {
                    row.version = *new_version;
                    if let Some(stamp) = *new_stamp {
                        row.stamp = stamp;
                    }
                    self.units.set(unit_id, row);
                }
            },
            Plan::CreateEffect { operation_key, intent } => {
                let row = EffectRow {
                    operation_key: operation_key.clone(),
                    effect_intent_id: intent.effect_intent_id.to_string(),
                    unit_id: intent.unit_id.clone(),
                    attempt_epoch: intent.attempt_epoch.0,
                    version: 1,
                    state: EffectState::Prepared.wire().to_owned(),
                    terminal: None,
                    record: IntentRecord::Readable(intent.clone()),
                };
                self.effects.set(operation_key, row);
            },
            Plan::UpdateEffect { operation_key, new_version, state, terminal, intent } => {
                let wire = match terminal {
                    Some(t) => Some(t.wire()),
                    None => None,
                };
                self.update_effect(operation_key, *new_version, state.wire(), wire, intent);
            },
            Plan::CreateCancelRequest(p) => {
                let row = CancelRequestRow {
                    cancel_request_id: p.request_id.clone(),
                    version: 1,
                    root_kind: p.request.scope.root_kind.wire().to_owned(),
                    root_id: p.request.scope.root_id.clone(),
                    policy: p.request.policy.wire().to_owned(),
                    reason: p.request.reason.wire().to_owned(),
                    status: "requested".to_owned(),
                    record: p.request.clone(),
                };
                self.requests.set(&p.request_id, row);
            },
            Plan::RecordDelivery(p) => {
                self.record_delivery(p);
            },
            Plan::Nothing => {},
        }
    }
}

} // verus!
