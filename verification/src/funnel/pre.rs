//! What the funnel reads before it decides: the rows that a command names, and the
//! cancellation state around them.
use crate::cancel::{
    member_index, outcome_from_wire, outcome_named, CancelKind, MemberInput, MemberInputView,
};
use crate::effect::{operation_key_text, EffectIntent};
use crate::funnel::cancel_rules::{
    admission_blockers, barring, blocker_views, lineage_of, summaries, Blocker, BlockerView,
    DeliverySummary, DeliverySummaryView,
};
use crate::funnel::command::{Method, RunOutcome};
use crate::funnel::run_rules::{
    attempt_by_id, attempt_named, close_blockers, effect_by_intent, effect_named, success_blockers,
    unit_run, unit_run_id,
};
use crate::ids::{AttemptEpoch, Stamp};
use crate::store::{
    CancelDeliveryRow, CancelDeliveryRowView, CancelRequestRow, CancelRequestRowView, EffectRow,
    EffectRowView, FenceRead, FenceReadView, LeaseFence, LeaseFenceView, LeaseRow, LeaseRowView,
    RunRow, RunRowView, Tables, TablesView, UnitFence, UnitRow, UnitRowView,
};
use crate::table::{lookup, Table};
use crate::text::{dec, decimal, opt_view, same};
use vstd::prelude::*;
use vstd::string::*;

verus! {

/// How one proposed member resolves up its own chain. To resolve is not to belong: the row may live
/// under another run.
#[derive(Debug)]
pub struct MemberLink {
    pub member_id: String,
    /// The unit of an attempt or an effect.
    pub parent_unit: Option<String>,
    pub run_id: Option<String>,
    /// The epoch of an effect.
    pub attempt_epoch: Option<u64>,
}

/// The view of a `MemberLink`.
pub struct MemberLinkView {
    pub member_id: Seq<char>,
    pub parent_unit: Option<Seq<char>>,
    pub run_id: Option<Seq<char>>,
    pub attempt_epoch: Option<u64>,
}

impl View for MemberLink {
    type V = MemberLinkView;

    open spec fn view(&self) -> MemberLinkView {
        MemberLinkView {
            member_id: self.member_id@,
            parent_unit: opt_view(self.parent_unit),
            run_id: opt_view(self.run_id),
            attempt_epoch: self.attempt_epoch,
        }
    }
}

/// The unit and epoch of an attempt that a request is rooted at.
#[derive(Debug)]
pub struct AttemptRoot {
    pub unit_id: String,
    pub epoch: u64,
}

/// The view of a `AttemptRoot`.
pub struct AttemptRootView {
    pub unit_id: Seq<char>,
    pub epoch: u64,
}

impl View for AttemptRoot {
    type V = AttemptRootView;

    open spec fn view(&self) -> AttemptRootView {
        AttemptRootView {
            unit_id: self.unit_id@,
            epoch: self.epoch,
        }
    }
}

/// Cancellation state that a command reads.
#[derive(Debug)]
pub struct CancelPreRead {
    /// Committed requests that bar the child this command would create.
    pub admission_blockers: Vec<Blocker>,
    pub member_links: Vec<MemberLink>,
    /// The request that a delivery names.
    pub request: Option<CancelRequestRow>,
    pub deliveries: Vec<DeliverySummary>,
    /// The effect that a delivery targets.
    pub effect_row: Option<EffectRow>,
    pub root_attempt: Option<AttemptRoot>,
}

/// The view of a `CancelPreRead`.
pub struct CancelPreReadView {
    pub admission_blockers: Seq<BlockerView>,
    pub member_links: Seq<MemberLinkView>,
    pub request: Option<CancelRequestRowView>,
    pub deliveries: Seq<DeliverySummaryView>,
    pub effect_row: Option<EffectRowView>,
    pub root_attempt: Option<AttemptRootView>,
}

impl View for CancelPreRead {
    type V = CancelPreReadView;

    open spec fn view(&self) -> CancelPreReadView {
        CancelPreReadView {
            admission_blockers: self.admission_blockers@.map_values(|x: Blocker| x@),
            member_links: self.member_links@.map_values(|x: MemberLink| x@),
            request: match self.request { Some(x) => Some(x@), None => None },
            deliveries: self.deliveries@.map_values(|x: DeliverySummary| x@),
            effect_row: match self.effect_row { Some(x) => Some(x@), None => None },
            root_attempt: match self.root_attempt { Some(x) => Some(x@), None => None },
        }
    }
}

/// The rows that a command names. The fence rows answer for one unit only: a token for another unit
/// finds nothing here.
#[derive(Debug)]
pub struct PreRead {
    pub for_unit: Option<String>,
    pub unit: Option<UnitRow>,
    pub lease: Option<LeaseRow>,
    /// The operation key that the command resolves to.
    pub effect_key: Option<String>,
    pub effect: Option<EffectRow>,
    pub run: Option<RunRow>,
    pub run_blockers: Vec<Blocker>,
    pub cancel: Option<CancelPreRead>,
}

/// The view of a `PreRead`.
pub struct PreReadView {
    pub for_unit: Option<Seq<char>>,
    pub unit: Option<UnitRowView>,
    pub lease: Option<LeaseRowView>,
    pub effect_key: Option<Seq<char>>,
    pub effect: Option<EffectRowView>,
    pub run: Option<RunRowView>,
    pub run_blockers: Seq<BlockerView>,
    pub cancel: Option<CancelPreReadView>,
}

impl View for PreRead {
    type V = PreReadView;

    open spec fn view(&self) -> PreReadView {
        PreReadView {
            for_unit: opt_view(self.for_unit),
            unit: match self.unit { Some(x) => Some(x@), None => None },
            lease: match self.lease { Some(x) => Some(x@), None => None },
            effect_key: opt_view(self.effect_key),
            effect: match self.effect { Some(x) => Some(x@), None => None },
            run: match self.run { Some(x) => Some(x@), None => None },
            run_blockers: self.run_blockers@.map_values(|x: Blocker| x@),
            cancel: match self.cancel { Some(x) => Some(x@), None => None },
        }
    }
}

/// What the fence may read for a unit: nothing, unless the rows were read for that unit.
pub open spec fn fence_rows(pre: PreReadView, unit_id: Seq<char>) -> FenceReadView {
    if pre.for_unit == Some(unit_id) {
        FenceReadView {
            unit: match pre.unit {
                Some(u) => Some(
                    UnitFence { attempt_epoch: AttemptEpoch(u.epoch), stamp: Stamp(u.stamp) },
                ),
                None => None,
            },
            lease: match pre.lease {
                Some(l) => Some(LeaseFenceView { holder_id: l.holder_id, status: l.status }),
                None => None,
            },
        }
    } else {
        FenceReadView { unit: None, lease: None }
    }
}

impl PreRead {
    /// What the fence may read for a unit.
    pub fn fence(&self, unit_id: &str) -> (r: FenceRead)
        ensures
            r@ == fence_rows(self@, unit_id@),
    {
        let mine = match &self.for_unit {
            Some(u) => same(u, unit_id),
            None => false,
        };
        if !mine {
            return FenceRead { unit: None, lease: None };
        }
        let unit = match &self.unit {
            Some(u) => Some(
                UnitFence { attempt_epoch: AttemptEpoch(u.epoch), stamp: Stamp(u.stamp) },
            ),
            None => None,
        };
        let lease = match &self.lease {
            Some(l) => Some(
                LeaseFence { holder_id: l.holder_id.clone(), status: l.status.clone() },
            ),
            None => None,
        };
        FenceRead { unit, lease }
    }
}

// --- Resolution of members -----------------------------------------------------------------------

/// How a proposed member resolves up its chain.
pub open spec fn link_of(tables: TablesView, m: MemberInputView) -> MemberLinkView {
    match m.member_kind {
        CancelKind::Run => MemberLinkView {
            member_id: m.member_id,
            parent_unit: None,
            run_id: Some(m.member_id),
            attempt_epoch: None,
        },
        CancelKind::ExecutionUnit => MemberLinkView {
            member_id: m.member_id,
            parent_unit: None,
            run_id: unit_run(tables, m.member_id),
            attempt_epoch: None,
        },
        CancelKind::Attempt => match attempt_owner(tables, m.member_id) {
            Some((unit, run)) => MemberLinkView {
                member_id: m.member_id,
                parent_unit: Some(unit),
                run_id: Some(run),
                attempt_epoch: None,
            },
            None => unresolved_link(m.member_id),
        },
        CancelKind::EffectIntent => match effect_owner(tables, m.member_id) {
            Some((unit, run, epoch)) => MemberLinkView {
                member_id: m.member_id,
                parent_unit: Some(unit),
                run_id: Some(run),
                attempt_epoch: Some(epoch),
            },
            None => unresolved_link(m.member_id),
        },
    }
}

/// The link of an attempt or effect that does not resolve: empty names, which nothing bears.
pub open spec fn unresolved_link(member_id: Seq<char>) -> MemberLinkView {
    MemberLinkView {
        member_id,
        parent_unit: Some(Seq::empty()),
        run_id: Some(Seq::empty()),
        attempt_epoch: None,
    }
}

/// The unit and run of an attempt.
pub open spec fn attempt_owner(tables: TablesView, attempt_id: Seq<char>) -> Option<
    (Seq<char>, Seq<char>),
> {
    match attempt_named(tables.attempts, attempt_id) {
        Some(row) => match unit_run(tables, row.unit_id) {
            Some(run) => Some((row.unit_id, run)),
            None => None,
        },
        None => None,
    }
}

/// The unit, run and epoch of an effect.
pub open spec fn effect_owner(tables: TablesView, intent_id: Seq<char>) -> Option<
    (Seq<char>, Seq<char>, u64),
> {
    match effect_named(tables.effects, intent_id) {
        Some(row) => match unit_run(tables, row.unit_id) {
            Some(run) => Some((row.unit_id, run, row.attempt_epoch)),
            None => None,
        },
        None => None,
    }
}

fn attempt_to_unit(tables: &Tables, attempt_id: &str) -> (r: Option<(String, String)>)
    ensures
        match r {
            Some(p) => attempt_owner(tables@, attempt_id@) == Some((p.0@, p.1@)),
            None => attempt_owner(tables@, attempt_id@) is None,
        },
{
    match attempt_by_id(&tables.attempts, attempt_id) {
        Some(row) => match unit_run_id(tables, &row.unit_id) {
            Some(run) => Some((row.unit_id.clone(), run)),
            None => None,
        },
        None => None,
    }
}

fn effect_to_unit(tables: &Tables, intent_id: &str) -> (r: Option<(String, String, u64)>)
    ensures
        match r {
            Some(p) => effect_owner(tables@, intent_id@) == Some((p.0@, p.1@, p.2)),
            None => effect_owner(tables@, intent_id@) is None,
        },
{
    match effect_by_intent(&tables.effects, intent_id) {
        Some(row) => match unit_run_id(tables, &row.unit_id) {
            Some(run) => Some((row.unit_id.clone(), run, row.attempt_epoch)),
            None => None,
        },
        None => None,
    }
}

/// Resolves one proposed member up its chain.
pub fn member_link(tables: &Tables, m: &MemberInput) -> (r: MemberLink)
    ensures
        r@ == link_of(tables@, m@),
{
    let member_id = m.member_id.clone();
    match m.member_kind {
        CancelKind::Run => MemberLink {
            member_id,
            parent_unit: None,
            run_id: Some(m.member_id.clone()),
            attempt_epoch: None,
        },
        CancelKind::ExecutionUnit => MemberLink {
            member_id,
            parent_unit: None,
            run_id: unit_run_id(tables, &m.member_id),
            attempt_epoch: None,
        },
        CancelKind::Attempt => match attempt_to_unit(tables, &m.member_id) {
            Some((unit, run)) => MemberLink {
                member_id,
                parent_unit: Some(unit),
                run_id: Some(run),
                attempt_epoch: None,
            },
            None => MemberLink {
                member_id,
                parent_unit: Some(String::new()),
                run_id: Some(String::new()),
                attempt_epoch: None,
            },
        },
        CancelKind::EffectIntent => match effect_to_unit(tables, &m.member_id) {
            Some((unit, run, epoch)) => MemberLink {
                member_id,
                parent_unit: Some(unit),
                run_id: Some(run),
                attempt_epoch: Some(epoch),
            },
            None => MemberLink {
                member_id,
                parent_unit: Some(String::new()),
                run_id: Some(String::new()),
                attempt_epoch: None,
            },
        },
    }
}

// --- Lineage -------------------------------------------------------------------------------------

/// The key of an attempt row.
pub open spec fn attempt_key(unit_id: Seq<char>, epoch: u64) -> Seq<char> {
    unit_id + "/"@ + dec(epoch as nat)
}

/// The lineage of a child of a unit, root first: its run, the unit, and the unit's current
/// attempt where that belongs to it.
pub open spec fn lineage_of_unit(
    tables: TablesView,
    unit_id: Seq<char>,
    include_attempt: bool,
) -> Option<Seq<(CancelKind, Seq<char>)>> {
    match lookup(tables.units, unit_id) {
        None => None,
        Some(unit) => {
            let base = seq![
                (CancelKind::Run, unit.run_id),
                (CancelKind::ExecutionUnit, unit_id),
            ];
            let current = if unit.epoch > 0 {
                lookup(tables.attempts, attempt_key(unit_id, unit.epoch))
            } else {
                None
            };
            match current {
                Some(row) => if include_attempt {
                    Some(base.push((CancelKind::Attempt, row.attempt_id)))
                } else {
                    Some(base)
                },
                None => Some(base),
            }
        },
    }
}

/// The lineage of the child that a method would create. A dispatch of an effect admits the
/// intent itself to act, so the intent stands in its own lineage.
pub open spec fn lineage_of_child(
    method: Method,
    tables: TablesView,
    effect: Option<EffectRowView>,
) -> Option<Seq<(CancelKind, Seq<char>)>> {
    match method {
        Method::UnitAdmit { run_id, .. } => Some(seq![(CancelKind::Run, run_id@)]),
        Method::UnitDispatch { unit_id, .. } => lineage_of_unit(tables, unit_id@, false),
        Method::EffectPrepare { unit_id, .. } => lineage_of_unit(tables, unit_id@, true),
        Method::EffectDispatch { unit_id, .. } => match lineage_of_unit(tables, unit_id@, true) {
            None => None,
            Some(line) => match effect {
                Some(row) => Some(line.push((CancelKind::EffectIntent, row.effect_intent_id))),
                None => Some(line),
            },
        },
        _ => None,
    }
}

/// The view of an optional lineage.
pub open spec fn opt_lineage(o: Option<Vec<(CancelKind, String)>>) -> Option<
    Seq<(CancelKind, Seq<char>)>,
> {
    match o {
        Some(v) => Some(lineage_of(v@)),
        None => None,
    }
}

fn unit_lineage(tables: &Tables, unit_id: &str, include_attempt: bool) -> (r: Option<
    Vec<(CancelKind, String)>,
>)
    ensures
        opt_lineage(r) == lineage_of_unit(tables@, unit_id@, include_attempt),
{
    match tables.units.get(unit_id) {
        None => None,
        Some(unit) => {
            let mut line: Vec<(CancelKind, String)> = Vec::new();
            line.push((CancelKind::Run, unit.run_id.clone()));
            line.push((CancelKind::ExecutionUnit, unit_id.to_owned()));
            let ghost base = seq![
                (CancelKind::Run, unit@.run_id),
                (CancelKind::ExecutionUnit, unit_id@),
            ];
            proof {
                assert(lineage_of(line@) =~= base);
            }
            if unit.epoch > 0 {
                let mut key = unit_id.to_owned();
                key.append("/");
                key.append(&decimal(unit.epoch));
                if let Some(row) = tables.attempts.get(&key) {
                    if include_attempt {
                        line.push((CancelKind::Attempt, row.attempt_id.clone()));
                        proof {
                            assert(lineage_of(line@) =~= base.push(
                                (CancelKind::Attempt, row@.attempt_id),
                            ));
                        }
                    }
                }
            }
            Some(line)
        },
    }
}

/// The lineage of the child that a method would create.
pub fn adoption_lineage(method: &Method, tables: &Tables, effect: &Option<EffectRow>) -> (r: Option<
    Vec<(CancelKind, String)>,
>)
    ensures
        opt_lineage(r) == lineage_of_child(
            *method,
            tables@,
            match *effect {
                Some(x) => Some(x@),
                None => None,
            },
        ),
{
    match method {
        Method::UnitAdmit { run_id, .. } => {
            let mut line: Vec<(CancelKind, String)> = Vec::new();
            line.push((CancelKind::Run, run_id.clone()));
            proof {
                assert(lineage_of(line@) =~= seq![(CancelKind::Run, run_id@)]);
            }
            Some(line)
        },
        Method::UnitDispatch { unit_id, .. } => unit_lineage(tables, unit_id, false),
        Method::EffectPrepare { unit_id, .. } => unit_lineage(tables, unit_id, true),
        Method::EffectDispatch { unit_id, .. } => {
            match unit_lineage(tables, unit_id, true) {
                None => None,
                Some(mut line) => {
                    if let Some(row) = effect {
                        let ghost base = lineage_of(line@);
                        line.push((CancelKind::EffectIntent, row.effect_intent_id.clone()));
                        proof {
                            assert(lineage_of(line@) =~= base.push(
                                (CancelKind::EffectIntent, row@.effect_intent_id),
                            ));
                        }
                    }
                    Some(line)
                },
            }
        },
        _ => None,
    }
}

// --- Deliveries ----------------------------------------------------------------------------------

/// The recorded deliveries of a request.
pub open spec fn deliveries_of(
    rows: Seq<(Seq<char>, CancelDeliveryRowView)>,
    request_id: Seq<char>,
) -> Seq<DeliverySummaryView>
    decreases rows.len(),
{
    if rows.len() == 0 {
        Seq::empty()
    } else {
        let front = deliveries_of(rows.drop_last(), request_id);
        let row = rows.last().1;
        match outcome_named(row.outcome) {
            Some(outcome) => if row.cancel_request_id == request_id {
                front.push(DeliverySummaryView { member_id: row.member_id, outcome })
            } else {
                front
            },
            None => front,
        }
    }
}

/// The recorded deliveries of a request.
pub fn delivery_summaries(deliveries: &Table<CancelDeliveryRow>, request_id: &str) -> (r: Vec<
    DeliverySummary,
>)
    ensures
        summaries(r@) == deliveries_of(deliveries@, request_id@),
{
    let mut out: Vec<DeliverySummary> = Vec::new();
    let mut i: usize = 0;
    proof {
        assert(deliveries@.take(0) =~= Seq::<(Seq<char>, CancelDeliveryRowView)>::empty());
        assert(summaries(out@) =~= Seq::<DeliverySummaryView>::empty());
    }
    while i < deliveries.len()
        invariant
            i <= deliveries@.len(),
            summaries(out@) == deliveries_of(deliveries@.take(i as int), request_id@),
        decreases deliveries@.len() - i,
    {
        let row = deliveries.row_at(i);
        proof {
            assert(deliveries@.take(i + 1).drop_last() =~= deliveries@.take(i as int));
            assert(deliveries@.take(i + 1).last().1 == row@);
        }
        if same(&row.cancel_request_id, request_id) {
            if let Some(outcome) = outcome_from_wire(&row.outcome) {
                let ghost before = summaries(out@);
                out.push(DeliverySummary { member_id: row.member_id.clone(), outcome });
                proof {
                    assert(summaries(out@) =~= before.push(
                        DeliverySummaryView { member_id: row@.member_id, outcome },
                    ));
                }
            }
        }
        i += 1;
    }
    proof {
        assert(deliveries@.take(deliveries@.len() as int) =~= deliveries@);
    }
    out
}

// --- The pre-read --------------------------------------------------------------------------------

/// The effect that a delivery targets, where the member is an effect intent of the scope.
pub open spec fn delivery_effect(
    tables: TablesView,
    request: Option<CancelRequestRowView>,
    member_id: Seq<char>,
) -> Option<EffectRowView> {
    match request {
        None => None,
        Some(row) => {
            let scope = row.record.scope;
            let at = member_index(scope, member_id);
            if at < scope.members.len() && scope.members[at].member_kind
                == CancelKind::EffectIntent {
                effect_named(tables.effects, scope.members[at].member_id)
            } else {
                None
            }
        },
    }
}

/// What kind of child a method would create.
pub open spec fn child_of(method: Method) -> CancelKind {
    match method {
        Method::UnitAdmit { .. } => CancelKind::ExecutionUnit,
        Method::UnitDispatch { .. } => CancelKind::Attempt,
        _ => CancelKind::EffectIntent,
    }
}

/// The cancellation state that a method reads.
pub open spec fn cancel_rows(
    method: Method,
    tables: TablesView,
    effect: Option<EffectRowView>,
) -> Option<CancelPreReadView> {
    let nothing = CancelPreReadView {
        admission_blockers: Seq::empty(),
        member_links: Seq::empty(),
        request: None,
        deliveries: Seq::empty(),
        effect_row: None,
        root_attempt: None,
    };
    match method {
        Method::UnitAdmit { .. } | Method::UnitDispatch { .. } | Method::EffectPrepare { .. }
        | Method::EffectDispatch { .. } => match lineage_of_child(method, tables, effect) {
            None => None,
            Some(line) => Some(
                CancelPreReadView {
                    admission_blockers: barring(tables.requests, child_of(method), line),
                    ..nothing
                },
            ),
        },
        Method::CancelRequest { root_kind, root_id, proposed, .. } => Some(
            CancelPreReadView {
                member_links: proposed@.map_values(|m: MemberInput| link_of(tables, m@)),
                root_attempt: if root_kind == CancelKind::Attempt {
                    match attempt_named(tables.attempts, root_id@) {
                        Some(row) => Some(
                            AttemptRootView { unit_id: row.unit_id, epoch: row.attempt_epoch },
                        ),
                        None => None,
                    }
                } else {
                    None
                },
                ..nothing
            },
        ),
        Method::CancelRecordDelivery { cancel_request_id, member_id, .. } => {
            let request = lookup(tables.requests, cancel_request_id@);
            Some(
                CancelPreReadView {
                    request,
                    deliveries: deliveries_of(tables.deliveries, cancel_request_id@),
                    effect_row: delivery_effect(tables, request, member_id@),
                    ..nothing
                },
            )
        },
        _ => None,
    }
}

/// The operation key that a method resolves to: carried, or derived for a prepare.
pub open spec fn key_of(method: Method, unit: Option<UnitRowView>) -> Option<Seq<char>> {
    match method {
        Method::EffectPrepare { spec, .. } => match unit {
            Some(u) => Some(
                operation_key_text(
                    u.work_item_id,
                    spec.logical_operation_id@,
                    spec.request_digest@,
                ),
            ),
            None => None,
        },
        _ => method.carries_key(),
    }
}

/// The row under an optional key.
pub open spec fn lookup_opt<R>(rows: Seq<(Seq<char>, R)>, key: Option<Seq<char>>) -> Option<R> {
    match key {
        Some(k) => lookup(rows, k),
        None => None,
    }
}

/// The run that a run method names.
pub open spec fn run_named(method: Method) -> Option<Seq<char>> {
    match method {
        Method::RunOpen { run_id, .. } => Some(run_id@),
        Method::RunClose { run_id, .. } => Some(run_id@),
        _ => None,
    }
}

/// Everything that a command reads before it is decided.
pub open spec fn rows_for(method: Method, tables: TablesView) -> PreReadView {
    let unit = lookup_opt(tables.units, method.names_unit());
    let effect_key = key_of(method, unit);
    let effect = lookup_opt(tables.effects, effect_key);
    PreReadView {
        for_unit: method.names_unit(),
        unit,
        lease: lookup_opt(tables.leases, method.names_unit()),
        effect_key,
        effect,
        run: lookup_opt(tables.runs, run_named(method)),
        run_blockers: match method {
            Method::RunClose { run_id, outcome: RunOutcome::ClosedSuccess } => close_blockers(
                tables,
                run_id@,
            ),
            _ => Seq::empty(),
        },
        cancel: cancel_rows(method, tables, effect),
    }
}

/// The cancellation state that a method reads.
pub fn cancel_pre_read(method: &Method, tables: &Tables, effect: &Option<EffectRow>) -> (r: Option<
    CancelPreRead,
>)
    ensures
        (match r {
            Some(c) => Some(c@),
            None => None,
        }) == cancel_rows(
            *method,
            tables@,
            match *effect {
                Some(x) => Some(x@),
                None => None,
            },
        ),
{
    match method {
        Method::UnitAdmit { .. } | Method::UnitDispatch { .. } | Method::EffectPrepare { .. }
        | Method::EffectDispatch { .. } => {
            let child = match method {
                Method::UnitAdmit { .. } => CancelKind::ExecutionUnit,
                Method::UnitDispatch { .. } => CancelKind::Attempt,
                _ => CancelKind::EffectIntent,
            };
            match adoption_lineage(method, tables, effect) {
                None => None,
                Some(line) => {
                    let r = CancelPreRead {
                        admission_blockers: admission_blockers(&tables.requests, child, &line),
                        member_links: Vec::new(),
                        request: None,
                        deliveries: Vec::new(),
                        effect_row: None,
                        root_attempt: None,
                    };
                    proof {
                        assert(r@.member_links =~= Seq::<MemberLinkView>::empty());
                        assert(r@.deliveries =~= Seq::<DeliverySummaryView>::empty());
                    }
                    Some(r)
                },
            }
        },
        Method::CancelRequest { root_kind, root_id, proposed, .. } => {
            let mut links: Vec<MemberLink> = Vec::new();
            let mut i: usize = 0;
            while i < proposed.len()
                invariant
                    i <= proposed.len(),
                    links.len() == i,
                    forall|k: int|
                        0 <= k < i ==> (#[trigger] links@[k])@ == link_of(tables@, proposed@[k]@),
                decreases proposed.len() - i,
            {
                links.push(member_link(tables, &proposed[i]));
                i += 1;
            }
            let root_attempt = if *root_kind == CancelKind::Attempt {
                match attempt_by_id(&tables.attempts, root_id) {
                    Some(row) => Some(
                        AttemptRoot { unit_id: row.unit_id.clone(), epoch: row.attempt_epoch },
                    ),
                    None => None,
                }
            } else {
                None
            };
            let r = CancelPreRead {
                admission_blockers: Vec::new(),
                member_links: links,
                request: None,
                deliveries: Vec::new(),
                effect_row: None,
                root_attempt,
            };
            proof {
                assert(r@.member_links =~= proposed@.map_values(
                    |m: MemberInput| link_of(tables@, m@),
                ));
                assert(r@.admission_blockers =~= Seq::<BlockerView>::empty());
                assert(r@.deliveries =~= Seq::<DeliverySummaryView>::empty());
            }
            Some(r)
        },
        Method::CancelRecordDelivery { cancel_request_id, member_id, .. } => {
            let request = match tables.requests.get(cancel_request_id) {
                Some(row) => Some(row.clone()),
                None => None,
            };
            let effect_row = match &request {
                None => None,
                Some(row) => match row.record.scope.member(member_id) {
                    None => None,
                    Some(m) => if m.member_kind == CancelKind::EffectIntent {
                        match effect_by_intent(&tables.effects, &m.member_id) {
                            Some(e) => Some(e.clone()),
                            None => None,
                        }
                    } else {
                        None
                    },
                },
            };
            let r = CancelPreRead {
                admission_blockers: Vec::new(),
                member_links: Vec::new(),
                request,
                deliveries: delivery_summaries(&tables.deliveries, cancel_request_id),
                effect_row,
                root_attempt: None,
            };
            proof {
                assert(r@.member_links =~= Seq::<MemberLinkView>::empty());
                assert(r@.admission_blockers =~= Seq::<BlockerView>::empty());
            }
            Some(r)
        },
        _ => None,
    }
}

/// Reads everything that a command needs before it is decided.
pub fn pre_read(method: &Method, tables: &Tables) -> (r: PreRead)
    ensures
        r@ == rows_for(*method, tables@),
{
    let unit = match method.unit_id() {
        Some(id) => match tables.units.get(id) {
            Some(row) => Some(row.clone()),
            None => None,
        },
        None => None,
    };
    let lease = match method.unit_id() {
        Some(id) => match tables.leases.get(id) {
            Some(row) => Some(row.clone()),
            None => None,
        },
        None => None,
    };
    let effect_key = match method {
        Method::EffectPrepare { spec, .. } => match &unit {
            Some(u) => Some(
                EffectIntent::derive_operation_key(
                    &u.work_item_id,
                    spec.logical_operation_id,
                    &spec.request_digest,
                ),
            ),
            None => None,
        },
        _ => match method.operation_key() {
            Some(key) => Some(key.to_owned()),
            None => None,
        },
    };
    let effect = match &effect_key {
        Some(key) => match tables.effects.get(key) {
            Some(row) => Some(row.clone()),
            None => None,
        },
        None => None,
    };
    let run = match method {
        Method::RunOpen { run_id, .. } => match tables.runs.get(run_id) {
            Some(row) => Some(row.clone()),
            None => None,
        },
        Method::RunClose { run_id, .. } => match tables.runs.get(run_id) {
            Some(row) => Some(row.clone()),
            None => None,
        },
        _ => None,
    };
    let run_blockers = match method {
        Method::RunClose { run_id, outcome: RunOutcome::ClosedSuccess } => success_blockers(
            tables,
            run_id,
        ),
        _ => {
            let none: Vec<Blocker> = Vec::new();
            proof {
                assert(blocker_views(none@) =~= Seq::<BlockerView>::empty());
            }
            none
        },
    };
    let cancel = cancel_pre_read(method, tables, &effect);
    let for_unit = match method.unit_id() {
        Some(id) => Some(id.to_owned()),
        None => None,
    };
    PreRead { for_unit, unit, lease, effect_key, effect, run, run_blockers, cancel }
}

} // verus!
