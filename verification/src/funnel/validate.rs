//! Command validation as a function of the rows read: every authorization class, fence axis
//! and persistence decision is here, and the mutation phase executes the returned plan.
use crate::error::ErrorKind;
use crate::funnel::cancel::decide_cancel;
use crate::funnel::cancel_rules::{blocker_views, Blocker, BlockerView};
use crate::funnel::command::{
    refusal, refuse, Command, Method, PrincipalKind, Rejection, RejectionView, RunOutcome,
};
use crate::funnel::effects::decide_effect;
use crate::funnel::plan::{
    fault_of, no_events, one_event, verdict, writable, Accepted, AcceptedView, EventDraft,
    EventDraftView, Plan, PlanView,
};
use crate::funnel::pre::{attempt_key, fence_rows, PreRead, PreReadView};
use crate::funnel::{fresh, Funnel, FunnelView};
use crate::ids::{uuid_text, AuthorityEpoch, Stamp};
use crate::json::{
    json_text, names_are_ordinary, object, object1, object2, object3, put, render_json, text_array,
    text_array_view, text_value, Json, JsonView,
};
use crate::store::{
    fence_fault, AttemptTokenClaims, AttemptTokenClaimsView, StoreRejection, StoreRejectionView,
};
use crate::table::lookup;
use crate::text::{dec, decimal, same, views};
use vstd::prelude::*;
use vstd::string::*;

verus! {

// --- Gates ---------------------------------------------------------------------------------------

/// The refusal of an epoch that is not the current one. Neither a stale nor an ahead value
/// reserves the command's key.
pub open spec fn epoch_refusal(e: AuthorityEpoch, current: AuthorityEpoch) -> RejectionView {
    if e.0 < current.0 {
        refuse(
            ErrorKind::FenceRejected,
            "authority epoch "@ + dec(e.0 as nat) + " behind current "@ + dec(current.0 as nat),
            false,
        )
    } else {
        refuse(
            ErrorKind::FenceRejected,
            "authority epoch "@ + dec(e.0 as nat) + " ahead of current "@ + dec(current.0 as nat)
                + " (split-brain suspect)"@,
            false,
        )
    }
}

/// The fault of a command that must come from the authority: the daemon, without a token,
/// under the current epoch.
pub open spec fn authority_fault(current: AuthorityEpoch, cmd: Command) -> Option<RejectionView> {
    if cmd.principal_kind != PrincipalKind::Daemon {
        Some(
            refuse(
                ErrorKind::InvalidRequest,
                "authority method requires principal_kind daemon, got "@
                    + cmd.principal_kind.debug_name_text(),
                true,
            ),
        )
    } else if cmd.attempt_token is Some {
        Some(
            refuse(
                ErrorKind::InvalidRequest,
                "authority method must not carry an attempt token"@,
                true,
            ),
        )
    } else {
        match cmd.authority_epoch {
            Some(e) => if e == current {
                None
            } else {
                Some(epoch_refusal(e, current))
            },
            None => Some(
                refuse(
                    ErrorKind::InvalidRequest,
                    "authority method requires authority_epoch"@,
                    true,
                ),
            ),
        }
    }
}

/// The refusal that a fault of the fence turns into.
pub open spec fn fence_refusal(fault: StoreRejectionView) -> Option<RejectionView> {
    match fault {
        StoreRejectionView::FenceRejected { detail } => Some(
            refuse(ErrorKind::FenceRejected, detail, true),
        ),
        StoreRejectionView::NotFound { aggregate } => Some(
            refuse(ErrorKind::NotFound, aggregate, false),
        ),
        _ => None,
    }
}

/// The fault of a command that must carry a token of a unit, before the fence: an agent, with a
/// token sealed for that unit and that agent.
pub open spec fn sealed_fault(current: AuthorityEpoch, cmd: Command, unit_id: Seq<char>) -> Option<
    RejectionView,
> {
    if cmd.principal_kind != PrincipalKind::Agent {
        Some(
            refuse(
                ErrorKind::InvalidRequest,
                "holder method requires principal_kind agent, got "@
                    + cmd.principal_kind.debug_name_text(),
                true,
            ),
        )
    } else {
        match cmd.attempt_token {
            None => Some(
                refuse(
                    ErrorKind::InvalidRequest,
                    "holder method requires an attempt token"@,
                    true,
                ),
            ),
            Some(token) => if cmd.authority_epoch is Some && cmd.authority_epoch->0 != current {
                Some(epoch_refusal(cmd.authority_epoch->0, current))
            } else if token.unit_id@ != unit_id {
                Some(
                    refuse(
                        ErrorKind::FenceRejected,
                        "token sealed for unit "@ + token.unit_id@ + ", method targets "@ + unit_id,
                        false,
                    ),
                )
            } else if cmd.principal_id@ != token.holder_id@ {
                Some(
                    refuse(
                        ErrorKind::Unauthorized,
                        "holder principal does not match the sealed token"@,
                        true,
                    ),
                )
            } else {
                None
            },
        }
    }
}

/// The fault of claims at the fence.
pub open spec fn claims_fault(
    current: AuthorityEpoch,
    pre: PreReadView,
    claims: AttemptTokenClaimsView,
) -> Option<RejectionView> {
    match fence_fault(current, fence_rows(pre, claims.unit_id), claims) {
        Some(fault) => fence_refusal(fault),
        None => None,
    }
}

/// The fault of a command that must come from the holder of a unit: an agent, with a token
/// sealed for that unit and that agent, which passes all five axes of the fence.
pub open spec fn holder_fault(
    current: AuthorityEpoch,
    cmd: Command,
    pre: PreReadView,
    unit_id: Seq<char>,
) -> Option<RejectionView> {
    match sealed_fault(current, cmd, unit_id) {
        Some(e) => Some(e),
        None => claims_fault(current, pre, cmd.attempt_token->0@),
    }
}

/// The claims with the current stamp of the unit in place of a stale one.
pub open spec fn rearmed(pre: PreReadView, claims: AttemptTokenClaimsView) -> AttemptTokenClaimsView {
    if pre.unit is Some && claims.stamp.0 < pre.unit->0.stamp {
        AttemptTokenClaimsView { stamp: Stamp(pre.unit->0.stamp), ..claims }
    } else {
        claims
    }
}

/// The fault of a command by which a holder asks for a new token: that of any holder, but that a
/// stale stamp is forgiven.
pub open spec fn reauth_fault(
    current: AuthorityEpoch,
    cmd: Command,
    pre: PreReadView,
    unit_id: Seq<char>,
) -> Option<RejectionView> {
    match sealed_fault(current, cmd, unit_id) {
        Some(e) => Some(e),
        None => claims_fault(current, pre, rearmed(pre, cmd.attempt_token->0@)),
    }
}

/// The fault of the expected version: required, and equal to the actual one.
pub open spec fn version_fault(cmd: Command, actual: u64) -> Option<RejectionView> {
    match cmd.expected_version {
        Some(expected) => if expected != actual {
            Some(
                refuse(
                    ErrorKind::VersionConflict,
                    "expected version "@ + dec(expected as nat) + ", actual "@ + dec(
                        actual as nat,
                    ),
                    false,
                ),
            )
        } else {
            None
        },
        None => Some(
            refuse(ErrorKind::InvalidRequest, "mutating method requires expected_version"@, true),
        ),
    }
}

/// The blockers by name: `member (reason)`, separated by semicolons.
pub open spec fn named(blockers: Seq<BlockerView>) -> Seq<char>
    decreases blockers.len(),
{
    if blockers.len() == 0 {
        Seq::empty()
    } else {
        let front = named(blockers.drop_last());
        let sep = if blockers.len() == 1 {
            front
        } else {
            front + "; "@
        };
        sep + blockers.last().member + " ("@ + blockers.last().reason + ")"@
    }
}

/// The committed cancellations that bar the child of a command.
pub open spec fn admission_bars(pre: PreReadView) -> Seq<BlockerView> {
    match pre.cancel {
        Some(c) => c.admission_blockers,
        None => Seq::empty(),
    }
}

/// The fault of an admission that a committed cancellation bars.
pub open spec fn admission_fault(pre: PreReadView) -> Option<RejectionView> {
    if admission_bars(pre).len() == 0 {
        None
    } else {
        Some(
            refuse(
                ErrorKind::InvalidRequest,
                "admission barred by committed cancellation: "@ + named(admission_bars(pre)),
                true,
            ),
        )
    }
}

/// The next value of a counter, or the refusal when it is exhausted.
pub open spec fn next_of(value: u64, axis: Seq<char>) -> Result<u64, RejectionView> {
    if value < u64::MAX {
        Ok((value + 1) as u64)
    } else {
        Err(refuse(ErrorKind::ResourceExhausted, axis + " space exhausted"@, true))
    }
}

/// The next value of a counter.
pub fn increment(value: u64, axis: &str) -> (r: Result<u64, Rejection>)
    ensures
        match r {
            Ok(v) => next_of(value, axis@) == Ok::<u64, RejectionView>(v),
            Err(e) => next_of(value, axis@) == Err::<u64, RejectionView>(e@),
        },
{
    if value < u64::MAX {
        Ok(value + 1)
    } else {
        let mut detail = axis.to_owned();
        detail.append(" space exhausted");
        Err(Rejection { kind: ErrorKind::ResourceExhausted, detail, persist: true })
    }
}

/// The blockers by name.
pub fn name_blockers(blockers: &Vec<Blocker>) -> (r: String)
    ensures
        r@ == named(blocker_views(blockers@)),
{
    let ghost all = blocker_views(blockers@);
    let mut out = String::new();
    let mut i: usize = 0;
    proof {
        assert(all.take(0) =~= Seq::<BlockerView>::empty());
    }
    while i < blockers.len()
        invariant
            i <= blockers.len(),
            all == blocker_views(blockers@),
            out@ == named(all.take(i as int)),
        decreases blockers.len() - i,
    {
        proof {
            assert(all.take(i + 1).drop_last() =~= all.take(i as int));
            assert(all.take(i + 1).last() == blockers@[i as int]@);
        }
        if i > 0 {
            out.append("; ");
        }
        out.append(&blockers[i].member);
        out.append(" (");
        out.append(&blockers[i].reason);
        out.append(")");
        i += 1;
    }
    proof {
        assert(all.take(all.len() as int) =~= all);
    }
    out
}

/// The fault of the expected version.
pub fn expected_version_ok(cmd: &Command, actual: u64) -> (r: Result<(), Rejection>)
    ensures
        fault_of(r) == version_fault(*cmd, actual),
{
    match cmd.expected_version {
        Some(expected) => {
            if expected != actual {
                let mut detail = "expected version ".to_owned();
                detail.append(&decimal(expected));
                detail.append(", actual ");
                detail.append(&decimal(actual));
                return Err(
                    Rejection { kind: ErrorKind::VersionConflict, detail, persist: false },
                );
            }
            Ok(())
        },
        None => Err(
            refusal(ErrorKind::InvalidRequest, "mutating method requires expected_version", true),
        ),
    }
}

/// The fault of an admission that a committed cancellation bars.
pub fn admission_gate(pre: &PreRead) -> (r: Result<(), Rejection>)
    ensures
        fault_of(r) == admission_fault(pre@),
{
    match &pre.cancel {
        None => Ok(()),
        Some(c) => {
            if c.admission_blockers.len() == 0 {
                return Ok(());
            }
            let mut detail = "admission barred by committed cancellation: ".to_owned();
            detail.append(&name_blockers(&c.admission_blockers));
            Err(Rejection { kind: ErrorKind::InvalidRequest, detail, persist: true })
        },
    }
}

impl Funnel {
    /// The refusal of an epoch that is not the current one.
    pub fn epoch_mismatch(e: AuthorityEpoch, current: AuthorityEpoch) -> (r: Rejection)
        ensures
            r@ == epoch_refusal(e, current),
    {
        let mut detail = "authority epoch ".to_owned();
        detail.append(&decimal(e.0));
        if e.0 < current.0 {
            detail.append(" behind current ");
            detail.append(&decimal(current.0));
        } else {
            detail.append(" ahead of current ");
            detail.append(&decimal(current.0));
            detail.append(" (split-brain suspect)");
        }
        Rejection { kind: ErrorKind::FenceRejected, detail, persist: false }
    }

    /// The sealed unit binding of a token: one for another unit does not resolve here, and
    /// its holder must not reserve a key in the target unit's namespace.
    pub fn token_binds(token: &AttemptTokenClaims, unit_id: &str) -> (r: Result<(), Rejection>)
        ensures
            fault_of(r) == (if token.unit_id@ != unit_id@ {
                Some(
                    refuse(
                        ErrorKind::FenceRejected,
                        "token sealed for unit "@ + token.unit_id@ + ", method targets "@
                            + unit_id@,
                        false,
                    ),
                )
            } else {
                None
            }),
    {
        if !same(&token.unit_id, unit_id) {
            let mut detail = "token sealed for unit ".to_owned();
            detail.append(&token.unit_id);
            detail.append(", method targets ");
            detail.append(unit_id);
            return Err(Rejection { kind: ErrorKind::FenceRejected, detail, persist: false });
        }
        Ok(())
    }

    /// The authority class: the daemon, under the current epoch, without a token. The epoch
    /// alone would not do, since every holder receives it in its own dispatch result.
    pub fn authority_gate(&self, cmd: &Command) -> (r: Result<(), Rejection>)
        ensures
            fault_of(r) == authority_fault(self@.store.epoch, *cmd),
    {
        if cmd.principal_kind != PrincipalKind::Daemon {
            let mut detail = "authority method requires principal_kind daemon, got ".to_owned();
            detail.append(cmd.principal_kind.debug_name());
            return Err(Rejection { kind: ErrorKind::InvalidRequest, detail, persist: true });
        }
        if cmd.attempt_token.is_some() {
            return Err(
                refusal(
                    ErrorKind::InvalidRequest,
                    "authority method must not carry an attempt token",
                    true,
                ),
            );
        }
        let current = self.store.authority_epoch();
        match cmd.authority_epoch {
            Some(e) => {
                if e.0 == current.0 {
                    Ok(())
                } else {
                    Err(Funnel::epoch_mismatch(e, current))
                }
            },
            None => Err(
                refusal(ErrorKind::InvalidRequest, "authority method requires authority_epoch", true),
            ),
        }
    }

    /// What a token must be before the fence: present, of the declared epoch, and sealed for
    /// the unit and the agent.
    pub fn sealed_token<'c>(&self, cmd: &'c Command, unit_id: &str) -> (r: Result<
        &'c AttemptTokenClaims,
        Rejection,
    >)
        ensures
            match r {
                Ok(token) => {
                    &&& sealed_fault(self@.store.epoch, *cmd, unit_id@) is None
                    &&& cmd.attempt_token == Some(*token)
                    &&& token.unit_id@ == unit_id@
                },
                Err(e) => sealed_fault(self@.store.epoch, *cmd, unit_id@) == Some(e@),
            },
    {
        if cmd.principal_kind != PrincipalKind::Agent {
            let mut detail = "holder method requires principal_kind agent, got ".to_owned();
            detail.append(cmd.principal_kind.debug_name());
            return Err(Rejection { kind: ErrorKind::InvalidRequest, detail, persist: true });
        }
        let token = match &cmd.attempt_token {
            Some(token) => token,
            None => {
                return Err(
                    refusal(
                        ErrorKind::InvalidRequest,
                        "holder method requires an attempt token",
                        true,
                    ),
                );
            },
        };
        let current = self.store.authority_epoch();
        if let Some(e) = cmd.authority_epoch {
            if e.0 != current.0 {
                return Err(Funnel::epoch_mismatch(e, current));
            }
        }
        if let Err(e) = Funnel::token_binds(token, unit_id) {
            return Err(e);
        }
        if !same(&cmd.principal_id, &token.holder_id) {
            return Err(
                refusal(
                    ErrorKind::Unauthorized,
                    "holder principal does not match the sealed token",
                    true,
                ),
            );
        }
        Ok(token)
    }

    /// The five-axis fence over claims.
    pub fn claims_gate(&self, pre: &PreRead, claims: &AttemptTokenClaims) -> (r: Result<
        (),
        Rejection,
    >)
        ensures
            fault_of(r) == claims_fault(self@.store.epoch, pre@, claims@),
            r is Ok ==> pre@.unit is Some && pre@.lease is Some,
    {
        match self.store.check_holder_fence(&pre.fence(&claims.unit_id), claims) {
            Ok(()) => Ok(()),
            Err(StoreRejection::FenceRejected { detail }) => Err(
                Rejection { kind: ErrorKind::FenceRejected, detail, persist: true },
            ),
            Err(StoreRejection::NotFound { aggregate }) => Err(
                Rejection { kind: ErrorKind::NotFound, detail: aggregate, persist: false },
            ),
            Err(_) => Err(refusal(ErrorKind::Internal, "", false)),
        }
    }

    /// The holder class: token presence, epoch currency when declared, the sealed unit
    /// binding, and the five-axis fence.
    pub fn holder_gate<'c>(&self, cmd: &'c Command, pre: &PreRead, unit_id: &str) -> (r: Result<
        &'c AttemptTokenClaims,
        Rejection,
    >)
        ensures
            match r {
                Ok(token) => {
                    &&& holder_fault(self@.store.epoch, *cmd, pre@, unit_id@) is None
                    &&& cmd.attempt_token == Some(*token)
                    &&& pre@.unit is Some
                    &&& pre@.lease is Some
                },
                Err(e) => holder_fault(self@.store.epoch, *cmd, pre@, unit_id@) == Some(e@),
            },
    {
        match self.sealed_token(cmd, unit_id) {
            Err(e) => Err(e),
            Ok(token) => match self.claims_gate(pre, token) {
                Err(e) => Err(e),
                Ok(()) => Ok(token),
            },
        }
    }

    /// The reauthorization class: the holder class, but that a stale stamp is forgiven.
    pub fn reauth_gate<'c>(&self, cmd: &'c Command, pre: &PreRead, unit_id: &str) -> (r: Result<
        &'c AttemptTokenClaims,
        Rejection,
    >)
        ensures
            match r {
                Ok(token) => {
                    &&& reauth_fault(self@.store.epoch, *cmd, pre@, unit_id@) is None
                    &&& cmd.attempt_token == Some(*token)
                    &&& pre@.unit is Some
                    &&& pre@.lease is Some
                },
                Err(e) => reauth_fault(self@.store.epoch, *cmd, pre@, unit_id@) == Some(e@),
            },
    {
        let token = match self.sealed_token(cmd, unit_id) {
            Err(e) => {
                return Err(e);
            },
            Ok(token) => token,
        };
        let mut claims = token.clone();
        if let Some(unit) = &pre.unit {
            if claims.stamp.0 < unit.stamp {
                claims.stamp = Stamp(unit.stamp);
            }
        }
        match self.claims_gate(pre, &claims) {
            Err(e) => Err(e),
            Ok(()) => Ok(token),
        }
    }
}


// --- Decisions -----------------------------------------------------------------------------------

/// The decision on opening a run.
pub open spec fn decide_run_open(
    f: FunnelView,
    cmd: Command,
    pre: PreReadView,
    run_id: Seq<char>,
    goal: Seq<char>,
) -> Result<AcceptedView, RejectionView> {
    match authority_fault(f.store.epoch, cmd) {
        Some(e) => Err(e),
        None => if pre.run is Some {
            Err(refuse(ErrorKind::InvalidRequest, "run "@ + run_id + " already exists"@, true))
        } else {
            Ok(
                AcceptedView {
                    plan: PlanView::CreateRun { run_id, goal_work_item_id: goal },
                    events: seq![
                        EventDraftView {
                            aggregate_kind: "run"@,
                            aggregate_id: run_id,
                            aggregate_version: 1,
                            event_kind: "run.opened"@,
                            payload: JsonView::Object(
                                Map::empty().insert("goal_work_item_id"@, JsonView::Str(goal)),
                            ),
                        },
                    ],
                    result: JsonView::Object(
                        Map::empty().insert("run_id"@, JsonView::Str(run_id)).insert(
                            "version"@,
                            JsonView::Uint(1),
                        ),
                    ),
                    minted: 0,
                },
            )
        },
    }
}

/// The decision on closing a run. Only a success close is barred by unresolved members.
pub open spec fn decide_run_close(
    f: FunnelView,
    cmd: Command,
    pre: PreReadView,
    run_id: Seq<char>,
    outcome: RunOutcome,
) -> Result<AcceptedView, RejectionView> {
    match authority_fault(f.store.epoch, cmd) {
        Some(e) => Err(e),
        None => match pre.run {
            None => Err(refuse(ErrorKind::NotFound, "run "@ + run_id, false)),
            Some(run) => match version_fault(cmd, run.version) {
                Some(e) => Err(e),
                None => if run.status != "open"@ && run.status != "active"@ {
                    Err(
                        refuse(
                            ErrorKind::InvalidRequest,
                            "run "@ + run_id + " is already "@ + run.status,
                            true,
                        ),
                    )
                } else if pre.run_blockers.len() > 0 {
                    Err(
                        refuse(
                            ErrorKind::InvalidRequest,
                            "run "@ + run_id
                                + " cannot close success while members are unresolved: "@ + named(
                                pre.run_blockers,
                            ),
                            true,
                        ),
                    )
                } else {
                    match next_of(run.version, "run version"@) {
                        Err(e) => Err(e),
                        Ok(version) => Ok(
                            AcceptedView {
                                plan: PlanView::CloseRun {
                                    run_id,
                                    new_version: version,
                                    status: outcome,
                                },
                                events: seq![
                                    EventDraftView {
                                        aggregate_kind: "run"@,
                                        aggregate_id: run_id,
                                        aggregate_version: version,
                                        event_kind: "run.closed"@,
                                        payload: JsonView::Object(
                                            Map::empty().insert(
                                                "outcome"@,
                                                JsonView::Str(outcome.wire_text()),
                                            ),
                                        ),
                                    },
                                ],
                                result: JsonView::Object(
                                    Map::empty().insert("run_id"@, JsonView::Str(run_id)).insert(
                                        "version"@,
                                        JsonView::Uint(version),
                                    ).insert("status"@, JsonView::Str(outcome.wire_text())),
                                ),
                                minted: 0,
                            },
                        ),
                    }
                },
            },
        },
    }
}

/// The decision on creating a work item.
pub open spec fn decide_work_item(
    f: FunnelView,
    cmd: Command,
    id: Seq<char>,
    contract: Seq<char>,
    scope: Seq<Seq<char>>,
) -> Result<AcceptedView, RejectionView> {
    match authority_fault(f.store.epoch, cmd) {
        Some(e) => Err(e),
        None => if lookup(f.store.tables.work_items, id) is Some {
            Err(refuse(ErrorKind::InvalidRequest, "work item "@ + id + " already exists"@, true))
        } else {
            Ok(
                AcceptedView {
                    plan: PlanView::CreateWorkItem {
                        work_item_id: id,
                        acceptance_contract_digest: contract,
                        declared_write_scope: json_text(text_array_view(scope)),
                    },
                    events: seq![
                        EventDraftView {
                            aggregate_kind: "work_item"@,
                            aggregate_id: id,
                            aggregate_version: 1,
                            event_kind: "work_item.created"@,
                            payload: JsonView::Object(
                                Map::empty().insert(
                                    "acceptance_contract_digest"@,
                                    JsonView::Str(contract),
                                ).insert("declared_write_scope"@, text_array_view(scope)),
                            ),
                        },
                    ],
                    result: JsonView::Object(
                        Map::empty().insert("work_item_id"@, JsonView::Str(id)).insert(
                            "version"@,
                            JsonView::Uint(1),
                        ),
                    ),
                    minted: 0,
                },
            )
        },
    }
}

/// The decision on admitting a unit. A missing run or work item is not kept: it may be
/// created later.
pub open spec fn decide_unit_admit(
    f: FunnelView,
    cmd: Command,
    pre: PreReadView,
    unit_id: Seq<char>,
    work_item_id: Seq<char>,
    run_id: Seq<char>,
) -> Result<AcceptedView, RejectionView> {
    match authority_fault(f.store.epoch, cmd) {
        Some(e) => Err(e),
        None => if lookup(f.store.tables.runs, run_id) is None {
            Err(refuse(ErrorKind::NotFound, "run "@ + run_id, false))
        } else if lookup(f.store.tables.work_items, work_item_id) is None {
            Err(refuse(ErrorKind::NotFound, "work item "@ + work_item_id, false))
        } else if pre.unit is Some {
            Err(refuse(ErrorKind::InvalidRequest, "unit "@ + unit_id + " already exists"@, true))
        } else {
            match admission_fault(pre) {
                Some(e) => Err(e),
                None => Ok(
                    AcceptedView {
                        plan: PlanView::CreateUnit { unit_id, work_item_id, run_id },
                        events: seq![
                            EventDraftView {
                                aggregate_kind: "unit"@,
                                aggregate_id: unit_id,
                                aggregate_version: 1,
                                event_kind: "unit.admitted"@,
                                payload: JsonView::Object(
                                    Map::empty().insert(
                                        "work_item_id"@,
                                        JsonView::Str(work_item_id),
                                    ).insert("run_id"@, JsonView::Str(run_id)),
                                ),
                            },
                        ],
                        result: JsonView::Object(
                            Map::empty().insert("unit_id"@, JsonView::Str(unit_id)).insert(
                                "version"@,
                                JsonView::Uint(1),
                            ),
                        ),
                        minted: 0,
                    },
                ),
            }
        },
    }
}

/// The accepted form of a dispatch: a new attempt with a fresh id and token nonce.
pub open spec fn accept_dispatch(
    f: FunnelView,
    pre: PreReadView,
    unit_id: Seq<char>,
    holder_id: Seq<char>,
    epoch: u64,
    version: u64,
) -> AcceptedView {
    let unit = pre.unit->0;
    let attempt_id = crate::ids::uuid_text(crate::funnel::fresh(f, 1));
    let nonce = crate::ids::uuid_text(crate::funnel::fresh(f, 2));
    AcceptedView {
        plan: PlanView::Dispatch {
            unit_id,
            new_version: version,
            new_epoch: epoch,
            stamp: unit.stamp,
            authority_epoch: f.store.epoch.0,
            holder_id,
            attempt_id,
            token_nonce: nonce,
            existing_lease: match pre.lease {
                Some(l) => Some(l.version),
                None => None,
            },
            prior_attempt: if unit.epoch > 0 {
                Some(attempt_key(unit_id, unit.epoch))
            } else {
                None
            },
        },
        events: seq![
            EventDraftView {
                aggregate_kind: "unit"@,
                aggregate_id: unit_id,
                aggregate_version: version,
                event_kind: "unit.dispatched"@,
                payload: JsonView::Object(
                    Map::empty().insert("attempt_epoch"@, JsonView::Uint(epoch)).insert(
                        "attempt_id"@,
                        JsonView::Str(attempt_id),
                    ).insert("holder_id"@, JsonView::Str(holder_id)),
                ),
            },
        ],
        result: JsonView::Object(
            Map::empty().insert("unit_id"@, JsonView::Str(unit_id)).insert(
                "version"@,
                JsonView::Uint(version),
            ).insert("attempt_epoch"@, JsonView::Uint(epoch)).insert(
                "attempt_id"@,
                JsonView::Str(attempt_id),
            ).insert("stamp"@, JsonView::Uint(unit.stamp)).insert(
                "authority_epoch"@,
                JsonView::Uint(f.store.epoch.0),
            ).insert("holder_id"@, JsonView::Str(holder_id)).insert(
                "token_nonce"@,
                JsonView::Str(nonce),
            ),
        ),
        minted: 2,
    }
}

/// The decision on dispatching a unit.
pub open spec fn decide_unit_dispatch(
    f: FunnelView,
    cmd: Command,
    pre: PreReadView,
    unit_id: Seq<char>,
    holder_id: Seq<char>,
) -> Result<AcceptedView, RejectionView> {
    match authority_fault(f.store.epoch, cmd) {
        Some(e) => Err(e),
        None => match pre.unit {
            None => Err(refuse(ErrorKind::NotFound, "unit "@ + unit_id, false)),
            Some(unit) => match version_fault(cmd, unit.version) {
                Some(e) => Err(e),
                None => match admission_fault(pre) {
                    Some(e) => Err(e),
                    None => {
                        let key = attempt_key(unit_id, unit.epoch);
                        if unit.epoch > 0 && lookup(f.store.tables.attempts, key) is None {
                            Err(
                                refuse(
                                    ErrorKind::Internal,
                                    "attempt row "@ + key + " missing for current epoch"@,
                                    false,
                                ),
                            )
                        } else {
                            match next_of(unit.epoch, "attempt epoch"@) {
                                Err(e) => Err(e),
                                Ok(epoch) => match next_of(unit.version, "unit version"@) {
                                    Err(e) => Err(e),
                                    Ok(version) => Ok(
                                        accept_dispatch(
                                            f,
                                            pre,
                                            unit_id,
                                            holder_id,
                                            epoch,
                                            version,
                                        ),
                                    ),
                                },
                            }
                        }
                    },
                },
            },
        },
    }
}

/// The decision on a progress report: the fence, and nothing changes.
pub open spec fn decide_progress(
    f: FunnelView,
    cmd: Command,
    pre: PreReadView,
    unit_id: Seq<char>,
) -> Result<AcceptedView, RejectionView> {
    match holder_fault(f.store.epoch, cmd, pre, unit_id) {
        Some(e) => Err(e),
        None => match version_fault(cmd, pre.unit->0.version) {
            Some(e) => Err(e),
            None => Ok(
                AcceptedView {
                    plan: PlanView::Nothing,
                    events: Seq::empty(),
                    result: JsonView::Object(
                        Map::empty().insert("unit_id"@, JsonView::Str(unit_id)).insert(
                            "version"@,
                            JsonView::Uint(pre.unit->0.version),
                        ),
                    ),
                    minted: 0,
                },
            ),
        },
    }
}

/// The decision on a token reissue: the fence without the stamp, and a fresh token under the
/// current stamp. Nothing changes: minting a token is no transition.
pub open spec fn decide_token_reissue(
    f: FunnelView,
    cmd: Command,
    pre: PreReadView,
    unit_id: Seq<char>,
) -> Result<AcceptedView, RejectionView> {
    match reauth_fault(f.store.epoch, cmd, pre, unit_id) {
        Some(e) => Err(e),
        None => {
            let unit = pre.unit->0;
            Ok(
                AcceptedView {
                    plan: PlanView::Nothing,
                    events: Seq::empty(),
                    result: JsonView::Object(
                        Map::empty().insert("unit_id"@, JsonView::Str(unit_id)).insert(
                            "version"@,
                            JsonView::Uint(unit.version),
                        ).insert("attempt_epoch"@, JsonView::Uint(unit.epoch)).insert(
                            "stamp"@,
                            JsonView::Uint(unit.stamp),
                        ).insert("authority_epoch"@, JsonView::Uint(f.store.epoch.0)).insert(
                            "holder_id"@,
                            JsonView::Str(cmd.attempt_token->0.holder_id@),
                        ).insert("token_nonce"@, JsonView::Str(uuid_text(fresh(f, 1)))),
                    ),
                    minted: 1,
                },
            )
        },
    }
}

/// The decision on a stamp bump.
pub open spec fn decide_stamp_bump(
    f: FunnelView,
    cmd: Command,
    pre: PreReadView,
    unit_id: Seq<char>,
) -> Result<AcceptedView, RejectionView> {
    match authority_fault(f.store.epoch, cmd) {
        Some(e) => Err(e),
        None => match pre.unit {
            None => Err(refuse(ErrorKind::NotFound, "unit "@ + unit_id, false)),
            Some(unit) => match version_fault(cmd, unit.version) {
                Some(e) => Err(e),
                None => match next_of(unit.version, "unit version"@) {
                    Err(e) => Err(e),
                    Ok(version) => match next_of(unit.stamp, "unit stamp"@) {
                        Err(e) => Err(e),
                        Ok(stamp) => Ok(
                            AcceptedView {
                                plan: PlanView::BumpUnit {
                                    unit_id,
                                    new_version: version,
                                    new_stamp: Some(stamp),
                                },
                                events: seq![
                                    EventDraftView {
                                        aggregate_kind: "unit"@,
                                        aggregate_id: unit_id,
                                        aggregate_version: version,
                                        event_kind: "unit.stamp_bumped"@,
                                        payload: JsonView::Object(
                                            Map::empty().insert("stamp"@, JsonView::Uint(stamp)),
                                        ),
                                    },
                                ],
                                result: JsonView::Object(
                                    Map::empty().insert("unit_id"@, JsonView::Str(unit_id)).insert(
                                        "version"@,
                                        JsonView::Uint(version),
                                    ).insert("stamp"@, JsonView::Uint(stamp)),
                                ),
                                minted: 0,
                            },
                        ),
                    },
                },
            },
        },
    }
}

impl Funnel {
    fn validate_run_open(&self, cmd: &Command, pre: &PreRead, run_id: &String, goal: &String) -> (r:
        Result<Accepted, Rejection>)
        ensures
            verdict(r) == decide_run_open(self@, *cmd, pre@, run_id@, goal@),
            r is Ok ==> writable(r->Ok_0@),
    {
        proof {
            names_are_ordinary();
        }
        if let Err(e) = self.authority_gate(cmd) {
            return Err(e);
        }
        if pre.run.is_some() {
            let mut detail = "run ".to_owned();
            detail.append(run_id);
            detail.append(" already exists");
            return Err(Rejection { kind: ErrorKind::InvalidRequest, detail, persist: true });
        }
        let payload = object1("goal_work_item_id", text_value(goal));
        let result = object2("run_id", text_value(run_id), "version", Json::Uint(1));
        Ok(
            Accepted {
                plan: Plan::CreateRun { run_id: run_id.clone(), goal_work_item_id: goal.clone() },
                events: one_event(
                    EventDraft {
                        aggregate_kind: "run",
                        aggregate_id: run_id.clone(),
                        aggregate_version: 1,
                        event_kind: "run.opened",
                        payload,
                    },
                ),
                result,
                minted: 0,
            },
        )
    }

    fn validate_run_close(
        &self,
        cmd: &Command,
        pre: &PreRead,
        run_id: &String,
        outcome: RunOutcome,
    ) -> (r: Result<Accepted, Rejection>)
        ensures
            verdict(r) == decide_run_close(self@, *cmd, pre@, run_id@, outcome),
            r is Ok ==> writable(r->Ok_0@),
    {
        proof {
            names_are_ordinary();
        }
        if let Err(e) = self.authority_gate(cmd) {
            return Err(e);
        }
        let run = match &pre.run {
            Some(run) => run,
            None => {
                let mut detail = "run ".to_owned();
                detail.append(run_id);
                return Err(Rejection { kind: ErrorKind::NotFound, detail, persist: false });
            },
        };
        if let Err(e) = expected_version_ok(cmd, run.version) {
            return Err(e);
        }
        if !same(&run.status, "open") && !same(&run.status, "active") {
            let mut detail = "run ".to_owned();
            detail.append(run_id);
            detail.append(" is already ");
            detail.append(&run.status);
            return Err(Rejection { kind: ErrorKind::InvalidRequest, detail, persist: true });
        }
        if pre.run_blockers.len() > 0 {
            let mut detail = "run ".to_owned();
            detail.append(run_id);
            detail.append(" cannot close success while members are unresolved: ");
            detail.append(&name_blockers(&pre.run_blockers));
            return Err(Rejection { kind: ErrorKind::InvalidRequest, detail, persist: true });
        }
        let version: u64 = match increment(run.version, "run version") {
            Ok(v) => v,
            Err(e) => {
                return Err(e);
            },
        };
        let payload = object1("outcome", text_value(outcome.wire()));
        let result = object3(
            "run_id",
            text_value(run_id),
            "version",
            Json::Uint(version),
            "status",
            text_value(outcome.wire()),
        );
        Ok(
            Accepted {
                plan: Plan::CloseRun {
                    run_id: run_id.clone(),
                    new_version: version,
                    status: outcome,
                },
                events: one_event(
                    EventDraft {
                        aggregate_kind: "run",
                        aggregate_id: run_id.clone(),
                        aggregate_version: version,
                        event_kind: "run.closed",
                        payload,
                    },
                ),
                result,
                minted: 0,
            },
        )
    }

    fn validate_work_item(
        &self,
        cmd: &Command,
        id: &String,
        contract: &str,
        scope: &Vec<String>,
    ) -> (r: Result<Accepted, Rejection>)
        ensures
            verdict(r) == decide_work_item(self@, *cmd, id@, contract@, views(scope@)),
            r is Ok ==> writable(r->Ok_0@),
    {
        proof {
            names_are_ordinary();
        }
        if let Err(e) = self.authority_gate(cmd) {
            return Err(e);
        }
        if self.store.tables.work_items.has(id) {
            let mut detail = "work item ".to_owned();
            detail.append(id);
            detail.append(" already exists");
            return Err(Rejection { kind: ErrorKind::InvalidRequest, detail, persist: true });
        }
        let declared_write_scope = render_json(&text_array(scope));
        let payload = object2(
            "acceptance_contract_digest",
            text_value(contract),
            "declared_write_scope",
            text_array(scope),
        );
        let result = object2("work_item_id", text_value(id), "version", Json::Uint(1));
        Ok(
            Accepted {
                plan: Plan::CreateWorkItem {
                    work_item_id: id.clone(),
                    acceptance_contract_digest: contract.to_owned(),
                    declared_write_scope,
                },
                events: one_event(
                    EventDraft {
                        aggregate_kind: "work_item",
                        aggregate_id: id.clone(),
                        aggregate_version: 1,
                        event_kind: "work_item.created",
                        payload,
                    },
                ),
                result,
                minted: 0,
            },
        )
    }

    fn validate_unit_admit(
        &self,
        cmd: &Command,
        pre: &PreRead,
        unit_id: &String,
        work_item_id: &String,
        run_id: &String,
    ) -> (r: Result<Accepted, Rejection>)
        ensures
            verdict(r) == decide_unit_admit(
                self@,
                *cmd,
                pre@,
                unit_id@,
                work_item_id@,
                run_id@,
            ),
            r is Ok ==> writable(r->Ok_0@),
    {
        proof {
            names_are_ordinary();
        }
        if let Err(e) = self.authority_gate(cmd) {
            return Err(e);
        }
        if !self.store.tables.runs.has(run_id) {
            let mut detail = "run ".to_owned();
            detail.append(run_id);
            return Err(Rejection { kind: ErrorKind::NotFound, detail, persist: false });
        }
        if !self.store.tables.work_items.has(work_item_id) {
            let mut detail = "work item ".to_owned();
            detail.append(work_item_id);
            return Err(Rejection { kind: ErrorKind::NotFound, detail, persist: false });
        }
        if pre.unit.is_some() {
            let mut detail = "unit ".to_owned();
            detail.append(unit_id);
            detail.append(" already exists");
            return Err(Rejection { kind: ErrorKind::InvalidRequest, detail, persist: true });
        }
        if let Err(e) = admission_gate(pre) {
            return Err(e);
        }
        let payload = object2(
            "work_item_id",
            text_value(work_item_id),
            "run_id",
            text_value(run_id),
        );
        let result = object2("unit_id", text_value(unit_id), "version", Json::Uint(1));
        Ok(
            Accepted {
                plan: Plan::CreateUnit {
                    unit_id: unit_id.clone(),
                    work_item_id: work_item_id.clone(),
                    run_id: run_id.clone(),
                },
                events: one_event(
                    EventDraft {
                        aggregate_kind: "unit",
                        aggregate_id: unit_id.clone(),
                        aggregate_version: 1,
                        event_kind: "unit.admitted",
                        payload,
                    },
                ),
                result,
                minted: 0,
            },
        )
    }

    fn validate_unit_dispatch(
        &self,
        cmd: &Command,
        pre: &PreRead,
        unit_id: &String,
        holder_id: &String,
    ) -> (r: Result<Accepted, Rejection>)
        requires
            self@.mint_seq <= u64::MAX - 2,
        ensures
            verdict(r) == decide_unit_dispatch(self@, *cmd, pre@, unit_id@, holder_id@),
            r is Ok ==> writable(r->Ok_0@),
    {
        proof {
            names_are_ordinary();
        }
        if let Err(e) = self.authority_gate(cmd) {
            return Err(e);
        }
        let unit = match &pre.unit {
            Some(unit) => unit,
            None => {
                let mut detail = "unit ".to_owned();
                detail.append(unit_id);
                return Err(Rejection { kind: ErrorKind::NotFound, detail, persist: false });
            },
        };
        if let Err(e) = expected_version_ok(cmd, unit.version) {
            return Err(e);
        }
        if let Err(e) = admission_gate(pre) {
            return Err(e);
        }
        let mut prior_attempt: Option<String> = None;
        if unit.epoch > 0 {
            let mut key = unit_id.clone();
            key.append("/");
            key.append(&decimal(unit.epoch));
            if !self.store.tables.attempts.has(&key) {
                let mut detail = "attempt row ".to_owned();
                detail.append(&key);
                detail.append(" missing for current epoch");
                return Err(Rejection { kind: ErrorKind::Internal, detail, persist: false });
            }
            prior_attempt = Some(key);
        }
        let epoch: u64 = match increment(unit.epoch, "attempt epoch") {
            Ok(v) => v,
            Err(e) => {
                return Err(e);
            },
        };
        let version: u64 = match increment(unit.version, "unit version") {
            Ok(v) => v,
            Err(e) => {
                return Err(e);
            },
        };
        let attempt_id = self.id_after(1).to_string();
        let token_nonce = self.id_after(2).to_string();
        let current: u64 = self.store.authority_epoch().0;
        let payload = object3(
            "attempt_epoch",
            Json::Uint(epoch),
            "attempt_id",
            text_value(&attempt_id),
            "holder_id",
            text_value(holder_id),
        );
        let mut members: Vec<(String, Json)> = Vec::new();
        put(&mut members, "unit_id", text_value(unit_id));
        put(&mut members, "version", Json::Uint(version));
        put(&mut members, "attempt_epoch", Json::Uint(epoch));
        put(&mut members, "attempt_id", text_value(&attempt_id));
        put(&mut members, "stamp", Json::Uint(unit.stamp));
        put(&mut members, "authority_epoch", Json::Uint(current));
        put(&mut members, "holder_id", text_value(holder_id));
        put(&mut members, "token_nonce", text_value(&token_nonce));
        let result = object(members);
        let existing_lease = match &pre.lease {
            Some(l) => Some(l.version),
            None => None,
        };
        Ok(
            Accepted {
                plan: Plan::Dispatch {
                    unit_id: unit_id.clone(),
                    new_version: version,
                    new_epoch: epoch,
                    stamp: unit.stamp,
                    authority_epoch: current,
                    holder_id: holder_id.clone(),
                    attempt_id,
                    token_nonce,
                    existing_lease,
                    prior_attempt,
                },
                events: one_event(
                    EventDraft {
                        aggregate_kind: "unit",
                        aggregate_id: unit_id.clone(),
                        aggregate_version: version,
                        event_kind: "unit.dispatched",
                        payload,
                    },
                ),
                result,
                minted: 2,
            },
        )
    }

    fn validate_progress(&self, cmd: &Command, pre: &PreRead, unit_id: &String) -> (r: Result<
        Accepted,
        Rejection,
    >)
        ensures
            verdict(r) == decide_progress(self@, *cmd, pre@, unit_id@),
            r is Ok ==> writable(r->Ok_0@),
    {
        proof {
            names_are_ordinary();
        }
        if let Err(e) = self.holder_gate(cmd, pre, unit_id) {
            return Err(e);
        }
        let version: u64 = match &pre.unit {
            Some(unit) => unit.version,
            None => 0,
        };
        if let Err(e) = expected_version_ok(cmd, version) {
            return Err(e);
        }
        let result = object2("unit_id", text_value(unit_id), "version", Json::Uint(version));
        Ok(Accepted { plan: Plan::Nothing, events: no_events(), result, minted: 0 })
    }

    fn validate_token_reissue(&self, cmd: &Command, pre: &PreRead, unit_id: &String) -> (r: Result<
        Accepted,
        Rejection,
    >)
        requires
            self@.mint_seq <= u64::MAX - 2,
        ensures
            verdict(r) == decide_token_reissue(self@, *cmd, pre@, unit_id@),
            r is Ok ==> writable(r->Ok_0@),
    {
        proof {
            names_are_ordinary();
        }
        let token = match self.reauth_gate(cmd, pre, unit_id) {
            Err(e) => {
                return Err(e);
            },
            Ok(token) => token,
        };
        let (version, epoch, stamp): (u64, u64, u64) = match &pre.unit {
            Some(unit) => (unit.version, unit.epoch, unit.stamp),
            None => (0, 0, 0),
        };
        let token_nonce = self.id_after(1).to_string();
        let mut members: Vec<(String, Json)> = Vec::new();
        put(&mut members, "unit_id", text_value(unit_id));
        put(&mut members, "version", Json::Uint(version));
        put(&mut members, "attempt_epoch", Json::Uint(epoch));
        put(&mut members, "stamp", Json::Uint(stamp));
        put(&mut members, "authority_epoch", Json::Uint(self.store.authority_epoch().0));
        put(&mut members, "holder_id", text_value(&token.holder_id));
        put(&mut members, "token_nonce", text_value(&token_nonce));
        let result = object(members);
        Ok(Accepted { plan: Plan::Nothing, events: no_events(), result, minted: 1 })
    }

    fn validate_stamp_bump(&self, cmd: &Command, pre: &PreRead, unit_id: &String) -> (r: Result<
        Accepted,
        Rejection,
    >)
        ensures
            verdict(r) == decide_stamp_bump(self@, *cmd, pre@, unit_id@),
            r is Ok ==> writable(r->Ok_0@),
    {
        proof {
            names_are_ordinary();
        }
        if let Err(e) = self.authority_gate(cmd) {
            return Err(e);
        }
        let unit = match &pre.unit {
            Some(unit) => unit,
            None => {
                let mut detail = "unit ".to_owned();
                detail.append(unit_id);
                return Err(Rejection { kind: ErrorKind::NotFound, detail, persist: false });
            },
        };
        if let Err(e) = expected_version_ok(cmd, unit.version) {
            return Err(e);
        }
        let version: u64 = match increment(unit.version, "unit version") {
            Ok(v) => v,
            Err(e) => {
                return Err(e);
            },
        };
        let stamp: u64 = match increment(unit.stamp, "unit stamp") {
            Ok(v) => v,
            Err(e) => {
                return Err(e);
            },
        };
        let payload = object1("stamp", Json::Uint(stamp));
        let result = object3(
            "unit_id",
            text_value(unit_id),
            "version",
            Json::Uint(version),
            "stamp",
            Json::Uint(stamp),
        );
        Ok(
            Accepted {
                plan: Plan::BumpUnit {
                    unit_id: unit_id.clone(),
                    new_version: version,
                    new_stamp: Some(stamp),
                },
                events: one_event(
                    EventDraft {
                        aggregate_kind: "unit",
                        aggregate_id: unit_id.clone(),
                        aggregate_version: version,
                        event_kind: "unit.stamp_bumped",
                        payload,
                    },
                ),
                result,
                minted: 0,
            },
        )
    }
}


/// The decision on a command, as a function of the funnel and the rows read for it.
pub open spec fn decide(f: FunnelView, cmd: Command, pre: PreReadView) -> Result<
    AcceptedView,
    RejectionView,
> {
    match cmd.method {
        Method::RunOpen { run_id, goal_work_item_id } => decide_run_open(
            f,
            cmd,
            pre,
            run_id@,
            goal_work_item_id@,
        ),
        Method::RunClose { run_id, outcome } => decide_run_close(f, cmd, pre, run_id@, outcome),
        Method::WorkItemCreate {
            work_item_id,
            acceptance_contract_digest,
            declared_write_scope,
        } => decide_work_item(
            f,
            cmd,
            work_item_id@,
            acceptance_contract_digest@,
            views(declared_write_scope@),
        ),
        Method::UnitAdmit { unit_id, work_item_id, run_id } => decide_unit_admit(
            f,
            cmd,
            pre,
            unit_id@,
            work_item_id@,
            run_id@,
        ),
        Method::UnitDispatch { unit_id, holder_id } => decide_unit_dispatch(
            f,
            cmd,
            pre,
            unit_id@,
            holder_id@,
        ),
        Method::ProgressReport { unit_id } => decide_progress(f, cmd, pre, unit_id@),
        Method::StampBump { unit_id } => decide_stamp_bump(f, cmd, pre, unit_id@),
        Method::TokenReissue { unit_id } => decide_token_reissue(f, cmd, pre, unit_id@),
        Method::CancelRequest { .. } | Method::CancelRecordDelivery { .. } => decide_cancel(
            f,
            cmd,
            pre,
        ),
        _ => decide_effect(f, cmd, pre),
    }
}

/// Whether the rows read fit a method: a cancellation method has its cancellation state, and
/// a prepare on an existing unit has its key.
pub open spec fn fits(method: Method, pre: PreReadView) -> bool {
    &&& method is CancelRequest || method is CancelRecordDelivery ==> pre.cancel is Some
    &&& method is EffectPrepare && pre.unit is Some ==> pre.effect_key is Some
}

/// Whether a decision mints at most two identifiers and appends at most one event.
pub open spec fn is_small(r: Result<AcceptedView, RejectionView>) -> bool {
    r is Ok ==> r->Ok_0.events.len() <= 1 && r->Ok_0.minted <= 2
}

proof fn run_and_unit_decisions_are_small(
    f: FunnelView,
    cmd: Command,
    pre: PreReadView,
    a: Seq<char>,
    b: Seq<char>,
    c: Seq<char>,
    list: Seq<Seq<char>>,
    outcome: RunOutcome,
)
    ensures
        is_small(decide_run_open(f, cmd, pre, a, b)),
        is_small(decide_run_close(f, cmd, pre, a, outcome)),
        is_small(decide_work_item(f, cmd, a, b, list)),
        is_small(decide_unit_admit(f, cmd, pre, a, b, c)),
        is_small(decide_unit_dispatch(f, cmd, pre, a, b)),
        is_small(decide_progress(f, cmd, pre, a)),
        is_small(decide_token_reissue(f, cmd, pre, a)),
        is_small(decide_stamp_bump(f, cmd, pre, a)),
{
}

/// No decision mints more than two identifiers or appends more than one event.
#[verifier::spinoff_prover]
pub proof fn decisions_are_small(f: FunnelView, cmd: Command, pre: PreReadView)
    ensures
        is_small(decide(f, cmd, pre)),
{
    let none = Seq::<char>::empty();
    let list = Seq::<Seq<char>>::empty();
    let out = RunOutcome::Cancelled;
    match cmd.method {
        Method::RunOpen { run_id, goal_work_item_id } => {
            run_and_unit_decisions_are_small(
                f,
                cmd,
                pre,
                run_id@,
                goal_work_item_id@,
                none,
                list,
                out,
            );
        },
        Method::RunClose { run_id, outcome } => {
            run_and_unit_decisions_are_small(f, cmd, pre, run_id@, none, none, list, outcome);
        },
        Method::WorkItemCreate {
            work_item_id,
            acceptance_contract_digest,
            declared_write_scope,
        } => {
            run_and_unit_decisions_are_small(
                f,
                cmd,
                pre,
                work_item_id@,
                acceptance_contract_digest@,
                none,
                views(declared_write_scope@),
                out,
            );
        },
        Method::UnitAdmit { unit_id, work_item_id, run_id } => {
            run_and_unit_decisions_are_small(
                f,
                cmd,
                pre,
                unit_id@,
                work_item_id@,
                run_id@,
                list,
                out,
            );
        },
        Method::UnitDispatch { unit_id, holder_id } => {
            run_and_unit_decisions_are_small(f, cmd, pre, unit_id@, holder_id@, none, list, out);
        },
        Method::ProgressReport { unit_id } => {
            run_and_unit_decisions_are_small(f, cmd, pre, unit_id@, none, none, list, out);
        },
        Method::StampBump { unit_id } => {
            run_and_unit_decisions_are_small(f, cmd, pre, unit_id@, none, none, list, out);
        },
        Method::TokenReissue { unit_id } => {
            run_and_unit_decisions_are_small(f, cmd, pre, unit_id@, none, none, list, out);
        },
        Method::CancelRequest { .. } | Method::CancelRecordDelivery { .. } => {
            crate::funnel::cancel::cancel_decisions_are_small(f, cmd, pre);
        },
        _ => {
            crate::funnel::effects::effect_decisions_are_small(f, cmd, pre);
        },
    }
}

impl Funnel {
    /// The decision on a command, as a function of the rows read for it.
    pub fn validate(&self, cmd: &Command, pre: &PreRead) -> (r: Result<Accepted, Rejection>)
        requires
            self@.mint_seq <= u64::MAX - 2,
            fits(cmd.method, pre@),
        ensures
            verdict(r) == decide(self@, *cmd, pre@),
            r is Ok ==> writable(r->Ok_0@),
    {
        match &cmd.method {
            Method::RunOpen { run_id, goal_work_item_id } => self.validate_run_open(
                cmd,
                pre,
                run_id,
                goal_work_item_id,
            ),
            Method::RunClose { run_id, outcome } => self.validate_run_close(
                cmd,
                pre,
                run_id,
                *outcome,
            ),
            Method::WorkItemCreate {
                work_item_id,
                acceptance_contract_digest,
                declared_write_scope,
            } => self.validate_work_item(
                cmd,
                work_item_id,
                acceptance_contract_digest.as_str(),
                declared_write_scope,
            ),
            Method::UnitAdmit { unit_id, work_item_id, run_id } => self.validate_unit_admit(
                cmd,
                pre,
                unit_id,
                work_item_id,
                run_id,
            ),
            Method::UnitDispatch { unit_id, holder_id } => self.validate_unit_dispatch(
                cmd,
                pre,
                unit_id,
                holder_id,
            ),
            Method::ProgressReport { unit_id } => self.validate_progress(cmd, pre, unit_id),
            Method::StampBump { unit_id } => self.validate_stamp_bump(cmd, pre, unit_id),
            Method::TokenReissue { unit_id } => self.validate_token_reissue(cmd, pre, unit_id),
            Method::CancelRequest { .. } | Method::CancelRecordDelivery { .. } =>
                self.validate_cancel(cmd, pre),
            _ => self.validate_effect(cmd, pre),
        }
    }
}

} // verus!
