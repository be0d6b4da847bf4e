//! Cancellation methods: a request commits the frozen scope that every member is delivered
//! against, and a recorded delivery advances one member through the write-once contract while
//! parking a dispatched effect for reconciliation.
//!
//! Both are of the authority class: a delivery records an observation about the world, so no
//! attempt, stamp or lease fences it.
use crate::cancel::{
    leaf_first, member_fits, member_index, named_before, numbered, kind_fits, CancelDelivery,
    CancelDeliveryView, CancelKind, CancelPolicy, CancelReason, CancelRequest, CancelRequestView,
    CancelScope, CancelScopeView, CancelStatus, DeliveryOutcome, MemberInput, MemberInputView,
    ScopeError, ScopeErrorView, ScopeMember, ScopeMemberView, MAX_SCOPE_MEMBERS,
};
use crate::effect::{EffectIntent, EffectIntentView, EffectState};
use crate::error::ErrorKind;
use crate::funnel::cancel_rules::{
    already_delivered, delivered, delivery_leaf_first, next_is, request_status_after, status_after,
    summaries, DeliverySummary, DeliverySummaryView,
};
use crate::funnel::command::{refusal, refuse, Command, Method, Rejection, RejectionView};
use crate::funnel::effects::readable;
use crate::funnel::plan::{
    one_event, verdict, writable, Accepted, AcceptedView, CancelDeliveryPlan,
    CancelDeliveryPlanView, CancelRequestPlan, CancelRequestPlanView, EffectParkPlan,
    EffectParkPlanView, EventDraft, EventDraftView, Plan, PlanView,
};
use crate::funnel::pre::{
    AttemptRootView, CancelPreRead, MemberLink, MemberLinkView, PreRead, PreReadView,
};
use crate::funnel::validate::{is_small, authority_fault, increment, next_of};
use crate::funnel::{fresh, Funnel, FunnelView};
use crate::ids::{is_radix_number, radix_number, unsigned_part, uuid_text, without_hyphens, Uuid7};
use crate::json::{names_are_ordinary, object, object4, put, text_value, Json, JsonView};
use crate::store::{CancelRequestRowView, EffectRow, EffectRowView, IntentRecord};
use crate::text::{dec, decimal, same};
use vstd::prelude::*;
use vstd::string::*;
use vstd::utf8::*;

verus! {

/// The wire name of a kind.
pub fn kind_wire(k: CancelKind) -> (r: &'static str)
    ensures
        r@ == k.wire_text(),
{
    k.wire()
}

/// The wire name of a policy.
pub fn policy_wire(p: CancelPolicy) -> (r: &'static str)
    ensures
        r@ == p.wire_text(),
{
    p.wire()
}

/// The wire name of a reason.
pub fn reason_wire(reason: CancelReason) -> (r: &'static str)
    ensures
        r@ == reason.wire_text(),
{
    reason.wire()
}

/// The wire name of a status.
pub fn status_wire(s: CancelStatus) -> (r: &'static str)
    ensures
        r@ == s.wire_text(),
{
    s.wire()
}

/// The refusal of a scope that cannot be frozen. It is kept: the retry gets the same answer.
pub open spec fn scope_refusal(e: ScopeErrorView) -> RejectionView {
    refuse(
        ErrorKind::InvalidRequest,
        match e {
            ScopeErrorView::TooLarge { count } => "scope of "@ + dec(count as nat)
                + " members exceeds the cap"@,
            ScopeErrorView::DuplicateMember { member_id } => "duplicate scope member "@ + member_id,
            ScopeErrorView::NotUnderRoot { member_kind, member_id } => "member "@
                + member_kind.debug_name_text() + ":"@ + member_id + " is not under the root"@,
        },
        true,
    )
}

/// The refusal of a scope that cannot be frozen.
pub fn scope_rejection(e: ScopeError) -> (r: Rejection)
    ensures
        r@ == scope_refusal(e@),
{
    let detail = match e {
        ScopeError::TooLarge { count } => {
            let mut d = "scope of ".to_owned();
            d.append(&decimal(count as u64));
            d.append(" members exceeds the cap");
            d
        },
        ScopeError::DuplicateMember { member_id } => {
            let mut d = "duplicate scope member ".to_owned();
            d.append(&member_id);
            d
        },
        ScopeError::NotUnderRoot { member_kind, member_id } => {
            let mut d = "member ".to_owned();
            d.append(member_kind.debug_name());
            d.append(":");
            d.append(&member_id);
            d.append(" is not under the root");
            d
        },
    };
    Rejection { kind: ErrorKind::InvalidRequest, detail, persist: true }
}

/// The refusal of a member that lives elsewhere.
pub open spec fn elsewhere(
    root_kind: CancelKind,
    root_id: Seq<char>,
    member_kind: CancelKind,
    member_id: Seq<char>,
) -> RejectionView {
    refuse(
        ErrorKind::InvalidRequest,
        "member "@ + member_kind.debug_name_text() + ":"@ + member_id
            + " does not live under root "@ + root_kind.debug_name_text() + ":"@ + root_id
            + " (own-tree check)"@,
        true,
    )
}

/// The refusal of a member that lives elsewhere.
pub fn not_under_root(
    root_kind: CancelKind,
    root_id: &str,
    member_kind: CancelKind,
    member_id: &str,
) -> (r: Rejection)
    ensures
        r@ == elsewhere(root_kind, root_id@, member_kind, member_id@),
{
    let mut detail = "member ".to_owned();
    detail.append(member_kind.debug_name());
    detail.append(":");
    detail.append(member_id);
    detail.append(" does not live under root ");
    detail.append(root_kind.debug_name());
    detail.append(":");
    detail.append(root_id);
    detail.append(" (own-tree check)");
    Rejection { kind: ErrorKind::InvalidRequest, detail, persist: true }
}

// --- Requests ------------------------------------------------------------------------------------

/// The first fault of a proposed scope from `n` on.
pub open spec fn freeze_fault_from(
    root_kind: CancelKind,
    root_id: Seq<char>,
    wanted: Seq<MemberInputView>,
    n: int,
) -> Option<ScopeErrorView>
    decreases wanted.len() - n,
{
    if n >= wanted.len() {
        None
    } else if named_before(wanted, n) {
        Some(ScopeErrorView::DuplicateMember { member_id: wanted[n].member_id })
    } else if !kind_fits(root_kind, root_id, wanted[n]) {
        Some(
            ScopeErrorView::NotUnderRoot {
                member_kind: wanted[n].member_kind,
                member_id: wanted[n].member_id,
            },
        )
    } else {
        freeze_fault_from(root_kind, root_id, wanted, n + 1)
    }
}

/// What freezing a scope gives.
pub open spec fn frozen(
    root_kind: CancelKind,
    root_id: Seq<char>,
    wanted: Seq<MemberInputView>,
) -> Result<CancelScopeView, ScopeErrorView> {
    if wanted.len() > MAX_SCOPE_MEMBERS {
        Err(ScopeErrorView::TooLarge { count: wanted.len() as usize })
    } else {
        match freeze_fault_from(root_kind, root_id, wanted, 0) {
            Some(e) => Err(e),
            None => Ok(
                CancelScopeView { root_kind, root_id, members: numbered(leaf_first(wanted)) },
            ),
        }
    }
}

proof fn fault_found(
    root_kind: CancelKind,
    root_id: Seq<char>,
    wanted: Seq<MemberInputView>,
    i: int,
    n: int,
)
    requires
        0 <= i <= n <= wanted.len(),
        forall|k: int| i <= k < n ==> #[trigger] member_fits(root_kind, root_id, wanted, k),
    ensures
        freeze_fault_from(root_kind, root_id, wanted, i) == freeze_fault_from(
            root_kind,
            root_id,
            wanted,
            n,
        ),
    decreases n - i,
{
    if i < n {
        assert(member_fits(root_kind, root_id, wanted, i));
        fault_found(root_kind, root_id, wanted, i + 1, n);
    }
}

fn freeze_scope(root_kind: CancelKind, root_id: &String, proposed: &Vec<MemberInput>) -> (r: Result<
    CancelScope,
    ScopeError,
>)
    ensures
        match r {
            Ok(scope) => frozen(root_kind, root_id@, proposed@.map_values(|m: MemberInput| m@))
                == Ok::<CancelScopeView, ScopeErrorView>(scope@),
            Err(e) => frozen(root_kind, root_id@, proposed@.map_values(|m: MemberInput| m@))
                == Err::<CancelScopeView, ScopeErrorView>(e@),
        },
{
    let ghost wanted = proposed@.map_values(|m: MemberInput| m@);
    let copy = crate::cancel::copy_member_inputs(proposed);
    let r = CancelScope::freeze(root_kind, root_id.clone(), copy);
    proof {
        match &r {
            Ok(_) => {
                fault_found(root_kind, root_id@, wanted, 0, wanted.len() as int);
            },
            Err(ScopeError::TooLarge { count }) => {},
            Err(ScopeError::DuplicateMember { member_id }) => {
                let n = choose|n: int|
                    {
                        &&& 0 <= n < wanted.len()
                        &&& #[trigger] named_before(wanted, n)
                        &&& wanted[n].member_id == member_id@
                        &&& forall|k: int|
                            0 <= k < n ==> #[trigger] member_fits(root_kind, root_id@, wanted, k)
                    };
                fault_found(root_kind, root_id@, wanted, 0, n);
            },
            Err(ScopeError::NotUnderRoot { member_kind, member_id }) => {
                let n = choose|n: int|
                    {
                        &&& 0 <= n < wanted.len()
                        &&& !#[trigger] named_before(wanted, n)
                        &&& !kind_fits(root_kind, root_id@, wanted[n])
                        &&& wanted[n].member_id == member_id@
                        &&& wanted[n].member_kind == *member_kind
                        &&& forall|k: int|
                            0 <= k < n ==> #[trigger] member_fits(root_kind, root_id@, wanted, k)
                    };
                fault_found(root_kind, root_id@, wanted, 0, n);
            },
        }
    }
    r
}

/// The first link of a member.
pub open spec fn link_for(links: Seq<MemberLinkView>, member_id: Seq<char>) -> Option<
    MemberLinkView,
>
    decreases links.len(),
{
    if links.len() == 0 {
        None
    } else {
        match link_for(links.drop_last(), member_id) {
            Some(l) => Some(l),
            None => if links.last().member_id == member_id {
                Some(links.last())
            } else {
                None
            },
        }
    }
}

proof fn link_for_grows(links: Seq<MemberLinkView>, member_id: Seq<char>, k: int)
    requires
        0 <= k <= links.len(),
        link_for(links.take(k), member_id) is Some,
    ensures
        link_for(links, member_id) == link_for(links.take(k), member_id),
    decreases links.len() - k,
{
    if k < links.len() {
        assert(links.take(k + 1).drop_last() =~= links.take(k));
        link_for_grows(links, member_id, k + 1);
    } else {
        assert(links.take(k) =~= links);
    }
}

fn find_link<'a>(links: &'a Vec<MemberLink>, member_id: &str) -> (r: Option<&'a MemberLink>)
    ensures
        match r {
            Some(l) => link_for(links@.map_values(|x: MemberLink| x@), member_id@) == Some(l@),
            None => link_for(links@.map_values(|x: MemberLink| x@), member_id@) is None,
        },
{
    let ghost all = links@.map_values(|x: MemberLink| x@);
    let mut i: usize = 0;
    proof {
        assert(all.take(0) =~= Seq::<MemberLinkView>::empty());
    }
    while i < links.len()
        invariant
            i <= links.len(),
            all == links@.map_values(|x: MemberLink| x@),
            link_for(all.take(i as int), member_id@) is None,
        decreases links.len() - i,
    {
        proof {
            assert(all.take(i + 1).drop_last() =~= all.take(i as int));
            assert(all.take(i + 1).last() == links@[i as int]@);
        }
        if same(&links[i].member_id, member_id) {
            proof {
                link_for_grows(all, member_id@, i + 1);
            }
            return Some(&links[i]);
        }
        i += 1;
    }
    proof {
        assert(all.take(all.len() as int) =~= all);
    }
    None
}

/// Whether a member of a frozen scope belongs to the tree of its root. The root itself does;
/// any other member does by the rows it resolves to.
pub open spec fn in_tree(
    root_kind: CancelKind,
    root_id: Seq<char>,
    root_attempt: Option<AttemptRootView>,
    links: Seq<MemberLinkView>,
    m: ScopeMemberView,
) -> bool {
    if m.member_kind == root_kind && m.member_id == root_id {
        true
    } else {
        match link_for(links, m.member_id) {
            None => false,
            Some(link) => match root_kind {
                CancelKind::Run => link.run_id == Some(root_id),
                CancelKind::ExecutionUnit => (m.member_kind == CancelKind::Attempt || m.member_kind
                    == CancelKind::EffectIntent) && link.parent_unit == Some(root_id),
                CancelKind::Attempt => m.member_kind == CancelKind::EffectIntent
                    && root_attempt is Some && link.parent_unit == Some(root_attempt->0.unit_id)
                    && link.attempt_epoch == Some(root_attempt->0.epoch),
                CancelKind::EffectIntent => false,
            },
        }
    }
}

fn belongs(
    root_kind: CancelKind,
    root_id: &str,
    cpre: &CancelPreRead,
    m: &ScopeMember,
) -> (r: bool)
    ensures
        r == in_tree(root_kind, root_id@, cpre@.root_attempt, cpre@.member_links, m@),
{
    if m.member_kind == root_kind && same(&m.member_id, root_id) {
        return true;
    }
    let link = match find_link(&cpre.member_links, &m.member_id) {
        Some(link) => link,
        None => {
            return false;
        },
    };
    match root_kind {
        CancelKind::Run => match &link.run_id {
            Some(run) => same(run, root_id),
            None => false,
        },
        CancelKind::ExecutionUnit => {
            if m.member_kind == CancelKind::Attempt || m.member_kind == CancelKind::EffectIntent {
                match &link.parent_unit {
                    Some(unit) => same(unit, root_id),
                    None => false,
                }
            } else {
                false
            }
        },
        CancelKind::Attempt => {
            if m.member_kind == CancelKind::EffectIntent {
                match &cpre.root_attempt {
                    Some(root) => {
                        let under = match &link.parent_unit {
                            Some(unit) => same(unit, &root.unit_id),
                            None => false,
                        };
                        let epoch = match link.attempt_epoch {
                            Some(epoch) => epoch == root.epoch,
                            None => false,
                        };
                        under && epoch
                    },
                    None => false,
                }
            } else {
                false
            }
        },
        CancelKind::EffectIntent => false,
    }
}

/// The first member, from `i` on, that does not belong to the tree of the root.
pub open spec fn stranger_from(
    root_kind: CancelKind,
    root_id: Seq<char>,
    root_attempt: Option<AttemptRootView>,
    links: Seq<MemberLinkView>,
    members: Seq<ScopeMemberView>,
    i: int,
) -> int
    decreases members.len() - i,
{
    if i >= members.len() {
        members.len() as int
    } else if !in_tree(root_kind, root_id, root_attempt, links, members[i]) {
        i
    } else {
        stranger_from(root_kind, root_id, root_attempt, links, members, i + 1)
    }
}

/// The request that a command commits.
pub open spec fn new_request(
    f: FunnelView,
    reason: CancelReason,
    policy: CancelPolicy,
    scope: CancelScopeView,
) -> CancelRequestView {
    CancelRequestView {
        cancel_request_id: fresh(f, 1),
        reason,
        policy,
        scope,
        status: CancelStatus::Requested,
        requested_at: f.clock_ms,
        requested_by_kind: "daemon"@,
    }
}

/// The accepted form of a request.
pub open spec fn accept_request(
    f: FunnelView,
    root_kind: CancelKind,
    root_id: Seq<char>,
    reason: CancelReason,
    policy: CancelPolicy,
    scope: CancelScopeView,
) -> AcceptedView {
    let id = uuid_text(fresh(f, 1));
    AcceptedView {
        plan: PlanView::CreateCancelRequest(
            CancelRequestPlanView { request_id: id, request: new_request(f, reason, policy, scope) },
        ),
        events: seq![
            EventDraftView {
                aggregate_kind: "cancel_request"@,
                aggregate_id: id,
                aggregate_version: 1,
                event_kind: "cancel_request.requested"@,
                payload: JsonView::Object(
                    Map::empty().insert("root_kind"@, JsonView::Str(root_kind.wire_text())).insert(
                        "root_id"@,
                        JsonView::Str(root_id),
                    ).insert("reason"@, JsonView::Str(reason.wire_text())).insert(
                        "policy"@,
                        JsonView::Str(policy.wire_text()),
                    ).insert("status"@, JsonView::Str("requested"@)).insert(
                        "members"@,
                        JsonView::Uint(scope.members.len() as u64),
                    ),
                ),
            },
        ],
        result: JsonView::Object(
            Map::empty().insert("cancel_request_id"@, JsonView::Str(id)).insert(
                "status"@,
                JsonView::Str("requested"@),
            ).insert("root_kind"@, JsonView::Str(root_kind.wire_text())).insert(
                "root_id"@,
                JsonView::Str(root_id),
            ),
        ),
        minted: 1,
    }
}

/// The decision on a request: the scope freezes, and every member belongs to the tree of the
/// root.
pub open spec fn decide_request(
    f: FunnelView,
    cmd: Command,
    pre: PreReadView,
    root_kind: CancelKind,
    root_id: Seq<char>,
    reason: CancelReason,
    policy: CancelPolicy,
    wanted: Seq<MemberInputView>,
) -> Result<AcceptedView, RejectionView> {
    match authority_fault(f.store.epoch, cmd) {
        Some(e) => Err(e),
        None => match frozen(root_kind, root_id, wanted) {
            Err(e) => Err(scope_refusal(e)),
            Ok(scope) => {
                let c = pre.cancel->0;
                let at = stranger_from(
                    root_kind,
                    root_id,
                    c.root_attempt,
                    c.member_links,
                    scope.members,
                    0,
                );
                if at < scope.members.len() {
                    Err(
                        elsewhere(
                            root_kind,
                            root_id,
                            scope.members[at].member_kind,
                            scope.members[at].member_id,
                        ),
                    )
                } else {
                    Ok(accept_request(f, root_kind, root_id, reason, policy, scope))
                }
            },
        },
    }
}

// --- Deliveries ----------------------------------------------------------------------------------

/// The park of an effect that a delivery finds dispatched and without an outcome.
pub open spec fn park_of(row: Option<EffectRowView>) -> Result<
    Option<EffectParkPlanView>,
    RejectionView,
> {
    match row {
        None => Ok(None),
        Some(row) => match readable(row.record) {
            Err(e) => Err(e),
            Ok(intent) => if (intent.state == EffectState::Dispatching || intent.state
                == EffectState::Dispatched || intent.state == EffectState::Observing)
                && intent.terminal is None {
                match next_of(row.version, "effect version"@) {
                    Err(e) => Err(e),
                    Ok(version) => Ok(
                        Some(
                            EffectParkPlanView {
                                operation_key: row.operation_key,
                                intent: EffectIntentView {
                                    state: EffectState::Reconciling,
                                    version,
                                    ..intent
                                },
                            },
                        ),
                    ),
                }
            } else {
                Ok(None)
            },
        },
    }
}

/// Whether a text reads as an identifier.
pub open spec fn is_uuid_text(s: Seq<char>) -> bool {
    let digits = without_hyphens(s);
    encode_utf8(s).len() == 36 && encode_utf8(digits).len() == 32 && is_radix_number(digits)
}

/// The accepted form of a delivery.
pub open spec fn accept_delivery(
    request: CancelRequestRowView,
    request_id: Seq<char>,
    member: ScopeMemberView,
    delivered_at: u64,
    observed_at: Option<u64>,
    outcome: DeliveryOutcome,
    status: CancelStatus,
    version: u64,
    park: Option<EffectParkPlanView>,
) -> AcceptedView {
    AcceptedView {
        plan: PlanView::RecordDelivery(
            CancelDeliveryPlanView {
                delivery_key: request_id + "|"@ + member.member_id,
                request_id,
                request_version_after: version,
                request_after: CancelRequestView { status, ..request.record },
                member_id: member.member_id,
                member_kind: member.member_kind,
                order_index: member.order_index,
                outcome,
                delivery: CancelDeliveryView {
                    cancel_request_id: radix_number(
                        unsigned_part(without_hyphens(request_id)),
                    ) as u128,
                    member_id: member.member_id,
                    member_kind: member.member_kind,
                    delivered_at,
                    observed_at,
                    outcome,
                },
                park_effect: park,
            },
        ),
        events: seq![
            EventDraftView {
                aggregate_kind: "cancel_request"@,
                aggregate_id: request_id,
                aggregate_version: version,
                event_kind: "cancel_request.delivered"@,
                payload: JsonView::Object(
                    Map::empty().insert("member_id"@, JsonView::Str(member.member_id)).insert(
                        "delivered_at"@,
                        JsonView::Uint(delivered_at),
                    ).insert(
                        "observed_at"@,
                        match observed_at {
                            Some(t) => JsonView::Uint(t),
                            None => JsonView::Null,
                        },
                    ).insert("outcome"@, JsonView::Str(outcome.wire_text())).insert(
                        "status"@,
                        JsonView::Str(status.wire_text()),
                    ),
                ),
            },
        ],
        result: JsonView::Object(
            Map::empty().insert("cancel_request_id"@, JsonView::Str(request_id)).insert(
                "member_id"@,
                JsonView::Str(member.member_id),
            ).insert("outcome"@, JsonView::Str(outcome.wire_text())).insert(
                "status"@,
                JsonView::Str(status.wire_text()),
            ),
        ),
        minted: 0,
    }
}

/// The decision on a delivery: the request exists, the member is in its frozen scope, has no
/// row yet, and is the next in leaf-first order.
pub open spec fn decide_delivery(
    f: FunnelView,
    cmd: Command,
    pre: PreReadView,
    request_id: Seq<char>,
    member_id: Seq<char>,
    delivered_at: u64,
    observed_at: Option<u64>,
    outcome: DeliveryOutcome,
) -> Result<AcceptedView, RejectionView> {
    let c = pre.cancel->0;
    match authority_fault(f.store.epoch, cmd) {
        Some(e) => Err(e),
        None => match c.request {
            None => Err(refuse(ErrorKind::NotFound, "cancel_request "@ + request_id, false)),
            Some(request) => {
                let scope = request.record.scope;
                let at = member_index(scope, member_id);
                let rows = c.deliveries.push(DeliverySummaryView { member_id, outcome });
                if at >= scope.members.len() {
                    Err(
                        refuse(
                            ErrorKind::InvalidRequest,
                            "member "@ + member_id + " is not in the frozen scope of "@
                                + request_id,
                            true,
                        ),
                    )
                } else if delivered(c.deliveries, member_id) {
                    Err(
                        refuse(
                            ErrorKind::InvalidRequest,
                            "delivery already recorded for member "@ + member_id
                                + " (§5.1 write-once)"@,
                            true,
                        ),
                    )
                } else if !next_is(scope.members, c.deliveries, member_id) {
                    Err(
                        refuse(
                            ErrorKind::InvalidRequest,
                            "member "@ + member_id + " is not the next undelivered member of "@
                                + request_id + " (§5.2 rule 3, leaf-first)"@,
                            false,
                        ),
                    )
                } else {
                    match park_of(c.effect_row) {
                        Err(e) => Err(e),
                        Ok(park) => match next_of(request.version, "cancel request version"@) {
                            Err(e) => Err(e),
                            Ok(version) => if !is_uuid_text(request_id) {
                                Err(
                                    refuse(
                                        ErrorKind::Internal,
                                        "cancel_request_id is not a minted uuid"@,
                                        false,
                                    ),
                                )
                            } else {
                                Ok(
                                    accept_delivery(
                                        request,
                                        request_id,
                                        scope.members[at],
                                        delivered_at,
                                        observed_at,
                                        outcome,
                                        status_after(scope.members, rows),
                                        version,
                                        park,
                                    ),
                                )
                            },
                        },
                    }
                }
            },
        },
    }
}

/// The decision on a cancellation method.
pub open spec fn decide_cancel(f: FunnelView, cmd: Command, pre: PreReadView) -> Result<
    AcceptedView,
    RejectionView,
> {
    match cmd.method {
        Method::CancelRequest { root_kind, root_id, reason, policy, proposed } => decide_request(
            f,
            cmd,
            pre,
            root_kind,
            root_id@,
            reason,
            policy,
            proposed@.map_values(|m: MemberInput| m@),
        ),
        Method::CancelRecordDelivery {
            cancel_request_id,
            member_id,
            delivered_at,
            observed_at,
            outcome,
        } => decide_delivery(
            f,
            cmd,
            pre,
            cancel_request_id@,
            member_id@,
            delivered_at,
            observed_at,
            outcome,
        ),
        _ => Err(refuse(ErrorKind::Internal, "not a cancellation method"@, false)),
    }
}

fn park_plan(row: &Option<EffectRow>) -> (r: Result<Option<EffectParkPlan>, Rejection>)
    ensures
        ({
            let wanted = park_of(
                match *row {
                    Some(x) => Some(x@),
                    None => None,
                },
            );
            match r {
                Ok(Some(p)) => wanted == Ok::<Option<EffectParkPlanView>, RejectionView>(Some(p@)),
                Ok(None) => wanted == Ok::<Option<EffectParkPlanView>, RejectionView>(None),
                Err(e) => wanted == Err::<Option<EffectParkPlanView>, RejectionView>(e@),
            }
        }),
{
    let row = match row {
        Some(row) => row,
        None => {
            return Ok(None);
        },
    };
    let mut intent = match &row.record {
        IntentRecord::Readable(intent) => intent.clone(),
        IntentRecord::Unreadable(error) => {
            let mut detail = "effect record unreadable: ".to_owned();
            detail.append(error);
            return Err(Rejection { kind: ErrorKind::Internal, detail, persist: false });
        },
    };
    let dispatched = matches!(
        intent.state,
        EffectState::Dispatching | EffectState::Dispatched | EffectState::Observing
    );
    if !dispatched || intent.terminal.is_some() {
        return Ok(None);
    }
    let version: u64 = match increment(row.version, "effect version") {
        Ok(v) => v,
        Err(e) => {
            return Err(e);
        },
    };
    intent.state = EffectState::Reconciling;
    intent.version = version;
    Ok(Some(EffectParkPlan { operation_key: row.operation_key.clone(), intent }))
}

impl Funnel {
    fn validate_cancel_commit(
        &self,
        cmd: &Command,
        pre: &PreRead,
        root_kind: CancelKind,
        root_id: &String,
        reason: CancelReason,
        policy: CancelPolicy,
        proposed: &Vec<MemberInput>,
    ) -> (r: Result<Accepted, Rejection>)
        requires
            self@.mint_seq <= u64::MAX - 2,
            pre@.cancel is Some,
        ensures
            verdict(r) == decide_request(
                self@,
                *cmd,
                pre@,
                root_kind,
                root_id@,
                reason,
                policy,
                proposed@.map_values(|m: MemberInput| m@),
            ),
            r is Ok ==> writable(r->Ok_0@),
    {
        proof {
            names_are_ordinary();
        }
        if let Err(e) = self.authority_gate(cmd) {
            return Err(e);
        }
        let cpre = match &pre.cancel {
            Some(c) => c,
            None => {
                return Err(refusal(ErrorKind::Internal, "", false));
            },
        };
        let scope = match freeze_scope(root_kind, root_id, proposed) {
            Ok(scope) => scope,
            Err(e) => {
                return Err(scope_rejection(e));
            },
        };
        let ghost members = scope@.members;
        let mut i: usize = 0;
        while i < scope.members.len()
            invariant
                i <= scope.members.len(),
                members == scope@.members,
                pre.cancel == Some(*cpre),
                authority_fault(self@.store.epoch, *cmd) is None,
                frozen(root_kind, root_id@, proposed@.map_values(|m: MemberInput| m@)) == Ok::<
                    CancelScopeView,
                    ScopeErrorView,
                >(scope@),
                stranger_from(
                    root_kind,
                    root_id@,
                    cpre@.root_attempt,
                    cpre@.member_links,
                    members,
                    0,
                ) == stranger_from(
                    root_kind,
                    root_id@,
                    cpre@.root_attempt,
                    cpre@.member_links,
                    members,
                    i as int,
                ),
            decreases scope.members.len() - i,
        {
            let m = &scope.members[i];
            proof {
                assert(members[i as int] == m@);
            }
            if !belongs(root_kind, root_id, cpre, m) {
                return Err(not_under_root(root_kind, root_id, m.member_kind, &m.member_id));
            }
            i += 1;
        }
        let id = self.id_after(1);
        let request_id = id.to_string();
        let count: u64 = scope.members.len() as u64;
        let mut members: Vec<(String, Json)> = Vec::new();
        put(&mut members, "root_kind", text_value(kind_wire(root_kind)));
        put(&mut members, "root_id", text_value(root_id));
        put(&mut members, "reason", text_value(reason_wire(reason)));
        put(&mut members, "policy", text_value(policy_wire(policy)));
        put(&mut members, "status", text_value("requested"));
        put(&mut members, "members", Json::Uint(count));
        let payload = object(members);
        let result = object4(
            "cancel_request_id",
            text_value(&request_id),
            "status",
            text_value("requested"),
            "root_kind",
            text_value(kind_wire(root_kind)),
            "root_id",
            text_value(root_id),
        );
        let request = CancelRequest {
            cancel_request_id: id,
            reason,
            policy,
            scope,
            status: CancelStatus::Requested,
            requested_at: self.clock_ms,
            requested_by_kind: "daemon".to_owned(),
        };
        Ok(
            Accepted {
                plan: Plan::CreateCancelRequest(
                    CancelRequestPlan { request_id: request_id.clone(), request },
                ),
                events: one_event(
                    EventDraft {
                        aggregate_kind: "cancel_request",
                        aggregate_id: request_id,
                        aggregate_version: 1,
                        event_kind: "cancel_request.requested",
                        payload,
                    },
                ),
                result,
                minted: 1,
            },
        )
    }

    /// The write-once delivery for one member, in the leaf-first order of the frozen scope. The
    /// status of the request advances by the rows alone.
    pub fn validate_record_delivery(
        &self,
        cmd: &Command,
        pre: &PreRead,
        cancel_request_id: &String,
        member_id: &String,
        delivered_at: u64,
        observed_at: Option<u64>,
        outcome: DeliveryOutcome,
    ) -> (r: Result<Accepted, Rejection>)
        requires
            pre@.cancel is Some,
        ensures
            verdict(r) == decide_delivery(
                self@,
                *cmd,
                pre@,
                cancel_request_id@,
                member_id@,
                delivered_at,
                observed_at,
                outcome,
            ),
            r is Ok ==> writable(r->Ok_0@),
    {
        proof {
            names_are_ordinary();
        }
        if let Err(e) = self.authority_gate(cmd) {
            return Err(e);
        }
        let cpre = match &pre.cancel {
            Some(c) => c,
            None => {
                return Err(refusal(ErrorKind::Internal, "", false));
            },
        };
        let request = match &cpre.request {
            Some(request) => request,
            None => {
                let mut detail = "cancel_request ".to_owned();
                detail.append(cancel_request_id);
                return Err(Rejection { kind: ErrorKind::NotFound, detail, persist: false });
            },
        };
        let member = match request.record.scope.member(member_id) {
            Some(member) => member,
            None => {
                let mut detail = "member ".to_owned();
                detail.append(member_id);
                detail.append(" is not in the frozen scope of ");
                detail.append(cancel_request_id);
                return Err(Rejection { kind: ErrorKind::InvalidRequest, detail, persist: true });
            },
        };
        proof {
            crate::cancel::index_from_rule(request@.record.scope.members, member_id@, 0);
        }
        if already_delivered(&cpre.deliveries, member_id) {
            let mut detail = "delivery already recorded for member ".to_owned();
            detail.append(member_id);
            detail.append(" (§5.1 write-once)");
            return Err(Rejection { kind: ErrorKind::InvalidRequest, detail, persist: true });
        }
        if !delivery_leaf_first(&request.record.scope, &cpre.deliveries, member_id) {
            let mut detail = "member ".to_owned();
            detail.append(member_id);
            detail.append(" is not the next undelivered member of ");
            detail.append(cancel_request_id);
            detail.append(" (§5.2 rule 3, leaf-first)");
            return Err(Rejection { kind: ErrorKind::InvalidRequest, detail, persist: false });
        }
        let mut rows = crate::funnel::cancel_rules::copy_delivery_summaries(&cpre.deliveries);
        let ghost before = summaries(rows@);
        rows.push(DeliverySummary { member_id: member_id.clone(), outcome });
        proof {
            assert(summaries(rows@) =~= before.push(
                DeliverySummaryView { member_id: member_id@, outcome },
            ));
        }
        let status = request_status_after(&request.record.scope, &rows);
        let park_effect = match park_plan(&cpre.effect_row) {
            Ok(p) => p,
            Err(e) => {
                return Err(e);
            },
        };
        let version: u64 = match increment(request.version, "cancel request version") {
            Ok(v) => v,
            Err(e) => {
                return Err(e);
            },
        };
        let id = match Uuid7::try_from(cancel_request_id.clone()) {
            Ok(id) => id,
            Err(_) => {
                return Err(
                    refusal(ErrorKind::Internal, "cancel_request_id is not a minted uuid", false),
                );
            },
        };
        let mut request_after = request.record.clone();
        request_after.status = status;
        let mut delivery_key = cancel_request_id.clone();
        delivery_key.append("|");
        delivery_key.append(member_id);
        let observed = match observed_at {
            Some(t) => Json::Uint(t),
            None => Json::Null,
        };
        let mut members: Vec<(String, Json)> = Vec::new();
        put(&mut members, "member_id", text_value(member_id));
        put(&mut members, "delivered_at", Json::Uint(delivered_at));
        put(&mut members, "observed_at", observed);
        put(&mut members, "outcome", text_value(outcome.wire()));
        put(&mut members, "status", text_value(status_wire(status)));
        let payload = object(members);
        let result = object4(
            "cancel_request_id",
            text_value(cancel_request_id),
            "member_id",
            text_value(member_id),
            "outcome",
            text_value(outcome.wire()),
            "status",
            text_value(status_wire(status)),
        );
        let plan = Plan::RecordDelivery(
            CancelDeliveryPlan {
                delivery_key,
                request_id: cancel_request_id.clone(),
                request_version_after: version,
                request_after,
                member_id: member_id.clone(),
                member_kind: member.member_kind,
                order_index: member.order_index,
                outcome,
                delivery: CancelDelivery {
                    cancel_request_id: id,
                    member_id: member_id.clone(),
                    member_kind: member.member_kind,
                    delivered_at,
                    observed_at,
                    outcome,
                },
                park_effect,
            },
        );
        Ok(
            Accepted {
                plan,
                events: one_event(
                    EventDraft {
                        aggregate_kind: "cancel_request",
                        aggregate_id: cancel_request_id.clone(),
                        aggregate_version: version,
                        event_kind: "cancel_request.delivered",
                        payload,
                    },
                ),
                result,
                minted: 0,
            },
        )
    }

    /// The decision on a cancellation method; any other method is refused.
    pub fn validate_cancel(&self, cmd: &Command, pre: &PreRead) -> (r: Result<Accepted, Rejection>)
        requires
            self@.mint_seq <= u64::MAX - 2,
            cmd.method is CancelRequest || cmd.method is CancelRecordDelivery ==> pre@.cancel
                is Some,
        ensures
            verdict(r) == decide_cancel(self@, *cmd, pre@),
            r is Ok ==> writable(r->Ok_0@),
    {
        match &cmd.method {
            Method::CancelRequest { root_kind, root_id, reason, policy, proposed } =>
                self.validate_cancel_commit(
                cmd,
                pre,
                *root_kind,
                root_id,
                *reason,
                *policy,
                proposed,
            ),
            Method::CancelRecordDelivery {
                cancel_request_id,
                member_id,
                delivered_at,
                observed_at,
                outcome,
            } => self.validate_record_delivery(
                cmd,
                pre,
                cancel_request_id,
                member_id,
                *delivered_at,
                *observed_at,
                *outcome,
            ),
            _ => Err(refusal(ErrorKind::Internal, "not a cancellation method", false)),
        }
    }
}

/// A cancellation decision mints at most one identifier and appends at most one event.
pub proof fn cancel_decisions_are_small(f: FunnelView, cmd: Command, pre: PreReadView)
    ensures
        is_small(decide_cancel(f, cmd, pre)),
{
}

} // verus!
