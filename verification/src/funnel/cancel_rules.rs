//! Cancellation rules: how a request advances, in what order its members are delivered, and
//! which admissions a committed request bars.
use crate::cancel::{
    kind_from_wire, kind_named, CancelKind, CancelScope, CancelStatus, DeliveryOutcome, ScopeMember,
    ScopeMemberView,
};
use crate::store::{CancelRequestRow, CancelRequestRowView};
use crate::table::Table;
use crate::text::same;
use vstd::prelude::*;
use vstd::string::*;

verus! {

/// Why one member forbids a transition.
#[derive(Debug)]
pub struct Blocker {
    pub member: String,
    pub reason: String,
}

/// The view of a `Blocker`.
pub struct BlockerView {
    pub member: Seq<char>,
    pub reason: Seq<char>,
}

impl View for Blocker {
    type V = BlockerView;

    open spec fn view(&self) -> BlockerView {
        BlockerView {
            member: self.member@,
            reason: self.reason@,
        }
    }
}

impl Clone for Blocker {
    fn clone(&self) -> (r: Self)
        ensures
            r@ == self@,
    {
        Blocker {
            member: self.member.clone(),
            reason: self.reason.clone(),
        }
    }
}

/// One recorded delivery, as settlement reads it: the outcome decides discharge.
#[derive(Debug)]
pub struct DeliverySummary {
    pub member_id: String,
    pub outcome: DeliveryOutcome,
}

/// The view of a `DeliverySummary`.
pub struct DeliverySummaryView {
    pub member_id: Seq<char>,
    pub outcome: DeliveryOutcome,
}

impl View for DeliverySummary {
    type V = DeliverySummaryView;

    open spec fn view(&self) -> DeliverySummaryView {
        DeliverySummaryView {
            member_id: self.member_id@,
            outcome: self.outcome,
        }
    }
}

impl Clone for DeliverySummary {
    fn clone(&self) -> (r: Self)
        ensures
            r@ == self@,
    {
        DeliverySummary {
            member_id: self.member_id.clone(),
            outcome: self.outcome,
        }
    }
}

/// A copy of a list.
pub fn copy_delivery_summaries(list: &Vec<DeliverySummary>) -> (r: Vec<DeliverySummary>)
    ensures
        r@.map_values(|x: DeliverySummary| x@) == list@.map_values(|x: DeliverySummary| x@),
{
    let mut r: Vec<DeliverySummary> = Vec::new();
    let mut i: usize = 0;
    while i < list.len()
        invariant
            i <= list.len(),
            r.len() == i,
            forall|k: int| 0 <= k < i ==> (#[trigger] r@[k])@ == list@[k]@,
        decreases list.len() - i,
    {
        r.push(list[i].clone());
        i += 1;
    }
    proof {
        assert(r@.map_values(|x: DeliverySummary| x@) =~= list@.map_values(|x: DeliverySummary| x@));
    }
    r
}

/// The views of a list of deliveries.
pub open spec fn summaries(rows: Seq<DeliverySummary>) -> Seq<DeliverySummaryView> {
    rows.map_values(|x: DeliverySummary| x@)
}

/// Whether a member has a delivery row.
pub open spec fn delivered(rows: Seq<DeliverySummaryView>, member_id: Seq<char>) -> bool {
    exists|k: int| 0 <= k < rows.len() && (#[trigger] rows[k]).member_id == member_id
}

/// Whether a member has a delivery row that discharges it.
pub open spec fn discharged(rows: Seq<DeliverySummaryView>, member_id: Seq<char>) -> bool {
    exists|k: int|
        0 <= k < rows.len() && (#[trigger] rows[k]).member_id == member_id
            && rows[k].outcome.discharges()
}

/// Whether the member at `i` is the next to receive a delivery: it has no row, and no member
/// without a row comes before it in the delivery order.
pub open spec fn is_next(
    members: Seq<ScopeMemberView>,
    rows: Seq<DeliverySummaryView>,
    i: int,
) -> bool {
    &&& 0 <= i < members.len()
    &&& !delivered(rows, members[i].member_id)
    &&& forall|k: int|
        0 <= k < members.len() && !delivered(rows, (#[trigger] members[k]).member_id) ==> {
            ||| members[i].order_index < members[k].order_index
            ||| members[i].order_index == members[k].order_index && i <= k
        }
}

fn has_row(deliveries: &Vec<DeliverySummary>, member_id: &str) -> (r: bool)
    ensures
        r == delivered(summaries(deliveries@), member_id@),
{
    let ghost rows = summaries(deliveries@);
    let mut i: usize = 0;
    while i < deliveries.len()
        invariant
            i <= deliveries.len(),
            rows == summaries(deliveries@),
            forall|k: int| 0 <= k < i ==> (#[trigger] rows[k]).member_id != member_id@,
        decreases deliveries.len() - i,
    {
        proof {
            assert(rows[i as int] == deliveries@[i as int]@);
        }
        if same(&deliveries[i].member_id, member_id) {
            return true;
        }
        i += 1;
    }
    false
}

fn has_discharge(deliveries: &Vec<DeliverySummary>, member_id: &str) -> (r: bool)
    ensures
        r == discharged(summaries(deliveries@), member_id@),
{
    let ghost rows = summaries(deliveries@);
    let mut i: usize = 0;
    while i < deliveries.len()
        invariant
            i <= deliveries.len(),
            rows == summaries(deliveries@),
            forall|k: int|
                0 <= k < i ==> !((#[trigger] rows[k]).member_id == member_id@
                    && rows[k].outcome.discharges()),
        decreases deliveries.len() - i,
    {
        proof {
            assert(rows[i as int] == deliveries@[i as int]@);
        }
        if same(&deliveries[i].member_id, member_id) && deliveries[i].outcome.is_discharged() {
            return true;
        }
        i += 1;
    }
    false
}

/// The scope member that must next receive a delivery row: the undelivered one with the
/// smallest order index. `None` once every member has a row.
pub fn next_undelivered<'s>(scope: &'s CancelScope, deliveries: &Vec<DeliverySummary>) -> (r:
    Option<&'s ScopeMember>)
    ensures
        match r {
            Some(m) => exists|i: int| #[trigger]
                is_next(scope@.members, summaries(deliveries@), i) && m@ == scope@.members[i],
            None => forall|k: int|
                0 <= k < scope@.members.len() ==> delivered(
                    summaries(deliveries@),
                    (#[trigger] scope@.members[k]).member_id,
                ),
        },
{
    let ghost rows = summaries(deliveries@);
    let ghost members = scope@.members;
    let mut best: Option<usize> = None;
    let mut i: usize = 0;
    while i < scope.members.len()
        invariant
            i <= scope.members.len(),
            members == scope@.members,
            members.len() == scope.members.len(),
            rows == summaries(deliveries@),
            match best {
                Some(b) => {
                    &&& b < i
                    &&& !delivered(rows, members[b as int].member_id)
                    &&& forall|k: int|
                        0 <= k < i && !delivered(rows, (#[trigger] members[k]).member_id) ==> {
                            ||| members[b as int].order_index < members[k].order_index
                            ||| members[b as int].order_index == members[k].order_index && b <= k
                        }
                },
                None => forall|k: int|
                    0 <= k < i ==> delivered(rows, (#[trigger] members[k]).member_id),
            },
        decreases scope.members.len() - i,
    {
        proof {
            assert(members[i as int] == scope.members@[i as int]@);
        }
        if !has_row(deliveries, &scope.members[i].member_id) {
            match best {
                None => {
                    best = Some(i);
                },
                Some(b) => {
                    proof {
                        assert(members[b as int] == scope.members@[b as int]@);
                    }
                    if scope.members[i].order_index < scope.members[b].order_index {
                        best = Some(i);
                    }
                },
            }
        }
        i += 1;
    }
    match best {
        Some(b) => {
            proof {
                assert(is_next(members, rows, b as int));
                assert(members[b as int] == scope.members@[b as int]@);
            }
            Some(&scope.members[b])
        },
        None => None,
    }
}

/// Whether a member is the next undelivered one of a scope.
pub open spec fn next_is(
    members: Seq<ScopeMemberView>,
    rows: Seq<DeliverySummaryView>,
    member_id: Seq<char>,
) -> bool {
    exists|i: int| #[trigger] is_next(members, rows, i) && members[i].member_id == member_id
}

/// The leaf-first gate: a member may receive its delivery now only when it is the next
/// undelivered one.
pub fn delivery_leaf_first(
    scope: &CancelScope,
    deliveries: &Vec<DeliverySummary>,
    member_id: &str,
) -> (r: bool)
    ensures
        r == next_is(scope@.members, summaries(deliveries@), member_id@),
{
    let ghost rows = summaries(deliveries@);
    let ghost members = scope@.members;
    match next_undelivered(scope, deliveries) {
        Some(next) => {
            let r = same(&next.member_id, member_id);
            proof {
                let i = choose|i: int| #[trigger] is_next(members, rows, i) && next@ == members[i];
                assert(is_next(members, rows, i));
                if !r {
                    assert forall|j: int| #[trigger] is_next(members, rows, j) implies
                        members[j].member_id != member_id@ by {
                        assert(i == j);
                    }
                }
            }
            r
        },
        None => {
            proof {
                assert forall|j: int| !#[trigger] is_next(members, rows, j) by {
                    if 0 <= j < members.len() {
                        assert(delivered(rows, members[j].member_id));
                    }
                }
            }
            false
        },
    }
}

/// How far a request has got, from the frozen scope and the rows so far: requested with no
/// rows; settled when every member is discharged; observed in part when every member has a
/// row; delivering otherwise.
pub open spec fn status_after(
    members: Seq<ScopeMemberView>,
    rows: Seq<DeliverySummaryView>,
) -> CancelStatus {
    if rows.len() == 0 {
        CancelStatus::Requested
    } else if forall|i: int|
        0 <= i < members.len() ==> discharged(rows, (#[trigger] members[i]).member_id) {
        CancelStatus::Settled
    } else if forall|i: int|
        0 <= i < members.len() ==> delivered(rows, (#[trigger] members[i]).member_id) {
        CancelStatus::ObservedPartial
    } else {
        CancelStatus::Delivering
    }
}

/// The status of a request. Neither its policy nor the attachment of its members plays a
/// role: the frozen scope is the record of what the tree looked like.
pub fn request_status_after(scope: &CancelScope, deliveries: &Vec<DeliverySummary>) -> (r:
    CancelStatus)
    ensures
        r == status_after(scope@.members, summaries(deliveries@)),
{
    let ghost rows = summaries(deliveries@);
    let ghost members = scope@.members;
    if deliveries.len() == 0 {
        return CancelStatus::Requested;
    }
    let mut every_discharged = true;
    let mut every_delivered = true;
    let mut i: usize = 0;
    while i < scope.members.len()
        invariant
            i <= scope.members.len(),
            members == scope@.members,
            members.len() == scope.members.len(),
            rows == summaries(deliveries@),
            every_discharged == (forall|k: int|
                0 <= k < i ==> discharged(rows, (#[trigger] members[k]).member_id)),
            every_delivered == (forall|k: int|
                0 <= k < i ==> delivered(rows, (#[trigger] members[k]).member_id)),
        decreases scope.members.len() - i,
    {
        proof {
            assert(members[i as int] == scope.members@[i as int]@);
        }
        if !has_discharge(deliveries, &scope.members[i].member_id) {
            every_discharged = false;
        }
        if !has_row(deliveries, &scope.members[i].member_id) {
            every_delivered = false;
        }
        i += 1;
    }
    if every_discharged {
        CancelStatus::Settled
    } else if every_delivered {
        CancelStatus::ObservedPartial
    } else {
        CancelStatus::Delivering
    }
}

/// Whether a member already has its delivery row: the pair is written once.
pub fn already_delivered(deliveries: &Vec<DeliverySummary>, member_id: &str) -> (r: bool)
    ensures
        r == delivered(summaries(deliveries@), member_id@),
{
    has_row(deliveries, member_id)
}

/// The views of a lineage.
pub open spec fn lineage_of(lineage: Seq<(CancelKind, String)>) -> Seq<(CancelKind, Seq<char>)> {
    Seq::new(lineage.len(), |i: int| (lineage[i].0, lineage[i].1@))
}

/// Whether a root stands in a lineage. The policy of a request plays no role.
pub fn root_in_lineage(
    root_kind: CancelKind,
    root_id: &str,
    lineage: &Vec<(CancelKind, String)>,
) -> (r: bool)
    ensures
        r == lineage_of(lineage@).contains((root_kind, root_id@)),
{
    let ghost line = lineage_of(lineage@);
    let mut i: usize = 0;
    while i < lineage.len()
        invariant
            i <= lineage.len(),
            line == lineage_of(lineage@),
            forall|k: int| 0 <= k < i ==> #[trigger] line[k] != (root_kind, root_id@),
        decreases lineage.len() - i,
    {
        if lineage[i].0 == root_kind && same(&lineage[i].1, root_id) {
            proof {
                assert(line[i as int] == (root_kind, root_id@));
            }
            return true;
        }
        i += 1;
    }
    false
}

/// The blocker that a committed request raises against a child.
pub open spec fn admission_blocker(row: CancelRequestRowView, child: CancelKind) -> BlockerView {
    BlockerView {
        member: row.root_kind + ":"@ + row.root_id,
        reason: "rule-4: committed cancellation of "@ + row.root_kind + ":"@ + row.root_id
            + " bars admitting "@ + child.debug_name_text() + " below it"@,
    }
}

/// Whether a committed request is rooted in a lineage.
pub open spec fn bars(row: CancelRequestRowView, lineage: Seq<(CancelKind, Seq<char>)>) -> bool {
    match kind_named(row.root_kind) {
        Some(kind) => lineage.contains((kind, row.root_id)),
        None => false,
    }
}

/// The blockers of an admission: one for each committed request whose root stands in the
/// child's lineage.
pub open spec fn barring(
    rows: Seq<(Seq<char>, CancelRequestRowView)>,
    child: CancelKind,
    lineage: Seq<(CancelKind, Seq<char>)>,
) -> Seq<BlockerView>
    decreases rows.len(),
{
    if rows.len() == 0 {
        Seq::empty()
    } else {
        let front = barring(rows.drop_last(), child, lineage);
        if bars(rows.last().1, lineage) {
            front.push(admission_blocker(rows.last().1, child))
        } else {
            front
        }
    }
}

/// The views of a list of blockers.
pub open spec fn blocker_views(list: Seq<Blocker>) -> Seq<BlockerView> {
    list.map_values(|b: Blocker| b@)
}

/// The admission gate: every committed request whose root lies in the would-be child's
/// lineage forbids admitting it, under every policy.
pub fn admission_blockers(
    requests: &Table<CancelRequestRow>,
    child_kind: CancelKind,
    child_lineage: &Vec<(CancelKind, String)>,
) -> (r: Vec<Blocker>)
    ensures
        blocker_views(r@) == barring(requests@, child_kind, lineage_of(child_lineage@)),
{
    let ghost line = lineage_of(child_lineage@);
    let mut blockers: Vec<Blocker> = Vec::new();
    let mut i: usize = 0;
    proof {
        assert(requests@.take(0) =~= Seq::<(Seq<char>, CancelRequestRowView)>::empty());
        assert(blocker_views(blockers@) =~= Seq::<BlockerView>::empty());
    }
    while i < requests.len()
        invariant
            i <= requests@.len(),
            line == lineage_of(child_lineage@),
            blocker_views(blockers@) == barring(requests@.take(i as int), child_kind, line),
        decreases requests@.len() - i,
    {
        let row = requests.row_at(i);
        proof {
            assert(requests@.take(i + 1).drop_last() =~= requests@.take(i as int));
            assert(requests@.take(i + 1).last().1 == row@);
        }
        if let Some(kind) = kind_from_wire(&row.root_kind) {
            if root_in_lineage(kind, &row.root_id, child_lineage) {
                let mut member = row.root_kind.clone();
                member.append(":");
                member.append(&row.root_id);
                let mut reason = "rule-4: committed cancellation of ".to_owned();
                reason.append(&row.root_kind);
                reason.append(":");
                reason.append(&row.root_id);
                reason.append(" bars admitting ");
                reason.append(child_kind.debug_name());
                reason.append(" below it");
                let ghost before = blocker_views(blockers@);
                blockers.push(Blocker { member, reason });
                proof {
                    assert(blocker_views(blockers@) =~= before.push(
                        admission_blocker(row@, child_kind),
                    ));
                }
            }
        }
        i += 1;
    }
    proof {
        assert(requests@.take(requests@.len() as int) =~= requests@);
    }
    blockers
}

/// A committed request that is rooted in a lineage bars every admission below it.
pub proof fn committed_root_bars_admission(
    rows: Seq<(Seq<char>, CancelRequestRowView)>,
    child: CancelKind,
    lineage: Seq<(CancelKind, Seq<char>)>,
    i: int,
)
    requires
        0 <= i < rows.len(),
        bars(rows[i].1, lineage),
    ensures
        barring(rows, child, lineage).len() > 0,
    decreases rows.len(),
{
    if i < rows.len() - 1 {
        assert(rows.drop_last()[i] == rows[i]);
        committed_root_bars_admission(rows.drop_last(), child, lineage, i);
    }
}

/// A request is settled exactly when there is a row and every member is discharged; an
/// unresponsive member alone never settles it.
pub proof fn settled_means_discharged(
    members: Seq<ScopeMemberView>,
    rows: Seq<DeliverySummaryView>,
)
    ensures
        status_after(members, rows) == CancelStatus::Settled <==> rows.len() > 0 && forall|i: int|
            0 <= i < members.len() ==> discharged(rows, (#[trigger] members[i]).member_id),
{
}

/// The order of the statuses.
pub open spec fn progress(status: CancelStatus) -> int {
    match status {
        CancelStatus::Requested => 0,
        CancelStatus::Delivering => 1,
        CancelStatus::ObservedPartial => 2,
        CancelStatus::Settled => 3,
    }
}

/// The status of a request never goes back: a further row leaves it where it is or advances
/// it.
pub proof fn status_never_regresses(
    members: Seq<ScopeMemberView>,
    rows: Seq<DeliverySummaryView>,
    row: DeliverySummaryView,
)
    ensures
        progress(status_after(members, rows)) <= progress(status_after(members, rows.push(row))),
{
    let more = rows.push(row);
    assert forall|id: Seq<char>| delivered(rows, id) implies delivered(more, id) by {
        let k = choose|k: int| 0 <= k < rows.len() && (#[trigger] rows[k]).member_id == id;
        assert(more[k] == rows[k]);
    }
    assert forall|id: Seq<char>| discharged(rows, id) implies discharged(more, id) by {
        let k = choose|k: int|
            0 <= k < rows.len() && (#[trigger] rows[k]).member_id == id
                && rows[k].outcome.discharges();
        assert(more[k] == rows[k]);
    }
}

/// Exactly one member can be next, and once it is delivered it is not next again.
pub proof fn delivered_member_is_not_next(
    members: Seq<ScopeMemberView>,
    rows: Seq<DeliverySummaryView>,
    member_id: Seq<char>,
)
    requires
        delivered(rows, member_id),
    ensures
        !next_is(members, rows, member_id),
{
}

} // verus!
