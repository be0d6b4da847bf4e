//! Cancellation records: a request freezes its scope before any signal, and each member of
//! the frozen scope gets one delivery row.
use crate::ids::Uuid7;
use crate::text::same;
use vstd::prelude::*;
use vstd::string::*;

verus! {

/// The most members a frozen scope can hold.
pub const MAX_SCOPE_MEMBERS: usize = 1024;

/// What a cancellation is rooted at, and what it is delivered to.
#[derive(Clone, Copy, Debug, PartialEq, Eq, Structural)]
pub enum CancelKind {
    Run,
    ExecutionUnit,
    Attempt,
    EffectIntent,
}

impl CancelKind {
    /// The name on the wire.
    pub open spec fn wire_text(self) -> Seq<char> {
        match self {
            CancelKind::Run => "run"@,
            CancelKind::ExecutionUnit => "execution_unit"@,
            CancelKind::Attempt => "attempt"@,
            CancelKind::EffectIntent => "effect_intent"@,
        }
    }

    /// The name on the wire.
    pub fn wire(self) -> (r: &'static str)
        ensures
            r@ == self.wire_text(),
    {
        match self {
            CancelKind::Run => "run",
            CancelKind::ExecutionUnit => "execution_unit",
            CancelKind::Attempt => "attempt",
            CancelKind::EffectIntent => "effect_intent",
        }
    }

    /// The name of the variant.
    pub open spec fn debug_name_text(self) -> Seq<char> {
        match self {
            CancelKind::Run => "Run"@,
            CancelKind::ExecutionUnit => "ExecutionUnit"@,
            CancelKind::Attempt => "Attempt"@,
            CancelKind::EffectIntent => "EffectIntent"@,
        }
    }

    /// The name of the variant.
    pub fn debug_name(self) -> (r: &'static str)
        ensures
            r@ == self.debug_name_text(),
    {
        match self {
            CancelKind::Run => "Run",
            CancelKind::ExecutionUnit => "ExecutionUnit",
            CancelKind::Attempt => "Attempt",
            CancelKind::EffectIntent => "EffectIntent",
        }
    }
}

/// The value that a wire name stands for, if it is one.
pub open spec fn kind_named(wire: Seq<char>) -> Option<CancelKind> {
    if wire == "run"@ {
        Some(CancelKind::Run)
    } else if wire == "execution_unit"@ {
        Some(CancelKind::ExecutionUnit)
    } else if wire == "attempt"@ {
        Some(CancelKind::Attempt)
    } else if wire == "effect_intent"@ {
        Some(CancelKind::EffectIntent)
    } else {
        None
    }
}

/// The value that a wire name stands for, if it is one.
pub fn kind_from_wire(wire: &str) -> (r: Option<CancelKind>)
    ensures
        r == kind_named(wire@),
{
    if same(wire, "run") {
        Some(CancelKind::Run)
    } else if same(wire, "execution_unit") {
        Some(CancelKind::ExecutionUnit)
    } else if same(wire, "attempt") {
        Some(CancelKind::Attempt)
    } else if same(wire, "effect_intent") {
        Some(CancelKind::EffectIntent)
    } else {
        None
    }
}

/// A kind is read back from its wire name.
pub proof fn kind_reads_back(v: CancelKind)
    ensures
        kind_named(v.wire_text()) == Some(v),
{
    reveal_strlit("run");
    assert("run"@.len() == 3);
    reveal_strlit("execution_unit");
    assert("execution_unit"@.len() == 14);
    reveal_strlit("attempt");
    assert("attempt"@.len() == 7);
    reveal_strlit("effect_intent");
    assert("effect_intent"@.len() == 13);
}

/// How far a cancellation reaches.
#[derive(Clone, Copy, Debug, PartialEq, Eq, Structural)]
pub enum CancelPolicy {
    AttachedCascade,
    RootOnly,
}

impl CancelPolicy {
    /// The name on the wire.
    pub open spec fn wire_text(self) -> Seq<char> {
        match self {
            CancelPolicy::AttachedCascade => "attached_cascade"@,
            CancelPolicy::RootOnly => "root_only"@,
        }
    }

    /// The name on the wire.
    pub fn wire(self) -> (r: &'static str)
        ensures
            r@ == self.wire_text(),
    {
        match self {
            CancelPolicy::AttachedCascade => "attached_cascade",
            CancelPolicy::RootOnly => "root_only",
        }
    }
}

/// Why a cancellation was requested.
#[derive(Clone, Copy, Debug, PartialEq, Eq, Structural)]
pub enum CancelReason {
    OwnerRequest,
    BudgetExhausted,
    PolicyViolation,
    SupersededByEpoch,
    DependencyFailed,
    ShutdownDrain,
}

impl CancelReason {
    /// The name on the wire.
    pub open spec fn wire_text(self) -> Seq<char> {
        match self {
            CancelReason::OwnerRequest => "owner_request"@,
            CancelReason::BudgetExhausted => "budget_exhausted"@,
            CancelReason::PolicyViolation => "policy_violation"@,
            CancelReason::SupersededByEpoch => "superseded_by_epoch"@,
            CancelReason::DependencyFailed => "dependency_failed"@,
            CancelReason::ShutdownDrain => "shutdown_drain"@,
        }
    }

    /// The name on the wire.
    pub fn wire(self) -> (r: &'static str)
        ensures
            r@ == self.wire_text(),
    {
        match self {
            CancelReason::OwnerRequest => "owner_request",
            CancelReason::BudgetExhausted => "budget_exhausted",
            CancelReason::PolicyViolation => "policy_violation",
            CancelReason::SupersededByEpoch => "superseded_by_epoch",
            CancelReason::DependencyFailed => "dependency_failed",
            CancelReason::ShutdownDrain => "shutdown_drain",
        }
    }
}

/// How far a request has got.
#[derive(Clone, Copy, Debug, PartialEq, Eq, Structural)]
pub enum CancelStatus {
    Requested,
    Delivering,
    ObservedPartial,
    Settled,
}

impl CancelStatus {
    /// The name on the wire.
    pub open spec fn wire_text(self) -> Seq<char> {
        match self {
            CancelStatus::Requested => "requested"@,
            CancelStatus::Delivering => "delivering"@,
            CancelStatus::ObservedPartial => "observed_partial"@,
            CancelStatus::Settled => "settled"@,
        }
    }

    /// The name on the wire.
    pub fn wire(self) -> (r: &'static str)
        ensures
            r@ == self.wire_text(),
    {
        match self {
            CancelStatus::Requested => "requested",
            CancelStatus::Delivering => "delivering",
            CancelStatus::ObservedPartial => "observed_partial",
            CancelStatus::Settled => "settled",
        }
    }
}

/// What was observed of a member after the signal.
#[derive(Clone, Copy, Debug, PartialEq, Eq, Structural)]
pub enum DeliveryOutcome {
    ObservedStopped,
    /// Recorded, but not discharged.
    Unresponsive,
    AlreadyTerminal,
    DetachedDeclined,
}

impl DeliveryOutcome {
    /// The name on the wire.
    pub open spec fn wire_text(self) -> Seq<char> {
        match self {
            DeliveryOutcome::ObservedStopped => "observed_stopped"@,
            DeliveryOutcome::Unresponsive => "unresponsive"@,
            DeliveryOutcome::AlreadyTerminal => "already_terminal"@,
            DeliveryOutcome::DetachedDeclined => "detached_declined"@,
        }
    }

    /// The name on the wire.
    pub fn wire(self) -> (r: &'static str)
        ensures
            r@ == self.wire_text(),
    {
        match self {
            DeliveryOutcome::ObservedStopped => "observed_stopped",
            DeliveryOutcome::Unresponsive => "unresponsive",
            DeliveryOutcome::AlreadyTerminal => "already_terminal",
            DeliveryOutcome::DetachedDeclined => "detached_declined",
        }
    }
}

/// The value that a wire name stands for, if it is one.
pub open spec fn outcome_named(wire: Seq<char>) -> Option<DeliveryOutcome> {
    if wire == "observed_stopped"@ {
        Some(DeliveryOutcome::ObservedStopped)
    } else if wire == "unresponsive"@ {
        Some(DeliveryOutcome::Unresponsive)
    } else if wire == "already_terminal"@ {
        Some(DeliveryOutcome::AlreadyTerminal)
    } else if wire == "detached_declined"@ {
        Some(DeliveryOutcome::DetachedDeclined)
    } else {
        None
    }
}

/// The value that a wire name stands for, if it is one.
pub fn outcome_from_wire(wire: &str) -> (r: Option<DeliveryOutcome>)
    ensures
        r == outcome_named(wire@),
{
    if same(wire, "observed_stopped") {
        Some(DeliveryOutcome::ObservedStopped)
    } else if same(wire, "unresponsive") {
        Some(DeliveryOutcome::Unresponsive)
    } else if same(wire, "already_terminal") {
        Some(DeliveryOutcome::AlreadyTerminal)
    } else if same(wire, "detached_declined") {
        Some(DeliveryOutcome::DetachedDeclined)
    } else {
        None
    }
}

/// An outcome is read back from its wire name.
pub proof fn outcome_reads_back(v: DeliveryOutcome)
    ensures
        outcome_named(v.wire_text()) == Some(v),
{
    reveal_strlit("observed_stopped");
    assert("observed_stopped"@.len() == 16);
    reveal_strlit("unresponsive");
    assert("unresponsive"@.len() == 12);
    reveal_strlit("already_terminal");
    assert("already_terminal"@.len() == 16);
    reveal_strlit("detached_declined");
    assert("detached_declined"@.len() == 17);
    assert("already_terminal"@[0] != "observed_stopped"@[0]);
}

impl DeliveryOutcome {
    /// Whether the outcome discharges the member. An unresponsive member does not.
    pub open spec fn discharges(self) -> bool {
        self != DeliveryOutcome::Unresponsive
    }

    /// Whether the outcome discharges the member.
    pub fn is_discharged(self) -> (r: bool)
        ensures
            r == self.discharges(),
    {
        self != DeliveryOutcome::Unresponsive
    }
}

/// Whether a member follows its root down.
#[derive(Clone, Copy, Debug, PartialEq, Eq, Structural)]
pub enum Attachment {
    Attached,
    Detached,
}

/// A member proposed for a scope.
#[derive(Debug)]
pub struct MemberInput {
    pub member_kind: CancelKind,
    pub member_id: String,
    pub attachment: Attachment,
}

/// The view of a `MemberInput`.
pub struct MemberInputView {
    pub member_kind: CancelKind,
    pub member_id: Seq<char>,
    pub attachment: Attachment,
}

impl View for MemberInput {
    type V = MemberInputView;

    open spec fn view(&self) -> MemberInputView {
        MemberInputView {
            member_kind: self.member_kind,
            member_id: self.member_id@,
            attachment: self.attachment,
        }
    }
}

impl Clone for MemberInput {
    fn clone(&self) -> (r: Self)
        ensures
            r@ == self@,
    {
        MemberInput {
            member_kind: self.member_kind,
            member_id: self.member_id.clone(),
            attachment: self.attachment,
        }
    }
}

/// A copy of a list.
pub fn copy_member_inputs(list: &Vec<MemberInput>) -> (r: Vec<MemberInput>)
    ensures
        r@.map_values(|x: MemberInput| x@) == list@.map_values(|x: MemberInput| x@),
{
    let mut r: Vec<MemberInput> = Vec::new();
    let mut i: usize = 0;
    while i < list.len()
        invariant
            i <= list.len(),
            r.len() == i,
            forall|k: int| 0 <= k < i ==> (#[trigger] r@[k])@ == list@[k]@,
        decreases list.len() - i,
    {
        r.push(list[i].clone());
        i += 1;
    }
    proof {
        assert(r@.map_values(|x: MemberInput| x@) =~= list@.map_values(|x: MemberInput| x@));
    }
    r
}

/// A member of a frozen scope.
#[derive(Debug)]
pub struct ScopeMember {
    pub member_kind: CancelKind,
    pub member_id: String,
    pub attachment: Attachment,
    /// Its place in the delivery order: leaves first.
    pub order_index: u32,
}

/// The view of a `ScopeMember`.
pub struct ScopeMemberView {
    pub member_kind: CancelKind,
    pub member_id: Seq<char>,
    pub attachment: Attachment,
    pub order_index: u32,
}

impl View for ScopeMember {
    type V = ScopeMemberView;

    open spec fn view(&self) -> ScopeMemberView {
        ScopeMemberView {
            member_kind: self.member_kind,
            member_id: self.member_id@,
            attachment: self.attachment,
            order_index: self.order_index,
        }
    }
}

impl Clone for ScopeMember {
    fn clone(&self) -> (r: Self)
        ensures
            r@ == self@,
    {
        ScopeMember {
            member_kind: self.member_kind,
            member_id: self.member_id.clone(),
            attachment: self.attachment,
            order_index: self.order_index,
        }
    }
}

/// A copy of a list.
pub fn copy_scope_members(list: &Vec<ScopeMember>) -> (r: Vec<ScopeMember>)
    ensures
        r@.map_values(|x: ScopeMember| x@) == list@.map_values(|x: ScopeMember| x@),
{
    let mut r: Vec<ScopeMember> = Vec::new();
    let mut i: usize = 0;
    while i < list.len()
        invariant
            i <= list.len(),
            r.len() == i,
            forall|k: int| 0 <= k < i ==> (#[trigger] r@[k])@ == list@[k]@,
        decreases list.len() - i,
    {
        r.push(list[i].clone());
        i += 1;
    }
    proof {
        assert(r@.map_values(|x: ScopeMember| x@) =~= list@.map_values(|x: ScopeMember| x@));
    }
    r
}

/// The members a request is delivered to, as they stood when it was committed.
#[derive(Debug)]
pub struct CancelScope {
    pub root_kind: CancelKind,
    pub root_id: String,
    pub members: Vec<ScopeMember>,
}

/// The view of a `CancelScope`.
pub struct CancelScopeView {
    pub root_kind: CancelKind,
    pub root_id: Seq<char>,
    pub members: Seq<ScopeMemberView>,
}

impl View for CancelScope {
    type V = CancelScopeView;

    open spec fn view(&self) -> CancelScopeView {
        CancelScopeView {
            root_kind: self.root_kind,
            root_id: self.root_id@,
            members: self.members@.map_values(|x: ScopeMember| x@),
        }
    }
}

impl Clone for CancelScope {
    fn clone(&self) -> (r: Self)
        ensures
            r@ == self@,
    {
        CancelScope {
            root_kind: self.root_kind,
            root_id: self.root_id.clone(),
            members: copy_scope_members(&self.members),
        }
    }
}

/// Why a scope cannot be frozen.
#[derive(Debug)]
pub enum ScopeError {
    TooLarge { count: usize },
    DuplicateMember { member_id: String },
    NotUnderRoot { member_kind: CancelKind, member_id: String },
}

/// The view of a `ScopeError`.
pub enum ScopeErrorView {
    TooLarge { count: usize },
    DuplicateMember { member_id: Seq<char> },
    NotUnderRoot { member_kind: CancelKind, member_id: Seq<char> },
}

impl View for ScopeError {
    type V = ScopeErrorView;

    open spec fn view(&self) -> ScopeErrorView {
        match self {
            ScopeError::TooLarge { count } => ScopeErrorView::TooLarge { count: *count },
            ScopeError::DuplicateMember { member_id } => ScopeErrorView::DuplicateMember {
                member_id: member_id@,
            },
            ScopeError::NotUnderRoot { member_kind, member_id } => ScopeErrorView::NotUnderRoot {
                member_kind: *member_kind,
                member_id: member_id@,
            },
        }
    }
}

/// How far above the leaves a kind stands.
pub open spec fn rank(kind: CancelKind) -> int {
    match kind {
        CancelKind::EffectIntent => 0,
        CancelKind::Attempt => 1,
        CancelKind::ExecutionUnit => 2,
        CancelKind::Run => 3,
    }
}

fn rank_of(kind: CancelKind) -> (r: u8)
    ensures
        r == rank(kind),
{
    match kind {
        CancelKind::EffectIntent => 0,
        CancelKind::Attempt => 1,
        CancelKind::ExecutionUnit => 2,
        CancelKind::Run => 3,
    }
}

/// Whether a member can stand under a root by its kind: it is the root itself, or its kind is
/// below the root's.
pub open spec fn kind_fits(root_kind: CancelKind, root_id: Seq<char>, m: MemberInputView) -> bool {
    ||| rank(m.member_kind) < rank(root_kind)
    ||| m.member_kind == root_kind && m.member_id == root_id
}

/// Whether a member id occurs among the first `n` proposed members.
pub open spec fn named_before(proposed: Seq<MemberInputView>, n: int) -> bool {
    exists|k: int| 0 <= k < n && (#[trigger] proposed[k]).member_id == proposed[n].member_id
}

/// Whether the member at `n` can be frozen after those before it.
pub open spec fn member_fits(
    root_kind: CancelKind,
    root_id: Seq<char>,
    proposed: Seq<MemberInputView>,
    n: int,
) -> bool {
    !named_before(proposed, n) && kind_fits(root_kind, root_id, proposed[n])
}

/// The members of one kind, in the order proposed.
pub open spec fn of_kind(proposed: Seq<MemberInputView>, kind: CancelKind) -> Seq<MemberInputView>
    decreases proposed.len(),
{
    if proposed.len() == 0 {
        Seq::empty()
    } else {
        let front = of_kind(proposed.drop_last(), kind);
        if proposed.last().member_kind == kind {
            front.push(proposed.last())
        } else {
            front
        }
    }
}

/// The delivery order: effect intents, then attempts, then units, then runs; within a kind
/// as proposed.
pub open spec fn leaf_first(proposed: Seq<MemberInputView>) -> Seq<MemberInputView> {
    of_kind(proposed, CancelKind::EffectIntent) + of_kind(proposed, CancelKind::Attempt)
        + of_kind(proposed, CancelKind::ExecutionUnit) + of_kind(proposed, CancelKind::Run)
}

/// A list of members numbered in order.
pub open spec fn numbered(list: Seq<MemberInputView>) -> Seq<ScopeMemberView> {
    Seq::new(
        list.len(),
        |i: int|
            ScopeMemberView {
                member_kind: list[i].member_kind,
                member_id: list[i].member_id,
                attachment: list[i].attachment,
                order_index: i as u32,
            },
    )
}

impl CancelScope {
    /// Freezes a scope: at most `MAX_SCOPE_MEMBERS` members, each named once and of a kind
    /// below the root (or the root itself), in leaf-first order. Of several faults the first
    /// in the proposed order is reported.
    pub fn freeze(
        root_kind: CancelKind,
        root_id: String,
        proposed: Vec<MemberInput>,
    ) -> (r: Result<CancelScope, ScopeError>)
        ensures
            ({
                let wanted = proposed@.map_values(|m: MemberInput| m@);
                match r {
                    Ok(scope) => {
                        &&& wanted.len() <= MAX_SCOPE_MEMBERS
                        &&& forall|n: int|
                            0 <= n < wanted.len() ==> #[trigger] member_fits(
                                root_kind,
                                root_id@,
                                wanted,
                                n,
                            )
                        &&& scope@ == CancelScopeView {
                            root_kind,
                            root_id: root_id@,
                            members: numbered(leaf_first(wanted)),
                        }
                    },
                    Err(ScopeError::TooLarge { count }) => count == wanted.len() && wanted.len()
                        > MAX_SCOPE_MEMBERS,
                    Err(ScopeError::DuplicateMember { member_id }) => {
                        &&& wanted.len() <= MAX_SCOPE_MEMBERS
                        &&& exists|n: int|
                            {
                                &&& 0 <= n < wanted.len()
                                &&& #[trigger] named_before(wanted, n)
                                &&& wanted[n].member_id == member_id@
                                &&& forall|k: int|
                                    0 <= k < n ==> #[trigger] member_fits(
                                        root_kind,
                                        root_id@,
                                        wanted,
                                        k,
                                    )
                            }
                    },
                    Err(ScopeError::NotUnderRoot { member_kind, member_id }) => {
                        &&& wanted.len() <= MAX_SCOPE_MEMBERS
                        &&& exists|n: int|
                            {
                                &&& 0 <= n < wanted.len()
                                &&& !#[trigger] named_before(wanted, n)
                                &&& !kind_fits(root_kind, root_id@, wanted[n])
                                &&& wanted[n].member_id == member_id@
                                &&& wanted[n].member_kind == member_kind
                                &&& forall|k: int|
                                    0 <= k < n ==> #[trigger] member_fits(
                                        root_kind,
                                        root_id@,
                                        wanted,
                                        k,
                                    )
                            }
                    },
                }
            }),
    {
        let ghost wanted = proposed@.map_values(|m: MemberInput| m@);
        if proposed.len() > MAX_SCOPE_MEMBERS {
            return Err(ScopeError::TooLarge { count: proposed.len() });
        }
        let mut n: usize = 0;
        while n < proposed.len()
            invariant
                n <= proposed.len(),
                wanted == proposed@.map_values(|m: MemberInput| m@),
                wanted.len() <= MAX_SCOPE_MEMBERS,
                forall|k: int|
                    0 <= k < n ==> #[trigger] member_fits(root_kind, root_id@, wanted, k),
            decreases proposed.len() - n,
        {
            let mut k: usize = 0;
            while k < n
                invariant
                    k <= n < proposed.len(),
                    wanted == proposed@.map_values(|m: MemberInput| m@),
                    wanted.len() <= MAX_SCOPE_MEMBERS,
                    forall|j: int| 0 <= j < k ==> (#[trigger] wanted[j]).member_id != wanted[n as int].member_id,
                    forall|j: int|
                        0 <= j < n ==> #[trigger] member_fits(root_kind, root_id@, wanted, j),
                decreases n - k,
            {
                if same(&proposed[k].member_id, &proposed[n].member_id) {
                    proof {
                        assert(wanted[k as int].member_id == wanted[n as int].member_id);
                        assert(named_before(wanted, n as int));
                    }
                    return Err(
                        ScopeError::DuplicateMember { member_id: proposed[n].member_id.clone() },
                    );
                }
                k += 1;
            }
            proof {
                assert(!named_before(wanted, n as int));
                assert(wanted[n as int] == proposed@[n as int]@);
            }
            let below = rank_of(proposed[n].member_kind) < rank_of(root_kind);
            let is_root = proposed[n].member_kind == root_kind && same(
                &proposed[n].member_id,
                &root_id,
            );
            if !below && !is_root {
                return Err(
                    ScopeError::NotUnderRoot {
                        member_kind: proposed[n].member_kind,
                        member_id: proposed[n].member_id.clone(),
                    },
                );
            }
            n += 1;
        }
        let mut members: Vec<ScopeMember> = Vec::new();
        let ghost a = of_kind(wanted, CancelKind::EffectIntent);
        let ghost b = of_kind(wanted, CancelKind::Attempt);
        let ghost c = of_kind(wanted, CancelKind::ExecutionUnit);
        let ghost d = of_kind(wanted, CancelKind::Run);
        proof {
            of_kind_len(wanted, CancelKind::EffectIntent);
            of_kind_len(wanted, CancelKind::Attempt);
            of_kind_len(wanted, CancelKind::ExecutionUnit);
            of_kind_len(wanted, CancelKind::Run);
            assert(members@.map_values(|m: ScopeMember| m@) =~= numbered(
                Seq::<MemberInputView>::empty(),
            ));
            assert(Seq::<MemberInputView>::empty() + a =~= a);
        }
        take_kind(&proposed, CancelKind::EffectIntent, &mut members, Ghost(Seq::empty()));
        take_kind(&proposed, CancelKind::Attempt, &mut members, Ghost(a));
        take_kind(&proposed, CancelKind::ExecutionUnit, &mut members, Ghost(a + b));
        take_kind(&proposed, CancelKind::Run, &mut members, Ghost(a + b + c));
        Ok(CancelScope { root_kind, root_id, members })
    }

    /// The members, in delivery order.
    pub fn members(&self) -> (r: &Vec<ScopeMember>)
        ensures
            r@ == self.members@,
    {
        &self.members
    }

    /// The member with this id: the first, should there be several.
    pub fn member(&self, member_id: &str) -> (r: Option<&ScopeMember>)
        ensures
            match r {
                Some(m) => {
                    let i = member_index(self@, member_id@);
                    i < self@.members.len() && m@ == self@.members[i]
                },
                None => member_index(self@, member_id@) == self@.members.len(),
            },
    {
        let mut i: usize = 0;
        proof {
            index_from_rule(self@.members, member_id@, 0);
        }
        while i < self.members.len()
            invariant
                i <= self.members.len(),
                member_index(self@, member_id@) == index_from(self@.members, member_id@, i as int),
            decreases self.members.len() - i,
        {
            proof {
                index_from_rule(self@.members, member_id@, i as int);
                assert(self@.members[i as int] == self.members@[i as int]@);
            }
            if same(&self.members[i].member_id, member_id) {
                return Some(&self.members[i]);
            }
            i += 1;
        }
        None
    }
}

/// The first place, from `i` on, of a member with this id; the length where there is none.
pub open spec fn index_from(members: Seq<ScopeMemberView>, member_id: Seq<char>, i: int) -> int
    decreases members.len() - i,
{
    if i >= members.len() {
        members.len() as int
    } else if members[i].member_id == member_id {
        i
    } else {
        index_from(members, member_id, i + 1)
    }
}

/// The first place of a member with this id; the number of members where there is none.
pub open spec fn member_index(scope: CancelScopeView, member_id: Seq<char>) -> int {
    index_from(scope.members, member_id, 0)
}

/// What `index_from` finds: the first place from `i` on that holds the id.
pub proof fn index_from_rule(members: Seq<ScopeMemberView>, member_id: Seq<char>, i: int)
    requires
        0 <= i <= members.len(),
    ensures
        i <= index_from(members, member_id, i) <= members.len(),
        forall|k: int|
            i <= k < index_from(members, member_id, i) ==> (#[trigger] members[k]).member_id
                != member_id,
        index_from(members, member_id, i) < members.len() ==> members[index_from(
            members,
            member_id,
            i,
        )].member_id == member_id,
    decreases members.len() - i,
{
    if i < members.len() && members[i].member_id != member_id {
        index_from_rule(members, member_id, i + 1);
    }
}

proof fn of_kind_len(list: Seq<MemberInputView>, kind: CancelKind)
    ensures
        of_kind(list, kind).len() <= list.len(),
    decreases list.len(),
{
    if list.len() > 0 {
        of_kind_len(list.drop_last(), kind);
    }
}

fn take_kind(
    proposed: &Vec<MemberInput>,
    kind: CancelKind,
    members: &mut Vec<ScopeMember>,
    Ghost(done): Ghost<Seq<MemberInputView>>,
)
    requires
        old(members)@.map_values(|m: ScopeMember| m@) == numbered(done),
        done.len() <= 3 * MAX_SCOPE_MEMBERS,
        proposed.len() <= MAX_SCOPE_MEMBERS,
    ensures
        final(members)@.map_values(|m: ScopeMember| m@) == numbered(
            done + of_kind(proposed@.map_values(|m: MemberInput| m@), kind),
        ),
{
    let ghost wanted = proposed@.map_values(|m: MemberInput| m@);
    let mut i: usize = 0;
    proof {
        assert(wanted.take(0) =~= Seq::<MemberInputView>::empty());
        assert(done + Seq::<MemberInputView>::empty() =~= done);
    }
    while i < proposed.len()
        invariant
            i <= proposed.len(),
            proposed.len() <= MAX_SCOPE_MEMBERS,
            done.len() <= 3 * MAX_SCOPE_MEMBERS,
            wanted == proposed@.map_values(|m: MemberInput| m@),
            members@.map_values(|m: ScopeMember| m@) == numbered(
                done + of_kind(wanted.take(i as int), kind),
            ),
            of_kind(wanted.take(i as int), kind).len() <= i,
        decreases proposed.len() - i,
    {
        proof {
            assert(wanted.take(i + 1).drop_last() =~= wanted.take(i as int));
            assert(wanted.take(i + 1).last() == proposed@[i as int]@);
            assert(members@.map_values(|m: ScopeMember| m@).len() == members@.len());
        }
        if proposed[i].member_kind == kind {
            let ghost so_far = done + of_kind(wanted.take(i as int), kind);
            let ghost grown = done + of_kind(wanted.take(i + 1), kind);
            let ghost before = members@;
            members.push(
                ScopeMember {
                    member_kind: proposed[i].member_kind,
                    member_id: proposed[i].member_id.clone(),
                    attachment: proposed[i].attachment,
                    order_index: members.len() as u32,
                },
            );
            proof {
                assert(grown =~= so_far.push(proposed@[i as int]@));
                assert(members@.map_values(|m: ScopeMember| m@) =~= before.map_values(
                    |m: ScopeMember| m@,
                ).push(members@.last()@));
                assert(members@.map_values(|m: ScopeMember| m@) =~= numbered(grown));
            }
        }
        i += 1;
    }
    proof {
        assert(wanted.take(wanted.len() as int) =~= wanted);
    }
}

/// In the delivery order no member comes before one of a lower kind: leaves go first.
pub proof fn delivery_order_is_leaf_first(proposed: Seq<MemberInputView>, i: int, j: int)
    requires
        0 <= i < j < leaf_first(proposed).len(),
    ensures
        rank(leaf_first(proposed)[i].member_kind) <= rank(leaf_first(proposed)[j].member_kind),
{
    of_kind_holds(proposed, CancelKind::EffectIntent);
    of_kind_holds(proposed, CancelKind::Attempt);
    of_kind_holds(proposed, CancelKind::ExecutionUnit);
    of_kind_holds(proposed, CancelKind::Run);
}

proof fn of_kind_holds(proposed: Seq<MemberInputView>, kind: CancelKind)
    ensures
        forall|i: int|
            0 <= i < of_kind(proposed, kind).len() ==> (#[trigger] of_kind(
                proposed,
                kind,
            )[i]).member_kind == kind,
    decreases proposed.len(),
{
    if proposed.len() > 0 {
        of_kind_holds(proposed.drop_last(), kind);
    }
}

/// A committed cancellation.
#[derive(Debug)]
pub struct CancelRequest {
    pub cancel_request_id: Uuid7,
    pub reason: CancelReason,
    pub policy: CancelPolicy,
    pub scope: CancelScope,
    pub status: CancelStatus,
    pub requested_at: u64,
    pub requested_by_kind: String,
}

/// The view of a `CancelRequest`.
pub struct CancelRequestView {
    pub cancel_request_id: u128,
    pub reason: CancelReason,
    pub policy: CancelPolicy,
    pub scope: CancelScopeView,
    pub status: CancelStatus,
    pub requested_at: u64,
    pub requested_by_kind: Seq<char>,
}

impl View for CancelRequest {
    type V = CancelRequestView;

    open spec fn view(&self) -> CancelRequestView {
        CancelRequestView {
            cancel_request_id: self.cancel_request_id@,
            reason: self.reason,
            policy: self.policy,
            scope: self.scope@,
            status: self.status,
            requested_at: self.requested_at,
            requested_by_kind: self.requested_by_kind@,
        }
    }
}

impl Clone for CancelRequest {
    fn clone(&self) -> (r: Self)
        ensures
            r@ == self@,
    {
        CancelRequest {
            cancel_request_id: self.cancel_request_id,
            reason: self.reason,
            policy: self.policy,
            scope: self.scope.clone(),
            status: self.status,
            requested_at: self.requested_at,
            requested_by_kind: self.requested_by_kind.clone(),
        }
    }
}

/// The delivery to one member, written once.
#[derive(Debug)]
pub struct CancelDelivery {
    pub cancel_request_id: Uuid7,
    pub member_id: String,
    pub member_kind: CancelKind,
    pub delivered_at: u64,
    /// Absent exactly for an unresponsive member.
    pub observed_at: Option<u64>,
    pub outcome: DeliveryOutcome,
}

/// The view of a `CancelDelivery`.
pub struct CancelDeliveryView {
    pub cancel_request_id: u128,
    pub member_id: Seq<char>,
    pub member_kind: CancelKind,
    pub delivered_at: u64,
    pub observed_at: Option<u64>,
    pub outcome: DeliveryOutcome,
}

impl View for CancelDelivery {
    type V = CancelDeliveryView;

    open spec fn view(&self) -> CancelDeliveryView {
        CancelDeliveryView {
            cancel_request_id: self.cancel_request_id@,
            member_id: self.member_id@,
            member_kind: self.member_kind,
            delivered_at: self.delivered_at,
            observed_at: self.observed_at,
            outcome: self.outcome,
        }
    }
}

impl Clone for CancelDelivery {
    fn clone(&self) -> (r: Self)
        ensures
            r@ == self@,
    {
        CancelDelivery {
            cancel_request_id: self.cancel_request_id,
            member_id: self.member_id.clone(),
            member_kind: self.member_kind,
            delivered_at: self.delivered_at,
            observed_at: self.observed_at,
            outcome: self.outcome,
        }
    }
}

} // verus!
