//! The effect ledger's records: one intent per logical operation, its targets, and the
//! write-once terminal.
use crate::ids::{opt_digest, opt_uuid, AttemptEpoch, AuthorityEpoch, Digest, Stamp, Uuid7};
use crate::json::{
    canonical_bytes, canonical_of, names_are_ordinary, object, put, text_value, Json, JsonView,
};
use vstd::prelude::*;
use vstd::string::*;

pub mod fake;

verus! {

/// Where an intent stands in its lifecycle.
#[derive(Clone, Copy, Debug, PartialEq, Eq, Structural)]
pub enum EffectState {
    Prepared,
    Dispatching,
    Dispatched,
    Observing,
    Reconciling,
    Compensating,
    Settled,
}

impl EffectState {
    /// The name on the wire.
    pub open spec fn wire_text(self) -> Seq<char> {
        match self {
            EffectState::Prepared => "prepared"@,
            EffectState::Dispatching => "dispatching"@,
            EffectState::Dispatched => "dispatched"@,
            EffectState::Observing => "observing"@,
            EffectState::Reconciling => "reconciling"@,
            EffectState::Compensating => "compensating"@,
            EffectState::Settled => "settled"@,
        }
    }

    /// The name on the wire.
    pub fn wire(self) -> (r: &'static str)
        ensures
            r@ == self.wire_text(),
    {
        match self {
            EffectState::Prepared => "prepared",
            EffectState::Dispatching => "dispatching",
            EffectState::Dispatched => "dispatched",
            EffectState::Observing => "observing",
            EffectState::Reconciling => "reconciling",
            EffectState::Compensating => "compensating",
            EffectState::Settled => "settled",
        }
    }

    /// The name of the variant.
    pub open spec fn debug_name_text(self) -> Seq<char> {
        match self {
            EffectState::Prepared => "Prepared"@,
            EffectState::Dispatching => "Dispatching"@,
            EffectState::Dispatched => "Dispatched"@,
            EffectState::Observing => "Observing"@,
            EffectState::Reconciling => "Reconciling"@,
            EffectState::Compensating => "Compensating"@,
            EffectState::Settled => "Settled"@,
        }
    }

    /// The name of the variant.
    pub fn debug_name(self) -> (r: &'static str)
        ensures
            r@ == self.debug_name_text(),
    {
        match self {
            EffectState::Prepared => "Prepared",
            EffectState::Dispatching => "Dispatching",
            EffectState::Dispatched => "Dispatched",
            EffectState::Observing => "Observing",
            EffectState::Reconciling => "Reconciling",
            EffectState::Compensating => "Compensating",
            EffectState::Settled => "Settled",
        }
    }
}

/// The write-once outcome of an effect.
#[derive(Clone, Copy, Debug, PartialEq, Eq, Structural)]
pub enum EffectTerminal {
    Succeeded,
    Failed,
    Cancelled,
    Compensated,
    Unknown,
}

impl EffectTerminal {
    /// The name on the wire.
    pub open spec fn wire_text(self) -> Seq<char> {
        match self {
            EffectTerminal::Succeeded => "succeeded"@,
            EffectTerminal::Failed => "failed"@,
            EffectTerminal::Cancelled => "cancelled"@,
            EffectTerminal::Compensated => "compensated"@,
            EffectTerminal::Unknown => "unknown"@,
        }
    }

    /// The name on the wire.
    pub fn wire(self) -> (r: &'static str)
        ensures
            r@ == self.wire_text(),
    {
        match self {
            EffectTerminal::Succeeded => "succeeded",
            EffectTerminal::Failed => "failed",
            EffectTerminal::Cancelled => "cancelled",
            EffectTerminal::Compensated => "compensated",
            EffectTerminal::Unknown => "unknown",
        }
    }

    /// The name of the variant.
    pub open spec fn debug_name_text(self) -> Seq<char> {
        match self {
            EffectTerminal::Succeeded => "Succeeded"@,
            EffectTerminal::Failed => "Failed"@,
            EffectTerminal::Cancelled => "Cancelled"@,
            EffectTerminal::Compensated => "Compensated"@,
            EffectTerminal::Unknown => "Unknown"@,
        }
    }

    /// The name of the variant.
    pub fn debug_name(self) -> (r: &'static str)
        ensures
            r@ == self.debug_name_text(),
    {
        match self {
            EffectTerminal::Succeeded => "Succeeded",
            EffectTerminal::Failed => "Failed",
            EffectTerminal::Cancelled => "Cancelled",
            EffectTerminal::Compensated => "Compensated",
            EffectTerminal::Unknown => "Unknown",
        }
    }
}

/// What an adapter offers for a retry.
#[derive(Clone, Copy, Debug, PartialEq, Eq, Structural)]
pub enum RetryClass {
    /// The target honours a stable operation key.
    SafeWithOperationKey,
    /// The target answers a result query.
    QueryThenRetry,
    /// Neither: automatic retry is refused.
    NoRetry,
}

impl RetryClass {
    /// The name on the wire.
    pub open spec fn wire_text(self) -> Seq<char> {
        match self {
            RetryClass::SafeWithOperationKey => "safe_with_operation_key"@,
            RetryClass::QueryThenRetry => "query_then_retry"@,
            RetryClass::NoRetry => "no_retry"@,
        }
    }

    /// The name on the wire.
    pub fn wire(self) -> (r: &'static str)
        ensures
            r@ == self.wire_text(),
    {
        match self {
            RetryClass::SafeWithOperationKey => "safe_with_operation_key",
            RetryClass::QueryThenRetry => "query_then_retry",
            RetryClass::NoRetry => "no_retry",
        }
    }
}

/// Whether an effect can be undone.
#[derive(Clone, Copy, Debug, PartialEq, Eq, Structural)]
pub enum ReversibilityClass {
    Bufferable,
    Compensable,
    Irreversible,
}

impl ReversibilityClass {
    /// The name on the wire.
    pub open spec fn wire_text(self) -> Seq<char> {
        match self {
            ReversibilityClass::Bufferable => "bufferable"@,
            ReversibilityClass::Compensable => "compensable"@,
            ReversibilityClass::Irreversible => "irreversible"@,
        }
    }

    /// The name on the wire.
    pub fn wire(self) -> (r: &'static str)
        ensures
            r@ == self.wire_text(),
    {
        match self {
            ReversibilityClass::Bufferable => "bufferable",
            ReversibilityClass::Compensable => "compensable",
            ReversibilityClass::Irreversible => "irreversible",
        }
    }
}

/// Whether the targets are named at prepare time or found afterwards.
#[derive(Clone, Copy, Debug, PartialEq, Eq, Structural)]
pub enum TargetEnumeration {
    Declared,
    PostHoc,
}

impl TargetEnumeration {
    /// The name on the wire.
    pub open spec fn wire_text(self) -> Seq<char> {
        match self {
            TargetEnumeration::Declared => "declared"@,
            TargetEnumeration::PostHoc => "post_hoc"@,
        }
    }

    /// The name on the wire.
    pub fn wire(self) -> (r: &'static str)
        ensures
            r@ == self.wire_text(),
    {
        match self {
            TargetEnumeration::Declared => "declared",
            TargetEnumeration::PostHoc => "post_hoc",
        }
    }
}

/// What is known of one target.
#[derive(Clone, Copy, Debug, PartialEq, Eq, Structural)]
pub enum TargetState {
    Applied,
    NotApplied,
    Unknown,
}

impl TargetState {
    /// The name on the wire.
    pub open spec fn wire_text(self) -> Seq<char> {
        match self {
            TargetState::Applied => "applied"@,
            TargetState::NotApplied => "not_applied"@,
            TargetState::Unknown => "unknown"@,
        }
    }

    /// The name on the wire.
    pub fn wire(self) -> (r: &'static str)
        ensures
            r@ == self.wire_text(),
    {
        match self {
            TargetState::Applied => "applied",
            TargetState::NotApplied => "not_applied",
            TargetState::Unknown => "unknown",
        }
    }
}

/// One target of an effect: what was expected, and what was observed.
#[derive(Debug)]
pub struct TargetObservation {
    pub target_id: String,
    /// The digest of the target if the effect applied.
    pub expected_digest: Option<Digest>,
    /// The digest of the target before the effect.
    pub pre_digest: Option<Digest>,
    pub observed_digest: Option<Digest>,
    pub observed_at: Option<u64>,
    pub state: TargetState,
}

/// The view of a `TargetObservation`.
pub struct TargetObservationView {
    pub target_id: Seq<char>,
    pub expected_digest: Option<Seq<char>>,
    pub pre_digest: Option<Seq<char>>,
    pub observed_digest: Option<Seq<char>>,
    pub observed_at: Option<u64>,
    pub state: TargetState,
}

impl View for TargetObservation {
    type V = TargetObservationView;

    open spec fn view(&self) -> TargetObservationView {
        TargetObservationView {
            target_id: self.target_id@,
            expected_digest: opt_digest(self.expected_digest),
            pre_digest: opt_digest(self.pre_digest),
            observed_digest: opt_digest(self.observed_digest),
            observed_at: self.observed_at,
            state: self.state,
        }
    }
}

impl Clone for TargetObservation {
    fn clone(&self) -> (r: Self)
        ensures
            r@ == self@,
    {
        TargetObservation {
            target_id: self.target_id.clone(),
            expected_digest: self.expected_digest.clone(),
            pre_digest: self.pre_digest.clone(),
            observed_digest: self.observed_digest.clone(),
            observed_at: self.observed_at,
            state: self.state,
        }
    }
}

/// What the digests of a declared target show: `Applied` where the observed digest is the
/// expected one, `NotApplied` where it is the one from before, `Unknown` otherwise and
/// without an observation.
pub open spec fn declared_state(t: TargetObservationView) -> TargetState {
    match t.observed_digest {
        None => TargetState::Unknown,
        Some(seen) => if t.expected_digest == Some(seen) {
            TargetState::Applied
        } else if t.pre_digest == Some(seen) {
            TargetState::NotApplied
        } else {
            TargetState::Unknown
        },
    }
}

impl TargetObservation {
    /// Recomputes the state of a declared target by comparing digests.
    pub fn classify_declared(&mut self)
        ensures
            final(self)@ == (TargetObservationView { state: declared_state(old(self)@), ..old(self)@ }),
    {
        let state = match &self.observed_digest {
            None => TargetState::Unknown,
            Some(seen) => if holds_digest(&self.expected_digest, seen) {
                TargetState::Applied
            } else if holds_digest(&self.pre_digest, seen) {
                TargetState::NotApplied
            } else {
                TargetState::Unknown
            },
        };
        self.state = state;
    }
}

fn holds_digest(o: &Option<Digest>, d: &Digest) -> (r: bool)
    ensures
        r == (opt_digest(*o) == Some(d@)),
{
    match o {
        Some(x) => x.same_as(d),
        None => false,
    }
}

/// A copy of a list.
pub fn copy_target_observations(list: &Vec<TargetObservation>) -> (r: Vec<TargetObservation>)
    ensures
        r@.map_values(|x: TargetObservation| x@) == list@.map_values(|x: TargetObservation| x@),
{
    let mut r: Vec<TargetObservation> = Vec::new();
    let mut i: usize = 0;
    while i < list.len()
        invariant
            i <= list.len(),
            r.len() == i,
            forall|k: int| 0 <= k < i ==> (#[trigger] r@[k])@ == list@[k]@,
        decreases list.len() - i,
    {
        r.push(list[i].clone());
        i += 1;
    }
    proof {
        assert(
            r@.map_values(|x: TargetObservation| x@) =~= list@.map_values(|x: TargetObservation| x@)
        );
    }
    r
}

/// The durable record of one logical operation on the outside world.
#[derive(Debug)]
pub struct EffectIntent {
    pub effect_intent_id: Uuid7,
    pub version: u64,
    pub unit_id: String,
    pub attempt_epoch: AttemptEpoch,
    pub stamp: Stamp,
    pub authority_epoch: AuthorityEpoch,
    pub adapter_id: String,
    pub adapter_version: String,
    /// Stable across attempts: derived from the work item, the operation and the request.
    pub operation_key: String,
    pub logical_operation_id: Uuid7,
    pub request_digest: Digest,
    pub retry_class: RetryClass,
    pub reversibility_class: ReversibilityClass,
    pub approval_ref: Option<Uuid7>,
    pub policy_snapshot_digest: Digest,
    pub state: EffectState,
    /// Written once.
    pub terminal: Option<EffectTerminal>,
    pub target_enumeration: TargetEnumeration,
    pub targets: Vec<TargetObservation>,
    pub decomposable: bool,
    pub parent_effect_intent_id: Option<Uuid7>,
    pub compensation_intent_id: Option<Uuid7>,
    pub dispatched_at: Option<u64>,
    pub settled_at: Option<u64>,
    pub next_reconcile_at: Option<u64>,
}

/// The view of a `EffectIntent`.
pub struct EffectIntentView {
    pub effect_intent_id: u128,
    pub version: u64,
    pub unit_id: Seq<char>,
    pub attempt_epoch: AttemptEpoch,
    pub stamp: Stamp,
    pub authority_epoch: AuthorityEpoch,
    pub adapter_id: Seq<char>,
    pub adapter_version: Seq<char>,
    pub operation_key: Seq<char>,
    pub logical_operation_id: u128,
    pub request_digest: Seq<char>,
    pub retry_class: RetryClass,
    pub reversibility_class: ReversibilityClass,
    pub approval_ref: Option<u128>,
    pub policy_snapshot_digest: Seq<char>,
    pub state: EffectState,
    pub terminal: Option<EffectTerminal>,
    pub target_enumeration: TargetEnumeration,
    pub targets: Seq<TargetObservationView>,
    pub decomposable: bool,
    pub parent_effect_intent_id: Option<u128>,
    pub compensation_intent_id: Option<u128>,
    pub dispatched_at: Option<u64>,
    pub settled_at: Option<u64>,
    pub next_reconcile_at: Option<u64>,
}

impl View for EffectIntent {
    type V = EffectIntentView;

    open spec fn view(&self) -> EffectIntentView {
        EffectIntentView {
            effect_intent_id: self.effect_intent_id@,
            version: self.version,
            unit_id: self.unit_id@,
            attempt_epoch: self.attempt_epoch,
            stamp: self.stamp,
            authority_epoch: self.authority_epoch,
            adapter_id: self.adapter_id@,
            adapter_version: self.adapter_version@,
            operation_key: self.operation_key@,
            logical_operation_id: self.logical_operation_id@,
            request_digest: self.request_digest@,
            retry_class: self.retry_class,
            reversibility_class: self.reversibility_class,
            approval_ref: opt_uuid(self.approval_ref),
            policy_snapshot_digest: self.policy_snapshot_digest@,
            state: self.state,
            terminal: self.terminal,
            target_enumeration: self.target_enumeration,
            targets: self.targets@.map_values(|x: TargetObservation| x@),
            decomposable: self.decomposable,
            parent_effect_intent_id: opt_uuid(self.parent_effect_intent_id),
            compensation_intent_id: opt_uuid(self.compensation_intent_id),
            dispatched_at: self.dispatched_at,
            settled_at: self.settled_at,
            next_reconcile_at: self.next_reconcile_at,
        }
    }
}

impl Clone for EffectIntent {
    fn clone(&self) -> (r: Self)
        ensures
            r@ == self@,
    {
        EffectIntent {
            effect_intent_id: self.effect_intent_id,
            version: self.version,
            unit_id: self.unit_id.clone(),
            attempt_epoch: self.attempt_epoch,
            stamp: self.stamp,
            authority_epoch: self.authority_epoch,
            adapter_id: self.adapter_id.clone(),
            adapter_version: self.adapter_version.clone(),
            operation_key: self.operation_key.clone(),
            logical_operation_id: self.logical_operation_id,
            request_digest: self.request_digest.clone(),
            retry_class: self.retry_class,
            reversibility_class: self.reversibility_class,
            approval_ref: self.approval_ref,
            policy_snapshot_digest: self.policy_snapshot_digest.clone(),
            state: self.state,
            terminal: self.terminal,
            target_enumeration: self.target_enumeration,
            targets: copy_target_observations(&self.targets),
            decomposable: self.decomposable,
            parent_effect_intent_id: self.parent_effect_intent_id,
            compensation_intent_id: self.compensation_intent_id,
            dispatched_at: self.dispatched_at,
            settled_at: self.settled_at,
            next_reconcile_at: self.next_reconcile_at,
        }
    }
}

/// Why an intent cannot settle.
#[derive(Debug)]
pub enum EffectError {
    TerminalAlreadySet { existing: EffectTerminal },
    SucceededWithUnappliedTarget { target_id: String },
    FailedWithUnknownTarget { target_id: String },
}

/// The view of an `EffectError`.
pub enum EffectErrorView {
    TerminalAlreadySet { existing: EffectTerminal },
    SucceededWithUnappliedTarget { target_id: Seq<char> },
    FailedWithUnknownTarget { target_id: Seq<char> },
}

impl View for EffectError {
    type V = EffectErrorView;

    open spec fn view(&self) -> EffectErrorView {
        match self {
            EffectError::TerminalAlreadySet { existing } => EffectErrorView::TerminalAlreadySet {
                existing: *existing,
            },
            EffectError::SucceededWithUnappliedTarget { target_id } =>
                EffectErrorView::SucceededWithUnappliedTarget { target_id: target_id@ },
            EffectError::FailedWithUnknownTarget { target_id } =>
                EffectErrorView::FailedWithUnknownTarget { target_id: target_id@ },
        }
    }
}

/// Whether a target in this state forbids the terminal: every target of a success is
/// applied, and no target of a failure is unknown.
pub open spec fn forbids(state: TargetState, terminal: EffectTerminal) -> bool {
    ||| terminal == EffectTerminal::Succeeded && state != TargetState::Applied
    ||| terminal == EffectTerminal::Failed && state == TargetState::Unknown
}

/// The first target that forbids the terminal, as an index; the length of the list where
/// none does.
pub open spec fn first_forbidding(
    targets: Seq<TargetObservationView>,
    terminal: EffectTerminal,
) -> int
    decreases targets.len(),
{
    if targets.len() == 0 {
        0
    } else {
        let front = first_forbidding(targets.drop_last(), terminal);
        if front < targets.len() - 1 {
            front
        } else if forbids(targets.last().state, terminal) {
            targets.len() - 1
        } else {
            targets.len() as int
        }
    }
}

/// What settling an intent gives: the settled intent, or why it cannot settle.
pub open spec fn settled(
    intent: EffectIntentView,
    terminal: EffectTerminal,
) -> Result<EffectIntentView, EffectErrorView> {
    let at = first_forbidding(intent.targets, terminal);
    match intent.terminal {
        Some(existing) => Err(EffectErrorView::TerminalAlreadySet { existing }),
        None => if at < intent.targets.len() {
            if terminal == EffectTerminal::Succeeded {
                Err(
                    EffectErrorView::SucceededWithUnappliedTarget {
                        target_id: intent.targets[at].target_id,
                    },
                )
            } else {
                Err(
                    EffectErrorView::FailedWithUnknownTarget {
                        target_id: intent.targets[at].target_id,
                    },
                )
            }
        } else {
            Ok(
                EffectIntentView {
                    terminal: Some(terminal),
                    state: EffectState::Settled,
                    ..intent
                },
            )
        },
    }
}

/// The members of the value that an operation key is the digest of.
pub open spec fn key_preimage(
    work_item_id: Seq<char>,
    logical_operation_id: u128,
    request_digest: Seq<char>,
) -> Map<Seq<char>, JsonView> {
    Map::empty().insert("work_item_id"@, JsonView::Str(work_item_id)).insert(
        "logical_operation_id"@,
        JsonView::Str(crate::ids::uuid_text(logical_operation_id)),
    ).insert("request_digest"@, JsonView::Str(request_digest))
}

/// The operation key of a logical operation.
pub open spec fn operation_key_text(
    work_item_id: Seq<char>,
    logical_operation_id: u128,
    request_digest: Seq<char>,
) -> Seq<char> {
    crate::ids::digest_text(
        canonical_of(
            JsonView::Object(key_preimage(work_item_id, logical_operation_id, request_digest)),
        ),
    )
}

impl EffectIntent {
    /// The key of a logical operation: the digest of the work item, the operation and the
    /// request. No attempt or epoch takes part, so a retry keeps its key.
    pub fn derive_operation_key(
        work_item_id: &str,
        logical_operation_id: Uuid7,
        request_digest: &Digest,
    ) -> (r: String)
        ensures
            r@ == operation_key_text(work_item_id@, logical_operation_id@, request_digest@),
            crate::ids::is_digest_text(r@),
    {
        proof {
            names_are_ordinary();
        }
        let mut members: Vec<(String, Json)> = Vec::new();
        put(&mut members, "work_item_id", text_value(work_item_id));
        put(&mut members, "logical_operation_id", Json::Str(logical_operation_id.to_string()));
        put(&mut members, "request_digest", text_value(request_digest.as_str()));
        let value = object(members);
        let digest = Digest::of_bytes(canonical_bytes(&value).as_slice());
        digest.as_str().to_owned()
    }

    /// Records the terminal, once, where the targets allow it.
    pub fn settle(&mut self, terminal: EffectTerminal) -> (r: Result<(), EffectError>)
        ensures
            match r {
                Ok(()) => settled(old(self)@, terminal) == Ok::<EffectIntentView, EffectErrorView>(
                    final(self)@,
                ),
                Err(e) => final(self)@ == old(self)@ && settled(old(self)@, terminal) == Err::<
                    EffectIntentView,
                    EffectErrorView,
                >(e@),
            },
    {
        if let Some(existing) = self.terminal {
            return Err(EffectError::TerminalAlreadySet { existing });
        }
        let ghost rows = self@.targets;
        let mut i: usize = 0;
        proof {
            assert(rows.take(0) =~= Seq::<TargetObservationView>::empty());
        }
        while i < self.targets.len()
            invariant
                i <= self.targets.len(),
                rows == self@.targets,
                self@ == old(self)@,
                self.terminal is None,
                first_forbidding(rows.take(i as int), terminal) == i,
            decreases self.targets.len() - i,
        {
            let state = self.targets[i].state;
            let bad = (terminal == EffectTerminal::Succeeded && state != TargetState::Applied) || (
            terminal == EffectTerminal::Failed && state == TargetState::Unknown);
            proof {
                assert(rows[i as int].state == state);
                assert(rows.take(i + 1).drop_last() =~= rows.take(i as int));
            }
            if bad {
                proof {
                    first_forbidding_stays(rows, i + 1, terminal);
                }
                let target_id = self.targets[i].target_id.clone();
                return if terminal == EffectTerminal::Succeeded {
                    Err(EffectError::SucceededWithUnappliedTarget { target_id })
                } else {
                    Err(EffectError::FailedWithUnknownTarget { target_id })
                };
            }
            i += 1;
        }
        proof {
            assert(rows.take(rows.len() as int) =~= rows);
        }
        self.terminal = Some(terminal);
        self.state = EffectState::Settled;
        Ok(())
    }
}

proof fn first_forbidding_stays(
    rows: Seq<TargetObservationView>,
    k: int,
    terminal: EffectTerminal,
)
    requires
        0 < k <= rows.len(),
        first_forbidding(rows.take(k), terminal) < k,
    ensures
        first_forbidding(rows, terminal) == first_forbidding(rows.take(k), terminal),
    decreases rows.len() - k,
{
    if k < rows.len() {
        assert(rows.take(k + 1).drop_last() =~= rows.take(k));
        first_forbidding_stays(rows, k + 1, terminal);
    } else {
        assert(rows.take(k) =~= rows);
    }
}

proof fn first_forbidding_is_first(rows: Seq<TargetObservationView>, terminal: EffectTerminal)
    ensures
        0 <= first_forbidding(rows, terminal) <= rows.len(),
        forall|i: int|
            0 <= i < first_forbidding(rows, terminal) ==> !forbids(
                (#[trigger] rows[i]).state,
                terminal,
            ),
        first_forbidding(rows, terminal) < rows.len() ==> forbids(
            rows[first_forbidding(rows, terminal)].state,
            terminal,
        ),
    decreases rows.len(),
{
    if rows.len() > 0 {
        first_forbidding_is_first(rows.drop_last(), terminal);
        assert forall|i: int| 0 <= i < first_forbidding(rows, terminal) implies !forbids(
            (#[trigger] rows[i]).state,
            terminal,
        ) by {
            if i < rows.len() - 1 {
                assert(rows.drop_last()[i] == rows[i]);
            }
        }
        if first_forbidding(rows, terminal) < rows.len() - 1 {
            assert(rows.drop_last()[first_forbidding(rows, terminal)]
                == rows[first_forbidding(rows, terminal)]);
        }
    }
}

/// The terminal of an intent is written once: a settled intent never settles again, and
/// keeps its terminal.
pub proof fn terminal_is_write_once(
    intent: EffectIntentView,
    first: EffectTerminal,
    second: EffectTerminal,
)
    requires
        settled(intent, first) is Ok,
    ensures
        settled(settled(intent, first)->Ok_0, second) == Err::<EffectIntentView, EffectErrorView>(
            EffectErrorView::TerminalAlreadySet { existing: first },
        ),
{
}

/// An intent settles `succeeded` only when every target is applied, and `failed` only when
/// no target is unknown.
pub proof fn settled_targets_support_the_terminal(
    intent: EffectIntentView,
    terminal: EffectTerminal,
    i: int,
)
    requires
        settled(intent, terminal) is Ok,
        0 <= i < intent.targets.len(),
    ensures
        terminal == EffectTerminal::Succeeded ==> intent.targets[i].state == TargetState::Applied,
        terminal == EffectTerminal::Failed ==> intent.targets[i].state != TargetState::Unknown,
{
    first_forbidding_is_first(intent.targets, terminal);
    assert(!forbids(intent.targets[i].state, terminal));
}

} // verus!
