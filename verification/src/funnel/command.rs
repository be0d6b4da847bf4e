//! The command envelope and method registry: the closed set of mutations that the funnel
//! accepts.
//!
//! Every method has exactly one authorization class. Authority methods need the daemon under
//! the current authority epoch and no token; holder methods need the full holder fence and a
//! token sealed for the unit that the method names.
use crate::cancel::{CancelKind, CancelPolicy, CancelReason, DeliveryOutcome, MemberInput};
use crate::effect::{
    EffectTerminal, RetryClass, ReversibilityClass, TargetEnumeration, TargetObservation,
};
use crate::error::ErrorKind;
use crate::ids::{AuthorityEpoch, Digest, Uuid7};
use crate::json::{json_tree, JsonView};
use crate::store::AttemptTokenClaims;
use serde_json::Value;
use vstd::prelude::*;
use vstd::string::*;

verus! {

/// Who sends a command.
#[derive(Clone, Copy, Debug, PartialEq, Eq, Structural)]
pub enum PrincipalKind {
    Owner,
    DelegateHuman,
    Agent,
    Daemon,
}

impl PrincipalKind {
    /// The name on the wire.
    pub open spec fn wire_text(self) -> Seq<char> {
        match self {
            PrincipalKind::Owner => "owner"@,
            PrincipalKind::DelegateHuman => "delegate_human"@,
            PrincipalKind::Agent => "agent"@,
            PrincipalKind::Daemon => "daemon"@,
        }
    }

    /// The name on the wire.
    pub fn wire(self) -> (r: &'static str)
        ensures
            r@ == self.wire_text(),
    {
        match self {
            PrincipalKind::Owner => "owner",
            PrincipalKind::DelegateHuman => "delegate_human",
            PrincipalKind::Agent => "agent",
            PrincipalKind::Daemon => "daemon",
        }
    }

    /// The name of the variant.
    pub open spec fn debug_name_text(self) -> Seq<char> {
        match self {
            PrincipalKind::Owner => "Owner"@,
            PrincipalKind::DelegateHuman => "DelegateHuman"@,
            PrincipalKind::Agent => "Agent"@,
            PrincipalKind::Daemon => "Daemon"@,
        }
    }

    /// The name of the variant.
    pub fn debug_name(self) -> (r: &'static str)
        ensures
            r@ == self.debug_name_text(),
    {
        match self {
            PrincipalKind::Owner => "Owner",
            PrincipalKind::DelegateHuman => "DelegateHuman",
            PrincipalKind::Agent => "Agent",
            PrincipalKind::Daemon => "Daemon",
        }
    }
}

/// How a run closes. Open and active are no outcomes.
#[derive(Clone, Copy, Debug, PartialEq, Eq, Structural)]
pub enum RunOutcome {
    ClosedSuccess,
    ClosedFailure,
    Cancelled,
}

impl RunOutcome {
    /// The name on the wire.
    pub open spec fn wire_text(self) -> Seq<char> {
        match self {
            RunOutcome::ClosedSuccess => "closed_success"@,
            RunOutcome::ClosedFailure => "closed_failure"@,
            RunOutcome::Cancelled => "cancelled"@,
        }
    }

    /// The name on the wire.
    pub fn wire(self) -> (r: &'static str)
        ensures
            r@ == self.wire_text(),
    {
        match self {
            RunOutcome::ClosedSuccess => "closed_success",
            RunOutcome::ClosedFailure => "closed_failure",
            RunOutcome::Cancelled => "cancelled",
        }
    }
}

/// What the scope id of a command names.
#[derive(Clone, Copy, Debug, PartialEq, Eq, Structural)]
pub enum ScopeKind {
    Global,
    Project,
    Run,
    Unit,
}

impl ScopeKind {
    /// The name on the wire.
    pub open spec fn wire_text(self) -> Seq<char> {
        match self {
            ScopeKind::Global => "global"@,
            ScopeKind::Project => "project"@,
            ScopeKind::Run => "run"@,
            ScopeKind::Unit => "unit"@,
        }
    }

    /// The name on the wire.
    pub fn wire(self) -> (r: &'static str)
        ensures
            r@ == self.wire_text(),
    {
        match self {
            ScopeKind::Global => "global",
            ScopeKind::Project => "project",
            ScopeKind::Run => "run",
            ScopeKind::Unit => "unit",
        }
    }
}

/// What the caller declares of an intent: everything that the funnel does not derive (the
/// key), mint (the intent id) or take from the token (the epoch axes).
#[derive(Debug)]
pub struct EffectSpec {
    pub logical_operation_id: Uuid7,
    pub request_digest: Digest,
    pub adapter_id: String,
    pub adapter_version: String,
    pub retry_class: RetryClass,
    pub reversibility_class: ReversibilityClass,
    /// `Declared` needs targets in `declared_targets`; `PostHoc` needs none.
    pub target_enumeration: TargetEnumeration,
    pub approval_ref: Option<Uuid7>,
    pub policy_snapshot_digest: Digest,
    pub declared_targets: Vec<TargetObservation>,
    pub decomposable: bool,
    pub compensation_intent_id: Option<Uuid7>,
}

/// Evidence that the settling authority carries from outside: statements about the operation
/// as a whole, not about one target.
#[derive(Clone, Copy, Debug, PartialEq, Eq, Structural)]
pub struct SettleEvidence {
    /// The process reported a clean wait status.
    pub clean_wait_status: bool,
    /// The target itself reported the cancellation.
    pub target_reported_cancellation: bool,
}

impl Default for SettleEvidence {
    fn default() -> (r: Self)
        ensures
            !r.clean_wait_status,
            !r.target_reported_cancellation,
    {
        SettleEvidence { clean_wait_status: false, target_reported_cancellation: false }
    }
}

/// One command.
#[derive(Debug)]
pub struct Command {
    pub command_id: String,
    pub scope_kind: ScopeKind,
    pub scope_id: String,
    /// The digest of the canonical request: its equality decides between a replay and an
    /// idempotency conflict.
    pub request_digest: Digest,
    /// The version of the one aggregate that the method mutates. Required on every mutation
    /// of existing state.
    pub expected_version: Option<u64>,
    pub principal_kind: PrincipalKind,
    pub principal_id: String,
    pub authority_epoch: Option<AuthorityEpoch>,
    pub attempt_token: Option<AttemptTokenClaims>,
    pub causation_id: Option<String>,
    pub correlation_id: Option<String>,
    pub method: Method,
}

/// What a command asks for.
#[derive(Debug)]
pub enum Method {
    /// Authority: open a run.
    RunOpen { run_id: String, goal_work_item_id: String },
    /// Authority: close a run. A success close is barred while a member is unresolved.
    RunClose { run_id: String, outcome: RunOutcome },
    /// Authority: create a work item.
    WorkItemCreate {
        work_item_id: String,
        acceptance_contract_digest: Digest,
        declared_write_scope: Vec<String>,
    },
    /// Authority: admit a unit against a work item, in a run.
    UnitAdmit { unit_id: String, work_item_id: String, run_id: String },
    /// Authority: acquire or reassign. Mints the attempt and its token.
    UnitDispatch { unit_id: String, holder_id: String },
    /// Holder: the state callback that exercises the fence.
    ProgressReport { unit_id: String },
    /// Authority: end outstanding tokens without a new attempt.
    StampBump { unit_id: String },
    /// Reauthorization: re-arm after a stamp bump. No event and no new version.
    TokenReissue { unit_id: String },
    /// Holder: record the intent before any dispatch. Idempotent on the derived key.
    EffectPrepare { unit_id: String, spec: EffectSpec },
    /// Holder: the transition that authorizes the adapter to act.
    EffectDispatch { unit_id: String, operation_key: String },
    /// Holder: record that the adapter was invoked.
    EffectRecordDispatched { unit_id: String, operation_key: String, dispatched_at: u64 },
    /// Authority: record the write-once terminal and the observations.
    EffectSettle {
        unit_id: String,
        operation_key: String,
        terminal: EffectTerminal,
        targets: Vec<TargetObservation>,
        evidence: SettleEvidence,
        settled_at: u64,
    },
    /// Authority: park a dispatched intent for reconciliation.
    EffectParkReconciling { unit_id: String, operation_key: String, next_reconcile_at: u64 },
    /// Authority: commit the frozen scope before any signal.
    CancelRequest {
        root_kind: CancelKind,
        root_id: String,
        reason: CancelReason,
        policy: CancelPolicy,
        proposed: Vec<MemberInput>,
    },
    /// Authority: the write-once delivery for one scope member.
    CancelRecordDelivery {
        cancel_request_id: String,
        member_id: String,
        delivered_at: u64,
        observed_at: Option<u64>,
        outcome: DeliveryOutcome,
    },
}

impl Method {
    /// The unit that the method names, if it names one.
    pub open spec fn names_unit(self) -> Option<Seq<char>> {
        match self {
            Method::UnitAdmit { unit_id, .. } => Some(unit_id@),
            Method::UnitDispatch { unit_id, .. } => Some(unit_id@),
            Method::ProgressReport { unit_id } => Some(unit_id@),
            Method::StampBump { unit_id } => Some(unit_id@),
            Method::TokenReissue { unit_id } => Some(unit_id@),
            Method::EffectPrepare { unit_id, .. } => Some(unit_id@),
            Method::EffectDispatch { unit_id, .. } => Some(unit_id@),
            Method::EffectRecordDispatched { unit_id, .. } => Some(unit_id@),
            Method::EffectSettle { unit_id, .. } => Some(unit_id@),
            Method::EffectParkReconciling { unit_id, .. } => Some(unit_id@),
            _ => None,
        }
    }

    /// The unit that the method names, if it names one.
    pub fn unit_id(&self) -> (r: Option<&str>)
        ensures
            match r {
                Some(s) => self.names_unit() == Some(s@),
                None => self.names_unit() is None,
            },
    {
        match self {
            Method::RunOpen { .. } | Method::RunClose { .. } => None,
            Method::WorkItemCreate { .. } => None,
            Method::UnitAdmit { unit_id, .. } => Some(unit_id),
            Method::UnitDispatch { unit_id, .. } => Some(unit_id),
            Method::ProgressReport { unit_id } => Some(unit_id),
            Method::StampBump { unit_id } => Some(unit_id),
            Method::TokenReissue { unit_id } => Some(unit_id),
            Method::EffectPrepare { unit_id, .. } => Some(unit_id),
            Method::EffectDispatch { unit_id, .. } => Some(unit_id),
            Method::EffectRecordDispatched { unit_id, .. } => Some(unit_id),
            Method::EffectSettle { unit_id, .. } => Some(unit_id),
            Method::EffectParkReconciling { unit_id, .. } => Some(unit_id),
            Method::CancelRequest { .. } | Method::CancelRecordDelivery { .. } => None,
        }
    }

    /// The command type on the wire.
    pub open spec fn type_text(self) -> Seq<char> {
        match self {
            Method::RunOpen { .. } => "run.open"@,
            Method::RunClose { .. } => "run.close"@,
            Method::WorkItemCreate { .. } => "work_item.create"@,
            Method::UnitAdmit { .. } => "unit.admit"@,
            Method::UnitDispatch { .. } => "unit.dispatch"@,
            Method::ProgressReport { .. } => "unit.progress_report"@,
            Method::StampBump { .. } => "unit.stamp_bump"@,
            Method::TokenReissue { .. } => "unit.token_reissue"@,
            Method::EffectPrepare { .. } => "effect.prepare"@,
            Method::EffectDispatch { .. } => "effect.dispatch"@,
            Method::EffectRecordDispatched { .. } => "effect.record_dispatched"@,
            Method::EffectSettle { .. } => "effect.settle"@,
            Method::EffectParkReconciling { .. } => "effect.park_reconciling"@,
            Method::CancelRequest { .. } => "cancel.request"@,
            Method::CancelRecordDelivery { .. } => "cancel.record_delivery"@,
        }
    }

    /// The command type on the wire.
    pub fn type_wire(&self) -> (r: &'static str)
        ensures
            r@ == self.type_text(),
    {
        match self {
            Method::RunOpen { .. } => "run.open",
            Method::RunClose { .. } => "run.close",
            Method::WorkItemCreate { .. } => "work_item.create",
            Method::UnitAdmit { .. } => "unit.admit",
            Method::UnitDispatch { .. } => "unit.dispatch",
            Method::ProgressReport { .. } => "unit.progress_report",
            Method::StampBump { .. } => "unit.stamp_bump",
            Method::TokenReissue { .. } => "unit.token_reissue",
            Method::EffectPrepare { .. } => "effect.prepare",
            Method::EffectDispatch { .. } => "effect.dispatch",
            Method::EffectRecordDispatched { .. } => "effect.record_dispatched",
            Method::EffectSettle { .. } => "effect.settle",
            Method::EffectParkReconciling { .. } => "effect.park_reconciling",
            Method::CancelRequest { .. } => "cancel.request",
            Method::CancelRecordDelivery { .. } => "cancel.record_delivery",
        }
    }

    /// The operation key that the method carries, if it carries one.
    pub open spec fn carries_key(self) -> Option<Seq<char>> {
        match self {
            Method::EffectDispatch { operation_key, .. } => Some(operation_key@),
            Method::EffectRecordDispatched { operation_key, .. } => Some(operation_key@),
            Method::EffectSettle { operation_key, .. } => Some(operation_key@),
            Method::EffectParkReconciling { operation_key, .. } => Some(operation_key@),
            _ => None,
        }
    }

    /// The operation key that the method carries, if it carries one.
    pub fn operation_key(&self) -> (r: Option<&str>)
        ensures
            match r {
                Some(s) => self.carries_key() == Some(s@),
                None => self.carries_key() is None,
            },
    {
        match self {
            Method::EffectDispatch { operation_key, .. } => Some(operation_key),
            Method::EffectRecordDispatched { operation_key, .. } => Some(operation_key),
            Method::EffectSettle { operation_key, .. } => Some(operation_key),
            Method::EffectParkReconciling { operation_key, .. } => Some(operation_key),
            _ => None,
        }
    }
}

/// The answer to a command.
#[derive(Debug, PartialEq)]
pub enum Submission {
    Completed { result: Value },
    /// A completed receipt returned to a retry.
    Replayed { result: Value },
    Rejected {
        kind: ErrorKind,
        detail: String,
        /// Whether the rejection was served from a persisted receipt.
        replayed: bool,
    },
}

/// The view of a `Submission`.
pub enum SubmissionView {
    Completed { result: JsonView },
    Replayed { result: JsonView },
    Rejected { kind: ErrorKind, detail: Seq<char>, replayed: bool },
}

impl View for Submission {
    type V = SubmissionView;

    open spec fn view(&self) -> SubmissionView {
        match self {
            Submission::Completed { result } => SubmissionView::Completed {
                result: json_tree(*result),
            },
            Submission::Replayed { result } => SubmissionView::Replayed {
                result: json_tree(*result),
            },
            Submission::Rejected { kind, detail, replayed } => SubmissionView::Rejected {
                kind: *kind,
                detail: detail@,
                replayed: *replayed,
            },
        }
    }
}

/// Why a command is refused, and whether the refusal is kept as a receipt.
#[derive(Debug)]
pub struct Rejection {
    pub kind: ErrorKind,
    pub detail: String,
    pub persist: bool,
}

/// The view of a `Rejection`.
pub struct RejectionView {
    pub kind: ErrorKind,
    pub detail: Seq<char>,
    pub persist: bool,
}

impl View for Rejection {
    type V = RejectionView;

    open spec fn view(&self) -> RejectionView {
        RejectionView {
            kind: self.kind,
            detail: self.detail@,
            persist: self.persist,
        }
    }
}

/// A refusal.
pub open spec fn refuse(kind: ErrorKind, detail: Seq<char>, persist: bool) -> RejectionView {
    RejectionView { kind, detail, persist }
}

/// A refusal with a fixed detail.
pub fn refusal(kind: ErrorKind, detail: &str, persist: bool) -> (r: Rejection)
    ensures
        r@ == refuse(kind, detail@, persist),
{
    Rejection { kind, detail: detail.to_owned(), persist }
}

} // verus!
