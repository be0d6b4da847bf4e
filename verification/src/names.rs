//! The names by which the wire and the logs know the values of the library, one by one, and the
//! errors after which a caller may try again.
use crate::error::{ErrorKind, ProviderErrorKind};
use crate::harness::schema as harness;
use crate::protocol::types as wire;
use crate::{cancel, effect, funnel::command, harness::workload, provider};
use vstd::prelude::*;
use vstd::string::*;

verus! {

/// What every `CancelKind` is called on the wire.
pub proof fn cancel_kind_names(v: cancel::CancelKind)
    ensures
        v == cancel::CancelKind::Run ==> v.wire_text() == "run"@,
        v == cancel::CancelKind::ExecutionUnit ==> v.wire_text() == "execution_unit"@,
        v == cancel::CancelKind::Attempt ==> v.wire_text() == "attempt"@,
        v == cancel::CancelKind::EffectIntent ==> v.wire_text() == "effect_intent"@,
{
}

/// What every `CancelKind` is called in a diagnostic.
pub proof fn cancel_kind_labels(v: cancel::CancelKind)
    ensures
        v == cancel::CancelKind::Run ==> v.debug_name_text() == "Run"@,
        v == cancel::CancelKind::ExecutionUnit ==> v.debug_name_text() == "ExecutionUnit"@,
        v == cancel::CancelKind::Attempt ==> v.debug_name_text() == "Attempt"@,
        v == cancel::CancelKind::EffectIntent ==> v.debug_name_text() == "EffectIntent"@,
{
}

/// What every `CancelPolicy` is called on the wire.
pub proof fn cancel_policy_names(v: cancel::CancelPolicy)
    ensures
        v == cancel::CancelPolicy::AttachedCascade ==> v.wire_text() == "attached_cascade"@,
        v == cancel::CancelPolicy::RootOnly ==> v.wire_text() == "root_only"@,
{
}

/// What every `CancelReason` is called on the wire.
pub proof fn cancel_reason_names(v: cancel::CancelReason)
    ensures
        v == cancel::CancelReason::OwnerRequest ==> v.wire_text() == "owner_request"@,
        v == cancel::CancelReason::BudgetExhausted ==> v.wire_text() == "budget_exhausted"@,
        v == cancel::CancelReason::PolicyViolation ==> v.wire_text() == "policy_violation"@,
        v == cancel::CancelReason::SupersededByEpoch ==> v.wire_text() == "superseded_by_epoch"@,
        v == cancel::CancelReason::DependencyFailed ==> v.wire_text() == "dependency_failed"@,
        v == cancel::CancelReason::ShutdownDrain ==> v.wire_text() == "shutdown_drain"@,
{
}

/// What every `CancelStatus` is called on the wire.
pub proof fn cancel_status_names(v: cancel::CancelStatus)
    ensures
        v == cancel::CancelStatus::Requested ==> v.wire_text() == "requested"@,
        v == cancel::CancelStatus::Delivering ==> v.wire_text() == "delivering"@,
        v == cancel::CancelStatus::ObservedPartial ==> v.wire_text() == "observed_partial"@,
        v == cancel::CancelStatus::Settled ==> v.wire_text() == "settled"@,
{
}

/// What every `DeliveryOutcome` is called on the wire.
pub proof fn delivery_outcome_names(v: cancel::DeliveryOutcome)
    ensures
        v == cancel::DeliveryOutcome::ObservedStopped ==> v.wire_text() == "observed_stopped"@,
        v == cancel::DeliveryOutcome::Unresponsive ==> v.wire_text() == "unresponsive"@,
        v == cancel::DeliveryOutcome::AlreadyTerminal ==> v.wire_text() == "already_terminal"@,
        v == cancel::DeliveryOutcome::DetachedDeclined ==> v.wire_text() == "detached_declined"@,
{
}

/// What every `EffectState` is called on the wire.
pub proof fn effect_state_names(v: effect::EffectState)
    ensures
        v == effect::EffectState::Prepared ==> v.wire_text() == "prepared"@,
        v == effect::EffectState::Dispatching ==> v.wire_text() == "dispatching"@,
        v == effect::EffectState::Dispatched ==> v.wire_text() == "dispatched"@,
        v == effect::EffectState::Observing ==> v.wire_text() == "observing"@,
        v == effect::EffectState::Reconciling ==> v.wire_text() == "reconciling"@,
        v == effect::EffectState::Compensating ==> v.wire_text() == "compensating"@,
        v == effect::EffectState::Settled ==> v.wire_text() == "settled"@,
{
}

/// What every `EffectState` is called in a diagnostic.
pub proof fn effect_state_labels(v: effect::EffectState)
    ensures
        v == effect::EffectState::Prepared ==> v.debug_name_text() == "Prepared"@,
        v == effect::EffectState::Dispatching ==> v.debug_name_text() == "Dispatching"@,
        v == effect::EffectState::Dispatched ==> v.debug_name_text() == "Dispatched"@,
        v == effect::EffectState::Observing ==> v.debug_name_text() == "Observing"@,
        v == effect::EffectState::Reconciling ==> v.debug_name_text() == "Reconciling"@,
        v == effect::EffectState::Compensating ==> v.debug_name_text() == "Compensating"@,
        v == effect::EffectState::Settled ==> v.debug_name_text() == "Settled"@,
{
}

/// What every `EffectTerminal` is called on the wire.
pub proof fn effect_terminal_names(v: effect::EffectTerminal)
    ensures
        v == effect::EffectTerminal::Succeeded ==> v.wire_text() == "succeeded"@,
        v == effect::EffectTerminal::Failed ==> v.wire_text() == "failed"@,
        v == effect::EffectTerminal::Cancelled ==> v.wire_text() == "cancelled"@,
        v == effect::EffectTerminal::Compensated ==> v.wire_text() == "compensated"@,
        v == effect::EffectTerminal::Unknown ==> v.wire_text() == "unknown"@,
{
}

/// What every `EffectTerminal` is called in a diagnostic.
pub proof fn effect_terminal_labels(v: effect::EffectTerminal)
    ensures
        v == effect::EffectTerminal::Succeeded ==> v.debug_name_text() == "Succeeded"@,
        v == effect::EffectTerminal::Failed ==> v.debug_name_text() == "Failed"@,
        v == effect::EffectTerminal::Cancelled ==> v.debug_name_text() == "Cancelled"@,
        v == effect::EffectTerminal::Compensated ==> v.debug_name_text() == "Compensated"@,
        v == effect::EffectTerminal::Unknown ==> v.debug_name_text() == "Unknown"@,
{
}

/// What every `RetryClass` is called on the wire.
pub proof fn retry_class_names(v: effect::RetryClass)
    ensures
        v == effect::RetryClass::SafeWithOperationKey ==> v.wire_text() == "safe_with_operation_key"@,
        v == effect::RetryClass::QueryThenRetry ==> v.wire_text() == "query_then_retry"@,
        v == effect::RetryClass::NoRetry ==> v.wire_text() == "no_retry"@,
{
}

/// What every `ReversibilityClass` is called on the wire.
pub proof fn reversibility_class_names(v: effect::ReversibilityClass)
    ensures
        v == effect::ReversibilityClass::Bufferable ==> v.wire_text() == "bufferable"@,
        v == effect::ReversibilityClass::Compensable ==> v.wire_text() == "compensable"@,
        v == effect::ReversibilityClass::Irreversible ==> v.wire_text() == "irreversible"@,
{
}

/// What every `TargetEnumeration` is called on the wire.
pub proof fn target_enumeration_names(v: effect::TargetEnumeration)
    ensures
        v == effect::TargetEnumeration::Declared ==> v.wire_text() == "declared"@,
        v == effect::TargetEnumeration::PostHoc ==> v.wire_text() == "post_hoc"@,
{
}

/// What every `TargetState` is called on the wire.
pub proof fn target_state_names(v: effect::TargetState)
    ensures
        v == effect::TargetState::Applied ==> v.wire_text() == "applied"@,
        v == effect::TargetState::NotApplied ==> v.wire_text() == "not_applied"@,
        v == effect::TargetState::Unknown ==> v.wire_text() == "unknown"@,
{
}

/// What every `ErrorKind` is called on the wire.
pub proof fn error_kind_names(v: ErrorKind)
    ensures
        v == ErrorKind::InvalidRequest ==> v.wire_text() == "invalid_request"@,
        v == ErrorKind::Unauthenticated ==> v.wire_text() == "unauthenticated"@,
        v == ErrorKind::Unauthorized ==> v.wire_text() == "unauthorized"@,
        v == ErrorKind::NotFound ==> v.wire_text() == "not_found"@,
        v == ErrorKind::VersionConflict ==> v.wire_text() == "version_conflict"@,
        v == ErrorKind::IdempotencyConflict ==> v.wire_text() == "idempotency_conflict"@,
        v == ErrorKind::FenceRejected ==> v.wire_text() == "fence_rejected"@,
        v == ErrorKind::JournalImmutable ==> v.wire_text() == "journal_immutable"@,
        v == ErrorKind::PolicyDenied ==> v.wire_text() == "policy_denied"@,
        v == ErrorKind::CapabilityUnsupported ==> v.wire_text() == "capability_unsupported"@,
        v == ErrorKind::ApprovalRequired ==> v.wire_text() == "approval_required"@,
        v == ErrorKind::ResourceExhausted ==> v.wire_text() == "resource_exhausted"@,
        v == ErrorKind::PayloadTooLarge ==> v.wire_text() == "payload_too_large"@,
        v == ErrorKind::CursorExpired ==> v.wire_text() == "cursor_expired"@,
        v == ErrorKind::SlowConsumer ==> v.wire_text() == "slow_consumer"@,
        v == ErrorKind::Cancelled ==> v.wire_text() == "cancelled"@,
        v == ErrorKind::DeadlineExceeded ==> v.wire_text() == "deadline_exceeded"@,
        v == ErrorKind::Unavailable ==> v.wire_text() == "unavailable"@,
        v == ErrorKind::OutcomeUnknown ==> v.wire_text() == "outcome_unknown"@,
        v == ErrorKind::Internal ==> v.wire_text() == "internal"@,
{
}

/// What every `ProviderErrorKind` is called on the wire.
pub proof fn provider_error_kind_names(v: ProviderErrorKind)
    ensures
        v == ProviderErrorKind::RateLimit ==> v.wire_text() == "rate_limit"@,
        v == ProviderErrorKind::InvalidRequest ==> v.wire_text() == "invalid_request"@,
        v == ProviderErrorKind::ContextLengthExceeded ==> v.wire_text() == "context_length_exceeded"@,
        v == ProviderErrorKind::ServerError ==> v.wire_text() == "server_error"@,
        v == ProviderErrorKind::UnsupportedCapability ==> v.wire_text() == "unsupported_capability"@,
{
}

/// What every `PrincipalKind` is called on the wire.
pub proof fn principal_kind_names(v: command::PrincipalKind)
    ensures
        v == command::PrincipalKind::Owner ==> v.wire_text() == "owner"@,
        v == command::PrincipalKind::DelegateHuman ==> v.wire_text() == "delegate_human"@,
        v == command::PrincipalKind::Agent ==> v.wire_text() == "agent"@,
        v == command::PrincipalKind::Daemon ==> v.wire_text() == "daemon"@,
{
}

/// What every `PrincipalKind` is called in a diagnostic.
pub proof fn principal_kind_labels(v: command::PrincipalKind)
    ensures
        v == command::PrincipalKind::Owner ==> v.debug_name_text() == "Owner"@,
        v == command::PrincipalKind::DelegateHuman ==> v.debug_name_text() == "DelegateHuman"@,
        v == command::PrincipalKind::Agent ==> v.debug_name_text() == "Agent"@,
        v == command::PrincipalKind::Daemon ==> v.debug_name_text() == "Daemon"@,
{
}

/// What every `RunOutcome` is called on the wire.
pub proof fn run_outcome_names(v: command::RunOutcome)
    ensures
        v == command::RunOutcome::ClosedSuccess ==> v.wire_text() == "closed_success"@,
        v == command::RunOutcome::ClosedFailure ==> v.wire_text() == "closed_failure"@,
        v == command::RunOutcome::Cancelled ==> v.wire_text() == "cancelled"@,
{
}

/// What every `ScopeKind` is called on the wire.
pub proof fn scope_kind_names(v: command::ScopeKind)
    ensures
        v == command::ScopeKind::Global ==> v.wire_text() == "global"@,
        v == command::ScopeKind::Project ==> v.wire_text() == "project"@,
        v == command::ScopeKind::Run ==> v.wire_text() == "run"@,
        v == command::ScopeKind::Unit ==> v.wire_text() == "unit"@,
{
}

/// What every `EffectState` is called in the records.
pub proof fn harness_effect_state_names(v: harness::EffectState)
    ensures
        v == harness::EffectState::Prepared ==> v.name_text() == "Prepared"@,
        v == harness::EffectState::Dispatched ==> v.name_text() == "Dispatched"@,
        v == harness::EffectState::Succeeded ==> v.name_text() == "Succeeded"@,
        v == harness::EffectState::Failed ==> v.name_text() == "Failed"@,
        v == harness::EffectState::Unknown ==> v.name_text() == "Unknown"@,
{
}

/// What every `CommandKind` is called in the records.
pub proof fn harness_command_kind_names(v: harness::CommandKind)
    ensures
        v == harness::CommandKind::Dispatch ==> v.name_text() == "Dispatch"@,
        v == harness::CommandKind::LeaseRenewal ==> v.name_text() == "LeaseRenewal"@,
        v == harness::CommandKind::ProgressRollup ==> v.name_text() == "ProgressRollup"@,
        v == harness::CommandKind::ToolCompletion ==> v.name_text() == "ToolCompletion"@,
        v == harness::CommandKind::ReviewEvidence ==> v.name_text() == "ReviewEvidence"@,
        v == harness::CommandKind::Cancellation ==> v.name_text() == "Cancellation"@,
        v == harness::CommandKind::OwnerDecision ==> v.name_text() == "OwnerDecision"@,
{
}

/// What every `KillPoint` is called in the records.
pub proof fn harness_kill_point_names(v: harness::KillPoint)
    ensures
        v == harness::KillPoint::PreSeal ==> v.name_text() == "PreSeal"@,
        v == harness::KillPoint::PostSealPrePublish ==> v.name_text() == "PostSealPrePublish"@,
        v == harness::KillPoint::PostPublishPreResponse ==> v.name_text() == "PostPublishPreResponse"@,
        v == harness::KillPoint::ArtifactPublication ==> v.name_text() == "ArtifactPublication"@,
        v == harness::KillPoint::MidEffectIntent ==> v.name_text() == "MidEffectIntent"@,
        v == harness::KillPoint::WriterTakeover ==> v.name_text() == "WriterTakeover"@,
        v == harness::KillPoint::CursorAllocAbort ==> v.name_text() == "CursorAllocAbort"@,
{
}

/// What every `UnitPhase` is called in the records.
pub proof fn unit_phase_names(v: workload::UnitPhase)
    ensures
        v == workload::UnitPhase::Ready ==> v.name_text() == "Ready"@,
        v == workload::UnitPhase::Working ==> v.name_text() == "Working"@,
        v == workload::UnitPhase::Reviewing ==> v.name_text() == "Reviewing"@,
        v == workload::UnitPhase::Terminal ==> v.name_text() == "Terminal"@,
{
}

/// What every `ScopeKind` is called on the wire.
pub proof fn wire_scope_kind_names(v: wire::ScopeKind)
    ensures
        v == wire::ScopeKind::Global ==> v.wire_text() == "global"@,
        v == wire::ScopeKind::Project ==> v.wire_text() == "project"@,
        v == wire::ScopeKind::Run ==> v.wire_text() == "run"@,
        v == wire::ScopeKind::Unit ==> v.wire_text() == "unit"@,
{
}

/// What every `RunCloseOutcome` is called on the wire.
pub proof fn wire_run_close_outcome_names(v: wire::RunCloseOutcome)
    ensures
        v == wire::RunCloseOutcome::ClosedSuccess ==> v.wire_text() == "closed_success"@,
        v == wire::RunCloseOutcome::ClosedFailure ==> v.wire_text() == "closed_failure"@,
        v == wire::RunCloseOutcome::Cancelled ==> v.wire_text() == "cancelled"@,
{
}

/// What every `ReceiptOutcome` is called on the wire.
pub proof fn wire_receipt_outcome_names(v: wire::ReceiptOutcome)
    ensures
        v == wire::ReceiptOutcome::Accepted ==> v.wire_text() == "accepted"@,
        v == wire::ReceiptOutcome::Completed ==> v.wire_text() == "completed"@,
        v == wire::ReceiptOutcome::Replayed ==> v.wire_text() == "replayed"@,
        v == wire::ReceiptOutcome::Rejected ==> v.wire_text() == "rejected"@,
        v == wire::ReceiptOutcome::OutcomeUnknown ==> v.wire_text() == "outcome_unknown"@,
{
}

/// What every `StreamClass` is called on the wire.
pub proof fn wire_stream_class_names(v: wire::StreamClass)
    ensures
        v == wire::StreamClass::DurableSemantic ==> v.wire_text() == "durable_semantic"@,
        v == wire::StreamClass::Progress ==> v.wire_text() == "progress"@,
        v == wire::StreamClass::Telemetry ==> v.wire_text() == "telemetry"@,
{
}

/// What every `ErrorKind` is called on the wire.
pub proof fn wire_error_kind_names(v: wire::ErrorKind)
    ensures
        v == wire::ErrorKind::InvalidRequest ==> v.wire_text() == "invalid_request"@,
        v == wire::ErrorKind::Unauthenticated ==> v.wire_text() == "unauthenticated"@,
        v == wire::ErrorKind::Unauthorized ==> v.wire_text() == "unauthorized"@,
        v == wire::ErrorKind::NotFound ==> v.wire_text() == "not_found"@,
        v == wire::ErrorKind::VersionConflict ==> v.wire_text() == "version_conflict"@,
        v == wire::ErrorKind::IdempotencyConflict ==> v.wire_text() == "idempotency_conflict"@,
        v == wire::ErrorKind::FenceRejected ==> v.wire_text() == "fence_rejected"@,
        v == wire::ErrorKind::JournalImmutable ==> v.wire_text() == "journal_immutable"@,
        v == wire::ErrorKind::PolicyDenied ==> v.wire_text() == "policy_denied"@,
        v == wire::ErrorKind::CapabilityUnsupported ==> v.wire_text() == "capability_unsupported"@,
        v == wire::ErrorKind::ApprovalRequired ==> v.wire_text() == "approval_required"@,
        v == wire::ErrorKind::ResourceExhausted ==> v.wire_text() == "resource_exhausted"@,
        v == wire::ErrorKind::PayloadTooLarge ==> v.wire_text() == "payload_too_large"@,
        v == wire::ErrorKind::CursorExpired ==> v.wire_text() == "cursor_expired"@,
        v == wire::ErrorKind::SlowConsumer ==> v.wire_text() == "slow_consumer"@,
        v == wire::ErrorKind::Cancelled ==> v.wire_text() == "cancelled"@,
        v == wire::ErrorKind::DeadlineExceeded ==> v.wire_text() == "deadline_exceeded"@,
        v == wire::ErrorKind::Unavailable ==> v.wire_text() == "unavailable"@,
        v == wire::ErrorKind::OutcomeUnknown ==> v.wire_text() == "outcome_unknown"@,
        v == wire::ErrorKind::Internal ==> v.wire_text() == "internal"@,
{
}

/// What every `CommandType` is called on the wire.
pub proof fn wire_command_type_names(v: wire::CommandType)
    ensures
        v == wire::CommandType::RunOpen ==> v.wire_text() == "run.open"@,
        v == wire::CommandType::RunClose ==> v.wire_text() == "run.close"@,
        v == wire::CommandType::WorkItemCreate ==> v.wire_text() == "work_item.create"@,
        v == wire::CommandType::UnitAdmit ==> v.wire_text() == "unit.admit"@,
        v == wire::CommandType::UnitDispatch ==> v.wire_text() == "unit.dispatch"@,
        v == wire::CommandType::ProgressReport ==> v.wire_text() == "unit.progress_report"@,
        v == wire::CommandType::StampBump ==> v.wire_text() == "unit.stamp_bump"@,
{
}

/// What every `Dialect` is called on the wire.
pub proof fn dialect_names(v: provider::Dialect)
    ensures
        v == provider::Dialect::Responses ==> v.wire_text() == "responses"@,
        v == provider::Dialect::AnthropicMessages ==> v.wire_text() == "anthropic_messages"@,
{
}

/// What every `FinishReason` is called on the wire.
pub proof fn finish_reason_names(v: provider::FinishReason)
    ensures
        v == provider::FinishReason::Stop ==> v.wire_text() == "stop"@,
        v == provider::FinishReason::Length ==> v.wire_text() == "length"@,
        v == provider::FinishReason::ToolCall ==> v.wire_text() == "tool_call"@,
        v == provider::FinishReason::ContentFilter ==> v.wire_text() == "content_filter"@,
        v == provider::FinishReason::Error ==> v.wire_text() == "error"@,
        v == provider::FinishReason::Interrupted ==> v.wire_text() == "interrupted"@,
{
}

/// What every `ServedModelEvidence` is called on the wire.
pub proof fn served_model_evidence_names(v: provider::ServedModelEvidence)
    ensures
        v == provider::ServedModelEvidence::ResponseField ==> v.wire_text() == "response_field"@,
        v == provider::ServedModelEvidence::ResponseHeader ==> v.wire_text() == "response_header"@,
        v == provider::ServedModelEvidence::Absent ==> v.wire_text() == "absent"@,
{
}

/// The errors of the kernel after which the same command may be tried again: those that pass with
/// time, and no other.
pub proof fn errors_that_pass(v: ErrorKind)
    ensures
        v.may_retry() <==> v == ErrorKind::VersionConflict || v
            == ErrorKind::ApprovalRequired || v
            == ErrorKind::ResourceExhausted || v
            == ErrorKind::DeadlineExceeded || v
            == ErrorKind::Unavailable,
{
}

/// The one error after which the outcome must be found out first: it is not known. It does not pass.
pub proof fn unknown_outcomes_must_be_reconciled(v: ErrorKind)
    ensures
        v.must_reconcile() <==> v == ErrorKind::OutcomeUnknown,
        v.must_reconcile() ==> !v.may_retry(),
{
}

/// The provider errors that pass: a limit of the rate and a fault of the server, and no other.
pub proof fn provider_errors_that_pass(v: ProviderErrorKind)
    ensures
        v.is_transient() <==> v != ProviderErrorKind::InvalidRequest && v
            != ProviderErrorKind::ContextLengthExceeded && v
            != ProviderErrorKind::UnsupportedCapability,
{
}

/// The errors on the wire after which the same request may be tried again: those that pass with
/// time, and no other.
pub proof fn wire_errors_that_pass(v: wire::ErrorKind)
    ensures
        v.may_retry() <==> v == wire::ErrorKind::VersionConflict || v
            == wire::ErrorKind::ApprovalRequired || v
            == wire::ErrorKind::ResourceExhausted || v
            == wire::ErrorKind::DeadlineExceeded || v
            == wire::ErrorKind::Unavailable,
{
}

/// No two errors on the wire have one place, so that an occurrence tells its kind.
pub proof fn wire_errors_have_their_own_places(a: wire::ErrorKind, b: wire::ErrorKind)
    requires
        a.place() == b.place(),
    ensures
        a == b,
        a.place() < 20,
{
}

} // verus!
