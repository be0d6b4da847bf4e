//! Error vocabulary.
//!
//! Two taxonomies live here and they do not mix: [`ErrorKind`] is the closed enum that
//! clients branch on, and [`ProviderErrorKind`] is the typed classification that a
//! normalized model call surfaces in place of a raw provider payload.
use crate::text::same;
use vstd::prelude::*;
use vstd::string::*;

verus! {

/// The closed error taxonomy. Clients branch only on this; a reason and details are
/// diagnostic. An unknown member is a decode failure.
#[derive(Clone, Copy, Debug, PartialEq, Eq, Hash, Structural)]
pub enum ErrorKind {
    InvalidRequest,
    Unauthenticated,
    Unauthorized,
    NotFound,
    VersionConflict,
    IdempotencyConflict,
    FenceRejected,
    JournalImmutable,
    PolicyDenied,
    CapabilityUnsupported,
    ApprovalRequired,
    ResourceExhausted,
    PayloadTooLarge,
    CursorExpired,
    SlowConsumer,
    Cancelled,
    DeadlineExceeded,
    Unavailable,
    OutcomeUnknown,
    Internal,
}

impl ErrorKind {
    /// The name of the kind on the wire: snake case.
    pub open spec fn wire_text(self) -> Seq<char> {
        match self {
            ErrorKind::InvalidRequest => "invalid_request"@,
            ErrorKind::Unauthenticated => "unauthenticated"@,
            ErrorKind::Unauthorized => "unauthorized"@,
            ErrorKind::NotFound => "not_found"@,
            ErrorKind::VersionConflict => "version_conflict"@,
            ErrorKind::IdempotencyConflict => "idempotency_conflict"@,
            ErrorKind::FenceRejected => "fence_rejected"@,
            ErrorKind::JournalImmutable => "journal_immutable"@,
            ErrorKind::PolicyDenied => "policy_denied"@,
            ErrorKind::CapabilityUnsupported => "capability_unsupported"@,
            ErrorKind::ApprovalRequired => "approval_required"@,
            ErrorKind::ResourceExhausted => "resource_exhausted"@,
            ErrorKind::PayloadTooLarge => "payload_too_large"@,
            ErrorKind::CursorExpired => "cursor_expired"@,
            ErrorKind::SlowConsumer => "slow_consumer"@,
            ErrorKind::Cancelled => "cancelled"@,
            ErrorKind::DeadlineExceeded => "deadline_exceeded"@,
            ErrorKind::Unavailable => "unavailable"@,
            ErrorKind::OutcomeUnknown => "outcome_unknown"@,
            ErrorKind::Internal => "internal"@,
        }
    }

    /// The name of the kind on the wire.
    pub fn wire(self) -> (r: &'static str)
        ensures
            r@ == self.wire_text(),
    {
        match self {
            ErrorKind::InvalidRequest => "invalid_request",
            ErrorKind::Unauthenticated => "unauthenticated",
            ErrorKind::Unauthorized => "unauthorized",
            ErrorKind::NotFound => "not_found",
            ErrorKind::VersionConflict => "version_conflict",
            ErrorKind::IdempotencyConflict => "idempotency_conflict",
            ErrorKind::FenceRejected => "fence_rejected",
            ErrorKind::JournalImmutable => "journal_immutable",
            ErrorKind::PolicyDenied => "policy_denied",
            ErrorKind::CapabilityUnsupported => "capability_unsupported",
            ErrorKind::ApprovalRequired => "approval_required",
            ErrorKind::ResourceExhausted => "resource_exhausted",
            ErrorKind::PayloadTooLarge => "payload_too_large",
            ErrorKind::CursorExpired => "cursor_expired",
            ErrorKind::SlowConsumer => "slow_consumer",
            ErrorKind::Cancelled => "cancelled",
            ErrorKind::DeadlineExceeded => "deadline_exceeded",
            ErrorKind::Unavailable => "unavailable",
            ErrorKind::OutcomeUnknown => "outcome_unknown",
            ErrorKind::Internal => "internal",
        }
    }

    /// The kind that a wire name stands for, if it is one.
    pub fn from_wire(wire: &str) -> (r: Option<ErrorKind>)
        ensures
            r == error_kind_named(wire@),
    {
        if same(wire, "invalid_request") {
            Some(ErrorKind::InvalidRequest)
        } else if same(wire, "unauthenticated") {
            Some(ErrorKind::Unauthenticated)
        } else if same(wire, "unauthorized") {
            Some(ErrorKind::Unauthorized)
        } else if same(wire, "not_found") {
            Some(ErrorKind::NotFound)
        } else if same(wire, "version_conflict") {
            Some(ErrorKind::VersionConflict)
        } else if same(wire, "idempotency_conflict") {
            Some(ErrorKind::IdempotencyConflict)
        } else if same(wire, "fence_rejected") {
            Some(ErrorKind::FenceRejected)
        } else if same(wire, "journal_immutable") {
            Some(ErrorKind::JournalImmutable)
        } else if same(wire, "policy_denied") {
            Some(ErrorKind::PolicyDenied)
        } else if same(wire, "capability_unsupported") {
            Some(ErrorKind::CapabilityUnsupported)
        } else if same(wire, "approval_required") {
            Some(ErrorKind::ApprovalRequired)
        } else if same(wire, "resource_exhausted") {
            Some(ErrorKind::ResourceExhausted)
        } else if same(wire, "payload_too_large") {
            Some(ErrorKind::PayloadTooLarge)
        } else if same(wire, "cursor_expired") {
            Some(ErrorKind::CursorExpired)
        } else if same(wire, "slow_consumer") {
            Some(ErrorKind::SlowConsumer)
        } else if same(wire, "cancelled") {
            Some(ErrorKind::Cancelled)
        } else if same(wire, "deadline_exceeded") {
            Some(ErrorKind::DeadlineExceeded)
        } else if same(wire, "unavailable") {
            Some(ErrorKind::Unavailable)
        } else if same(wire, "outcome_unknown") {
            Some(ErrorKind::OutcomeUnknown)
        } else if same(wire, "internal") {
            Some(ErrorKind::Internal)
        } else {
            None
        }
    }

    /// Whether a client may retry on this kind alone.
    pub open spec fn may_retry(self) -> bool {
        ||| self == ErrorKind::VersionConflict
        ||| self == ErrorKind::ApprovalRequired
        ||| self == ErrorKind::ResourceExhausted
        ||| self == ErrorKind::DeadlineExceeded
        ||| self == ErrorKind::Unavailable
    }

    /// Whether a client may retry on this kind alone.
    pub fn retryable(self) -> (r: bool)
        ensures
            r == self.may_retry(),
    {
        matches!(
            self,
            ErrorKind::VersionConflict
                | ErrorKind::ApprovalRequired
                | ErrorKind::ResourceExhausted
                | ErrorKind::DeadlineExceeded
                | ErrorKind::Unavailable
        )
    }

    /// Whether the outcome must be found out before anything is tried again.
    pub open spec fn must_reconcile(self) -> bool {
        self == ErrorKind::OutcomeUnknown
    }

    /// An unknown outcome is the only kind that demands reconciliation before any retry.
    pub fn reconcile_required(self) -> (r: bool)
        ensures
            r == (self == ErrorKind::OutcomeUnknown),
            r == self.must_reconcile(),
    {
        self == ErrorKind::OutcomeUnknown
    }
}

/// The kind that a wire name stands for, if it is one.
pub open spec fn error_kind_named(wire: Seq<char>) -> Option<ErrorKind> {
    if wire == "invalid_request"@ {
        Some(ErrorKind::InvalidRequest)
    } else if wire == "unauthenticated"@ {
        Some(ErrorKind::Unauthenticated)
    } else if wire == "unauthorized"@ {
        Some(ErrorKind::Unauthorized)
    } else if wire == "not_found"@ {
        Some(ErrorKind::NotFound)
    } else if wire == "version_conflict"@ {
        Some(ErrorKind::VersionConflict)
    } else if wire == "idempotency_conflict"@ {
        Some(ErrorKind::IdempotencyConflict)
    } else if wire == "fence_rejected"@ {
        Some(ErrorKind::FenceRejected)
    } else if wire == "journal_immutable"@ {
        Some(ErrorKind::JournalImmutable)
    } else if wire == "policy_denied"@ {
        Some(ErrorKind::PolicyDenied)
    } else if wire == "capability_unsupported"@ {
        Some(ErrorKind::CapabilityUnsupported)
    } else if wire == "approval_required"@ {
        Some(ErrorKind::ApprovalRequired)
    } else if wire == "resource_exhausted"@ {
        Some(ErrorKind::ResourceExhausted)
    } else if wire == "payload_too_large"@ {
        Some(ErrorKind::PayloadTooLarge)
    } else if wire == "cursor_expired"@ {
        Some(ErrorKind::CursorExpired)
    } else if wire == "slow_consumer"@ {
        Some(ErrorKind::SlowConsumer)
    } else if wire == "cancelled"@ {
        Some(ErrorKind::Cancelled)
    } else if wire == "deadline_exceeded"@ {
        Some(ErrorKind::DeadlineExceeded)
    } else if wire == "unavailable"@ {
        Some(ErrorKind::Unavailable)
    } else if wire == "outcome_unknown"@ {
        Some(ErrorKind::OutcomeUnknown)
    } else if wire == "internal"@ {
        Some(ErrorKind::Internal)
    } else {
        None
    }
}

/// A kind is read back from its wire name.
pub proof fn error_kind_reads_back(v: ErrorKind)
    ensures
        error_kind_named(v.wire_text()) == Some(v),
{
    reveal_strlit("invalid_request");
    assert("invalid_request"@.len() == 15);
    reveal_strlit("unauthenticated");
    assert("unauthenticated"@.len() == 15);
    reveal_strlit("unauthorized");
    assert("unauthorized"@.len() == 12);
    reveal_strlit("not_found");
    assert("not_found"@.len() == 9);
    reveal_strlit("version_conflict");
    assert("version_conflict"@.len() == 16);
    reveal_strlit("idempotency_conflict");
    assert("idempotency_conflict"@.len() == 20);
    reveal_strlit("fence_rejected");
    assert("fence_rejected"@.len() == 14);
    reveal_strlit("journal_immutable");
    assert("journal_immutable"@.len() == 17);
    reveal_strlit("policy_denied");
    assert("policy_denied"@.len() == 13);
    reveal_strlit("capability_unsupported");
    assert("capability_unsupported"@.len() == 22);
    reveal_strlit("approval_required");
    assert("approval_required"@.len() == 17);
    reveal_strlit("resource_exhausted");
    assert("resource_exhausted"@.len() == 18);
    reveal_strlit("payload_too_large");
    assert("payload_too_large"@.len() == 17);
    reveal_strlit("cursor_expired");
    assert("cursor_expired"@.len() == 14);
    reveal_strlit("slow_consumer");
    assert("slow_consumer"@.len() == 13);
    reveal_strlit("cancelled");
    assert("cancelled"@.len() == 9);
    reveal_strlit("deadline_exceeded");
    assert("deadline_exceeded"@.len() == 17);
    reveal_strlit("unavailable");
    assert("unavailable"@.len() == 11);
    reveal_strlit("outcome_unknown");
    assert("outcome_unknown"@.len() == 15);
    reveal_strlit("internal");
    assert("internal"@.len() == 8);
    assert("unauthenticated"@[0] != "invalid_request"@[0]);
    assert("approval_required"@[0] != "journal_immutable"@[0]);
    assert("payload_too_large"@[0] != "journal_immutable"@[0]);
    assert("payload_too_large"@[0] != "approval_required"@[0]);
    assert("cursor_expired"@[0] != "fence_rejected"@[0]);
    assert("slow_consumer"@[0] != "policy_denied"@[0]);
    assert("cancelled"@[0] != "not_found"@[0]);
    assert("deadline_exceeded"@[0] != "journal_immutable"@[0]);
    assert("deadline_exceeded"@[0] != "approval_required"@[0]);
    assert("deadline_exceeded"@[0] != "payload_too_large"@[0]);
    assert("outcome_unknown"@[0] != "invalid_request"@[0]);
    assert("outcome_unknown"@[0] != "unauthenticated"@[0]);
}

/// No kind that demands reconciliation may be retried on the kind alone.
pub proof fn reconciliation_comes_before_retry(kind: ErrorKind)
    ensures
        kind == ErrorKind::OutcomeUnknown ==> !kind.may_retry(),
{
}

/// Typed provider failure classes. `UnsupportedCapability` is the capability-matrix
/// failure path.
#[derive(Clone, Copy, Debug, PartialEq, Eq, Hash, Structural)]
pub enum ProviderErrorKind {
    RateLimit,
    InvalidRequest,
    ContextLengthExceeded,
    ServerError,
    UnsupportedCapability,
}

impl ProviderErrorKind {
    /// The name of the class on the wire: snake case.
    pub open spec fn wire_text(self) -> Seq<char> {
        match self {
            ProviderErrorKind::RateLimit => "rate_limit"@,
            ProviderErrorKind::InvalidRequest => "invalid_request"@,
            ProviderErrorKind::ContextLengthExceeded => "context_length_exceeded"@,
            ProviderErrorKind::ServerError => "server_error"@,
            ProviderErrorKind::UnsupportedCapability => "unsupported_capability"@,
        }
    }

    /// The name of the class on the wire.
    pub fn wire(self) -> (r: &'static str)
        ensures
            r@ == self.wire_text(),
    {
        match self {
            ProviderErrorKind::RateLimit => "rate_limit",
            ProviderErrorKind::InvalidRequest => "invalid_request",
            ProviderErrorKind::ContextLengthExceeded => "context_length_exceeded",
            ProviderErrorKind::ServerError => "server_error",
            ProviderErrorKind::UnsupportedCapability => "unsupported_capability",
        }
    }

    /// Whether the class passes with time.
    pub open spec fn is_transient(self) -> bool {
        self == ProviderErrorKind::RateLimit || self == ProviderErrorKind::ServerError
    }

    /// Transient classes are retry candidates up to the configured ceiling; the rest are
    /// terminal on first sight.
    pub fn transient(self) -> (r: bool)
        ensures
            r == (self == ProviderErrorKind::RateLimit || self == ProviderErrorKind::ServerError),
            r == self.is_transient(),
    {
        matches!(self, ProviderErrorKind::RateLimit | ProviderErrorKind::ServerError)
    }
}

} // verus!
