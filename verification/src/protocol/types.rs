//! The messages of the application protocol.
use crate::json::{copy_value, json_tree, value_map, Json, JsonView};
use crate::ids::{debug_form, debug_text};
use crate::text::{
    all_decimal, dec, dec_reads_back, dec_value, decimal, opt_view, parse_decimal, same, views,
};
use serde_json::Value;
use vstd::prelude::*;
use vstd::string::*;

verus! {

/// Members that no field of a payload holds. They are kept so that the digest of a request
/// covers them.
pub type ExtraFields = Vec<(String, Value)>;

/// A number that travels as a decimal string.
#[derive(Clone, Copy, Debug, PartialEq, Eq, Structural)]
pub struct DecimalU64 {
    value: u64,
}

impl View for DecimalU64 {
    type V = u64;

    closed spec fn view(&self) -> u64 {
        self.value
    }
}

/// Whether a text is in the canonical form of a decimal string: digits, without a leading zero.
pub open spec fn is_canonical_decimal(s: Seq<char>) -> bool {
    s.len() > 0 && all_decimal(s) && !(s.len() > 1 && s[0] == '0')
}

impl DecimalU64 {
    /// The number as a decimal string.
    pub fn new(value: u64) -> (r: Self)
        ensures
            r@ == value,
    {
        DecimalU64 { value }
    }

    /// The number.
    pub fn get(&self) -> (r: u64)
        ensures
            r == self@,
    {
        self.value
    }

    /// The text on the wire.
    pub fn to_text(&self) -> (r: String)
        ensures
            r@ == dec(self@ as nat),
    {
        decimal(self.value)
    }

    /// Reads the text on the wire. Only the canonical form of a number that fits is accepted.
    pub fn try_from(value: String) -> (r: Result<Self, String>)
        ensures
            match r {
                Ok(n) => is_canonical_decimal(value@) && dec_value(value@) == n@,
                Err(e) => if is_canonical_decimal(value@) {
                    dec_value(value@) > u64::MAX && e@ == "u64 string out of range: "@
                        + debug_form(value@)
                } else {
                    e@ == "non-canonical u64 string: "@ + debug_form(value@)
                },
            },
    {
        let chars = crate::text::chars_of(&value);
        let mut canonical = chars.len() > 0 && !(chars.len() > 1 && chars[0] == '0');
        let mut i: usize = 0;
        while canonical && i < chars.len()
            invariant
                i <= chars.len(),
                chars@ == value@,
                canonical ==> chars.len() > 0 && !(chars.len() > 1 && chars@[0] == '0'),
                canonical ==> forall|k: int|
                    0 <= k < i ==> '0' <= #[trigger] value@[k] && value@[k] <= '9',
                !canonical ==> !is_canonical_decimal(value@),
            decreases chars.len() - i, if canonical { 1int } else { 0 },
        {
            if '0' <= chars[i] && chars[i] <= '9' {
                i += 1;
            } else {
                proof {
                    assert(!('0' <= value@[i as int] && value@[i as int] <= '9'));
                }
                canonical = false;
            }
        }
        if !canonical {
            let mut e = "non-canonical u64 string: ".to_owned();
            e.append(&debug_text(&value));
            return Err(e);
        }
        match parse_decimal(&value) {
            Some(n) => Ok(DecimalU64 { value: n }),
            None => {
                let mut e = "u64 string out of range: ".to_owned();
                e.append(&debug_text(&value));
                Err(e)
            },
        }
    }
}

/// A number reads back from its text on the wire, and no other text is accepted for it.
pub proof fn decimals_read_back(n: u64, s: Seq<char>)
    ensures
        is_canonical_decimal(dec(n as nat)),
        dec_value(dec(n as nat)) == n,
        is_canonical_decimal(s) && dec_value(s) == n ==> s == dec(n as nat),
{
    dec_reads_back(n as nat);
    dec_is_canonical(n as nat);
    if is_canonical_decimal(s) && dec_value(s) == n {
        canonical_is_dec(s);
    }
}

proof fn dec_is_canonical(n: nat)
    ensures
        is_canonical_decimal(dec(n)),
        n > 0 ==> dec(n)[0] != '0',
    decreases n,
{
    dec_reads_back(n);
    if n >= 10 {
        dec_is_canonical(n / 10);
    }
}

proof fn canonical_is_dec(s: Seq<char>)
    requires
        is_canonical_decimal(s),
    ensures
        dec(dec_value(s)) == s,
        s.len() > 1 ==> dec_value(s) >= 10,
        s[0] != '0' ==> dec_value(s) > 0,
    decreases s.len(),
{
    let c = s.last();
    let d = crate::text::digit_value(c);
    assert('0' <= c && c <= '9');
    crate::text::digit_value_char(c);
    if s.len() == 1 {
        assert(s.drop_last() =~= Seq::<char>::empty());
        assert(dec_value(s.drop_last()) == 0);
        assert(s =~= seq![c]);
    } else {
        let front = s.drop_last();
        assert forall|k: int| 0 <= k < front.len() implies '0' <= #[trigger] front[k] && front[k]
            <= '9' by {
            assert(front[k] == s[k]);
        }
        canonical_is_dec(front);
        assert(dec_value(s) == dec_value(front) * 10 + d);
        assert(dec_value(s) / 10 == dec_value(front));
        assert(dec_value(s) % 10 == d);
        assert(front.push(c) =~= s);
    }
}

/// A number of at most 32 bits that travels as a JSON number.
#[derive(Clone, Copy, Debug, PartialEq, Eq, Structural)]
pub struct BoundedU32 {
    value: u32,
}

impl View for BoundedU32 {
    type V = u32;

    closed spec fn view(&self) -> u32 {
        self.value
    }
}

/// The bounded form of a number.
pub closed spec fn bounded_u32(value: u32) -> BoundedU32 {
    BoundedU32 { value }
}

/// The bounded form of a number stands for that number.
pub proof fn bounded_numbers_are_kept(value: u32)
    ensures
        bounded_u32(value)@ == value,
{
}

impl BoundedU32 {
    /// The number.
    pub fn new(value: u32) -> (r: Self)
        ensures
            r@ == value,
            r == bounded_u32(value),
    {
        BoundedU32 { value }
    }

    /// The number.
    pub fn get(self) -> (r: u32)
        ensures
            r == self@,
    {
        self.value
    }
}

/// The offset from UTC, in seconds, of the time that a text reads as; or why it is no time.
pub uninterp spec fn rfc3339_offset(text: Seq<char>) -> Result<int, Seq<char>>;

/// The text after a pattern of the time that a text reads as; or why it is no time.
pub uninterp spec fn rfc3339_text(text: Seq<char>, pattern: Seq<char>) -> Result<
    Seq<char>,
    Seq<char>,
>;

/// The pattern of a timestamp on the wire: date, time of day and milliseconds, in UTC.
pub open spec fn wire_pattern() -> Seq<char> {
    "%Y-%m-%dT%H:%M:%S%.3fZ"@
}

/// An offset that was read.
pub open spec fn offset_ok(offset: int) -> Result<int, Seq<char>> {
    Ok(offset)
}

/// No offset, for the reason in `message`.
pub open spec fn offset_err(message: Seq<char>) -> Result<int, Seq<char>> {
    Err(message)
}

/// A text that was written.
pub open spec fn text_ok(text: Seq<char>) -> Result<Seq<char>, Seq<char>> {
    Ok(text)
}

/// No text, for the reason in `message`.
pub open spec fn text_err(message: Seq<char>) -> Result<Seq<char>, Seq<char>> {
    Err(message)
}

/// `DateTime::parse_from_rfc3339`, the time taken by its offset from UTC: a function of the
/// text. An error is given by its message.
#[verifier::external_body]
fn offset_of(text: &str) -> (r: Result<i32, String>)
    ensures
        match r {
            Ok(offset) => rfc3339_offset(text@) == offset_ok(offset as int),
            Err(message) => rfc3339_offset(text@) == offset_err(message@),
        },
{
    chrono::DateTime::parse_from_rfc3339(text)
        .map(|t| t.offset().local_minus_utc())
        .map_err(|e| e.to_string())
}

/// `DateTime::format` of the time that `DateTime::parse_from_rfc3339` reads: a function of the
/// text and the pattern. It fails as the reading does. A text that is no pattern would panic;
/// the pattern of the wire is one.
#[verifier::external_body]
fn format_of(text: &str, pattern: &str) -> (r: Result<String, String>)
    requires
        pattern@ == wire_pattern(),
    ensures
        match r {
            Ok(written) => rfc3339_text(text@, pattern@) == text_ok(written@) && rfc3339_offset(
                text@,
            ) is Ok,
            Err(message) => rfc3339_text(text@, pattern@) == text_err(message@) && rfc3339_offset(
                text@,
            ) == offset_err(message@),
        },
{
    chrono::DateTime::parse_from_rfc3339(text)
        .map(|t| t.format(pattern).to_string())
        .map_err(|e| e.to_string())
}

/// What a text reads as: the offset from UTC in seconds, and the text of the time after the
/// pattern of the wire; or why it is no time.
pub open spec fn rfc3339_reading(text: Seq<char>) -> Result<(int, Seq<char>), Seq<char>> {
    match rfc3339_offset(text) {
        Err(message) => reading_err(message),
        Ok(offset) => match rfc3339_text(text, wire_pattern()) {
            Err(message) => reading_err(message),
            Ok(written) => reading_ok(offset, written),
        },
    }
}

/// A text that reads as a time.
pub open spec fn reading_ok(offset: int, text: Seq<char>) -> Result<(int, Seq<char>), Seq<char>> {
    Ok((offset, text))
}

/// A text that reads as no time.
pub open spec fn reading_err(message: Seq<char>) -> Result<(int, Seq<char>), Seq<char>> {
    Err(message)
}

/// A point in time on the wire: UTC, with milliseconds.
#[derive(Debug)]
pub struct Rfc3339Timestamp {
    text: String,
}

impl View for Rfc3339Timestamp {
    type V = Seq<char>;

    closed spec fn view(&self) -> Seq<char> {
        self.text@
    }
}

impl Clone for Rfc3339Timestamp {
    fn clone(&self) -> (r: Self)
        ensures
            r@ == self@,
    {
        Rfc3339Timestamp { text: self.text.clone() }
    }
}

/// Why a text is no timestamp on the wire, for what it reads as; `None` where it is one.
pub open spec fn timestamp_fault(
    text: Seq<char>,
    reading: Result<(int, Seq<char>), Seq<char>>,
) -> Option<Seq<char>> {
    match reading {
        Err(e) => Some("invalid RFC 3339 timestamp: "@ + e),
        Ok(pair) => if pair.0 != 0 || pair.1 != text {
            Some("timestamp must be UTC with millisecond precision"@)
        } else {
            None
        },
    }
}

/// A text is a timestamp of the wire exactly where it reads as a time in UTC and is written just as that
/// time is on the wire.
pub proof fn timestamps_are_written_one_way(
    text: Seq<char>,
    reading: Result<(int, Seq<char>), Seq<char>>,
)
    ensures
        timestamp_fault(text, reading) is None <==> reading is Ok && reading->Ok_0.0 == 0
            && reading->Ok_0.1 == text,
{
}

impl Rfc3339Timestamp {
    /// Reads a timestamp: any RFC 3339 text in UTC that is written after the pattern of the
    /// wire, with milliseconds and a `Z`.
    pub fn new(value: String) -> (r: Result<Self, String>)
        ensures
            match r {
                Ok(t) => timestamp_fault(value@, rfc3339_reading(value@)) is None && t@ == value@,
                Err(e) => timestamp_fault(value@, rfc3339_reading(value@)) == Some(e@),
            },
    {
        let reading = match offset_of(&value) {
            Err(message) => Err(message),
            Ok(offset) => match format_of(&value, "%Y-%m-%dT%H:%M:%S%.3fZ") {
                Err(message) => Err(message),
                Ok(written) => Ok((offset, written)),
            },
        };
        Rfc3339Timestamp::from_reading(value, reading)
    }

    /// Judges a timestamp by what it reads as.
    pub fn from_reading(value: String, reading: Result<(i32, String), String>) -> (r: Result<
        Self,
        String,
    >)
        ensures
            ({
                let fault = timestamp_fault(
                    value@,
                    match reading {
                        Ok(pair) => reading_ok(pair.0 as int, pair.1@),
                        Err(e) => reading_err(e@),
                    },
                );
                match r {
                    Ok(t) => fault is None && t@ == value@,
                    Err(e) => fault == Some(e@),
                }
            }),
    {
        match reading {
            Err(e) => {
                let mut s = "invalid RFC 3339 timestamp: ".to_owned();
                s.append(&e);
                Err(s)
            },
            Ok((offset, text)) => if offset != 0 || !same(&text, &value) {
                Err("timestamp must be UTC with millisecond precision".to_owned())
            } else {
                Ok(Rfc3339Timestamp { text: value })
            },
        }
    }

    /// The timestamp of a text that `format_timestamp` made.
    pub(crate) fn formatted(text: String) -> (r: Self)
        ensures
            r@ == text@,
    {
        Rfc3339Timestamp { text }
    }

    /// The text on the wire.
    pub fn as_str(&self) -> (r: &str)
        ensures
            r@ == self@,
    {
        &self.text
    }
}

/// What a scope id names.
#[derive(Clone, Copy, Debug, PartialEq, Eq, Structural)]
pub enum ScopeKind {
    Global,
    Project,
    Run,
    Unit,
}

impl ScopeKind {
    /// The name on the wire.
    pub open spec fn wire_text(self) -> Seq<char> {
        match self {
            ScopeKind::Global => "global"@,
            ScopeKind::Project => "project"@,
            ScopeKind::Run => "run"@,
            ScopeKind::Unit => "unit"@,
        }
    }

    /// The name on the wire.
    pub fn wire(self) -> (r: &'static str)
        ensures
            r@ == self.wire_text(),
    {
        match self {
            ScopeKind::Global => "global",
            ScopeKind::Project => "project",
            ScopeKind::Run => "run",
            ScopeKind::Unit => "unit",
        }
    }
}

/// The value that a wire name stands for, if it is one.
pub open spec fn scope_kind_named(wire: Seq<char>) -> Option<ScopeKind> {
    if wire == "global"@ {
        Some(ScopeKind::Global)
    } else if wire == "project"@ {
        Some(ScopeKind::Project)
    } else if wire == "run"@ {
        Some(ScopeKind::Run)
    } else if wire == "unit"@ {
        Some(ScopeKind::Unit)
    } else {
        None
    }
}

/// The value that a wire name stands for, if it is one.
pub fn scope_kind_from_wire(wire: &str) -> (r: Option<ScopeKind>)
    ensures
        r == scope_kind_named(wire@),
{
    if same(wire, "global") {
        Some(ScopeKind::Global)
    } else if same(wire, "project") {
        Some(ScopeKind::Project)
    } else if same(wire, "run") {
        Some(ScopeKind::Run)
    } else if same(wire, "unit") {
        Some(ScopeKind::Unit)
    } else {
        None
    }
}

/// Every scope kind reads back from its name on the wire.
pub proof fn scope_kind_reads_back(v: ScopeKind)
    ensures
        scope_kind_named(v.wire_text()) == Some(v),
{
    reveal_strlit("global");
    assert("global"@.len() == 6);
    reveal_strlit("project");
    assert("project"@.len() == 7);
    reveal_strlit("run");
    assert("run"@.len() == 3);
    reveal_strlit("unit");
    assert("unit"@.len() == 4);
}

/// How a run closes.
#[derive(Clone, Copy, Debug, PartialEq, Eq, Structural)]
pub enum RunCloseOutcome {
    ClosedSuccess,
    ClosedFailure,
    Cancelled,
}

impl RunCloseOutcome {
    /// The name on the wire.
    pub open spec fn wire_text(self) -> Seq<char> {
        match self {
            RunCloseOutcome::ClosedSuccess => "closed_success"@,
            RunCloseOutcome::ClosedFailure => "closed_failure"@,
            RunCloseOutcome::Cancelled => "cancelled"@,
        }
    }

    /// The name on the wire.
    pub fn wire(self) -> (r: &'static str)
        ensures
            r@ == self.wire_text(),
    {
        match self {
            RunCloseOutcome::ClosedSuccess => "closed_success",
            RunCloseOutcome::ClosedFailure => "closed_failure",
            RunCloseOutcome::Cancelled => "cancelled",
        }
    }
}

/// The value that a wire name stands for, if it is one.
pub open spec fn run_close_outcome_named(wire: Seq<char>) -> Option<RunCloseOutcome> {
    if wire == "closed_success"@ {
        Some(RunCloseOutcome::ClosedSuccess)
    } else if wire == "closed_failure"@ {
        Some(RunCloseOutcome::ClosedFailure)
    } else if wire == "cancelled"@ {
        Some(RunCloseOutcome::Cancelled)
    } else {
        None
    }
}

/// The value that a wire name stands for, if it is one.
pub fn run_close_outcome_from_wire(wire: &str) -> (r: Option<RunCloseOutcome>)
    ensures
        r == run_close_outcome_named(wire@),
{
    if same(wire, "closed_success") {
        Some(RunCloseOutcome::ClosedSuccess)
    } else if same(wire, "closed_failure") {
        Some(RunCloseOutcome::ClosedFailure)
    } else if same(wire, "cancelled") {
        Some(RunCloseOutcome::Cancelled)
    } else {
        None
    }
}

/// Every outcome reads back from its name on the wire.
pub proof fn run_close_outcome_reads_back(v: RunCloseOutcome)
    ensures
        run_close_outcome_named(v.wire_text()) == Some(v),
{
    reveal_strlit("closed_success");
    assert("closed_success"@.len() == 14);
    reveal_strlit("closed_failure");
    assert("closed_failure"@.len() == 14);
    reveal_strlit("cancelled");
    assert("cancelled"@.len() == 9);
    assert("closed_failure"@[7] != "closed_success"@[7]);
}

/// How a command was answered.
#[derive(Clone, Copy, Debug, PartialEq, Eq, Structural)]
pub enum ReceiptOutcome {
    Accepted,
    Completed,
    Replayed,
    Rejected,
    OutcomeUnknown,
}

impl ReceiptOutcome {
    /// The name on the wire.
    pub open spec fn wire_text(self) -> Seq<char> {
        match self {
            ReceiptOutcome::Accepted => "accepted"@,
            ReceiptOutcome::Completed => "completed"@,
            ReceiptOutcome::Replayed => "replayed"@,
            ReceiptOutcome::Rejected => "rejected"@,
            ReceiptOutcome::OutcomeUnknown => "outcome_unknown"@,
        }
    }

    /// The name on the wire.
    pub fn wire(self) -> (r: &'static str)
        ensures
            r@ == self.wire_text(),
    {
        match self {
            ReceiptOutcome::Accepted => "accepted",
            ReceiptOutcome::Completed => "completed",
            ReceiptOutcome::Replayed => "replayed",
            ReceiptOutcome::Rejected => "rejected",
            ReceiptOutcome::OutcomeUnknown => "outcome_unknown",
        }
    }
}

/// The class of an event.
#[derive(Clone, Copy, Debug, PartialEq, Eq, Structural)]
pub enum StreamClass {
    DurableSemantic,
    Progress,
    Telemetry,
}

impl StreamClass {
    /// The name on the wire.
    pub open spec fn wire_text(self) -> Seq<char> {
        match self {
            StreamClass::DurableSemantic => "durable_semantic"@,
            StreamClass::Progress => "progress"@,
            StreamClass::Telemetry => "telemetry"@,
        }
    }

    /// The name on the wire.
    pub fn wire(self) -> (r: &'static str)
        ensures
            r@ == self.wire_text(),
    {
        match self {
            StreamClass::DurableSemantic => "durable_semantic",
            StreamClass::Progress => "progress",
            StreamClass::Telemetry => "telemetry",
        }
    }
}

/// What kind of error a client is told.
#[derive(Clone, Copy, Debug, PartialEq, Eq, Structural)]
pub enum ErrorKind {
    InvalidRequest,
    Unauthenticated,
    Unauthorized,
    NotFound,
    VersionConflict,
    IdempotencyConflict,
    FenceRejected,
    JournalImmutable,
    PolicyDenied,
    CapabilityUnsupported,
    ApprovalRequired,
    ResourceExhausted,
    PayloadTooLarge,
    CursorExpired,
    SlowConsumer,
    Cancelled,
    DeadlineExceeded,
    Unavailable,
    OutcomeUnknown,
    Internal,
}

impl ErrorKind {
    /// The name on the wire.
    pub open spec fn wire_text(self) -> Seq<char> {
        match self {
            ErrorKind::InvalidRequest => "invalid_request"@,
            ErrorKind::Unauthenticated => "unauthenticated"@,
            ErrorKind::Unauthorized => "unauthorized"@,
            ErrorKind::NotFound => "not_found"@,
            ErrorKind::VersionConflict => "version_conflict"@,
            ErrorKind::IdempotencyConflict => "idempotency_conflict"@,
            ErrorKind::FenceRejected => "fence_rejected"@,
            ErrorKind::JournalImmutable => "journal_immutable"@,
            ErrorKind::PolicyDenied => "policy_denied"@,
            ErrorKind::CapabilityUnsupported => "capability_unsupported"@,
            ErrorKind::ApprovalRequired => "approval_required"@,
            ErrorKind::ResourceExhausted => "resource_exhausted"@,
            ErrorKind::PayloadTooLarge => "payload_too_large"@,
            ErrorKind::CursorExpired => "cursor_expired"@,
            ErrorKind::SlowConsumer => "slow_consumer"@,
            ErrorKind::Cancelled => "cancelled"@,
            ErrorKind::DeadlineExceeded => "deadline_exceeded"@,
            ErrorKind::Unavailable => "unavailable"@,
            ErrorKind::OutcomeUnknown => "outcome_unknown"@,
            ErrorKind::Internal => "internal"@,
        }
    }

    /// The name on the wire.
    pub fn wire(self) -> (r: &'static str)
        ensures
            r@ == self.wire_text(),
    {
        match self {
            ErrorKind::InvalidRequest => "invalid_request",
            ErrorKind::Unauthenticated => "unauthenticated",
            ErrorKind::Unauthorized => "unauthorized",
            ErrorKind::NotFound => "not_found",
            ErrorKind::VersionConflict => "version_conflict",
            ErrorKind::IdempotencyConflict => "idempotency_conflict",
            ErrorKind::FenceRejected => "fence_rejected",
            ErrorKind::JournalImmutable => "journal_immutable",
            ErrorKind::PolicyDenied => "policy_denied",
            ErrorKind::CapabilityUnsupported => "capability_unsupported",
            ErrorKind::ApprovalRequired => "approval_required",
            ErrorKind::ResourceExhausted => "resource_exhausted",
            ErrorKind::PayloadTooLarge => "payload_too_large",
            ErrorKind::CursorExpired => "cursor_expired",
            ErrorKind::SlowConsumer => "slow_consumer",
            ErrorKind::Cancelled => "cancelled",
            ErrorKind::DeadlineExceeded => "deadline_exceeded",
            ErrorKind::Unavailable => "unavailable",
            ErrorKind::OutcomeUnknown => "outcome_unknown",
            ErrorKind::Internal => "internal",
        }
    }
}

impl ErrorKind {
    /// The place of the kind in the list of kinds.
    pub open spec fn place(self) -> nat {
        match self {
            ErrorKind::InvalidRequest => 0,
            ErrorKind::Unauthenticated => 1,
            ErrorKind::Unauthorized => 2,
            ErrorKind::NotFound => 3,
            ErrorKind::VersionConflict => 4,
            ErrorKind::IdempotencyConflict => 5,
            ErrorKind::FenceRejected => 6,
            ErrorKind::JournalImmutable => 7,
            ErrorKind::PolicyDenied => 8,
            ErrorKind::CapabilityUnsupported => 9,
            ErrorKind::ApprovalRequired => 10,
            ErrorKind::ResourceExhausted => 11,
            ErrorKind::PayloadTooLarge => 12,
            ErrorKind::CursorExpired => 13,
            ErrorKind::SlowConsumer => 14,
            ErrorKind::Cancelled => 15,
            ErrorKind::DeadlineExceeded => 16,
            ErrorKind::Unavailable => 17,
            ErrorKind::OutcomeUnknown => 18,
            ErrorKind::Internal => 19,
        }
    }

    /// The place of the kind in the list of kinds.
    pub fn index(self) -> (r: u64)
        ensures
            r == self.place(),
    {
        match self {
            ErrorKind::InvalidRequest => 0,
            ErrorKind::Unauthenticated => 1,
            ErrorKind::Unauthorized => 2,
            ErrorKind::NotFound => 3,
            ErrorKind::VersionConflict => 4,
            ErrorKind::IdempotencyConflict => 5,
            ErrorKind::FenceRejected => 6,
            ErrorKind::JournalImmutable => 7,
            ErrorKind::PolicyDenied => 8,
            ErrorKind::CapabilityUnsupported => 9,
            ErrorKind::ApprovalRequired => 10,
            ErrorKind::ResourceExhausted => 11,
            ErrorKind::PayloadTooLarge => 12,
            ErrorKind::CursorExpired => 13,
            ErrorKind::SlowConsumer => 14,
            ErrorKind::Cancelled => 15,
            ErrorKind::DeadlineExceeded => 16,
            ErrorKind::Unavailable => 17,
            ErrorKind::OutcomeUnknown => 18,
            ErrorKind::Internal => 19,
        }
    }

    /// The kind that stands on the wire for a kind of the kernel.
    pub open spec fn of(kind: crate::error::ErrorKind) -> ErrorKind {
        match kind {
            crate::error::ErrorKind::InvalidRequest => ErrorKind::InvalidRequest,
            crate::error::ErrorKind::Unauthenticated => ErrorKind::Unauthenticated,
            crate::error::ErrorKind::Unauthorized => ErrorKind::Unauthorized,
            crate::error::ErrorKind::NotFound => ErrorKind::NotFound,
            crate::error::ErrorKind::VersionConflict => ErrorKind::VersionConflict,
            crate::error::ErrorKind::IdempotencyConflict => ErrorKind::IdempotencyConflict,
            crate::error::ErrorKind::FenceRejected => ErrorKind::FenceRejected,
            crate::error::ErrorKind::JournalImmutable => ErrorKind::JournalImmutable,
            crate::error::ErrorKind::PolicyDenied => ErrorKind::PolicyDenied,
            crate::error::ErrorKind::CapabilityUnsupported => ErrorKind::CapabilityUnsupported,
            crate::error::ErrorKind::ApprovalRequired => ErrorKind::ApprovalRequired,
            crate::error::ErrorKind::ResourceExhausted => ErrorKind::ResourceExhausted,
            crate::error::ErrorKind::PayloadTooLarge => ErrorKind::PayloadTooLarge,
            crate::error::ErrorKind::CursorExpired => ErrorKind::CursorExpired,
            crate::error::ErrorKind::SlowConsumer => ErrorKind::SlowConsumer,
            crate::error::ErrorKind::Cancelled => ErrorKind::Cancelled,
            crate::error::ErrorKind::DeadlineExceeded => ErrorKind::DeadlineExceeded,
            crate::error::ErrorKind::Unavailable => ErrorKind::Unavailable,
            crate::error::ErrorKind::OutcomeUnknown => ErrorKind::OutcomeUnknown,
            crate::error::ErrorKind::Internal => ErrorKind::Internal,
        }
    }

    /// The kind that stands on the wire for a kind of the kernel.
    pub fn of_kernel(kind: crate::error::ErrorKind) -> (r: ErrorKind)
        ensures
            r == ErrorKind::of(kind),
    {
        match kind {
            crate::error::ErrorKind::InvalidRequest => ErrorKind::InvalidRequest,
            crate::error::ErrorKind::Unauthenticated => ErrorKind::Unauthenticated,
            crate::error::ErrorKind::Unauthorized => ErrorKind::Unauthorized,
            crate::error::ErrorKind::NotFound => ErrorKind::NotFound,
            crate::error::ErrorKind::VersionConflict => ErrorKind::VersionConflict,
            crate::error::ErrorKind::IdempotencyConflict => ErrorKind::IdempotencyConflict,
            crate::error::ErrorKind::FenceRejected => ErrorKind::FenceRejected,
            crate::error::ErrorKind::JournalImmutable => ErrorKind::JournalImmutable,
            crate::error::ErrorKind::PolicyDenied => ErrorKind::PolicyDenied,
            crate::error::ErrorKind::CapabilityUnsupported => ErrorKind::CapabilityUnsupported,
            crate::error::ErrorKind::ApprovalRequired => ErrorKind::ApprovalRequired,
            crate::error::ErrorKind::ResourceExhausted => ErrorKind::ResourceExhausted,
            crate::error::ErrorKind::PayloadTooLarge => ErrorKind::PayloadTooLarge,
            crate::error::ErrorKind::CursorExpired => ErrorKind::CursorExpired,
            crate::error::ErrorKind::SlowConsumer => ErrorKind::SlowConsumer,
            crate::error::ErrorKind::Cancelled => ErrorKind::Cancelled,
            crate::error::ErrorKind::DeadlineExceeded => ErrorKind::DeadlineExceeded,
            crate::error::ErrorKind::Unavailable => ErrorKind::Unavailable,
            crate::error::ErrorKind::OutcomeUnknown => ErrorKind::OutcomeUnknown,
            crate::error::ErrorKind::Internal => ErrorKind::Internal,
        }
    }

    /// Whether the same command may simply be sent again.
    pub open spec fn may_retry(self) -> bool {
        ||| self == ErrorKind::VersionConflict
        ||| self == ErrorKind::ApprovalRequired
        ||| self == ErrorKind::ResourceExhausted
        ||| self == ErrorKind::DeadlineExceeded
        ||| self == ErrorKind::Unavailable
    }

    /// Whether the same command may simply be sent again.
    pub fn retryable(self) -> (r: bool)
        ensures
            r == self.may_retry(),
    {
        matches!(
            self,
            ErrorKind::VersionConflict | ErrorKind::ApprovalRequired | ErrorKind::ResourceExhausted
                | ErrorKind::DeadlineExceeded | ErrorKind::Unavailable
        )
    }
}

/// The kinds on the wire and the kinds of the kernel have the same names and the same retry
/// rule.
pub proof fn wire_kinds_agree(kind: crate::error::ErrorKind)
    ensures
        ErrorKind::of(kind).wire_text() == kind.wire_text(),
        ErrorKind::of(kind).may_retry() == kind.may_retry(),
{
}

/// What a command is scoped to.
#[derive(Debug)]
pub struct Scope {
    pub scope_kind: ScopeKind,
    pub scope_id: String,
}

/// The view of a `Scope`.
pub struct ScopeView {
    pub scope_kind: ScopeKind,
    pub scope_id: Seq<char>,
}

impl View for Scope {
    type V = ScopeView;

    open spec fn view(&self) -> ScopeView {
        ScopeView {
            scope_kind: self.scope_kind,
            scope_id: self.scope_id@,
        }
    }
}

impl Clone for Scope {
    fn clone(&self) -> (r: Self)
        ensures
            r@ == self@,
    {
        Scope {
            scope_kind: self.scope_kind,
            scope_id: self.scope_id.clone(),
        }
    }
}

/// The aggregate that a command names.
#[derive(Debug)]
pub struct Target {
    pub aggregate_kind: String,
    pub aggregate_id: String,
}

/// The view of a `Target`.
pub struct TargetView {
    pub aggregate_kind: Seq<char>,
    pub aggregate_id: Seq<char>,
}

impl View for Target {
    type V = TargetView;

    open spec fn view(&self) -> TargetView {
        TargetView {
            aggregate_kind: self.aggregate_kind@,
            aggregate_id: self.aggregate_id@,
        }
    }
}

impl Clone for Target {
    fn clone(&self) -> (r: Self)
        ensures
            r@ == self@,
    {
        Target {
            aggregate_kind: self.aggregate_kind.clone(),
            aggregate_id: self.aggregate_id.clone(),
        }
    }
}

/// The version that a command expects of an aggregate.
#[derive(Debug)]
pub struct ExpectedVersion {
    pub aggregate_kind: String,
    pub aggregate_id: String,
    pub version: DecimalU64,
}

/// The view of a `ExpectedVersion`.
pub struct ExpectedVersionView {
    pub aggregate_kind: Seq<char>,
    pub aggregate_id: Seq<char>,
    pub version: u64,
}

impl View for ExpectedVersion {
    type V = ExpectedVersionView;

    open spec fn view(&self) -> ExpectedVersionView {
        ExpectedVersionView {
            aggregate_kind: self.aggregate_kind@,
            aggregate_id: self.aggregate_id@,
            version: self.version@,
        }
    }
}

impl Clone for ExpectedVersion {
    fn clone(&self) -> (r: Self)
        ensures
            r@ == self@,
    {
        ExpectedVersion {
            aggregate_kind: self.aggregate_kind.clone(),
            aggregate_id: self.aggregate_id.clone(),
            version: self.version,
        }
    }
}

/// The payload of `run.open`.
#[derive(Debug)]
pub struct RunOpenPayload {
    pub run_id: String,
    pub goal_work_item_id: String,
    /// Members that are no field of the payload.
    pub extra: ExtraFields,
}

/// The view of a `RunOpenPayload`.
pub struct RunOpenPayloadView {
    pub run_id: Seq<char>,
    pub goal_work_item_id: Seq<char>,
    pub extra: Map<Seq<char>, JsonView>,
}

impl View for RunOpenPayload {
    type V = RunOpenPayloadView;

    open spec fn view(&self) -> RunOpenPayloadView {
        RunOpenPayloadView {
            run_id: self.run_id@,
            goal_work_item_id: self.goal_work_item_id@,
            extra: value_map(self.extra@),
        }
    }
}

/// The payload of `unit.admit`.
#[derive(Debug)]
pub struct UnitAdmitPayload {
    pub unit_id: String,
    pub work_item_id: String,
    pub run_id: String,
    /// Members that are no field of the payload.
    pub extra: ExtraFields,
}

/// The view of a `UnitAdmitPayload`.
pub struct UnitAdmitPayloadView {
    pub unit_id: Seq<char>,
    pub work_item_id: Seq<char>,
    pub run_id: Seq<char>,
    pub extra: Map<Seq<char>, JsonView>,
}

impl View for UnitAdmitPayload {
    type V = UnitAdmitPayloadView;

    open spec fn view(&self) -> UnitAdmitPayloadView {
        UnitAdmitPayloadView {
            unit_id: self.unit_id@,
            work_item_id: self.work_item_id@,
            run_id: self.run_id@,
            extra: value_map(self.extra@),
        }
    }
}

/// The payload of `unit.dispatch`.
#[derive(Debug)]
pub struct UnitDispatchPayload {
    pub unit_id: String,
    pub holder_id: String,
    /// Members that are no field of the payload.
    pub extra: ExtraFields,
}

/// The view of a `UnitDispatchPayload`.
pub struct UnitDispatchPayloadView {
    pub unit_id: Seq<char>,
    pub holder_id: Seq<char>,
    pub extra: Map<Seq<char>, JsonView>,
}

impl View for UnitDispatchPayload {
    type V = UnitDispatchPayloadView;

    open spec fn view(&self) -> UnitDispatchPayloadView {
        UnitDispatchPayloadView {
            unit_id: self.unit_id@,
            holder_id: self.holder_id@,
            extra: value_map(self.extra@),
        }
    }
}

/// The payload of a command that names a unit alone.
#[derive(Debug)]
pub struct UnitPayload {
    pub unit_id: String,
    /// Members that are no field of the payload.
    pub extra: ExtraFields,
}

/// The view of a `UnitPayload`.
pub struct UnitPayloadView {
    pub unit_id: Seq<char>,
    pub extra: Map<Seq<char>, JsonView>,
}

impl View for UnitPayload {
    type V = UnitPayloadView;

    open spec fn view(&self) -> UnitPayloadView {
        UnitPayloadView {
            unit_id: self.unit_id@,
            extra: value_map(self.extra@),
        }
    }
}

/// The payload of `run.close`.
#[derive(Debug)]
pub struct RunClosePayload {
    pub run_id: String,
    pub outcome: RunCloseOutcome,
    /// Members that are no field of the payload.
    pub extra: ExtraFields,
}

/// The view of a `RunClosePayload`.
pub struct RunClosePayloadView {
    pub run_id: Seq<char>,
    pub outcome: RunCloseOutcome,
    pub extra: Map<Seq<char>, JsonView>,
}

impl View for RunClosePayload {
    type V = RunClosePayloadView;

    open spec fn view(&self) -> RunClosePayloadView {
        RunClosePayloadView {
            run_id: self.run_id@,
            outcome: self.outcome,
            extra: value_map(self.extra@),
        }
    }
}

/// The payload of `work_item.create`.
#[derive(Debug)]
pub struct WorkItemCreatePayload {
    pub work_item_id: String,
    pub acceptance_contract_digest: String,
    pub declared_write_scope: Vec<String>,
    /// Members that are no field of the payload.
    pub extra: ExtraFields,
}

/// The view of a `WorkItemCreatePayload`.
pub struct WorkItemCreatePayloadView {
    pub work_item_id: Seq<char>,
    pub acceptance_contract_digest: Seq<char>,
    pub declared_write_scope: Seq<Seq<char>>,
    pub extra: Map<Seq<char>, JsonView>,
}

impl View for WorkItemCreatePayload {
    type V = WorkItemCreatePayloadView;

    open spec fn view(&self) -> WorkItemCreatePayloadView {
        WorkItemCreatePayloadView {
            work_item_id: self.work_item_id@,
            acceptance_contract_digest: self.acceptance_contract_digest@,
            declared_write_scope: views(self.declared_write_scope@),
            extra: value_map(self.extra@),
        }
    }
}

/// The payload of `unit.progress_report`. No other member is accepted.
#[derive(Debug)]
pub struct ProgressReportPayload {
    pub unit_id: String,
}

/// The view of a `ProgressReportPayload`.
pub struct ProgressReportPayloadView {
    pub unit_id: Seq<char>,
}

impl View for ProgressReportPayload {
    type V = ProgressReportPayloadView;

    open spec fn view(&self) -> ProgressReportPayloadView {
        ProgressReportPayloadView {
            unit_id: self.unit_id@,
        }
    }
}

impl Clone for ProgressReportPayload {
    fn clone(&self) -> (r: Self)
        ensures
            r@ == self@,
    {
        ProgressReportPayload {
            unit_id: self.unit_id.clone(),
        }
    }
}

/// The type of a command.
#[derive(Clone, Copy, Debug, PartialEq, Eq, Structural)]
pub enum CommandType {
    RunOpen,
    RunClose,
    WorkItemCreate,
    UnitAdmit,
    UnitDispatch,
    ProgressReport,
    StampBump,
}

impl CommandType {
    /// The name on the wire.
    pub open spec fn wire_text(self) -> Seq<char> {
        match self {
            CommandType::RunOpen => "run.open"@,
            CommandType::RunClose => "run.close"@,
            CommandType::WorkItemCreate => "work_item.create"@,
            CommandType::UnitAdmit => "unit.admit"@,
            CommandType::UnitDispatch => "unit.dispatch"@,
            CommandType::ProgressReport => "unit.progress_report"@,
            CommandType::StampBump => "unit.stamp_bump"@,
        }
    }

    /// The name on the wire.
    pub fn wire(self) -> (r: &'static str)
        ensures
            r@ == self.wire_text(),
    {
        match self {
            CommandType::RunOpen => "run.open",
            CommandType::RunClose => "run.close",
            CommandType::WorkItemCreate => "work_item.create",
            CommandType::UnitAdmit => "unit.admit",
            CommandType::UnitDispatch => "unit.dispatch",
            CommandType::ProgressReport => "unit.progress_report",
            CommandType::StampBump => "unit.stamp_bump",
        }
    }
}

/// What a command asks for.
#[derive(Debug)]
pub enum CommandBody {
    RunOpen(RunOpenPayload),
    RunClose(RunClosePayload),
    WorkItemCreate(WorkItemCreatePayload),
    UnitAdmit(UnitAdmitPayload),
    UnitDispatch(UnitDispatchPayload),
    ProgressReport(ProgressReportPayload),
    StampBump(UnitPayload),
}

/// The view of a `CommandBody`.
pub enum CommandBodyView {
    RunOpen(RunOpenPayloadView),
    RunClose(RunClosePayloadView),
    WorkItemCreate(WorkItemCreatePayloadView),
    UnitAdmit(UnitAdmitPayloadView),
    UnitDispatch(UnitDispatchPayloadView),
    ProgressReport(ProgressReportPayloadView),
    StampBump(UnitPayloadView),
}

impl View for CommandBody {
    type V = CommandBodyView;

    open spec fn view(&self) -> CommandBodyView {
        match self {
            CommandBody::RunOpen(x) => CommandBodyView::RunOpen(x@),
            CommandBody::RunClose(x) => CommandBodyView::RunClose(x@),
            CommandBody::WorkItemCreate(x) => CommandBodyView::WorkItemCreate(x@),
            CommandBody::UnitAdmit(x) => CommandBodyView::UnitAdmit(x@),
            CommandBody::UnitDispatch(x) => CommandBodyView::UnitDispatch(x@),
            CommandBody::ProgressReport(x) => CommandBodyView::ProgressReport(x@),
            CommandBody::StampBump(x) => CommandBodyView::StampBump(x@),
        }
    }
}

impl CommandBodyView {
    /// The type of the command.
    pub open spec fn kind(self) -> CommandType {
        match self {
            CommandBodyView::RunOpen(_) => CommandType::RunOpen,
            CommandBodyView::RunClose(_) => CommandType::RunClose,
            CommandBodyView::WorkItemCreate(_) => CommandType::WorkItemCreate,
            CommandBodyView::UnitAdmit(_) => CommandType::UnitAdmit,
            CommandBodyView::UnitDispatch(_) => CommandType::UnitDispatch,
            CommandBodyView::ProgressReport(_) => CommandType::ProgressReport,
            CommandBodyView::StampBump(_) => CommandType::StampBump,
        }
    }

    /// The members that are no field of the payload.
    pub open spec fn extras(self) -> Map<Seq<char>, JsonView> {
        match self {
            CommandBodyView::RunOpen(p) => p.extra,
            CommandBodyView::RunClose(p) => p.extra,
            CommandBodyView::WorkItemCreate(p) => p.extra,
            CommandBodyView::UnitAdmit(p) => p.extra,
            CommandBodyView::UnitDispatch(p) => p.extra,
            CommandBodyView::ProgressReport(_) => Map::empty(),
            CommandBodyView::StampBump(p) => p.extra,
        }
    }
}

impl CommandBody {
    /// The type of the command.
    pub fn command_type(&self) -> (r: CommandType)
        ensures
            r == self@.kind(),
    {
        match self {
            CommandBody::RunOpen(_) => CommandType::RunOpen,
            CommandBody::RunClose(_) => CommandType::RunClose,
            CommandBody::WorkItemCreate(_) => CommandType::WorkItemCreate,
            CommandBody::UnitAdmit(_) => CommandType::UnitAdmit,
            CommandBody::UnitDispatch(_) => CommandType::UnitDispatch,
            CommandBody::ProgressReport(_) => CommandType::ProgressReport,
            CommandBody::StampBump(_) => CommandType::StampBump,
        }
    }

    /// Whether the payload has members that are none of its fields.
    pub fn has_extra_fields(&self) -> (r: bool)
        ensures
            r == (self@.extras() != Map::<Seq<char>, JsonView>::empty()),
    {
        match self {
            CommandBody::RunOpen(p) => has_members(&p.extra),
            CommandBody::RunClose(p) => has_members(&p.extra),
            CommandBody::WorkItemCreate(p) => has_members(&p.extra),
            CommandBody::UnitAdmit(p) => has_members(&p.extra),
            CommandBody::UnitDispatch(p) => has_members(&p.extra),
            CommandBody::ProgressReport(_) => false,
            CommandBody::StampBump(p) => has_members(&p.extra),
        }
    }
}

fn has_members(extra: &ExtraFields) -> (r: bool)
    ensures
        r == (value_map(extra@) != Map::<Seq<char>, JsonView>::empty()),
{
    proof {
        if extra@.len() > 0 {
            assert(value_map(extra@).dom().contains(extra@.last().0@));
        }
    }
    extra.len() > 0
}

/// A command on the wire.
#[derive(Debug)]
pub struct Command {
    pub protocol_version: BoundedU32,
    pub command_id: String,
    pub scope: Scope,
    pub payload_schema_version: BoundedU32,
    pub target: Target,
    pub expected_versions: Vec<ExpectedVersion>,
    pub attempt_token: Option<String>,
    pub authority_epoch: Option<DecimalU64>,
    pub deadline: Option<Rfc3339Timestamp>,
    pub causation_id: Option<String>,
    pub correlation_id: Option<String>,
    pub trace_context: Option<String>,
    pub body: CommandBody,
    pub request_digest: String,
}

/// The view of a `Command`.
pub struct CommandView {
    pub protocol_version: BoundedU32,
    pub command_id: Seq<char>,
    pub scope: ScopeView,
    pub payload_schema_version: BoundedU32,
    pub target: TargetView,
    pub expected_versions: Seq<ExpectedVersionView>,
    pub attempt_token: Option<Seq<char>>,
    pub authority_epoch: Option<u64>,
    pub deadline: Option<Seq<char>>,
    pub causation_id: Option<Seq<char>>,
    pub correlation_id: Option<Seq<char>>,
    pub trace_context: Option<Seq<char>>,
    pub body: CommandBodyView,
    pub request_digest: Seq<char>,
}

impl View for Command {
    type V = CommandView;

    open spec fn view(&self) -> CommandView {
        CommandView {
            protocol_version: self.protocol_version,
            command_id: self.command_id@,
            scope: self.scope@,
            payload_schema_version: self.payload_schema_version,
            target: self.target@,
            expected_versions: self.expected_versions@.map_values(|x: ExpectedVersion| x@),
            attempt_token: opt_view(self.attempt_token),
            authority_epoch: match self.authority_epoch { Some(x) => Some(x@), None => None },
            deadline: match self.deadline { Some(x) => Some(x@), None => None },
            causation_id: opt_view(self.causation_id),
            correlation_id: opt_view(self.correlation_id),
            trace_context: opt_view(self.trace_context),
            body: self.body@,
            request_digest: self.request_digest@,
        }
    }
}

/// An error on the wire.
#[derive(Debug)]
pub struct Error {
    pub kind: ErrorKind,
    pub reason: String,
    pub message: String,
    pub retryable: bool,
    pub retry_after_ms: Option<BoundedU32>,
    pub reconcile_required: bool,
    pub occurrence_id: String,
    pub details: Option<Json>,
}

/// The view of a `Error`.
pub struct ErrorView {
    pub kind: ErrorKind,
    pub reason: Seq<char>,
    pub message: Seq<char>,
    pub retryable: bool,
    pub retry_after_ms: Option<BoundedU32>,
    pub reconcile_required: bool,
    pub occurrence_id: Seq<char>,
    pub details: Option<JsonView>,
}

impl View for Error {
    type V = ErrorView;

    open spec fn view(&self) -> ErrorView {
        ErrorView {
            kind: self.kind,
            reason: self.reason@,
            message: self.message@,
            retryable: self.retryable,
            retry_after_ms: self.retry_after_ms,
            reconcile_required: self.reconcile_required,
            occurrence_id: self.occurrence_id@,
            details: match self.details {
                Some(x) => Some(x@),
                None => None,
            },
        }
    }
}

/// The answer to a command.
#[derive(Debug)]
pub struct Receipt {
    pub command_id: String,
    pub scope: Scope,
    pub outcome: ReceiptOutcome,
    pub state_version: Option<DecimalU64>,
    pub event_cursors: Vec<DecimalU64>,
    pub error: Option<Error>,
    pub result: Option<Value>,
    pub receipt_version: BoundedU32,
}

/// The view of a `Receipt`.
pub struct ReceiptView {
    pub command_id: Seq<char>,
    pub scope: ScopeView,
    pub outcome: ReceiptOutcome,
    pub state_version: Option<u64>,
    pub event_cursors: Seq<u64>,
    pub error: Option<ErrorView>,
    pub result: Option<JsonView>,
    pub receipt_version: BoundedU32,
}

impl View for Receipt {
    type V = ReceiptView;

    open spec fn view(&self) -> ReceiptView {
        ReceiptView {
            command_id: self.command_id@,
            scope: self.scope@,
            outcome: self.outcome,
            state_version: match self.state_version { Some(x) => Some(x@), None => None },
            event_cursors: self.event_cursors@.map_values(|x: DecimalU64| x@),
            error: match self.error { Some(x) => Some(x@), None => None },
            result: match self.result { Some(x) => Some(json_tree(x)), None => None },
            receipt_version: self.receipt_version,
        }
    }
}

/// Who caused an event.
#[derive(Debug)]
pub struct Actor {
    pub principal_kind: String,
    pub principal_id: String,
}

/// The view of a `Actor`.
pub struct ActorView {
    pub principal_kind: Seq<char>,
    pub principal_id: Seq<char>,
}

impl View for Actor {
    type V = ActorView;

    open spec fn view(&self) -> ActorView {
        ActorView {
            principal_kind: self.principal_kind@,
            principal_id: self.principal_id@,
        }
    }
}

impl Clone for Actor {
    fn clone(&self) -> (r: Self)
        ensures
            r@ == self@,
    {
        Actor {
            principal_kind: self.principal_kind.clone(),
            principal_id: self.principal_id.clone(),
        }
    }
}

/// An event on the wire.
#[derive(Debug)]
pub struct Event {
    pub event_id: String,
    pub cursor: DecimalU64,
    pub stream_class: StreamClass,
    pub aggregate_kind: String,
    pub aggregate_id: String,
    pub aggregate_version: DecimalU64,
    pub ordinal: BoundedU32,
    pub event_kind: String,
    pub event_version: BoundedU32,
    pub occurred_at: Rfc3339Timestamp,
    pub actor: Actor,
    pub command_id: Option<String>,
    pub causation_id: Option<String>,
    pub correlation_id: Option<String>,
    /// An object.
    pub payload: Value,
}

/// The view of a `Event`.
pub struct EventView {
    pub event_id: Seq<char>,
    pub cursor: u64,
    pub stream_class: StreamClass,
    pub aggregate_kind: Seq<char>,
    pub aggregate_id: Seq<char>,
    pub aggregate_version: u64,
    pub ordinal: BoundedU32,
    pub event_kind: Seq<char>,
    pub event_version: BoundedU32,
    pub occurred_at: Seq<char>,
    pub actor: ActorView,
    pub command_id: Option<Seq<char>>,
    pub causation_id: Option<Seq<char>>,
    pub correlation_id: Option<Seq<char>>,
    pub payload: JsonView,
}

impl View for Event {
    type V = EventView;

    open spec fn view(&self) -> EventView {
        EventView {
            event_id: self.event_id@,
            cursor: self.cursor@,
            stream_class: self.stream_class,
            aggregate_kind: self.aggregate_kind@,
            aggregate_id: self.aggregate_id@,
            aggregate_version: self.aggregate_version@,
            ordinal: self.ordinal,
            event_kind: self.event_kind@,
            event_version: self.event_version,
            occurred_at: self.occurred_at@,
            actor: self.actor@,
            command_id: opt_view(self.command_id),
            causation_id: opt_view(self.causation_id),
            correlation_id: opt_view(self.correlation_id),
            payload: json_tree(self.payload),
        }
    }
}

impl Clone for Event {
    fn clone(&self) -> (r: Self)
        ensures
            r@ == self@,
    {
        Event {
            event_id: self.event_id.clone(),
            cursor: self.cursor,
            stream_class: self.stream_class,
            aggregate_kind: self.aggregate_kind.clone(),
            aggregate_id: self.aggregate_id.clone(),
            aggregate_version: self.aggregate_version,
            ordinal: self.ordinal,
            event_kind: self.event_kind.clone(),
            event_version: self.event_version,
            occurred_at: self.occurred_at.clone(),
            actor: self.actor.clone(),
            command_id: self.command_id.clone(),
            causation_id: self.causation_id.clone(),
            correlation_id: self.correlation_id.clone(),
            payload: copy_value(&self.payload),
        }
    }
}

/// A cursor below the retained floor.
#[derive(Debug)]
pub struct CursorExpired {
    pub min_retained_cursor: DecimalU64,
}

/// The view of a `CursorExpired`.
pub struct CursorExpiredView {
    pub min_retained_cursor: u64,
}

impl View for CursorExpired {
    type V = CursorExpiredView;

    open spec fn view(&self) -> CursorExpiredView {
        CursorExpiredView {
            min_retained_cursor: self.min_retained_cursor@,
        }
    }
}

impl Clone for CursorExpired {
    fn clone(&self) -> (r: Self)
        ensures
            r@ == self@,
    {
        CursorExpired {
            min_retained_cursor: self.min_retained_cursor,
        }
    }
}

/// The capacities of the queues.
#[derive(Debug)]
pub struct AdapterLimits {
    pub durable_event_queue_capacity: BoundedU32,
    pub progress_event_queue_capacity: BoundedU32,
}

/// The view of a `AdapterLimits`.
pub struct AdapterLimitsView {
    pub durable_event_queue_capacity: BoundedU32,
    pub progress_event_queue_capacity: BoundedU32,
}

impl View for AdapterLimits {
    type V = AdapterLimitsView;

    open spec fn view(&self) -> AdapterLimitsView {
        AdapterLimitsView {
            durable_event_queue_capacity: self.durable_event_queue_capacity,
            progress_event_queue_capacity: self.progress_event_queue_capacity,
        }
    }
}

impl Clone for AdapterLimits {
    fn clone(&self) -> (r: Self)
        ensures
            r@ == self@,
    {
        AdapterLimits {
            durable_event_queue_capacity: self.durable_event_queue_capacity,
            progress_event_queue_capacity: self.progress_event_queue_capacity,
        }
    }
}

/// What the journal keeps.
#[derive(Debug)]
pub struct Retention {
    pub min_retained_cursor: DecimalU64,
    pub max_age_seconds: DecimalU64,
    pub max_events_per_project: DecimalU64,
}

/// The view of a `Retention`.
pub struct RetentionView {
    pub min_retained_cursor: u64,
    pub max_age_seconds: u64,
    pub max_events_per_project: u64,
}

impl View for Retention {
    type V = RetentionView;

    open spec fn view(&self) -> RetentionView {
        RetentionView {
            min_retained_cursor: self.min_retained_cursor@,
            max_age_seconds: self.max_age_seconds@,
            max_events_per_project: self.max_events_per_project@,
        }
    }
}

impl Clone for Retention {
    fn clone(&self) -> (r: Self)
        ensures
            r@ == self@,
    {
        Retention {
            min_retained_cursor: self.min_retained_cursor,
            max_age_seconds: self.max_age_seconds,
            max_events_per_project: self.max_events_per_project,
        }
    }
}

/// A subscription that was opened.
#[derive(Debug)]
pub struct SubscriptionOpened {
    pub subscription_id: String,
    pub limits: AdapterLimits,
    pub retention: Retention,
}

/// The view of a `SubscriptionOpened`.
pub struct SubscriptionOpenedView {
    pub subscription_id: Seq<char>,
    pub limits: AdapterLimitsView,
    pub retention: RetentionView,
}

impl View for SubscriptionOpened {
    type V = SubscriptionOpenedView;

    open spec fn view(&self) -> SubscriptionOpenedView {
        SubscriptionOpenedView {
            subscription_id: self.subscription_id@,
            limits: self.limits@,
            retention: self.retention@,
        }
    }
}

impl Clone for SubscriptionOpened {
    fn clone(&self) -> (r: Self)
        ensures
            r@ == self@,
    {
        SubscriptionOpened {
            subscription_id: self.subscription_id.clone(),
            limits: self.limits.clone(),
            retention: self.retention.clone(),
        }
    }
}

/// A subscription with nothing to deliver.
#[derive(Debug)]
pub struct SubscriptionPending {
    pub subscription_id: String,
}

/// The view of a `SubscriptionPending`.
pub struct SubscriptionPendingView {
    pub subscription_id: Seq<char>,
}

impl View for SubscriptionPending {
    type V = SubscriptionPendingView;

    open spec fn view(&self) -> SubscriptionPendingView {
        SubscriptionPendingView {
            subscription_id: self.subscription_id@,
        }
    }
}

impl Clone for SubscriptionPending {
    fn clone(&self) -> (r: Self)
        ensures
            r@ == self@,
    {
        SubscriptionPending {
            subscription_id: self.subscription_id.clone(),
        }
    }
}

/// A subscription that was closed because it fell behind.
#[derive(Debug)]
pub struct SlowConsumer {
    pub min_retained_cursor: DecimalU64,
    pub last_delivered_cursor: DecimalU64,
}

/// The view of a `SlowConsumer`.
pub struct SlowConsumerView {
    pub min_retained_cursor: u64,
    pub last_delivered_cursor: u64,
}

impl View for SlowConsumer {
    type V = SlowConsumerView;

    open spec fn view(&self) -> SlowConsumerView {
        SlowConsumerView {
            min_retained_cursor: self.min_retained_cursor@,
            last_delivered_cursor: self.last_delivered_cursor@,
        }
    }
}

impl Clone for SlowConsumer {
    fn clone(&self) -> (r: Self)
        ensures
            r@ == self@,
    {
        SlowConsumer {
            min_retained_cursor: self.min_retained_cursor,
            last_delivered_cursor: self.last_delivered_cursor,
        }
    }
}

/// A subscription that was closed on request.
#[derive(Debug)]
pub struct SubscriptionClosed {
    pub subscription_id: String,
}

/// The view of a `SubscriptionClosed`.
pub struct SubscriptionClosedView {
    pub subscription_id: Seq<char>,
}

impl View for SubscriptionClosed {
    type V = SubscriptionClosedView;

    open spec fn view(&self) -> SubscriptionClosedView {
        SubscriptionClosedView {
            subscription_id: self.subscription_id@,
        }
    }
}

impl Clone for SubscriptionClosed {
    fn clone(&self) -> (r: Self)
        ensures
            r@ == self@,
    {
        SubscriptionClosed {
            subscription_id: self.subscription_id.clone(),
        }
    }
}

/// What a poll of a subscription gives.
#[derive(Debug)]
pub enum SubscriptionPoll {
    Event(Event),
    Pending,
    SlowConsumer(SlowConsumer),
}

/// The view of a `SubscriptionPoll`.
pub enum SubscriptionPollView {
    Event(EventView),
    Pending,
    SlowConsumer(SlowConsumerView),
}

impl View for SubscriptionPoll {
    type V = SubscriptionPollView;

    open spec fn view(&self) -> SubscriptionPollView {
        match self {
            SubscriptionPoll::Event(x) => SubscriptionPollView::Event(x@),
            SubscriptionPoll::Pending => SubscriptionPollView::Pending,
            SubscriptionPoll::SlowConsumer(x) => SubscriptionPollView::SlowConsumer(x@),
        }
    }
}

/// What a client sends.
#[derive(Debug)]
pub enum ClientMessage {
    Command(Command),
    Resume { project_id: String, after_cursor: DecimalU64 },
    Subscribe { project_id: String, after_cursor: DecimalU64 },
    SubscriptionPoll { subscription_id: String },
    SubscriptionClose { subscription_id: String },
}

/// The view of a `ClientMessage`.
pub enum ClientMessageView {
    Command(CommandView),
    Resume { project_id: Seq<char>, after_cursor: u64 },
    Subscribe { project_id: Seq<char>, after_cursor: u64 },
    SubscriptionPoll { subscription_id: Seq<char> },
    SubscriptionClose { subscription_id: Seq<char> },
}

impl View for ClientMessage {
    type V = ClientMessageView;

    open spec fn view(&self) -> ClientMessageView {
        match self {
            ClientMessage::Command(x) => ClientMessageView::Command(x@),
            ClientMessage::Resume { project_id, after_cursor } => ClientMessageView::Resume {
                project_id: project_id@,
                after_cursor: after_cursor@,
            },
            ClientMessage::Subscribe { project_id, after_cursor } => ClientMessageView::Subscribe {
                project_id: project_id@,
                after_cursor: after_cursor@,
            },
            ClientMessage::SubscriptionPoll {
                subscription_id,
            } => ClientMessageView::SubscriptionPoll {
                subscription_id: subscription_id@,
            },
            ClientMessage::SubscriptionClose {
                subscription_id,
            } => ClientMessageView::SubscriptionClose {
                subscription_id: subscription_id@,
            },
        }
    }
}

/// What a client is answered.
#[derive(Debug)]
pub enum ServerMessage {
    Receipt(Receipt),
    Events(Vec<Event>),
    Event(Event),
    CursorExpired(CursorExpired),
    SubscriptionOpened(SubscriptionOpened),
    SubscriptionPending(SubscriptionPending),
    SlowConsumer(SlowConsumer),
    SubscriptionClosed(SubscriptionClosed),
    Error(Error),
}

/// The view of a `ServerMessage`.
pub enum ServerMessageView {
    Receipt(ReceiptView),
    Events(Seq<EventView>),
    Event(EventView),
    CursorExpired(CursorExpiredView),
    SubscriptionOpened(SubscriptionOpenedView),
    SubscriptionPending(SubscriptionPendingView),
    SlowConsumer(SlowConsumerView),
    SubscriptionClosed(SubscriptionClosedView),
    Error(ErrorView),
}

impl View for ServerMessage {
    type V = ServerMessageView;

    open spec fn view(&self) -> ServerMessageView {
        match self {
            ServerMessage::Receipt(x) => ServerMessageView::Receipt(x@),
            ServerMessage::Events(x) => ServerMessageView::Events(x@.map_values(|x: Event| x@)),
            ServerMessage::Event(x) => ServerMessageView::Event(x@),
            ServerMessage::CursorExpired(x) => ServerMessageView::CursorExpired(x@),
            ServerMessage::SubscriptionOpened(x) => ServerMessageView::SubscriptionOpened(x@),
            ServerMessage::SubscriptionPending(x) => ServerMessageView::SubscriptionPending(x@),
            ServerMessage::SlowConsumer(x) => ServerMessageView::SlowConsumer(x@),
            ServerMessage::SubscriptionClosed(x) => ServerMessageView::SubscriptionClosed(x@),
            ServerMessage::Error(x) => ServerMessageView::Error(x@),
        }
    }
}

} // verus!
