//! Records and cell vocabulary of the durability harness.
use crate::ids::{digest_text, Digest};
use crate::text::{dec, decimal};
use vstd::prelude::*;
use vstd::string::*;

verus! {

/// The digest of a message on the wire: `blake3:<64 hex>`.
pub fn digest(bytes: &[u8]) -> (r: String)
    ensures
        r@ == digest_text(bytes@),
        crate::ids::is_digest_text(r@),
{
    Digest::of_bytes(bytes).as_str().to_owned()
}

#[derive(Debug)]
pub struct ExecutionUnit {
    pub unit_id: u64,
    pub work_id: u64,
    pub current_attempt_epoch: u32,
    pub state: String,
    pub policy_ref: String,
}

/// Whether an attempt is over.
#[derive(Debug, Clone, Copy, PartialEq, Eq, Structural)]
pub enum AttemptState {
    Active,
    Terminal,
}

#[derive(Debug)]
pub struct Attempt {
    pub unit_id: u64,
    pub attempt_epoch: u32,
    pub holder_id: u64,
    pub state: AttemptState,
    pub terminal_result_ref: Option<String>,
}

#[derive(Debug)]
pub struct Lease {
    pub unit_id: u64,
    pub attempt_epoch: u32,
    pub holder_id: u64,
    /// Milliseconds on the logical clock: a trial never reads wall-clock time.
    pub expiry: u64,
    pub last_renewal: u64,
}

/// What is known of an effect.
#[derive(Debug, Clone, Copy, PartialEq, Eq, Structural)]
pub enum EffectState {
    Prepared,
    Dispatched,
    Succeeded,
    Failed,
    Unknown,
}

impl EffectState {
    /// The name of the state.
    pub open spec fn name_text(self) -> Seq<char> {
        match self {
            EffectState::Prepared => "Prepared"@,
            EffectState::Dispatched => "Dispatched"@,
            EffectState::Succeeded => "Succeeded"@,
            EffectState::Failed => "Failed"@,
            EffectState::Unknown => "Unknown"@,
        }
    }

    /// The name of the state.
    pub fn name(self) -> (r: &'static str)
        ensures
            r@ == self.name_text(),
    {
        match self {
            EffectState::Prepared => "Prepared",
            EffectState::Dispatched => "Dispatched",
            EffectState::Succeeded => "Succeeded",
            EffectState::Failed => "Failed",
            EffectState::Unknown => "Unknown",
        }
    }
}

#[derive(Debug)]
pub struct PartialObservation {
    pub target: String,
    pub digest: String,
    pub state: EffectState,
}

#[derive(Debug)]
pub struct EffectIntent {
    pub intent_id: u64,
    pub unit_id: u64,
    pub attempt_epoch: u32,
    pub operation_key: String,
    pub adapter_id: String,
    pub state: EffectState,
    pub partial_observations: Vec<PartialObservation>,
}

#[derive(Debug)]
pub struct CommandReceipt {
    pub scope: String,
    pub command_id: u64,
    pub request_digest: String,
    pub result_ref: String,
    pub transition_ref: String,
}

/// One event of a commit.
#[derive(Debug)]
pub struct SemanticEvent {
    pub event_id: u64,
    pub aggregate_id: u64,
    pub aggregate_version: u64,
    pub ordinal: u32,
    pub kind: String,
    /// JSON text.
    pub payload: String,
    pub causation_ref: Option<u64>,
}

/// The view of a `SemanticEvent`.
pub struct SemanticEventView {
    pub event_id: u64,
    pub aggregate_id: u64,
    pub aggregate_version: u64,
    pub ordinal: u32,
    pub kind: Seq<char>,
    pub payload: Seq<char>,
    pub causation_ref: Option<u64>,
}

impl View for SemanticEvent {
    type V = SemanticEventView;

    open spec fn view(&self) -> SemanticEventView {
        SemanticEventView {
            event_id: self.event_id,
            aggregate_id: self.aggregate_id,
            aggregate_version: self.aggregate_version,
            ordinal: self.ordinal,
            kind: self.kind@,
            payload: self.payload@,
            causation_ref: self.causation_ref,
        }
    }
}

impl Clone for SemanticEvent {
    fn clone(&self) -> (r: Self)
        ensures
            r@ == self@,
    {
        SemanticEvent {
            event_id: self.event_id,
            aggregate_id: self.aggregate_id,
            aggregate_version: self.aggregate_version,
            ordinal: self.ordinal,
            kind: self.kind.clone(),
            payload: self.payload.clone(),
            causation_ref: self.causation_ref,
        }
    }
}

/// The command mix: one transaction per transition, each with a change of state and a journal
/// append.
#[derive(Debug, Clone, Copy, PartialEq, Eq, Structural)]
pub enum CommandKind {
    Dispatch,
    LeaseRenewal,
    /// A periodic durable rollup; live progress is not journaled.
    ProgressRollup,
    ToolCompletion,
    ReviewEvidence,
    Cancellation,
    OwnerDecision,
}

impl CommandKind {
    /// The name of the command.
    pub open spec fn name_text(self) -> Seq<char> {
        match self {
            CommandKind::Dispatch => "Dispatch"@,
            CommandKind::LeaseRenewal => "LeaseRenewal"@,
            CommandKind::ProgressRollup => "ProgressRollup"@,
            CommandKind::ToolCompletion => "ToolCompletion"@,
            CommandKind::ReviewEvidence => "ReviewEvidence"@,
            CommandKind::Cancellation => "Cancellation"@,
            CommandKind::OwnerDecision => "OwnerDecision"@,
        }
    }

    /// The name of the command.
    pub fn name(self) -> (r: &'static str)
        ensures
            r@ == self.name_text(),
    {
        match self {
            CommandKind::Dispatch => "Dispatch",
            CommandKind::LeaseRenewal => "LeaseRenewal",
            CommandKind::ProgressRollup => "ProgressRollup",
            CommandKind::ToolCompletion => "ToolCompletion",
            CommandKind::ReviewEvidence => "ReviewEvidence",
            CommandKind::Cancellation => "Cancellation",
            CommandKind::OwnerDecision => "OwnerDecision",
        }
    }
}

impl CommandKind {
    pub const MIX: [CommandKind; 7] = [
        CommandKind::Dispatch,
        CommandKind::LeaseRenewal,
        CommandKind::ProgressRollup,
        CommandKind::ToolCompletion,
        CommandKind::ReviewEvidence,
        CommandKind::Cancellation,
        CommandKind::OwnerDecision,
    ];
}

/// The crash-injection points.
#[derive(Debug, Clone, Copy, PartialEq, Eq, Structural)]
pub enum KillPoint {
    PreSeal,
    PostSealPrePublish,
    PostPublishPreResponse,
    ArtifactPublication,
    MidEffectIntent,
    WriterTakeover,
    CursorAllocAbort,
}

impl KillPoint {
    /// The name of the point.
    pub open spec fn name_text(self) -> Seq<char> {
        match self {
            KillPoint::PreSeal => "PreSeal"@,
            KillPoint::PostSealPrePublish => "PostSealPrePublish"@,
            KillPoint::PostPublishPreResponse => "PostPublishPreResponse"@,
            KillPoint::ArtifactPublication => "ArtifactPublication"@,
            KillPoint::MidEffectIntent => "MidEffectIntent"@,
            KillPoint::WriterTakeover => "WriterTakeover"@,
            KillPoint::CursorAllocAbort => "CursorAllocAbort"@,
        }
    }

    /// The name of the point.
    pub fn name(self) -> (r: &'static str)
        ensures
            r@ == self.name_text(),
    {
        match self {
            KillPoint::PreSeal => "PreSeal",
            KillPoint::PostSealPrePublish => "PostSealPrePublish",
            KillPoint::PostPublishPreResponse => "PostPublishPreResponse",
            KillPoint::ArtifactPublication => "ArtifactPublication",
            KillPoint::MidEffectIntent => "MidEffectIntent",
            KillPoint::WriterTakeover => "WriterTakeover",
            KillPoint::CursorAllocAbort => "CursorAllocAbort",
        }
    }
}

impl KillPoint {
    pub const ALL: [KillPoint; 7] = [
        KillPoint::PreSeal,
        KillPoint::PostSealPrePublish,
        KillPoint::PostPublishPreResponse,
        KillPoint::ArtifactPublication,
        KillPoint::MidEffectIntent,
        KillPoint::WriterTakeover,
        KillPoint::CursorAllocAbort,
    ];
}

/// A kill point, or a correctness cell that injects no kill.
#[derive(Debug, Clone, Copy, PartialEq, Eq, Structural)]
pub enum Cell {
    Kill(KillPoint),
    JournalImmutability,
    SnapshotWatchHandoff,
    CorruptionDrill,
}

impl Cell {
    pub const NON_KILL: [Cell; 3] = [
        Cell::JournalImmutability,
        Cell::SnapshotWatchHandoff,
        Cell::CorruptionDrill,
    ];

    /// The name of the cell.
    pub open spec fn name_text(self) -> Seq<char> {
        match self {
            Cell::Kill(p) => "Kill("@ + p.name_text() + ")"@,
            Cell::JournalImmutability => "JournalImmutability"@,
            Cell::SnapshotWatchHandoff => "SnapshotWatchHandoff"@,
            Cell::CorruptionDrill => "CorruptionDrill"@,
        }
    }

    /// The name of the cell.
    pub fn name(self) -> (r: String)
        ensures
            r@ == self.name_text(),
    {
        match self {
            Cell::Kill(p) => {
                let mut s = "Kill(".to_owned();
                s.append(p.name());
                s.append(")");
                s
            },
            Cell::JournalImmutability => "JournalImmutability".to_owned(),
            Cell::SnapshotWatchHandoff => "SnapshotWatchHandoff".to_owned(),
            Cell::CorruptionDrill => "CorruptionDrill".to_owned(),
        }
    }

    /// Every cell: the kill points, then those that inject no kill.
    pub fn all() -> (r: Vec<Cell>)
        ensures
            r@ == seq![
                Cell::Kill(KillPoint::PreSeal),
                Cell::Kill(KillPoint::PostSealPrePublish),
                Cell::Kill(KillPoint::PostPublishPreResponse),
                Cell::Kill(KillPoint::ArtifactPublication),
                Cell::Kill(KillPoint::MidEffectIntent),
                Cell::Kill(KillPoint::WriterTakeover),
                Cell::Kill(KillPoint::CursorAllocAbort),
                Cell::JournalImmutability,
                Cell::SnapshotWatchHandoff,
                Cell::CorruptionDrill,
            ],
            forall|cell: Cell| r@.contains(cell),
    {
        let mut r: Vec<Cell> = Vec::new();
        r.push(Cell::Kill(KillPoint::PreSeal));
        r.push(Cell::Kill(KillPoint::PostSealPrePublish));
        r.push(Cell::Kill(KillPoint::PostPublishPreResponse));
        r.push(Cell::Kill(KillPoint::ArtifactPublication));
        r.push(Cell::Kill(KillPoint::MidEffectIntent));
        r.push(Cell::Kill(KillPoint::WriterTakeover));
        r.push(Cell::Kill(KillPoint::CursorAllocAbort));
        r.push(Cell::JournalImmutability);
        r.push(Cell::SnapshotWatchHandoff);
        r.push(Cell::CorruptionDrill);
        proof {
            assert forall|cell: Cell| r@.contains(cell) by {
                match cell {
                    Cell::Kill(p) => match p {
                        KillPoint::PreSeal => {
                            assert(r@[0] == cell);
                        },
                        KillPoint::PostSealPrePublish => {
                            assert(r@[1] == cell);
                        },
                        KillPoint::PostPublishPreResponse => {
                            assert(r@[2] == cell);
                        },
                        KillPoint::ArtifactPublication => {
                            assert(r@[3] == cell);
                        },
                        KillPoint::MidEffectIntent => {
                            assert(r@[4] == cell);
                        },
                        KillPoint::WriterTakeover => {
                            assert(r@[5] == cell);
                        },
                        KillPoint::CursorAllocAbort => {
                            assert(r@[6] == cell);
                        },
                    },
                    Cell::JournalImmutability => {
                        assert(r@[7] == cell);
                    },
                    Cell::SnapshotWatchHandoff => {
                        assert(r@[8] == cell);
                    },
                    Cell::CorruptionDrill => {
                        assert(r@[9] == cell);
                    },
                }
            }
        }
        r
    }
}

/// Whether commits share a flush.
#[derive(Debug, Clone, Copy, PartialEq, Eq, Structural)]
pub enum Batching {
    Off,
    DefaultBound,
}

/// One workload arm: how many writers, and whether their commits share a flush.
#[derive(Debug, Clone, Copy, PartialEq, Eq, Structural)]
pub struct Arm {
    pub writers: u32,
    pub batching: Batching,
}

/// How many readers every arm has.
pub const READERS: u32 = 8;

impl Arm {
    /// Every arm: three writer counts, each without and with a shared flush.
    pub fn all() -> (r: Vec<Arm>)
        ensures
            r@ == seq![
                (Arm { writers: 2, batching: Batching::Off }),
                (Arm { writers: 2, batching: Batching::DefaultBound }),
                (Arm { writers: 8, batching: Batching::Off }),
                (Arm { writers: 8, batching: Batching::DefaultBound }),
                (Arm { writers: 32, batching: Batching::Off }),
                (Arm { writers: 32, batching: Batching::DefaultBound }),
            ],
    {
        let mut r: Vec<Arm> = Vec::new();
        r.push(Arm { writers: 2, batching: Batching::Off });
        r.push(Arm { writers: 2, batching: Batching::DefaultBound });
        r.push(Arm { writers: 8, batching: Batching::Off });
        r.push(Arm { writers: 8, batching: Batching::DefaultBound });
        r.push(Arm { writers: 32, batching: Batching::Off });
        r.push(Arm { writers: 32, batching: Batching::DefaultBound });
        r
    }

    /// The label of the arm.
    pub open spec fn label_text(self) -> Seq<char> {
        "w"@ + dec(self.writers as nat) + "-"@ + match self.batching {
            Batching::Off => "batchOFF"@,
            Batching::DefaultBound => "batchON"@,
        }
    }

    /// The label of the arm.
    pub fn label(&self) -> (r: String)
        ensures
            r@ == self.label_text(),
    {
        let mut s = "w".to_owned();
        s.append(&decimal(self.writers as u64));
        s.append("-");
        let b = match self.batching {
            Batching::Off => "batchOFF",
            Batching::DefaultBound => "batchON",
        };
        s.append(b);
        s
    }
}

} // verus!
