//! The decisions of a worker: when its kill directive fires, and which rejections are planned.
use crate::harness::schema::{Batching, CommandKind};
use crate::harness::sidecar::{Confirmed, ConfirmedView};
use crate::harness::store::{Applied, ApplyError, Rejection, RejectionView};
use crate::harness::workload::{CommitSpec, ExpectedRejection};
use vstd::prelude::*;
use vstd::string::*;

verus! {

/// Where the kill lands relative to a commit.
#[derive(Debug, Clone, Copy, PartialEq, Eq, Structural)]
pub enum KillMode {
    /// Before the apply is entered: nothing of the spec may survive.
    BeforeCommit,
    /// After the commit was confirmed: it must survive in full.
    AfterCommit,
    /// After the commit, before it is confirmed.
    ResponseWindow,
    /// A timer races the commit; where it landed is classified afterwards.
    Timer,
}

/// When and how a worker is killed.
#[derive(Debug, Clone, Copy, PartialEq, Eq, Structural)]
pub struct KillDirective {
    pub mode: KillMode,
    /// Counted from 1 over the eligible specs.
    pub at_eligible: u64,
    /// Only specs of this kind are eligible.
    pub only_kind: Option<CommandKind>,
    /// The sleep of the timer, in microseconds.
    pub timer_us: u64,
}

/// What a worker runs.
#[derive(Debug)]
pub struct WorkerConfig {
    pub dir: String,
    pub sidecar: String,
    pub trial_seed: u64,
    pub writers: u32,
    pub batching: Batching,
    /// Specs that each writer attempts before a clean exit.
    pub steps: u32,
    pub create: bool,
    pub kill: Option<KillDirective>,
}

/// What a worker does before it applies a spec.
#[derive(Debug, Clone, Copy, PartialEq, Eq, Structural)]
pub enum BeforeApply {
    Proceed,
    Kill,
    ArmTimer(u64),
}

impl KillDirective {
    /// Whether a spec of a kind is eligible.
    pub open spec fn eligible(self, kind: CommandKind) -> bool {
        self.only_kind is None || self.only_kind == Some(kind)
    }

    /// Whether the directive fires at a spec, when `seen` eligible specs came before it.
    pub open spec fn fires_at(self, kind: CommandKind, seen: u64) -> bool {
        self.eligible(kind) && seen + 1 == self.at_eligible
    }

    /// What a worker does before the apply at which the directive fires.
    pub open spec fn act_before(self) -> BeforeApply {
        if self.mode == KillMode::BeforeCommit {
            BeforeApply::Kill
        } else if self.mode == KillMode::Timer {
            BeforeApply::ArmTimer(self.timer_us)
        } else {
            BeforeApply::Proceed
        }
    }

    /// Whether a spec of a kind counts towards the directive.
    pub fn counts(&self, kind: CommandKind) -> (r: bool)
        ensures
            r == self.eligible(kind),
    {
        match self.only_kind {
            None => true,
            Some(k) => k == kind,
        }
    }

    /// Whether the directive fires at a spec, when `seen` eligible specs came before it.
    pub fn fires(&self, kind: CommandKind, seen: u64) -> (r: bool)
        requires
            seen < u64::MAX,
        ensures
            r == (self.eligible(kind) && seen + 1 == self.at_eligible),
            r == self.fires_at(kind, seen),
    {
        self.counts(kind) && seen + 1 == self.at_eligible
    }

    /// What a worker does before the apply at which the directive fires.
    pub fn before_apply(&self) -> (r: BeforeApply)
        ensures
            r == (match self.mode {
                KillMode::BeforeCommit => BeforeApply::Kill,
                KillMode::Timer => BeforeApply::ArmTimer(self.timer_us),
                _ => BeforeApply::Proceed,
            }),
            r == self.act_before(),
    {
        match self.mode {
            KillMode::BeforeCommit => BeforeApply::Kill,
            KillMode::Timer => BeforeApply::ArmTimer(self.timer_us),
            _ => BeforeApply::Proceed,
        }
    }
}

/// Whether a rejection is the one that was planned. Any other rejection is a defect of the
/// harness.
pub open spec fn is_planned(expected: Option<ExpectedRejection>, r: RejectionView) -> bool {
    ||| expected == Some(ExpectedRejection::StaleLease) && r is StaleLease
    ||| expected == Some(ExpectedRejection::StaleHolder) && r is StaleHolder
}

/// Whether a rejection is the one that was planned.
pub fn planned_rejection(expected: Option<ExpectedRejection>, rejection: &Rejection) -> (r: bool)
    ensures
        r == is_planned(expected, rejection@),
{
    match (expected, rejection) {
        (Some(ExpectedRejection::StaleLease), Rejection::StaleLease { .. }) => true,
        (Some(ExpectedRejection::StaleHolder), Rejection::StaleHolder { .. }) => true,
        _ => false,
    }
}

/// What a worker does after the apply of a spec.
#[derive(Debug)]
pub enum AfterApply {
    /// It is killed before the commit is confirmed.
    Kill,
    /// It confirms the commit, is then killed if it must be, and frees the slot.
    Confirm { record: Confirmed, then_kill: bool },
    /// The planned refusal came: it frees the slot.
    Release,
    /// The funnel refused what was not planned to be refused, or for another reason.
    Unplanned(Rejection),
    /// Anything else is a defect of the harness or of the store.
    Defect(String),
}

/// Whether a directive fired that kills in a mode.
pub open spec fn fired_as(fired: Option<KillDirective>, mode: KillMode) -> bool {
    fired is Some && fired->0.mode == mode
}

/// What a worker does after the apply of a spec. A commit that was planned to be refused is
/// confirmed as such: the auditor cannot tell later.
pub fn after_apply(
    spec: &CommitSpec,
    fired: Option<KillDirective>,
    result: Result<Applied, ApplyError>,
) -> (r: AfterApply)
    ensures
        match result {
            Ok(applied) => if fired_as(fired, KillMode::ResponseWindow) {
                r is Kill
            } else {
                &&& r is Confirm
                &&& r->Confirm_then_kill == fired_as(fired, KillMode::AfterCommit)
                &&& r->Confirm_record@ == ConfirmedView {
                    spec: spec@,
                    generation: applied.generation,
                    durable_at: applied.durable_at,
                    stale_accepted: spec@.expect_reject is Some,
                }
            },
            Err(ApplyError::Rejected(e)) => if is_planned(spec@.expect_reject, e@) {
                r is Release
            } else {
                r is Unplanned && r->Unplanned_0@ == e@
            },
            Err(ApplyError::Harness(e)) => r is Defect && r->Defect_0@ == "harness incoherence: "@
                + e@,
            Err(ApplyError::Graph(e)) => r is Defect && r->Defect_0@ == "store error in worker: "@
                + e@,
        },
{
    match result {
        Ok(applied) => {
            let mode = match fired {
                Some(k) => Some(k.mode),
                None => None,
            };
            if matches!(mode, Some(KillMode::ResponseWindow)) {
                return AfterApply::Kill;
            }
            let record = Confirmed {
                stale_accepted: spec.expect_reject.is_some(),
                spec: spec.clone(),
                generation: applied.generation,
                durable_at: applied.durable_at,
            };
            AfterApply::Confirm { record, then_kill: matches!(mode, Some(KillMode::AfterCommit)) }
        },
        Err(ApplyError::Rejected(e)) => if planned_rejection(spec.expect_reject, &e) {
            AfterApply::Release
        } else {
            AfterApply::Unplanned(e)
        },
        Err(ApplyError::Harness(e)) => {
            let mut s = "harness incoherence: ".to_owned();
            s.append(&e);
            AfterApply::Defect(s)
        },
        Err(ApplyError::Graph(e)) => {
            let mut s = "store error in worker: ".to_owned();
            s.append(&e);
            AfterApply::Defect(s)
        },
    }
}

/// How many commits a racer that wins writes.
pub const RACER_COMMITS: u32 = 3;

/// What a racer does after the apply of a spec.
#[derive(Debug)]
pub enum RacerStep {
    /// Release the slot as advanced: so many commits are written, and perhaps that was the last.
    Advance { applied: u32, done: bool },
    /// Release the slot as it was: a refusal does not count.
    Release,
    /// The race ends in an error.
    Fail(String),
}

/// What a racer does after the apply of a spec, with `applied` commits written before it.
pub fn racer_step(applied: u32, result: &Result<Applied, ApplyError>) -> (r: RacerStep)
    requires
        applied < RACER_COMMITS,
    ensures
        match *result {
            Ok(_) => r == (RacerStep::Advance {
                applied: (applied + 1) as u32,
                done: applied + 1 == RACER_COMMITS,
            }),
            Err(ApplyError::Rejected(_)) => r is Release,
            Err(ApplyError::Harness(e)) => r is Fail && r->Fail_0@ == e@,
            Err(ApplyError::Graph(e)) => r is Fail && r->Fail_0@ == e@,
        },
{
    match result {
        Ok(_) => RacerStep::Advance { applied: applied + 1, done: applied + 1 == RACER_COMMITS },
        Err(ApplyError::Rejected(_)) => RacerStep::Release,
        Err(ApplyError::Harness(e)) => RacerStep::Fail(e.clone()),
        Err(ApplyError::Graph(e)) => RacerStep::Fail(e.clone()),
    }
}

/// How many unit slots the pool of so many writers has.
pub open spec fn slots_for(writers: u32) -> int {
    if writers <= 2 {
        8
    } else {
        writers * 4
    }
}

/// How many unit slots a worker's pool has: four for each writer, and for two writers at least.
pub fn pool_size(writers: u32) -> (r: usize)
    requires
        writers <= 0x3fff_ffff,
    ensures
        r == 4 * (if writers < 2 {
            2
        } else {
            writers as int
        }),
        r == slots_for(writers),
{
    let w: u32 = if writers < 2 {
        2
    } else {
        writers
    };
    (w * 4) as usize
}

} // verus!
