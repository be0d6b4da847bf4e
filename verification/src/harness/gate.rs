//! The order of a run: which trial comes next, when an attempt is sampled again, and what is
//! tallied.
use crate::harness::orchestrate::{
    after_attempt, drill_variant, AfterAttempt, GateSummary, RunConfig, TrialCtx,
};
use crate::harness::plan::{seed_of, trial_seed};
use crate::harness::schema::{Arm, Cell, KillPoint};
use crate::text::{dec, views};
use vstd::prelude::*;

verus! {

/// What is to be run next.
#[derive(Debug, Clone, Copy, PartialEq, Eq, Structural)]
pub enum Action {
    Kill { cell: KillPoint, attempt: u32, phase_post: bool },
    Takeover { attempt: u32 },
    Journal,
    Watch,
    Drill { variant: u32 },
    /// The cell may not be sampled even once.
    GiveUp,
}

/// A run under way.
#[derive(Debug)]
pub struct GateRun {
    pub cfg: RunConfig,
    pub arm: usize,
    pub cell: usize,
    pub rep: u32,
    pub attempt: u32,
    pub summary: GateSummary,
}

/// Where a run stands.
pub struct Place {
    pub arm: int,
    pub cell: int,
    pub rep: int,
    pub attempt: int,
}

impl GateRun {
    /// Where the run stands.
    pub open spec fn place(self) -> Place {
        Place {
            arm: self.arm as int,
            cell: self.cell as int,
            rep: self.rep as int,
            attempt: self.attempt as int,
        }
    }

    /// Whether no trial is left.
    pub open spec fn is_over(self) -> bool {
        self.arm >= self.cfg.arms@.len() || self.cfg.cells@.len() == 0 || self.cfg.reps == 0
    }

    /// Whether the run stands on a trial, or is over.
    pub open spec fn in_bounds(self) -> bool {
        &&& self.is_over() || (self.cell < self.cfg.cells@.len() && self.rep < self.cfg.reps)
        &&& self.summary.balanced()
    }

    /// The cell that is under trial.
    pub open spec fn cell_now(self) -> Cell {
        self.cfg.cells@[self.cell as int]
    }

    /// The arm that is under trial.
    pub open spec fn arm_now(self) -> Arm {
        self.cfg.arms@[self.arm as int]
    }
}

/// How many trials come before a place.
pub open spec fn trials_before(p: Place, cells: nat, reps: nat) -> int {
    (p.arm * cells + p.cell) * reps + p.rep
}

/// The place of the next trial: repetitions first, then cells, then arms.
pub open spec fn next_trial(p: Place, cells: nat, reps: nat) -> Place {
    if p.rep + 1 < reps {
        Place { rep: p.rep + 1, attempt: 0, ..p }
    } else if p.cell + 1 < cells {
        Place { cell: p.cell + 1, rep: 0, attempt: 0, ..p }
    } else {
        Place { arm: p.arm + 1, cell: 0, rep: 0, attempt: 0 }
    }
}

/// What a cell is run as, at an attempt.
pub open spec fn action_of(cell: Cell, attempt: u32, rep: u32, cap: u32) -> Action {
    match cell {
        Cell::Kill(k) => if k == KillPoint::ArtifactPublication {
            Action::Kill { cell: k, attempt, phase_post: attempt == 1 }
        } else if cap == 0 {
            Action::GiveUp
        } else if k == KillPoint::WriterTakeover {
            Action::Takeover { attempt }
        } else {
            Action::Kill { cell: k, attempt, phase_post: false }
        },
        Cell::JournalImmutability => Action::Journal,
        Cell::SnapshotWatchHandoff => Action::Watch,
        Cell::CorruptionDrill => Action::Drill { variant: rep % 3 },
    }
}

/// What follows a verdict.
pub enum Follow {
    /// The trial is scored, and the next one comes.
    Score,
    /// The trial is scored, and its other phase comes.
    OtherPhase,
    SampleAgain,
    /// The trial is reported as fallen short; an attempt was used up where there was one.
    FallShort { used: bool },
}

/// What follows the verdict of an attempt.
pub open spec fn follow_of(cell: Cell, attempt: int, cap: int, disqualified: bool) -> Follow {
    match cell {
        Cell::Kill(k) => if k == KillPoint::ArtifactPublication {
            if attempt == 0 {
                Follow::OtherPhase
            } else {
                Follow::Score
            }
        } else if cap == 0 {
            Follow::FallShort { used: false }
        } else if !disqualified {
            Follow::Score
        } else if attempt + 1 < cap {
            Follow::SampleAgain
        } else {
            Follow::FallShort { used: true }
        },
        _ => Follow::Score,
    }
}

/// Whether a tally counts one more scored trial than another.
pub open spec fn scored_one_more(a: GateSummary, b: GateSummary, pass: bool) -> bool {
    &&& b.scored == a.scored + 1
    &&& b.passed == a.passed + (if pass {
        1int
    } else {
        0
    })
    &&& b.failed == a.failed + (if pass {
        0int
    } else {
        1
    })
    &&& b.resampled_attempts == a.resampled_attempts
    &&& b.shortfalls@ == a.shortfalls@
}

/// Whether two tallies have scored alike.
pub open spec fn scored_alike(a: GateSummary, b: GateSummary) -> bool {
    a.scored == b.scored && a.passed == b.passed && a.failed == b.failed
}

/// The line of a trial that fell short.
pub open spec fn shortfall_line(arm: Arm, cell: Cell, rep: u32) -> Seq<char> {
    arm.label_text() + "/"@ + (match cell {
        Cell::Kill(k) => k.name_text(),
        _ => Seq::empty(),
    }) + "/rep"@ + dec(rep as nat)
}

impl GateRun {
    /// A run at its first trial.
    pub fn new(cfg: RunConfig) -> (r: GateRun)
        ensures
            r.cfg == cfg,
            r.place() == (Place { arm: 0, cell: 0, rep: 0, attempt: 0 }),
            r.in_bounds(),
            r.summary.scored == 0,
            r.summary.resampled_attempts == 0,
            views(r.summary.shortfalls@) == Seq::<Seq<char>>::empty(),
    {
        GateRun { cfg, arm: 0, cell: 0, rep: 0, attempt: 0, summary: GateSummary::new() }
    }

    /// What is to be run next, and under which identity; `None` when the run is over.
    pub fn current(&self) -> (r: Option<(TrialCtx, Action)>)
        requires
            self.in_bounds(),
        ensures
            match r {
                None => self.is_over(),
                Some(step) => {
                    &&& !self.is_over()
                    &&& step.0.arm == self.arm_now()
                    &&& step.0.rep == self.rep
                    &&& step.0.trial_seed == seed_of(
                        self.cfg.root_seed,
                        self.arm_now(),
                        self.cell_now(),
                        self.rep,
                    )
                    &&& step.1 == action_of(
                        self.cell_now(),
                        self.attempt,
                        self.rep,
                        self.cfg.attempt_cap,
                    )
                },
            },
    {
        if self.arm >= self.cfg.arms.len() || self.cfg.cells.len() == 0 || self.cfg.reps == 0 {
            return None;
        }
        let arm = self.cfg.arms[self.arm];
        let cell = self.cfg.cells[self.cell];
        let ctx = TrialCtx {
            arm,
            rep: self.rep,
            trial_seed: trial_seed(self.cfg.root_seed, &arm, cell, self.rep),
        };
        let action = match cell {
            Cell::Kill(k) => match k {
                KillPoint::ArtifactPublication => Action::Kill {
                    cell: k,
                    attempt: self.attempt,
                    phase_post: self.attempt == 1,
                },
                _ => if self.cfg.attempt_cap == 0 {
                    Action::GiveUp
                } else if matches!(k, KillPoint::WriterTakeover) {
                    Action::Takeover { attempt: self.attempt }
                } else {
                    Action::Kill { cell: k, attempt: self.attempt, phase_post: false }
                },
            },
            Cell::JournalImmutability => Action::Journal,
            Cell::SnapshotWatchHandoff => Action::Watch,
            Cell::CorruptionDrill => Action::Drill { variant: drill_variant(self.rep) },
        };
        Some((ctx, action))
    }

    fn move_on(&mut self)
        requires
            old(self).in_bounds(),
            !old(self).is_over(),
        ensures
            final(self).cfg == old(self).cfg,
            final(self).summary == old(self).summary,
            final(self).place() == next_trial(
                old(self).place(),
                old(self).cfg.cells@.len(),
                old(self).cfg.reps as nat,
            ),
            final(self).in_bounds(),
    {
        let arms: usize = self.cfg.arms.len();
        let cells: usize = self.cfg.cells.len();
        proof {
            assert(self.arm < arms && self.cell < cells);
        }
        self.attempt = 0;
        if self.rep + 1 < self.cfg.reps {
            self.rep = self.rep + 1;
        } else {
            self.rep = 0;
            if self.cell + 1 < cells {
                self.cell = self.cell + 1;
            } else {
                self.cell = 0;
                self.arm = self.arm + 1;
            }
        }
    }

    /// Takes the verdict of the attempt that `current` gave: tallies it, and goes on to the next
    /// attempt or trial.
    pub fn advance(&mut self, pass: bool, disqualified: bool)
        requires
            old(self).in_bounds(),
            !old(self).is_over(),
            old(self).summary.scored < u32::MAX,
            old(self).summary.resampled_attempts < u32::MAX,
            old(self).attempt < u32::MAX,
        ensures
            final(self).cfg == old(self).cfg,
            final(self).in_bounds(),
            ({
                let a = old(self).summary;
                let b = final(self).summary;
                let next = next_trial(
                    old(self).place(),
                    old(self).cfg.cells@.len(),
                    old(self).cfg.reps as nat,
                );
                let again = Place { attempt: old(self).attempt + 1, ..old(self).place() };
                match follow_of(
                    old(self).cell_now(),
                    old(self).attempt as int,
                    old(self).cfg.attempt_cap as int,
                    disqualified,
                ) {
                    Follow::Score => final(self).place() == next && scored_one_more(a, b, pass),
                    Follow::OtherPhase => final(self).place() == again && scored_one_more(
                        a,
                        b,
                        pass,
                    ),
                    Follow::SampleAgain => final(self).place() == again && scored_alike(a, b)
                        && b.resampled_attempts == a.resampled_attempts + 1 && b.shortfalls@
                        == a.shortfalls@,
                    Follow::FallShort { used } => final(self).place() == next && scored_alike(a, b)
                        && b.resampled_attempts == a.resampled_attempts + (if used {
                        1int
                    } else {
                        0
                    }) && views(b.shortfalls@) == views(a.shortfalls@).push(
                        shortfall_line(old(self).arm_now(), old(self).cell_now(), old(self).rep),
                    ),
                }
            }),
    {
        let arm = self.cfg.arms[self.arm];
        match self.cfg.cells[self.cell] {
            Cell::Kill(k) => {
                if matches!(k, KillPoint::ArtifactPublication) {
                    self.summary.record(pass);
                    if self.attempt == 0 {
                        self.attempt = 1;
                    } else {
                        self.move_on();
                    }
                    return;
                }
                if self.cfg.attempt_cap == 0 {
                    self.summary.fall_short(&arm, k, self.rep);
                    self.move_on();
                    return;
                }
                match after_attempt(k, disqualified, self.attempt, self.cfg.attempt_cap) {
                    AfterAttempt::Score => {
                        self.summary.record(pass);
                        self.move_on();
                    },
                    AfterAttempt::SampleAgain => {
                        self.summary.resample();
                        self.attempt = self.attempt + 1;
                    },
                    AfterAttempt::FallShort => {
                        self.summary.resample();
                        self.summary.fall_short(&arm, k, self.rep);
                        self.move_on();
                    },
                }
            },
            _ => {
                self.summary.record(pass);
                self.move_on();
            },
        }
    }
}

/// Trials come one after the other: each place has exactly one more trial before it than the
/// last, and after the last trial of the last arm the run is over.
pub proof fn trials_come_in_order(p: Place, cells: nat, reps: nat)
    requires
        0 <= p.cell < cells,
        0 <= p.rep < reps,
    ensures
        trials_before(next_trial(p, cells, reps), cells, reps) == trials_before(p, cells, reps) + 1,
{
    let n = next_trial(p, cells, reps);
    if p.rep + 1 < reps {
    } else if p.cell + 1 < cells {
        assert((p.arm * cells + (p.cell + 1)) * reps == (p.arm * cells + p.cell) * reps + reps)
            by (nonlinear_arith);
    } else {
        assert(((p.arm + 1) * cells) * reps == (p.arm * cells + p.cell) * reps + reps)
            by (nonlinear_arith)
            requires
                p.cell + 1 == cells,
        ;
    }
}

} // verus!
