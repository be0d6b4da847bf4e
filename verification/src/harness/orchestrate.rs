//! The verdicts of the trials: where a kill landed, whether the landing counts, what the cell
//! demands of the recovered store, and the tally of a gate run.
use crate::harness::audit::{
    nonterminal, score, violation_views, violations_of, AuditReport, AuditSnapshot,
    AuditSnapshotView, Bar, Violation,
};
use crate::harness::schema::{
    Arm, Cell, CommandKind, KillPoint, SemanticEvent, SemanticEventView,
};
use crate::harness::sidecar::{record_views, Confirmed, ConfirmedView};
use crate::harness::store::pair_key;
use crate::harness::worker::{KillDirective, KillMode};
use crate::harness::workload::{
    chacha_pos, chacha_seed, draw_usize, fresh_slot, usize_draw, writer_seed, CommitSpec,
    CommitSpecView, UnitPool, UnitPoolView, WriterStream, WriterStreamView,
};
use crate::table::lookup;
use crate::text::{chars_of, dec, decimal, holds, opt_view, same, views};
use rand::{Rng, SeedableRng};
use rand_chacha::ChaCha20Rng;
use vstd::prelude::*;
use vstd::string::*;
use vstd::utf8::encode_utf8;

verus! {

/// The seed that a generator seeded from a number has.
pub uninterp spec fn seed_from_number(n: u64) -> Seq<u8>;

/// A number drawn from `low..high` at a position of the stream of a seed, in the way of `u64`,
/// and the position after it.
pub uninterp spec fn u64_draw(seed: Seq<u8>, pos: nat, low: nat, high: nat) -> (nat, nat);

/// `ChaCha20Rng::seed_from_u64`: a generator at the beginning of the stream of a seed that the
/// number decides.
#[verifier::external_body]
fn seeded_from_number(n: u64) -> (r: ChaCha20Rng)
    ensures
        chacha_seed(r) == seed_from_number(n),
        chacha_pos(r) == 0,
{
    ChaCha20Rng::seed_from_u64(n)
}

/// `Rng::random_range` on a range of `u64`: a number in the range that the seed and the
/// position decide. An empty range would panic.
#[verifier::external_body]
fn draw_u64(rng: &mut ChaCha20Rng, low: u64, high: u64) -> (r: u64)
    requires
        low < high,
    ensures
        low <= r < high,
        (r as nat, chacha_pos(*final(rng))) == u64_draw(
            chacha_seed(*old(rng)),
            chacha_pos(*old(rng)),
            low as nat,
            high as nat,
        ),
        chacha_seed(*final(rng)) == chacha_seed(*old(rng)),
{
    rng.random_range(low..high)
}

// --- The write-ahead log -------------------------------------------------------------------------

/// One step of reading the log: an entry with the event ids that it creates, a torn end, or an
/// error.
#[derive(Debug)]
pub enum WalRead {
    Entry { sequence: u64, event_ids: Vec<u64> },
    Torn,
    Error(String),
}

/// The view of a `WalRead`.
pub enum WalReadView {
    Entry { sequence: u64, event_ids: Seq<u64> },
    Torn,
    Error(Seq<char>),
}

impl View for WalRead {
    type V = WalReadView;

    open spec fn view(&self) -> WalReadView {
        match self {
            WalRead::Entry { sequence, event_ids } => WalReadView::Entry {
                sequence: *sequence,
                event_ids: event_ids@,
            },
            WalRead::Torn => WalReadView::Torn,
            WalRead::Error(x) => WalReadView::Error(x@),
        }
    }
}

/// A scan of the log before recovery: the only view of a torn end, since recovery truncates it.
#[derive(Debug)]
pub struct WalScan {
    pub entries: u64,
    pub last_seq: u64,
    pub torn: bool,
    pub stop_error: Option<String>,
}

/// The view of a `WalScan`.
pub struct WalScanView {
    pub entries: u64,
    pub last_seq: u64,
    pub torn: bool,
    pub stop_error: Option<Seq<char>>,
}

impl View for WalScan {
    type V = WalScanView;

    open spec fn view(&self) -> WalScanView {
        WalScanView {
            entries: self.entries,
            last_seq: self.last_seq,
            torn: self.torn,
            stop_error: opt_view(self.stop_error),
        }
    }
}

impl Clone for WalScan {
    fn clone(&self) -> (r: Self)
        ensures
            r@ == self@,
    {
        WalScan {
            entries: self.entries,
            last_seq: self.last_seq,
            torn: self.torn,
            stop_error: self.stop_error.clone(),
        }
    }
}

/// The views of the steps of reading a log.
pub open spec fn read_views(reads: Seq<WalRead>) -> Seq<WalReadView> {
    reads.map_values(|r: WalRead| r@)
}

/// How many entries come before the first step that is no entry.
pub open spec fn clean_entries(reads: Seq<WalReadView>, i: int) -> int
    decreases reads.len() - i,
{
    if i < reads.len() && reads[i] is Entry {
        clean_entries(reads, i + 1)
    } else {
        i
    }
}

/// What a scan finds: the entries before the first step that is none, the last of them, and
/// what stopped it.
pub open spec fn scan_of(reads: Seq<WalReadView>) -> WalScanView {
    let n = clean_entries(reads, 0);
    WalScanView {
        entries: n as u64,
        last_seq: if n > 0 {
            reads[n - 1]->Entry_sequence
        } else {
            0
        },
        torn: n < reads.len() && reads[n] is Torn,
        stop_error: if n < reads.len() && reads[n] is Error {
            Some(reads[n]->Error_0)
        } else {
            None
        },
    }
}

/// Scans a log.
pub fn scan_wal(reads: &Vec<WalRead>) -> (r: WalScan)
    ensures
        r@ == scan_of(read_views(reads@)),
{
    let ghost all = read_views(reads@);
    let mut scan = WalScan { entries: 0, last_seq: 0, torn: false, stop_error: None };
    let mut i: usize = 0;
    while i < reads.len()
        invariant
            i <= reads.len(),
            all == read_views(reads@),
            clean_entries(all, 0) == clean_entries(all, i as int),
            scan@.entries == i,
            scan@.last_seq == (if i > 0 {
                all[i - 1]->Entry_sequence
            } else {
                0
            }),
            !scan@.torn,
            scan@.stop_error is None,
        decreases reads.len() - i,
    {
        proof {
            assert(all[i as int] == reads@[i as int]@);
        }
        match &reads[i] {
            WalRead::Entry { sequence, .. } => {
                scan.entries = scan.entries + 1;
                scan.last_seq = *sequence;
            },
            WalRead::Torn => {
                scan.torn = true;
                return scan;
            },
            WalRead::Error(e) => {
                scan.stop_error = Some(e.clone());
                return scan;
            },
        }
        i += 1;
    }
    scan
}

/// The entries after a cursor and up to a watermark, among the first `n`.
pub open spec fn entries_between(reads: Seq<WalReadView>, n: int, after: u64, watermark: u64) -> Seq<
    (u64, Seq<u64>),
>
    decreases n,
{
    if n <= 0 {
        Seq::empty()
    } else {
        let front = entries_between(reads, n - 1, after, watermark);
        match reads[n - 1] {
            WalReadView::Entry { sequence, event_ids } => if after < sequence && sequence
                <= watermark {
                front.push((sequence, event_ids))
            } else {
                front
            },
            _ => front,
        }
    }
}

/// The views of polled entries.
pub open spec fn polled_views(list: Seq<(u64, Vec<u64>)>) -> Seq<(u64, Seq<u64>)> {
    Seq::new(list.len(), |i: int| (list[i].0, list[i].1@))
}

/// Polls a log for entries after a cursor, trusting only those at or below the durability
/// watermark. A torn end is a live append past the watermark and ends the poll; any other error
/// is reported.
pub fn poll_wal(reads: &Vec<WalRead>, after: u64, watermark: u64) -> (r: Result<
    Vec<(u64, Vec<u64>)>,
    String,
>)
    ensures
        ({
            let all = read_views(reads@);
            let n = clean_entries(all, 0);
            match r {
                Ok(list) => !(n < all.len() && all[n] is Error) && polled_views(list@)
                    == entries_between(all, n, after, watermark),
                Err(e) => n < all.len() && all[n] is Error && e@ == all[n]->Error_0,
            }
        }),
{
    let ghost all = read_views(reads@);
    let mut out: Vec<(u64, Vec<u64>)> = Vec::new();
    let mut i: usize = 0;
    proof {
        assert(polled_views(out@) =~= Seq::<(u64, Seq<u64>)>::empty());
    }
    while i < reads.len()
        invariant
            i <= reads.len(),
            all == read_views(reads@),
            clean_entries(all, 0) == clean_entries(all, i as int),
            polled_views(out@) == entries_between(all, i as int, after, watermark),
        decreases reads.len() - i,
    {
        proof {
            assert(all[i as int] == reads@[i as int]@);
        }
        match &reads[i] {
            WalRead::Entry { sequence, event_ids } => {
                if after < *sequence && *sequence <= watermark {
                    let ghost before = polled_views(out@);
                    let ids = copy_numbers(event_ids);
                    out.push((*sequence, ids));
                    proof {
                        assert(polled_views(out@) =~= before.push((*sequence, event_ids@)));
                    }
                }
            },
            WalRead::Torn => {
                return Ok(out);
            },
            WalRead::Error(e) => {
                return Err(e.clone());
            },
        }
        i += 1;
    }
    Ok(out)
}

fn copy_numbers(list: &Vec<u64>) -> (r: Vec<u64>)
    ensures
        r@ == list@,
{
    let mut r: Vec<u64> = Vec::new();
    let mut i: usize = 0;
    while i < list.len()
        invariant
            i <= list.len(),
            r@ == list@.take(i as int),
        decreases list.len() - i,
    {
        r.push(list[i]);
        proof {
            assert(list@.take(i + 1) =~= list@.take(i as int).push(list@[i as int]));
        }
        i += 1;
    }
    proof {
        assert(list@.take(list@.len() as int) =~= list@);
    }
    r
}

// --- Directives and landings ---------------------------------------------------------------------

/// Where the evidence says a timed kill landed.
#[derive(Debug, Clone, Copy, PartialEq, Eq, Structural)]
pub enum Landing {
    /// The directive was exact.
    Exact,
    /// Nothing beyond the confirmations reached the log.
    PreAppend,
    /// The end of the log is torn: an append began and never became durable.
    TornTail,
    /// Durable entries exist beyond the last confirmation.
    DurableUnconfirmed,
}

/// The name of a cell in a verdict.
pub open spec fn cell_label(cell: Cell) -> Seq<char> {
    match cell {
        Cell::Kill(k) => k.name_text(),
        _ => cell.name_text(),
    }
}

/// The name of a cell in a verdict.
pub fn cell_name(cell: Cell) -> (r: String)
    ensures
        r@ == cell_label(cell),
{
    match cell {
        Cell::Kill(k) => k.name().to_owned(),
        _ => cell.name(),
    }
}

/// The directive of a kill cell, once everything is drawn.
pub open spec fn directive_of(
    cell: KillPoint,
    at_any: u64,
    at_kinded: u64,
    timer_us: u64,
    phase_post: bool,
) -> KillDirective {
    match cell {
        KillPoint::PreSeal => KillDirective {
            mode: KillMode::BeforeCommit,
            at_eligible: at_any,
            only_kind: None,
            timer_us: 0,
        },
        KillPoint::PostSealPrePublish | KillPoint::CursorAllocAbort => KillDirective {
            mode: KillMode::Timer,
            at_eligible: at_any,
            only_kind: None,
            timer_us,
        },
        KillPoint::ArtifactPublication => KillDirective {
            mode: if phase_post {
                KillMode::AfterCommit
            } else {
                KillMode::BeforeCommit
            },
            at_eligible: at_kinded,
            only_kind: Some(CommandKind::ReviewEvidence),
            timer_us: 0,
        },
        KillPoint::MidEffectIntent => KillDirective {
            mode: KillMode::AfterCommit,
            at_eligible: at_kinded,
            only_kind: Some(CommandKind::Dispatch),
            timer_us: 0,
        },
        _ => KillDirective {
            mode: KillMode::ResponseWindow,
            at_eligible: at_any,
            only_kind: None,
            timer_us: 0,
        },
    }
}

/// The directive of a kill cell, for drawn numbers. A takeover has no directive.
pub fn directive_from(
    cell: KillPoint,
    at_any: u64,
    at_kinded: u64,
    timer_us: u64,
    phase_post: bool,
) -> (r: KillDirective)
    requires
        cell != KillPoint::WriterTakeover,
    ensures
        r == directive_of(cell, at_any, at_kinded, timer_us, phase_post),
{
    match cell {
        KillPoint::PreSeal => KillDirective {
            mode: KillMode::BeforeCommit,
            at_eligible: at_any,
            only_kind: None,
            timer_us: 0,
        },
        KillPoint::PostSealPrePublish | KillPoint::CursorAllocAbort => KillDirective {
            mode: KillMode::Timer,
            at_eligible: at_any,
            only_kind: None,
            timer_us,
        },
        KillPoint::ArtifactPublication => {
            let mode = if phase_post {
                KillMode::AfterCommit
            } else {
                KillMode::BeforeCommit
            };
            KillDirective {
                mode,
                at_eligible: at_kinded,
                only_kind: Some(CommandKind::ReviewEvidence),
                timer_us: 0,
            }
        },
        KillPoint::MidEffectIntent => KillDirective {
            mode: KillMode::AfterCommit,
            at_eligible: at_kinded,
            only_kind: Some(CommandKind::Dispatch),
            timer_us: 0,
        },
        _ => KillDirective {
            mode: KillMode::ResponseWindow,
            at_eligible: at_any,
            only_kind: None,
            timer_us: 0,
        },
    }
}

/// The directive that a seed decides for a kill cell: the trial seed, with the attempt in its
/// high half.
pub open spec fn seeded_directive(
    trial_seed: u64,
    attempt: u32,
    cell: KillPoint,
    phase_post: bool,
) -> KillDirective {
    let seed = seed_from_number(trial_seed ^ ((attempt as u64) << 32u64));
    let any = u64_draw(seed, 0, 20, 80);
    let kinded = u64_draw(seed, any.1, 2, 8);
    let timer = u64_draw(seed, kinded.1, 30, 2500);
    directive_of(cell, any.0 as u64, kinded.0 as u64, timer.0 as u64, phase_post)
}

/// The directive for one attempt of a kill cell: one trial seed, one directive.
pub fn directive_for(trial_seed: u64, attempt: u32, cell: KillPoint, phase_post: bool) -> (r:
    KillDirective)
    requires
        cell != KillPoint::WriterTakeover,
    ensures
        r == seeded_directive(trial_seed, attempt, cell, phase_post),
{
    let mut rng = seeded_from_number(trial_seed ^ ((attempt as u64) << 32u64));
    let at_any: u64 = draw_u64(&mut rng, 20, 80);
    let at_kinded: u64 = draw_u64(&mut rng, 2, 8);
    if matches!(cell, KillPoint::PostSealPrePublish | KillPoint::CursorAllocAbort) {
        let timer: u64 = draw_u64(&mut rng, 30, 2500);
        directive_from(cell, at_any, at_kinded, timer, phase_post)
    } else {
        directive_from(cell, at_any, at_kinded, 0, phase_post)
    }
}

/// The low half of a number.
pub open spec fn low_half(n: u64) -> int {
    n as int % 0x1_0000_0000
}

/// How many steps each writer of a killed worker gets: just past the directive, so that a miss
/// stays cheap.
pub open spec fn steps_of(at_eligible: u64, writers: u32) -> int {
    let w: int = if writers < 1 {
        1
    } else {
        writers as int
    };
    let n = low_half(at_eligible) * 8 / w;
    (if n < 30 {
        30
    } else {
        n
    }) + 40
}

/// How many steps each writer of a killed worker gets. The count is kept in 32 bits, and so is
/// every number on the way to it.
pub fn worker_steps(at_eligible: u64, writers: u32) -> (r: u32)
    requires
        low_half(at_eligible) * 8 <= u32::MAX,
        steps_of(at_eligible, writers) <= u32::MAX,
    ensures
        r == steps_of(at_eligible, writers),
{
    let w: u32 = if writers < 1 {
        1
    } else {
        writers
    };
    let at: u32 = (at_eligible % 0x1_0000_0000) as u32;
    let n: u32 = at * 8 / w;
    let steps: u32 = if n < 30 {
        30
    } else {
        n
    };
    steps + 40
}

/// The highest cursor that a commit was confirmed at; 0 where none was.
pub open spec fn max_confirmed(records: Seq<ConfirmedView>) -> u64
    decreases records.len(),
{
    if records.len() == 0 {
        0
    } else {
        let front = max_confirmed(records.drop_last());
        match records.last().durable_at {
            Some(d) => if d > front {
                d
            } else {
                front
            },
            None => front,
        }
    }
}

/// The highest cursor that a commit was confirmed at.
pub fn highest_confirmed(confirmed: &Vec<Confirmed>) -> (r: u64)
    ensures
        r == max_confirmed(record_views(confirmed@)),
{
    let ghost all = record_views(confirmed@);
    let mut best: u64 = 0;
    let mut i: usize = 0;
    proof {
        assert(all.take(0) =~= Seq::<ConfirmedView>::empty());
    }
    while i < confirmed.len()
        invariant
            i <= confirmed.len(),
            all == record_views(confirmed@),
            best == max_confirmed(all.take(i as int)),
        decreases confirmed.len() - i,
    {
        proof {
            assert(all.take(i + 1).drop_last() =~= all.take(i as int));
            assert(all.take(i + 1).last() == confirmed@[i as int]@);
        }
        if let Some(d) = confirmed[i].durable_at {
            if d > best {
                best = d;
            }
        }
        i += 1;
    }
    proof {
        assert(all.take(all.len() as int) =~= all);
    }
    best
}

/// Where a kill landed.
pub open spec fn landing_of(
    directive: KillDirective,
    records: Seq<ConfirmedView>,
    scan: WalScanView,
) -> Landing {
    if directive.mode != KillMode::Timer {
        Landing::Exact
    } else if scan.torn {
        Landing::TornTail
    } else if scan.last_seq > max_confirmed(records) {
        Landing::DurableUnconfirmed
    } else {
        Landing::PreAppend
    }
}

/// Classifies where a kill landed, from the confirmations and the log.
pub fn classify(directive: &KillDirective, confirmed: &Vec<Confirmed>, scan: &WalScan) -> (r:
    Landing)
    ensures
        r == landing_of(*directive, record_views(confirmed@), scan@),
{
    if directive.mode != KillMode::Timer {
        return Landing::Exact;
    }
    if scan.torn {
        Landing::TornTail
    } else if scan.last_seq > highest_confirmed(confirmed) {
        Landing::DurableUnconfirmed
    } else {
        Landing::PreAppend
    }
}

/// Whether a landing counts for a cell: after the seal and before publication only a landing
/// inside the commit does; every other cell takes all.
pub open spec fn counts_for(cell: KillPoint, landing: Landing) -> bool {
    cell == KillPoint::PostSealPrePublish ==> landing == Landing::TornTail || landing
        == Landing::DurableUnconfirmed
}

/// Whether a landing counts for a cell.
pub fn qualifies(cell: KillPoint, landing: Landing) -> (r: bool)
    ensures
        r == counts_for(cell, landing),
{
    match cell {
        KillPoint::PostSealPrePublish => matches!(
            landing,
            Landing::TornTail | Landing::DurableUnconfirmed
        ),
        _ => true,
    }
}

// --- Verdicts ------------------------------------------------------------------------------------

/// What one trial found.
#[derive(Debug)]
pub struct TrialVerdict {
    pub arm: String,
    pub cell: String,
    pub rep: u32,
    pub attempt: u32,
    pub trial_seed: u64,
    pub directive: Option<KillDirective>,
    pub worker_signal: Option<i32>,
    pub wal_pre: WalScan,
    pub landing: Landing,
    /// The landing does not count for the cell: the trial is sampled again, not scored.
    pub disqualified: bool,
    pub audit: AuditReport,
    /// What the cell demanded and did not get.
    pub cell_failures: Vec<String>,
    pub pass: bool,
}

/// What a run covers.
#[derive(Debug)]
pub struct RunConfig {
    pub out: String,
    pub root_seed: u64,
    pub reps: u32,
    pub arms: Vec<Arm>,
    pub cells: Vec<Cell>,
    /// How often a timed trial is sampled before it is given up.
    pub attempt_cap: u32,
}

/// The identity of a trial.
#[derive(Debug, Clone, Copy, PartialEq, Eq, Structural)]
pub struct TrialCtx {
    pub arm: Arm,
    pub rep: u32,
    pub trial_seed: u64,
}

/// An audit that checked nothing.
pub open spec fn is_blank(report: AuditReport) -> bool {
    &&& report.violations@.len() == 0
    &&& report.nonterminal_intents@.len() == 0
    &&& report.units_checked == 0
    &&& report.events_checked == 0
    &&& report.confirmed_checked == 0
}

fn blank_report() -> (r: AuditReport)
    ensures
        is_blank(r),
{
    AuditReport {
        violations: Vec::new(),
        nonterminal_intents: Vec::new(),
        units_checked: 0,
        events_checked: 0,
        confirmed_checked: 0,
    }
}

/// An audit of a store.
pub open spec fn is_audit(
    report: AuditReport,
    snap: AuditSnapshotView,
    records: Seq<ConfirmedView>,
) -> bool {
    &&& violation_views(report.violations@) == violations_of(snap, records)
    &&& report.nonterminal_intents@ == nonterminal(snap.effects, snap.effects)
    &&& report.units_checked == snap.units.len()
    &&& report.events_checked == snap.events.len()
    &&& report.confirmed_checked == records.len()
}

/// A verdict before anything was found: not passed.
pub fn base_verdict(ctx: &TrialCtx, name: &str, attempt: u32) -> (r: TrialVerdict)
    ensures
        r.arm@ == ctx.arm.label_text(),
        r.cell@ == name@,
        r.rep == ctx.rep,
        r.attempt == attempt,
        r.trial_seed == ctx.trial_seed,
        r.directive is None,
        r.worker_signal is None,
        r.wal_pre@ == (WalScanView { entries: 0, last_seq: 0, torn: false, stop_error: None }),
        r.landing == Landing::Exact,
        !r.disqualified,
        is_blank(r.audit),
        r.cell_failures@.len() == 0,
        !r.pass,
{
    TrialVerdict {
        arm: ctx.arm.label(),
        cell: name.to_owned(),
        rep: ctx.rep,
        attempt,
        trial_seed: ctx.trial_seed,
        directive: None,
        worker_signal: None,
        wal_pre: WalScan { entries: 0, last_seq: 0, torn: false, stop_error: None },
        landing: Landing::Exact,
        disqualified: false,
        audit: blank_report(),
        cell_failures: Vec::new(),
        pass: false,
    }
}

// --- Kill cells ----------------------------------------------------------------------------------

/// The last confirmed commit of a kind.
pub open spec fn last_of_kind(records: Seq<ConfirmedView>, kind: CommandKind) -> Option<
    ConfirmedView,
>
    decreases records.len(),
{
    if records.len() == 0 {
        None
    } else if records.last().spec.kind == kind {
        Some(records.last())
    } else {
        last_of_kind(records.drop_last(), kind)
    }
}

fn find_last_of_kind<'a>(confirmed: &'a Vec<Confirmed>, kind: CommandKind) -> (r: Option<
    &'a Confirmed,
>)
    ensures
        match r {
            Some(c) => last_of_kind(record_views(confirmed@), kind) == Some(c@),
            None => last_of_kind(record_views(confirmed@), kind) is None,
        },
{
    let ghost all = record_views(confirmed@);
    let mut i: usize = confirmed.len();
    proof {
        assert(all.take(all.len() as int) =~= all);
    }
    while i > 0
        invariant
            i <= confirmed.len(),
            all == record_views(confirmed@),
            last_of_kind(all, kind) == last_of_kind(all.take(i as int), kind),
        decreases i,
    {
        i -= 1;
        proof {
            assert(all.take(i + 1).drop_last() =~= all.take(i as int));
            assert(all.take(i + 1).last() == confirmed@[i as int]@);
        }
        if confirmed[i].spec.kind == kind {
            return Some(&confirmed[i]);
        }
    }
    None
}

/// The result of claiming a receipt key again.
#[derive(Debug)]
pub enum ProbeOutcome {
    /// Refused as a duplicate, as it must be.
    Duplicate,
    /// Refused otherwise.
    WrongError(String),
    /// Accepted: the command could run twice.
    Accepted,
}

/// A claim of a receipt key that is taken.
#[derive(Debug)]
pub struct Probe {
    pub key: String,
    pub outcome: ProbeOutcome,
}

/// What was found after a killed store was recovered.
#[derive(Debug)]
pub struct Recovered {
    pub snap: AuditSnapshot,
    /// One for each key of `probe_keys`.
    pub probes: Vec<Probe>,
    /// The last sequence of the log after recovery.
    pub frontier: u64,
    /// The cursor of a commit after recovery, or why it failed.
    pub continuation: Result<Option<u64>, String>,
}

/// The failure of a mid-effect kill: the intent of the last confirmed dispatch must be reported
/// open.
pub open spec fn intent_failures(
    records: Seq<ConfirmedView>,
    open: Seq<u64>,
) -> Seq<Seq<char>> {
    match last_of_kind(records, CommandKind::Dispatch) {
        None => seq!["no confirmed Dispatch in sidecar"@],
        Some(last) => if open.contains(last.spec.effect->0.intent_id) {
            Seq::empty()
        } else {
            seq![
                "killed dispatch intent "@ + dec(last.spec.effect->0.intent_id as nat)
                    + " not classified nonterminal"@,
            ]
        },
    }
}

/// The failures of a kill after publication: the artifact of the last confirmed review must be
/// there, and its unit must reference it.
pub open spec fn artifact_failures(
    records: Seq<ConfirmedView>,
    snap: AuditSnapshotView,
) -> Seq<Seq<char>> {
    match last_of_kind(records, CommandKind::ReviewEvidence) {
        None => seq!["no confirmed ReviewEvidence in sidecar"@],
        Some(last) => {
            let digest = last.spec.artifact_ref->0;
            let missing: Seq<Seq<char>> = if snap.artifacts.contains(digest) {
                Seq::empty()
            } else {
                seq!["confirmed artifact "@ + digest + " missing after reopen"@]
            };
            let unit = lookup(snap.units, last.spec.unit_id);
            if unit is Some && unit->0.artifact_ref == Some(digest) {
                missing
            } else {
                missing.push(
                    "unit "@ + dec(last.spec.unit_id as nat)
                        + " does not reference confirmed artifact"@,
                )
            }
        },
    }
}

/// The failure of one probe.
pub open spec fn probe_failure(p: Probe) -> Option<Seq<char>> {
    match p.outcome {
        ProbeOutcome::Duplicate => None,
        ProbeOutcome::WrongError(e) => Some("replay probe "@ + p.key@ + ": wrong error "@ + e@),
        ProbeOutcome::Accepted => Some(
            "replay probe "@ + p.key@
                + ": duplicate receipt ACCEPTED — re-execution possible"@,
        ),
    }
}

/// The failures of the first `n` probes.
pub open spec fn probe_list(probes: Seq<Probe>, n: int) -> Seq<Seq<char>>
    decreases n,
{
    if n <= 0 {
        Seq::empty()
    } else {
        let front = probe_list(probes, n - 1);
        match probe_failure(probes[n - 1]) {
            Some(e) => front.push(e),
            None => front,
        }
    }
}

/// The failures of a kill in the response window: every probe must be refused as a duplicate,
/// and there must be one.
pub open spec fn probe_failures(probes: Seq<Probe>) -> Seq<Seq<char>> {
    if probes.len() == 0 {
        seq!["no durable-unconfirmed commit found to probe"@]
    } else {
        probe_list(probes, probes.len() as int)
    }
}

/// The failures of an aborted cursor allocation: every confirmation lies at or below the
/// recovered frontier, and a commit after recovery goes beyond them.
pub open spec fn cursor_failures(
    confirmed: u64,
    frontier: u64,
    continuation: Result<Option<u64>, String>,
) -> Seq<Seq<char>> {
    let beyond: Seq<Seq<char>> = if confirmed > frontier {
        seq![
            "confirmed durable_at "@ + dec(confirmed as nat) + " beyond recovered frontier "@ + dec(
                frontier as nat,
            ),
        ]
    } else {
        Seq::empty()
    };
    match continuation {
        Ok(at) => if (match at {
            Some(d) => d,
            None => 0,
        }) <= confirmed {
            beyond.push("post-recovery commit did not advance the cursor"@)
        } else {
            beyond
        },
        Err(e) => beyond.push("post-recovery commit failed: "@ + e@),
    }
}

/// What a kill cell demanded and did not get.
pub open spec fn kill_failures(
    cell: KillPoint,
    phase_post: bool,
    records: Seq<ConfirmedView>,
    found: Recovered,
) -> Seq<Seq<char>> {
    match cell {
        KillPoint::MidEffectIntent => intent_failures(
            records,
            nonterminal(found.snap@.effects, found.snap@.effects),
        ),
        KillPoint::ArtifactPublication => if phase_post {
            artifact_failures(records, found.snap@)
        } else {
            Seq::empty()
        },
        KillPoint::PostPublishPreResponse => probe_failures(found.probes@),
        KillPoint::CursorAllocAbort => cursor_failures(
            max_confirmed(records),
            found.frontier,
            found.continuation,
        ),
        _ => Seq::empty(),
    }
}

/// Whether the confirmed commits carry what their kinds demand: an event each, an intent on a
/// dispatch, an artifact on review evidence.
pub open spec fn records_fit(records: Seq<ConfirmedView>) -> bool {
    forall|i: int|
        0 <= i < records.len() ==> {
            &&& (#[trigger] records[i]).spec.events.len() > 0
            &&& records[i].spec.kind == CommandKind::Dispatch ==> records[i].spec.effect is Some
            &&& records[i].spec.kind == CommandKind::ReviewEvidence
                ==> records[i].spec.artifact_ref is Some
        }
}

proof fn last_of_kind_fits(records: Seq<ConfirmedView>, kind: CommandKind)
    requires
        records_fit(records),
        last_of_kind(records, kind) is Some,
    ensures
        last_of_kind(records, kind)->0.spec.kind == kind,
        kind == CommandKind::Dispatch ==> last_of_kind(records, kind)->0.spec.effect is Some,
        kind == CommandKind::ReviewEvidence ==> last_of_kind(records, kind)->0.spec.artifact_ref
            is Some,
    decreases records.len(),
{
    if records.last().spec.kind == kind {
        assert(records[records.len() - 1].spec.events.len() > 0);
    } else {
        let front = records.drop_last();
        assert forall|i: int| 0 <= i < front.len() implies {
            &&& (#[trigger] front[i]).spec.events.len() > 0
            &&& front[i].spec.kind == CommandKind::Dispatch ==> front[i].spec.effect is Some
            &&& front[i].spec.kind == CommandKind::ReviewEvidence ==> front[i].spec.artifact_ref
                is Some
        } by {
            assert(records[i].spec.events.len() > 0);
        }
        last_of_kind_fits(front, kind);
    }
}

fn one_text(s: &str) -> (r: Vec<String>)
    ensures
        views(r@) == seq![s@],
{
    let mut v: Vec<String> = Vec::new();
    v.push(s.to_owned());
    proof {
        assert(views(v@) =~= seq![s@]);
    }
    v
}

fn no_texts() -> (r: Vec<String>)
    ensures
        views(r@) == Seq::<Seq<char>>::empty(),
{
    let v: Vec<String> = Vec::new();
    proof {
        assert(views(v@) =~= Seq::<Seq<char>>::empty());
    }
    v
}

fn add_text(v: &mut Vec<String>, s: String)
    ensures
        views(final(v)@) == views(old(v)@).push(s@),
{
    let ghost before = views(v@);
    v.push(s);
    proof {
        assert(views(v@) =~= before.push(s@));
    }
}

fn has_number(list: &Vec<u64>, n: u64) -> (r: bool)
    ensures
        r == list@.contains(n),
{
    let mut i: usize = 0;
    while i < list.len()
        invariant
            i <= list.len(),
            forall|k: int| 0 <= k < i ==> #[trigger] list@[k] != n,
        decreases list.len() - i,
    {
        if list[i] == n {
            proof {
                assert(list@[i as int] == n);
            }
            return true;
        }
        i += 1;
    }
    false
}

fn check_intent(confirmed: &Vec<Confirmed>, open: &Vec<u64>) -> (r: Vec<String>)
    requires
        records_fit(record_views(confirmed@)),
    ensures
        views(r@) == intent_failures(record_views(confirmed@), open@),
{
    match find_last_of_kind(confirmed, CommandKind::Dispatch) {
        None => one_text("no confirmed Dispatch in sidecar"),
        Some(last) => {
            proof {
                last_of_kind_fits(record_views(confirmed@), CommandKind::Dispatch);
            }
            let intent: u64 = match &last.spec.effect {
                Some(e) => e.intent_id,
                None => 0,
            };
            if has_number(open, intent) {
                no_texts()
            } else {
                let mut s = "killed dispatch intent ".to_owned();
                s.append(&decimal(intent));
                s.append(" not classified nonterminal");
                one_text(&s)
            }
        },
    }
}

fn check_artifact(confirmed: &Vec<Confirmed>, snap: &AuditSnapshot) -> (r: Vec<String>)
    requires
        records_fit(record_views(confirmed@)),
    ensures
        views(r@) == artifact_failures(record_views(confirmed@), snap@),
{
    match find_last_of_kind(confirmed, CommandKind::ReviewEvidence) {
        None => one_text("no confirmed ReviewEvidence in sidecar"),
        Some(last) => {
            proof {
                last_of_kind_fits(record_views(confirmed@), CommandKind::ReviewEvidence);
            }
            let digest = match &last.spec.artifact_ref {
                Some(d) => d.clone(),
                None => String::new(),
            };
            let mut failures = if holds(&snap.artifacts, &digest) {
                no_texts()
            } else {
                let mut s = "confirmed artifact ".to_owned();
                s.append(&digest);
                s.append(" missing after reopen");
                one_text(&s)
            };
            let referenced = match snap.units.get(last.spec.unit_id) {
                Some(u) => match &u.artifact_ref {
                    Some(a) => same(a, &digest),
                    None => false,
                },
                None => false,
            };
            if !referenced {
                let mut s = "unit ".to_owned();
                s.append(&decimal(last.spec.unit_id));
                s.append(" does not reference confirmed artifact");
                add_text(&mut failures, s);
            }
            failures
        },
    }
}

fn check_probes(probes: &Vec<Probe>) -> (r: Vec<String>)
    ensures
        views(r@) == probe_failures(probes@),
{
    if probes.len() == 0 {
        return one_text("no durable-unconfirmed commit found to probe");
    }
    let mut failures = no_texts();
    let mut i: usize = 0;
    while i < probes.len()
        invariant
            i <= probes.len(),
            views(failures@) == probe_list(probes@, i as int),
        decreases probes.len() - i,
    {
        match &probes[i].outcome {
            ProbeOutcome::Duplicate => {},
            ProbeOutcome::WrongError(e) => {
                let mut s = "replay probe ".to_owned();
                s.append(&probes[i].key);
                s.append(": wrong error ");
                s.append(e);
                add_text(&mut failures, s);
            },
            ProbeOutcome::Accepted => {
                let mut s = "replay probe ".to_owned();
                s.append(&probes[i].key);
                s.append(": duplicate receipt ACCEPTED — re-execution possible");
                add_text(&mut failures, s);
            },
        }
        i += 1;
    }
    failures
}

fn check_cursor(confirmed: u64, frontier: u64, continuation: &Result<Option<u64>, String>) -> (r:
    Vec<String>)
    ensures
        views(r@) == cursor_failures(confirmed, frontier, *continuation),
{
    let mut failures = if confirmed > frontier {
        let mut s = "confirmed durable_at ".to_owned();
        s.append(&decimal(confirmed));
        s.append(" beyond recovered frontier ");
        s.append(&decimal(frontier));
        one_text(&s)
    } else {
        no_texts()
    };
    match continuation {
        Ok(at) => {
            let reached: u64 = match at {
                Some(d) => *d,
                None => 0,
            };
            if reached <= confirmed {
                add_text(
                    &mut failures,
                    "post-recovery commit did not advance the cursor".to_owned(),
                );
            }
        },
        Err(e) => {
            let mut s = "post-recovery commit failed: ".to_owned();
            s.append(e);
            add_text(&mut failures, s);
        },
    }
    failures
}

/// Whether an event was confirmed.
pub open spec fn is_confirmed(records: Seq<ConfirmedView>, event_id: u64) -> bool {
    exists|k: int|
        0 <= k < records.len() && (#[trigger] records[k]).spec.events[0].event_id == event_id
}

/// The receipt keys of the durable commits that were not confirmed, in the order of the events.
pub open spec fn unconfirmed_keys(
    snap: AuditSnapshotView,
    records: Seq<ConfirmedView>,
    n: nat,
) -> Seq<Seq<char>>
    decreases n,
{
    if n == 0 {
        Seq::empty()
    } else {
        let front = unconfirmed_keys(snap, records, (n - 1) as nat);
        let event = snap.events[n - 1];
        if is_confirmed(records, event.0) {
            front
        } else {
            front.push(
                dec(event.1.aggregate_id as nat) + "/"@ + dec((event.0 >> 8u64) as nat),
            )
        }
    }
}

/// The receipt keys to probe after a kill in the response window: those of the durable commits
/// that were not confirmed.
pub fn probe_keys(snap: &AuditSnapshot, confirmed: &Vec<Confirmed>) -> (r: Vec<String>)
    requires
        records_fit(record_views(confirmed@)),
    ensures
        views(r@) == unconfirmed_keys(snap@, record_views(confirmed@), snap@.events.len()),
{
    let ghost records = record_views(confirmed@);
    let mut out = no_texts();
    let mut i: usize = 0;
    while i < snap.events.len()
        invariant
            i <= snap@.events.len(),
            records == record_views(confirmed@),
            records_fit(records),
            views(out@) == unconfirmed_keys(snap@, records, i as nat),
        decreases snap@.events.len() - i,
    {
        let id: u64 = snap.events.key_at(i);
        let mut k: usize = 0;
        let mut found = false;
        while k < confirmed.len() && !found
            invariant
                k <= confirmed.len(),
                records == record_views(confirmed@),
                records_fit(records),
                found ==> is_confirmed(records, id),
                !found ==> forall|j: int|
                    0 <= j < k ==> (#[trigger] records[j]).spec.events[0].event_id != id,
            decreases confirmed.len() - k, if found { 0int } else { 1 },
        {
            proof {
                assert(records[k as int] == confirmed@[k as int]@);
                assert(records[k as int].spec.events.len() > 0);
                assert(records[k as int].spec.events[0]
                    == confirmed@[k as int].spec.events@[0]@);
            }
            if confirmed[k].spec.events[0].event_id == id {
                found = true;
            } else {
                k += 1;
            }
        }
        if !found {
            let key = pair_key(snap.events.row_at(i).aggregate_id, id >> 8u64);
            add_text(&mut out, key);
        }
        i += 1;
    }
    out
}

/// A pool whose unit ids lie in a reserved range.
pub fn reserved_pool(size: usize, mark: u64) -> (r: UnitPool)
    ensures
        r@ == (UnitPoolView {
            next_unit: size as u64,
            slots: Seq::new(size as nat, |i: int| fresh_slot((i as u64) | mark)),
        }),
{
    let mut pool = UnitPool::new(size);
    let ghost before = pool@.slots;
    let mut i: usize = 0;
    proof {
        assert(pool@.slots.len() == pool.slots@.len());
        assert forall|k: int| 0 <= k < size implies (#[trigger] pool.slots@[k])@ == before[k] by {
            assert(pool@.slots[k] == pool.slots@[k]@);
        }
    }
    while i < pool.slots.len()
        invariant
            i <= pool.slots.len(),
            pool.slots.len() == size,
            pool.next_unit == size as u64,
            before == Seq::new(size as nat, |i: int| fresh_slot(i as u64)),
            forall|k: int|
                0 <= k < i ==> (#[trigger] pool.slots@[k])@ == fresh_slot((k as u64) | mark),
            forall|k: int| i <= k < size ==> (#[trigger] pool.slots@[k])@ == before[k],
        decreases pool.slots.len() - i,
    {
        let id: u64 = pool.slots[i].unit_id | mark;
        let mut slot = pool.slots[i].clone();
        slot.unit_id = id;
        pool.slots.set(i, slot);
        i += 1;
    }
    proof {
        assert(pool@.slots =~= Seq::new(size as nat, |i: int| fresh_slot((i as u64) | mark)));
    }
    pool
}

/// The pool and the stream of the commit that follows a recovery: apart from every workload
/// writer's units and ids.
pub fn continuation_source(trial_seed: u64) -> (r: (UnitPool, WriterStream))
    ensures
        r.0@ == (UnitPoolView {
            next_unit: 2,
            slots: Seq::new(2, |i: int| fresh_slot((i as u64) | (1u64 << 41u64))),
        }),
        r.1@ == (WriterStreamView {
            writer: 2000,
            seed: writer_seed(trial_seed ^ 0xC0117111017u64, 2000),
            pos: 0,
            step: 0,
            command_seq: 0,
        }),
{
    (
        reserved_pool(2, 1u64 << 41u64),
        WriterStream::new(trial_seed ^ 0xC0117111017u64, 2000),
    )
}

/// The pool and the stream of a racer: apart from every workload writer's units and ids, and
/// from the other racer's.
pub fn racer_source(racer: u32) -> (r: (UnitPool, WriterStream))
    requires
        racer <= u32::MAX - 1000,
    ensures
        r.0@ == (UnitPoolView {
            next_unit: 4,
            slots: Seq::new(
                4,
                |i: int| fresh_slot((i as u64) | ((1u64 << 40u64) | ((racer as u64) << 32u64))),
            ),
        }),
        r.1@ == (WriterStreamView {
            writer: (1000 + racer) as u32,
            seed: writer_seed(0x0ACE_5EEDu64 ^ (racer as u64), (1000 + racer) as u32),
            pos: 0,
            step: 0,
            command_seq: 0,
        }),
{
    (
        reserved_pool(4, (1u64 << 40u64) | ((racer as u64) << 32u64)),
        WriterStream::new(0x0ACE_5EEDu64 ^ (racer as u64), 1000 + racer),
    )
}

/// The units of the racers and of the commit after a recovery are apart from the workload's,
/// whose ids stay below the reserved marks, and from each other.
pub proof fn reserved_ids_are_apart(plain: u64, racer: u64, after: u64, r: u64)
    requires
        plain < 1u64 << 40u64,
        racer < 1u64 << 32u64,
        after < 1u64 << 32u64,
        r < 8,
    ensures
        plain & (1u64 << 40u64) == 0,
        plain != racer | ((1u64 << 40u64) | (r << 32u64)),
        plain != after | (1u64 << 41u64),
        racer | ((1u64 << 40u64) | (r << 32u64)) != after | (1u64 << 41u64),
        (racer | ((1u64 << 40u64) | (r << 32u64))) & (1u64 << 40u64) != 0,
{
    assert(plain < 1u64 << 40u64 && racer < 1u64 << 32u64 && after < 1u64 << 32u64 && r < 8
        ==> plain & (1u64 << 40u64) == 0 && plain != racer | ((1u64 << 40u64) | (r << 32u64))
        && plain != after | (1u64 << 41u64) && racer | ((1u64 << 40u64) | (r << 32u64)) != after
        | (1u64 << 41u64) && (racer | ((1u64 << 40u64) | (r << 32u64))) & (1u64 << 40u64) != 0)
        by (bit_vector);
}

/// The name of a kill cell in a verdict.
pub open spec fn kill_label(cell: KillPoint, phase_post: bool) -> Seq<char> {
    if cell == KillPoint::ArtifactPublication {
        cell.name_text() + "-"@ + if phase_post {
            "post"@
        } else {
            "pre"@
        }
    } else {
        cell.name_text()
    }
}

/// The name of a kill cell in a verdict.
pub fn kill_name(cell: KillPoint, phase_post: bool) -> (r: String)
    ensures
        r@ == kill_label(cell, phase_post),
{
    let mut s = cell.name().to_owned();
    if matches!(cell, KillPoint::ArtifactPublication) {
        s.append("-");
        if phase_post {
            s.append("post");
        } else {
            s.append("pre");
        }
    }
    s
}

/// Whether a trial passes: it counts, the auditor finds nothing, and the cell's demands hold.
pub open spec fn passes(counts: bool, violations: nat, failures: nat) -> bool {
    counts && violations + failures == 0
}

/// Whether a killed trial is sampled again: the worker was not killed, or the landing does not
/// count.
pub open spec fn is_disqualified(signal: Option<i32>, cell: KillPoint, landing: Landing) -> bool {
    signal is None || !counts_for(cell, landing)
}

/// The verdict of one attempt at a kill cell: where the kill landed, whether that counts, the
/// audit of the recovered store, and what the cell demands beyond it. A trial passes when it
/// counts, the auditor finds nothing, and the cell's demands hold.
pub fn kill_trial(
    ctx: &TrialCtx,
    cell: KillPoint,
    attempt: u32,
    phase_post: bool,
    directive: KillDirective,
    signal: Option<i32>,
    confirmed: &Vec<Confirmed>,
    wal_pre: WalScan,
    recovered: Option<Recovered>,
) -> (r: TrialVerdict)
    requires
        records_fit(record_views(confirmed@)),
        !is_disqualified(
            signal,
            cell,
            landing_of(directive, record_views(confirmed@), wal_pre@),
        ) ==> recovered is Some,
    ensures
        ({
            let records = record_views(confirmed@);
            let landing = landing_of(directive, records, wal_pre@);
            let out = is_disqualified(signal, cell, landing);
            &&& r.arm@ == ctx.arm.label_text()
            &&& r.cell@ == kill_label(cell, phase_post)
            &&& r.rep == ctx.rep
            &&& r.attempt == attempt
            &&& r.trial_seed == ctx.trial_seed
            &&& r.directive == Some(directive)
            &&& r.worker_signal == signal
            &&& r.wal_pre@ == wal_pre@
            &&& r.landing == landing
            &&& r.disqualified == out
            &&& out ==> is_blank(r.audit) && views(r.cell_failures@)
                == Seq::<Seq<char>>::empty() && !r.pass
            &&& !out ==> {
                let found = recovered->0;
                &&& is_audit(r.audit, found.snap@, records)
                &&& views(r.cell_failures@) == kill_failures(cell, phase_post, records, found)
                &&& r.pass == (violations_of(found.snap@, records).len() == 0 && kill_failures(
                    cell,
                    phase_post,
                    records,
                    found,
                ).len() == 0)
            }
            &&& r.pass == passes(
                !out,
                violations_of(recovered->0.snap@, records).len(),
                kill_failures(cell, phase_post, records, recovered->0).len(),
            )
        }),
{
    let landing = classify(&directive, confirmed, &wal_pre);
    let disqualified = signal.is_none() || !qualifies(cell, landing);
    let mut audit = blank_report();
    let mut cell_failures = no_texts();
    let mut pass = false;
    if !disqualified {
        if let Some(found) = &recovered {
            proof {
                assert forall|i: int| 0 <= i < record_views(confirmed@).len() implies (
                #[trigger] record_views(confirmed@)[i]).spec.events.len() > 0 by {}
            }
            let report = score(&found.snap, confirmed);
            cell_failures = match cell {
                KillPoint::MidEffectIntent => check_intent(confirmed, &report.nonterminal_intents),
                KillPoint::ArtifactPublication => if phase_post {
                    check_artifact(confirmed, &found.snap)
                } else {
                    no_texts()
                },
                KillPoint::PostPublishPreResponse => check_probes(&found.probes),
                KillPoint::CursorAllocAbort => check_cursor(
                    highest_confirmed(confirmed),
                    found.frontier,
                    &found.continuation,
                ),
                _ => no_texts(),
            };
            pass = report.violations.len() == 0 && cell_failures.len() == 0;
            proof {
                assert(violation_views(report.violations@).len() == report.violations@.len());
                assert(views(cell_failures@).len() == cell_failures@.len());
            }
            audit = report;
        }
    }
    TrialVerdict {
        arm: ctx.arm.label(),
        cell: kill_name(cell, phase_post),
        rep: ctx.rep,
        attempt,
        trial_seed: ctx.trial_seed,
        directive: Some(directive),
        worker_signal: signal,
        wal_pre,
        landing,
        disqualified,
        audit,
        cell_failures,
        pass,
    }
}

// --- Other cells ---------------------------------------------------------------------------------

/// Whether an attempt on the journal met the refusal that it must.
#[derive(Debug)]
pub enum JournalArm {
    Refused,
    /// It went otherwise.
    Wrong(String),
}

/// What the journal cell saw: the attempts to change a committed event, and its payload before
/// and after.
#[derive(Debug)]
pub struct JournalEvidence {
    pub update: JournalArm,
    pub delete: JournalArm,
    pub duplicate_id: JournalArm,
    pub duplicate_composite: JournalArm,
    pub before: String,
    pub after: String,
}

/// A failure of an attempt, under a prefix.
pub open spec fn arm_failure(list: Seq<Seq<char>>, arm: JournalArm, prefix: Seq<char>) -> Seq<
    Seq<char>,
> {
    match arm {
        JournalArm::Refused => list,
        JournalArm::Wrong(e) => list.push(prefix + e@),
    }
}

/// The failures of the journal cell.
pub open spec fn journal_failures(e: JournalEvidence) -> Seq<Seq<char>> {
    let a = arm_failure(
        Seq::empty(),
        e.update,
        "update arm: expected immutable rejection, got "@,
    );
    let b = arm_failure(a, e.delete, "delete arm: wrong funnel outcome "@);
    let c = arm_failure(b, e.duplicate_id, "dup event_id arm: "@);
    let d = arm_failure(c, e.duplicate_composite, "dup composite arm: "@);
    if e.before@ != e.after@ {
        d.push("journal bytes changed under rejected mutations"@)
    } else {
        d
    }
}

fn add_arm(v: &mut Vec<String>, arm: &JournalArm, prefix: &str)
    ensures
        views(final(v)@) == arm_failure(views(old(v)@), *arm, prefix@),
{
    match arm {
        JournalArm::Refused => {},
        JournalArm::Wrong(e) => {
            let mut s = prefix.to_owned();
            s.append(e);
            add_text(v, s);
        },
    }
}

/// The verdict of the journal cell. Without a single commit there is nothing to attack, and the
/// trial fails.
pub fn journal_cell_trial(ctx: &TrialCtx, evidence: &Option<JournalEvidence>) -> (r: TrialVerdict)
    ensures
        r.arm@ == ctx.arm.label_text(),
        r.cell@ == "JournalImmutability"@,
        r.rep == ctx.rep,
        r.attempt == 0,
        r.trial_seed == ctx.trial_seed,
        r.directive is None,
        r.worker_signal is None,
        r.wal_pre@ == (WalScanView { entries: 0, last_seq: 0, torn: false, stop_error: None }),
        r.landing == Landing::Exact,
        !r.disqualified,
        views(r.cell_failures@) == (match *evidence {
            None => seq!["no commits applied"@],
            Some(e) => journal_failures(e),
        }),
        r.pass == (evidence is Some && journal_failures(evidence->0).len() == 0),
        is_blank(r.audit),
{
    let mut v = base_verdict(ctx, "JournalImmutability", 0);
    match evidence {
        None => {
            v.cell_failures = one_text("no commits applied");
            v
        },
        Some(e) => {
            let mut failures = no_texts();
            add_arm(
                &mut failures,
                &e.update,
                "update arm: expected immutable rejection, got ",
            );
            add_arm(&mut failures, &e.delete, "delete arm: wrong funnel outcome ");
            add_arm(&mut failures, &e.duplicate_id, "dup event_id arm: ");
            add_arm(&mut failures, &e.duplicate_composite, "dup composite arm: ");
            if !same(&e.before, &e.after) {
                add_text(
                    &mut failures,
                    "journal bytes changed under rejected mutations".to_owned(),
                );
            }
            v.pass = failures.len() == 0;
            proof {
                assert(views(failures@).len() == failures@.len());
            }
            v.cell_failures = failures;
            v
        },
    }
}

/// Which of the applied commits the journal cell attacks: the middle one.
pub fn journal_target(applied: usize) -> (r: usize)
    requires
        applied > 0,
    ensures
        r == applied / 2,
        r < applied,
{
    applied / 2
}

/// An event that claims a taken id with another payload.
pub fn same_id_event(target: &SemanticEvent) -> (r: SemanticEvent)
    ensures
        r@ == (SemanticEventView { payload: "{}"@, ..target@ }),
{
    let mut e = target.clone();
    e.payload = "{}".to_owned();
    e
}

/// An event that claims a taken place in its aggregate under another id.
pub fn same_place_event(target: &SemanticEvent) -> (r: SemanticEvent)
    ensures
        r@ == (SemanticEventView { event_id: target@.event_id ^ (1u64 << 60u64), ..target@ }),
{
    let mut e = target.clone();
    e.event_id = target.event_id ^ (1u64 << 60u64);
    e
}

/// What the handoff cell saw: the committed events, those in the snapshot, and those that were
/// polled after it.
#[derive(Debug)]
pub struct Handoff {
    pub committed: Vec<u64>,
    pub snapshot: Vec<u64>,
    pub polled: Vec<u64>,
}

/// The committed events among the first `n` that are in neither the snapshot nor the poll, each
/// once.
pub open spec fn gap(h: Handoff, n: nat) -> Seq<u64>
    decreases n,
{
    if n == 0 {
        Seq::empty()
    } else {
        let front = gap(h, (n - 1) as nat);
        let id = h.committed@[n - 1];
        if h.snapshot@.contains(id) || h.polled@.contains(id) || front.contains(id) {
            front
        } else {
            front.push(id)
        }
    }
}

/// The events that a reader would never see.
pub fn invisible_gap(h: &Handoff) -> (r: Vec<u64>)
    ensures
        r@ == gap(*h, h.committed@.len()),
{
    let mut out: Vec<u64> = Vec::new();
    let mut i: usize = 0;
    while i < h.committed.len()
        invariant
            i <= h.committed.len(),
            out@ == gap(*h, i as nat),
        decreases h.committed.len() - i,
    {
        let id: u64 = h.committed[i];
        if !has_number(&h.snapshot, id) && !has_number(&h.polled, id) && !has_number(&out, id) {
            out.push(id);
        }
        i += 1;
    }
    out
}

/// The gap is empty exactly when every committed event is in the snapshot or in the poll.
pub proof fn no_gap_means_all_seen(h: Handoff, n: nat)
    requires
        n <= h.committed@.len(),
    ensures
        gap(h, n).len() == 0 <==> forall|i: int|
            0 <= i < n ==> h.snapshot@.contains(#[trigger] h.committed@[i]) || h.polled@.contains(
                h.committed@[i],
            ),
    decreases n,
{
    if n > 0 {
        no_gap_means_all_seen(h, (n - 1) as nat);
        let front = gap(h, (n - 1) as nat);
        let id = h.committed@[n - 1];
        if gap(h, n).len() == 0 {
            assert(front.len() == 0);
            assert(!front.contains(id));
        }
    }
}

/// The failures of the handoff cell.
pub open spec fn handoff_failures(h: Option<Handoff>) -> Seq<Seq<char>> {
    match h {
        None => seq!["stream too short: snapshot point never reached"@],
        Some(x) => {
            let missing = gap(x, x.committed@.len()).len();
            if missing > 0 {
                seq![
                    "invisible gap: "@ + dec(missing) + " events in neither snapshot nor poll"@,
                ]
            } else {
                Seq::empty()
            }
        },
    }
}

/// The verdict of the handoff cell: no committed event is invisible to a reader that takes a
/// snapshot and then polls.
pub fn watch_cell_trial(ctx: &TrialCtx, handoff: &Option<Handoff>) -> (r: TrialVerdict)
    ensures
        r.arm@ == ctx.arm.label_text(),
        r.cell@ == "SnapshotWatchHandoff"@,
        r.rep == ctx.rep,
        r.attempt == 0,
        r.trial_seed == ctx.trial_seed,
        r.directive is None,
        r.worker_signal is None,
        r.wal_pre@ == (WalScanView { entries: 0, last_seq: 0, torn: false, stop_error: None }),
        r.landing == Landing::Exact,
        !r.disqualified,
        views(r.cell_failures@) == handoff_failures(*handoff),
        r.pass == (handoff_failures(*handoff).len() == 0),
        is_blank(r.audit),
{
    let mut v = base_verdict(ctx, "SnapshotWatchHandoff", 0);
    match handoff {
        None => {
            v.cell_failures = one_text("stream too short: snapshot point never reached");
            v
        },
        Some(h) => {
            let missing: usize = invisible_gap(h).len();
            if missing > 0 {
                let mut s = "invisible gap: ".to_owned();
                s.append(&decimal(missing as u64));
                s.append(" events in neither snapshot nor poll");
                v.cell_failures = one_text(&s);
            } else {
                v.cell_failures = no_texts();
                v.pass = true;
            }
            v
        },
    }
}

/// What the takeover cell saw.
#[derive(Debug)]
pub struct TakeoverEvidence {
    /// What the contender printed while the holder was alive.
    pub contender: String,
    /// What the two racers printed after the holder died.
    pub racer_one: String,
    pub racer_two: String,
    pub wal_pre: WalScan,
    pub snap: AuditSnapshot,
}

/// Whether a text holds another.
pub open spec fn holds_text(s: Seq<char>, needle: Seq<char>) -> bool {
    exists|i: int|
        0 <= i && i + needle.len() <= s.len() && #[trigger] s.subrange(i, i + needle.len())
            == needle
}

fn matches_at(s: &Vec<char>, needle: &Vec<char>, at: usize) -> (r: bool)
    requires
        at + needle.len() <= s.len(),
    ensures
        r == (s@.subrange(at as int, at + needle@.len()) == needle@),
{
    let mut k: usize = 0;
    while k < needle.len()
        invariant
            k <= needle.len(),
            at + needle.len() <= s.len(),
            forall|j: int| 0 <= j < k ==> s@[at + j] == needle@[j],
        decreases needle.len() - k,
    {
        if s[at + k] != needle[k] {
            proof {
                assert(s@.subrange(at as int, at + needle@.len())[k as int] != needle@[k as int]);
            }
            return false;
        }
        k += 1;
    }
    proof {
        assert(s@.subrange(at as int, at + needle@.len()) =~= needle@);
    }
    true
}

/// Whether a text holds another.
pub fn contains_text(s: &str, needle: &str) -> (r: bool)
    ensures
        r == holds_text(s@, needle@),
{
    let hay = chars_of(s);
    let pin = chars_of(needle);
    if pin.len() > hay.len() {
        return false;
    }
    let mut i: usize = 0;
    let last: usize = hay.len() - pin.len();
    while i < last
        invariant
            pin.len() <= hay.len(),
            last == hay.len() - pin.len(),
            i <= last,
            hay@ == s@,
            pin@ == needle@,
            forall|j: int|
                0 <= j < i ==> #[trigger] s@.subrange(j, j + needle@.len()) != needle@,
        decreases last - i,
    {
        if matches_at(&hay, &pin, i) {
            return true;
        }
        i += 1;
    }
    matches_at(&hay, &pin, last)
}

/// How many of the two racers printed a mark.
pub open spec fn racers_with(e: TakeoverEvidence, mark: Seq<char>) -> nat {
    (if holds_text(e.racer_one@, mark) {
        1nat
    } else {
        0nat
    }) + (if holds_text(e.racer_two@, mark) {
        1nat
    } else {
        0nat
    })
}

/// How many units of the racers' reserved range a store holds.
pub open spec fn reserved_units(
    units: Seq<(u64, crate::harness::audit::UnitRowView)>,
) -> nat
    decreases units.len(),
{
    if units.len() == 0 {
        0
    } else {
        reserved_units(units.drop_last()) + if units.last().0 & (1u64 << 40u64) != 0 {
            1nat
        } else {
            0nat
        }
    }
}

/// The failures of the takeover cell: live contention holds, exactly one racer wins while the
/// other is held off, and the winner wrote its three commits.
pub open spec fn takeover_failures(e: TakeoverEvidence) -> Seq<Seq<char>> {
    let wins = racers_with(e, "RACE:WON"@);
    let helds = racers_with(e, "RACE:HELD"@);
    let units = reserved_units(e.snap@.units);
    let a: Seq<Seq<char>> = if holds_text(e.contender@, "CONTEND:HELD"@) {
        Seq::empty()
    } else {
        seq!["live contention did not hold: "@ + e.contender@]
    };
    let b = if (wins != 1 || helds != 1) && wins != 2 {
        a.push(
            "race outcome wins="@ + dec(wins) + " helds="@ + dec(helds) + ": ["@ + e.racer_one@
                + "] ["@ + e.racer_two@ + "]"@,
        )
    } else {
        a
    };
    if wins == 1 && units != 4 && units != 3 {
        b.push("winner wrote "@ + dec(units) + " reserved units (want 3-4)"@)
    } else {
        b
    }
}

fn count_reserved(snap: &AuditSnapshot) -> (r: usize)
    ensures
        r == reserved_units(snap@.units),
{
    let mut n: usize = 0;
    let mut i: usize = 0;
    proof {
        assert(snap@.units.take(0) =~= Seq::<(u64, crate::harness::audit::UnitRowView)>::empty());
    }
    while i < snap.units.len()
        invariant
            n <= i <= snap@.units.len(),
            n == reserved_units(snap@.units.take(i as int)),
        decreases snap@.units.len() - i,
    {
        proof {
            assert(snap@.units.take(i + 1).drop_last() =~= snap@.units.take(i as int));
        }
        let id: u64 = snap.units.key_at(i);
        if id & (1u64 << 40u64) != 0 {
            n += 1;
        }
        i += 1;
    }
    proof {
        assert(snap@.units.take(snap@.units.len() as int) =~= snap@.units);
    }
    n
}

/// The verdict of the takeover cell. Both racers winning, one after the other, is a miss of the
/// choreography: the trial is sampled again.
pub fn takeover_trial(
    ctx: &TrialCtx,
    attempt: u32,
    confirmed: &Vec<Confirmed>,
    evidence: TakeoverEvidence,
) -> (r: TrialVerdict)
    requires
        records_fit(record_views(confirmed@)),
    ensures
        ({
            let records = record_views(confirmed@);
            let wins = racers_with(evidence, "RACE:WON"@);
            &&& r.arm@ == ctx.arm.label_text()
            &&& r.cell@ == "WriterTakeover"@
            &&& r.rep == ctx.rep
            &&& r.attempt == attempt
            &&& r.trial_seed == ctx.trial_seed
            &&& r.directive is None
            &&& r.landing == Landing::Exact
            &&& r.worker_signal == Some(9i32)
            &&& r.wal_pre@ == evidence.wal_pre@
            &&& r.disqualified == (wins == 2)
            &&& is_audit(r.audit, evidence.snap@, records)
            &&& views(r.cell_failures@) == takeover_failures(evidence)
            &&& r.pass == (wins != 2 && violations_of(evidence.snap@, records).len() == 0
                && takeover_failures(evidence).len() == 0)
            &&& r.pass == passes(
                wins != 2,
                violations_of(evidence.snap@, records).len(),
                takeover_failures(evidence).len(),
            )
        }),
{
    let mut v = base_verdict(ctx, "WriterTakeover", attempt);
    v.worker_signal = Some(9);
    let mut failures = if contains_text(&evidence.contender, "CONTEND:HELD") {
        no_texts()
    } else {
        let mut s = "live contention did not hold: ".to_owned();
        s.append(&evidence.contender);
        one_text(&s)
    };
    let mut wins: u64 = 0;
    if contains_text(&evidence.racer_one, "RACE:WON") {
        wins += 1;
    }
    if contains_text(&evidence.racer_two, "RACE:WON") {
        wins += 1;
    }
    let mut helds: u64 = 0;
    if contains_text(&evidence.racer_one, "RACE:HELD") {
        helds += 1;
    }
    if contains_text(&evidence.racer_two, "RACE:HELD") {
        helds += 1;
    }
    if (wins != 1 || helds != 1) && wins != 2 {
        let mut s = "race outcome wins=".to_owned();
        s.append(&decimal(wins));
        s.append(" helds=");
        s.append(&decimal(helds));
        s.append(": [");
        s.append(&evidence.racer_one);
        s.append("] [");
        s.append(&evidence.racer_two);
        s.append("]");
        add_text(&mut failures, s);
    }
    let units: usize = count_reserved(&evidence.snap);
    if wins == 1 && units != 4 && units != 3 {
        let mut s = "winner wrote ".to_owned();
        s.append(&decimal(units as u64));
        s.append(" reserved units (want 3-4)");
        add_text(&mut failures, s);
    }
    proof {
        assert forall|i: int| 0 <= i < record_views(confirmed@).len() implies (
        #[trigger] record_views(confirmed@)[i]).spec.events.len() > 0 by {}
    }
    v.audit = score(&evidence.snap, confirmed);
    v.disqualified = wins == 2;
    v.pass = wins != 2 && v.audit.violations.len() == 0 && failures.len() == 0;
    proof {
        assert(violation_views(v.audit.violations@).len() == v.audit.violations@.len());
        assert(views(failures@).len() == failures@.len());
    }
    v.cell_failures = failures;
    v.wal_pre = evidence.wal_pre;
    v
}

/// What the corruption drill saw after a byte of a committed record was flipped.
#[derive(Debug)]
pub enum DrillOutcome {
    /// The engine refused to open the store.
    Refused(String),
    /// The engine opened it.
    Opened(AuditSnapshot),
}

/// The verdict of the corruption drill: the damage is named, by the engine or by the auditor.
/// A store that opens over it without a violation fails the trial.
pub fn corruption_trial(
    ctx: &TrialCtx,
    variant: u32,
    confirmed: &Vec<Confirmed>,
    wal_pre: WalScan,
    outcome: &DrillOutcome,
) -> (r: TrialVerdict)
    requires
        records_fit(record_views(confirmed@)),
    ensures
        r.arm@ == ctx.arm.label_text(),
        r.cell@ == "CorruptionDrill-v"@ + dec(variant as nat),
        r.rep == ctx.rep,
        r.attempt == 0,
        r.trial_seed == ctx.trial_seed,
        r.directive is None,
        r.worker_signal is None,
        r.landing == Landing::Exact,
        !r.disqualified,
        r.wal_pre@ == wal_pre@,
        match *outcome {
            DrillOutcome::Refused(e) => {
                &&& r.pass
                &&& r.cell_failures@.len() == 0
                &&& violation_views(r.audit.violations@) == seq![
                    crate::harness::audit::violation(
                        Bar::Agreement,
                        "engine refused corrupted store: "@ + e@,
                    ),
                ]
                &&& r.audit.nonterminal_intents@.len() == 0
                &&& r.audit.units_checked == 0
                &&& r.audit.events_checked == 0
                &&& r.audit.confirmed_checked == 0
            },
            DrillOutcome::Opened(snap) => {
                &&& is_audit(r.audit, snap@, record_views(confirmed@))
                &&& r.pass == (violations_of(snap@, record_views(confirmed@)).len() > 0)
                &&& views(r.cell_failures@) == (if violations_of(
                    snap@,
                    record_views(confirmed@),
                ).len() > 0 {
                    Seq::<Seq<char>>::empty()
                } else {
                    seq![
                        "store recovered over corruption and the auditor found nothing — fail-open"@,
                    ]
                })
            },
        },
{
    let mut name = "CorruptionDrill-v".to_owned();
    name.append(&decimal(variant as u64));
    let mut v = base_verdict(ctx, &name, 0);
    v.wal_pre = wal_pre;
    match outcome {
        DrillOutcome::Refused(e) => {
            let mut detail = "engine refused corrupted store: ".to_owned();
            detail.append(e);
            let mut violations: Vec<Violation> = Vec::new();
            violations.push(Violation { bar: Bar::Agreement, detail });
            proof {
                assert(violation_views(violations@) =~= seq![
                    crate::harness::audit::violation(
                        Bar::Agreement,
                        "engine refused corrupted store: "@ + e@,
                    ),
                ]);
            }
            v.audit.violations = violations;
            v.pass = true;
        },
        DrillOutcome::Opened(snap) => {
            proof {
                assert forall|i: int| 0 <= i < record_views(confirmed@).len() implies (
                #[trigger] record_views(confirmed@)[i]).spec.events.len() > 0 by {}
            }
            v.audit = score(snap, confirmed);
            proof {
                assert(violation_views(v.audit.violations@).len() == v.audit.violations@.len());
            }
            if v.audit.violations.len() == 0 {
                v.cell_failures = one_text(
                    "store recovered over corruption and the auditor found nothing — fail-open",
                );
            } else {
                v.cell_failures = no_texts();
                v.pass = true;
            }
        },
    }
    v
}

/// The first place where a row of bytes occurs in another, from `i` on; `None` where it does
/// not.
pub open spec fn first_match(hay: Seq<u8>, needle: Seq<u8>, i: int) -> Option<int>
    decreases hay.len() - i,
{
    if i < 0 || i >= hay.len() || i + needle.len() > hay.len() {
        None
    } else if hay.subrange(i, i + needle.len()) == needle {
        Some(i)
    } else {
        first_match(hay, needle, i + 1)
    }
}

fn bytes_match(hay: &[u8], needle: &[u8], at: usize) -> (r: bool)
    requires
        at + needle.len() <= hay.len(),
    ensures
        r == (hay@.subrange(at as int, at + needle@.len()) == needle@),
{
    let mut k: usize = 0;
    while k < needle.len()
        invariant
            k <= needle.len(),
            at + needle.len() <= hay.len(),
            forall|j: int| 0 <= j < k ==> hay@[at + j] == needle@[j],
        decreases needle.len() - k,
    {
        if hay[at + k] != needle[k] {
            proof {
                assert(hay@.subrange(at as int, at + needle@.len())[k as int]
                    != needle@[k as int]);
            }
            return false;
        }
        k += 1;
    }
    proof {
        assert(hay@.subrange(at as int, at + needle@.len()) =~= needle@);
    }
    true
}

/// The bytes between the marker of the filler and the next quote, from a payload; `None` where
/// there is no marker.
pub open spec fn filler_bytes(payload: Seq<u8>) -> Option<Seq<u8>> {
    let marker = encode_utf8("\"filler\":\""@);
    match first_match(payload, marker, 0) {
        None => None,
        Some(at) => {
            let rest = payload.skip(at + marker.len());
            Some(rest.take(quote_at(rest, 0)))
        },
    }
}

/// The place of the first quote from `i` on, or the length.
pub open spec fn quote_at(s: Seq<u8>, i: int) -> int
    decreases s.len() - i,
{
    if i < 0 || i >= s.len() || s[i] == 0x22 {
        i
    } else {
        quote_at(s, i + 1)
    }
}

/// The needle that locates a record in the log: the beginning of the filler, where it is long
/// enough.
pub open spec fn filler_needle(payload: Seq<u8>) -> Option<Seq<u8>> {
    match filler_bytes(payload) {
        Some(f) => if f.len() >= 48 {
            Some(f.take(48))
        } else {
            None
        },
        None => None,
    }
}

/// The needle of a record for a variant of the drill: any event, a request digest, or the
/// dispatch that created the state of a unit. `None` where the record does not suit the
/// variant.
pub open spec fn needle_of(variant: u32, spec: CommitSpecView) -> Option<Seq<u8>> {
    if variant % 3 == 0 {
        filler_needle(encode_utf8(spec.events[0].payload))
    } else if variant % 3 == 1 {
        if spec.kind != CommandKind::ReviewEvidence {
            Some(encode_utf8(spec.request_digest))
        } else {
            None
        }
    } else if spec.kind == CommandKind::Dispatch {
        filler_needle(encode_utf8(spec.events[0].payload))
    } else {
        None
    }
}

fn find_bytes(hay: &[u8], needle: &[u8]) -> (r: Option<usize>)
    ensures
        match r {
            Some(i) => first_match(hay@, needle@, 0) == Some(i as int) && i + needle@.len()
                <= hay@.len(),
            None => first_match(hay@, needle@, 0) is None,
        },
{
    let mut i: usize = 0;
    while i < hay.len() && needle.len() <= hay.len() - i
        invariant
            i <= hay.len(),
            first_match(hay@, needle@, 0) == first_match(hay@, needle@, i as int),
        decreases hay.len() - i,
    {
        if bytes_match(hay, needle, i) {
            return Some(i);
        }
        i += 1;
    }
    None
}

fn find_filler(payload: &str) -> (r: Option<Vec<u8>>)
    ensures
        match r {
            Some(v) => filler_needle(encode_utf8(payload@)) == Some(v@),
            None => filler_needle(encode_utf8(payload@)) is None,
        },
{
    let bytes = payload.as_bytes();
    let marker = "\"filler\":\"".as_bytes();
    let at: usize = match find_bytes(bytes, marker) {
        Some(i) => i,
        None => {
            return None;
        },
    };
    let total: usize = bytes.len();
    let start: usize = at + marker.len();
    let ghost rest = bytes@.skip(start as int);
    let mut out: Vec<u8> = Vec::new();
    let mut i: usize = 0;
    while start + i < total && i < 48 && bytes[start + i] != 0x22
        invariant
            i <= 48,
            total == bytes@.len(),
            start + i <= total,
            rest == bytes@.skip(start as int),
            out@ == rest.take(i as int),
            quote_at(rest, 0) == quote_at(rest, i as int),
        decreases total - start - i,
    {
        out.push(bytes[start + i]);
        proof {
            assert(rest.take(i + 1) =~= rest.take(i as int).push(rest[i as int]));
        }
        i += 1;
    }
    proof {
        quote_is_after(rest, i as int);
        if i == 48 {
            assert(rest.take(quote_at(rest, 0)).take(48) =~= out@);
        }
    }
    if i == 48 {
        Some(out)
    } else {
        None
    }
}

proof fn quote_is_after(s: Seq<u8>, i: int)
    requires
        0 <= i <= s.len(),
    ensures
        i <= quote_at(s, i) <= s.len(),
    decreases s.len() - i,
{
    if i < s.len() && s[i] != 0x22 {
        quote_is_after(s, i + 1);
    }
}

/// The needle of a record for a variant of the drill.
pub fn drill_needle(variant: u32, spec: &CommitSpec) -> (r: Option<Vec<u8>>)
    requires
        spec@.events.len() > 0,
    ensures
        match r {
            Some(v) => needle_of(variant, spec@) == Some(v@),
            None => needle_of(variant, spec@) is None,
        },
{
    proof {
        assert(spec@.events[0] == spec.events@[0]@);
    }
    if variant % 3 == 0 {
        find_filler(&spec.events[0].payload)
    } else if variant % 3 == 1 {
        if spec.kind != CommandKind::ReviewEvidence {
            Some(spec.request_digest.as_str().as_bytes_vec())
        } else {
            None
        }
    } else if spec.kind == CommandKind::Dispatch {
        find_filler(&spec.events[0].payload)
    } else {
        None
    }
}

/// The search of the drill for a record to damage, over records drawn in turn.
pub struct NeedleSearch {
    rng: ChaCha20Rng,
}

impl NeedleSearch {
    /// The seed of the search.
    pub closed spec fn seed(self) -> Seq<u8> {
        chacha_seed(self.rng)
    }

    /// How far the search has drawn.
    pub closed spec fn pos(self) -> nat {
        chacha_pos(self.rng)
    }

    /// A search at its beginning.
    pub fn new(trial_seed: u64) -> (r: NeedleSearch)
        ensures
            r.seed() == seed_from_number(trial_seed ^ 0xC0552u64),
            r.pos() == 0,
    {
        NeedleSearch { rng: seeded_from_number(trial_seed ^ 0xC0552u64) }
    }

    /// Draws one record from the middle of the stream, and gives its needle.
    pub fn next(&mut self, variant: u32, confirmed: &Vec<Confirmed>) -> (r: Option<Vec<u8>>)
        requires
            confirmed.len() > 6,
            records_fit(record_views(confirmed@)),
        ensures
            final(self).seed() == old(self).seed(),
            ({
                let draw = usize_draw(
                    old(self).seed(),
                    old(self).pos(),
                    4,
                    (confirmed@.len() - 2) as nat,
                );
                let needle = needle_of(variant, record_views(confirmed@)[draw.0 as int].spec);
                &&& final(self).pos() == draw.1
                &&& match r {
                    Some(v) => needle == Some(v@),
                    None => needle is None,
                }
            }),
    {
        let i: usize = draw_usize(&mut self.rng, 4, confirmed.len() - 2);
        proof {
            assert(record_views(confirmed@)[i as int] == confirmed@[i as int]@);
            assert(record_views(confirmed@)[i as int].spec.events.len() > 0);
        }
        drill_needle(variant, &confirmed[i].spec)
    }
}

/// Flips one bit of the byte 20 into the first occurrence of a needle, which lies inside the
/// checksummed part of the record. `None` where the needle does not occur.
pub fn corrupt(bytes: &Vec<u8>, needle: &Vec<u8>) -> (r: Option<Vec<u8>>)
    requires
        needle.len() > 0,
        first_match(bytes@, needle@, 0) is Some ==> first_match(bytes@, needle@, 0)->0 + 20
            < bytes.len(),
    ensures
        match r {
            Some(out) => {
                let at = first_match(bytes@, needle@, 0);
                &&& at is Some
                &&& out@ == bytes@.update(at->0 + 20, bytes@[at->0 + 20] ^ 0x40)
            },
            None => first_match(bytes@, needle@, 0) is None,
        },
{
    let mut i: usize = 0;
    while i < bytes.len() && needle.len() <= bytes.len() - i
        invariant
            i <= bytes.len(),
            needle.len() > 0,
            first_match(bytes@, needle@, 0) is Some ==> first_match(bytes@, needle@, 0)->0 + 20
                < bytes.len(),
            first_match(bytes@, needle@, 0) == first_match(bytes@, needle@, i as int),
        decreases bytes.len() - i,
    {
        if bytes_match(bytes, needle, i) {
            let mut out: Vec<u8> = Vec::new();
            let mut k: usize = 0;
            while k < bytes.len()
                invariant
                    k <= bytes.len(),
                    out@ == bytes@.take(k as int),
                decreases bytes.len() - k,
            {
                out.push(bytes[k]);
                proof {
                    assert(bytes@.take(k + 1) =~= bytes@.take(k as int).push(bytes@[k as int]));
                }
                k += 1;
            }
            proof {
                assert(bytes@.take(bytes@.len() as int) =~= bytes@);
            }
            let flipped: u8 = out[i + 20] ^ 0x40;
            out.set(i + 20, flipped);
            return Some(out);
        }
        i += 1;
    }
    None
}

// --- The tally of a run --------------------------------------------------------------------------

/// The tally of a run.
#[derive(Debug)]
pub struct GateSummary {
    pub scored: u32,
    pub passed: u32,
    pub failed: u32,
    pub resampled_attempts: u32,
    /// Trials that never counted within the cap: reported, not dropped.
    pub shortfalls: Vec<String>,
}

impl GateSummary {
    /// A tally of nothing.
    pub fn new() -> (r: GateSummary)
        ensures
            r.scored == 0,
            r.passed == 0,
            r.failed == 0,
            r.resampled_attempts == 0,
            views(r.shortfalls@) == Seq::<Seq<char>>::empty(),
    {
        GateSummary {
            scored: 0,
            passed: 0,
            failed: 0,
            resampled_attempts: 0,
            shortfalls: no_texts(),
        }
    }

    /// Whether every scored trial is counted as passed or as failed.
    pub open spec fn balanced(self) -> bool {
        self.scored == self.passed + self.failed
    }

    /// Counts a scored trial.
    pub fn record(&mut self, pass: bool)
        requires
            old(self).scored < u32::MAX,
            old(self).balanced(),
        ensures
            final(self).scored == old(self).scored + 1,
            final(self).passed == old(self).passed + (if pass {
                1int
            } else {
                0
            }),
            final(self).failed == old(self).failed + (if pass {
                0int
            } else {
                1
            }),
            final(self).resampled_attempts == old(self).resampled_attempts,
            final(self).shortfalls@ == old(self).shortfalls@,
            final(self).balanced(),
    {
        self.scored = self.scored + 1;
        if pass {
            self.passed = self.passed + 1;
        } else {
            self.failed = self.failed + 1;
        }
    }

    /// Counts an attempt that is sampled again.
    pub fn resample(&mut self)
        requires
            old(self).resampled_attempts < u32::MAX,
        ensures
            final(self).resampled_attempts == old(self).resampled_attempts + 1,
            final(self).scored == old(self).scored,
            final(self).passed == old(self).passed,
            final(self).failed == old(self).failed,
            final(self).shortfalls@ == old(self).shortfalls@,
    {
        self.resampled_attempts = self.resampled_attempts + 1;
    }

    /// Reports a trial that never counted.
    pub fn fall_short(&mut self, arm: &Arm, cell: KillPoint, rep: u32)
        ensures
            views(final(self).shortfalls@) == views(old(self).shortfalls@).push(
                arm.label_text() + "/"@ + cell.name_text() + "/rep"@ + dec(rep as nat),
            ),
            final(self).scored == old(self).scored,
            final(self).passed == old(self).passed,
            final(self).failed == old(self).failed,
            final(self).resampled_attempts == old(self).resampled_attempts,
    {
        let mut s = arm.label();
        s.append("/");
        s.append(cell.name());
        s.append("/rep");
        s.append(&decimal(rep as u64));
        add_text(&mut self.shortfalls, s);
    }
}

/// What follows an attempt.
#[derive(Debug, Clone, Copy, PartialEq, Eq, Structural)]
pub enum AfterAttempt {
    Score,
    SampleAgain,
    /// The attempts are used up.
    FallShort,
}

/// What follows an attempt at a kill cell.
pub open spec fn after_attempt_of(
    cell: KillPoint,
    disqualified: bool,
    attempt: u32,
    cap: u32,
) -> AfterAttempt {
    if !disqualified || cell == KillPoint::ArtifactPublication {
        AfterAttempt::Score
    } else if attempt + 1 < cap {
        AfterAttempt::SampleAgain
    } else {
        AfterAttempt::FallShort
    }
}

/// What follows an attempt at a kill cell: the two phases of the artifact cell are scored as
/// they come; elsewhere a disqualified attempt is sampled again until the cap.
pub fn after_attempt(cell: KillPoint, disqualified: bool, attempt: u32, cap: u32) -> (r:
    AfterAttempt)
    ensures
        r == (if cell == KillPoint::ArtifactPublication || !disqualified {
            AfterAttempt::Score
        } else if attempt + 1 < cap {
            AfterAttempt::SampleAgain
        } else {
            AfterAttempt::FallShort
        }),
        r == after_attempt_of(cell, disqualified, attempt, cap),
{
    if matches!(cell, KillPoint::ArtifactPublication) || !disqualified {
        AfterAttempt::Score
    } else if attempt < cap && attempt + 1 < cap {
        AfterAttempt::SampleAgain
    } else {
        AfterAttempt::FallShort
    }
}

/// Which variant of the drill a repetition runs.
pub fn drill_variant(rep: u32) -> (r: u32)
    ensures
        r == rep % 3,
{
    rep % 3
}

/// Whether the store of a trial is kept.
pub open spec fn is_store_kept(pass: bool, rep: u32, reps: u32) -> bool {
    pass ==> rep == 0 || rep + 1 == reps
}

/// Whether the store of a trial is kept: always where it failed, and for the first and the last
/// repetition.
pub fn keeps_store(pass: bool, rep: u32, reps: u32) -> (r: bool)
    requires
        reps > 0,
    ensures
        r == (!pass || rep == 0 || rep == reps - 1),
        r == is_store_kept(pass, rep, reps),
{
    !pass || rep == 0 || rep == reps - 1
}

} // verus!
