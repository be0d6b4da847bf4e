//! Deterministic command-mix generation.
//!
//! A `CommitSpec` says what one transaction must write; the store executes it. Everything derives
//! from the trial seed, so that a failing trial replays exactly.
//!
//! The pool is claim-based: a writer claims a unit slot, applies the spec, and releases the slot.
//! Seeded stale-lease and stale-holder injections exercise the rejection paths.
use crate::harness::schema::{
    digest, CommandKind, EffectState, SemanticEvent, SemanticEventView,
};
use crate::ids::digest_text;
use crate::text::{dec, decimal, opt_view};
use rand::{Rng, SeedableRng};
use rand_chacha::ChaCha20Rng;
use vstd::prelude::*;
use vstd::string::*;
use vstd::utf8::*;

verus! {

// --- The generator of numbers --------------------------------------------------------------------

/// The ChaCha20 generator of rand_chacha.
#[verifier::external_type_specification]
#[verifier::external_body]
pub struct ExChaCha20Rng(ChaCha20Rng);

/// The seed that a generator was made from.
pub uninterp spec fn chacha_seed(rng: ChaCha20Rng) -> Seq<u8>;

/// How many words of its stream a generator has given out.
pub uninterp spec fn chacha_pos(rng: ChaCha20Rng) -> nat;

/// A number drawn from `low..high` at a position of the stream of a seed, in the way of
/// `usize`, and the position after it.
pub uninterp spec fn usize_draw(seed: Seq<u8>, pos: nat, low: nat, high: nat) -> (nat, nat);

/// A number drawn from `0..high` at a position of the stream of a seed, in the way of `u32`,
/// and the position after it.
pub uninterp spec fn u32_draw(seed: Seq<u8>, pos: nat, high: nat) -> (nat, nat);

/// A number drawn from `low` to `high`, both included, at a position of the stream of a seed, in
/// the way of `u8`, and the position after it.
pub uninterp spec fn u8_draw(seed: Seq<u8>, pos: nat, low: nat, high: nat) -> (nat, nat);

/// `ChaCha20Rng::from_seed`: a generator at the beginning of the stream of a seed.
#[verifier::external_body]
fn seeded(seed: [u8; 32]) -> (r: ChaCha20Rng)
    ensures
        chacha_seed(r) == seed@,
        chacha_pos(r) == 0,
{
    ChaCha20Rng::from_seed(seed)
}

/// `Rng::random_range` on a range of `usize`: a number in the range that the seed and the
/// position decide. An empty range would panic.
#[verifier::external_body]
pub(crate) fn draw_usize(rng: &mut ChaCha20Rng, low: usize, high: usize) -> (r: usize)
    requires
        low < high,
    ensures
        low <= r < high,
        (r as nat, chacha_pos(*final(rng))) == usize_draw(
            chacha_seed(*old(rng)),
            chacha_pos(*old(rng)),
            low as nat,
            high as nat,
        ),
        chacha_seed(*final(rng)) == chacha_seed(*old(rng)),
{
    rng.random_range(low..high)
}

/// `Rng::random_range` on a range of `u32` from 0: a number in the range that the seed and the
/// position decide. An empty range would panic.
#[verifier::external_body]
fn draw_u32(rng: &mut ChaCha20Rng, high: u32) -> (r: u32)
    requires
        0 < high,
    ensures
        r < high,
        (r as nat, chacha_pos(*final(rng))) == u32_draw(
            chacha_seed(*old(rng)),
            chacha_pos(*old(rng)),
            high as nat,
        ),
        chacha_seed(*final(rng)) == chacha_seed(*old(rng)),
{
    rng.random_range(0..high)
}

/// `Rng::random_range` on an inclusive range of `u8`: a number in the range that the seed and the
/// position decide. An empty range would panic.
#[verifier::external_body]
fn draw_u8(rng: &mut ChaCha20Rng, low: u8, high: u8) -> (r: u8)
    requires
        low <= high,
    ensures
        low <= r <= high,
        (r as nat, chacha_pos(*final(rng))) == u8_draw(
            chacha_seed(*old(rng)),
            chacha_pos(*old(rng)),
            low as nat,
            high as nat,
        ),
        chacha_seed(*final(rng)) == chacha_seed(*old(rng)),
{
    rng.random_range(low..=high)
}

// --- Records -------------------------------------------------------------------------------------

/// Where a unit stands.
#[derive(Debug, Clone, Copy, PartialEq, Eq, Structural)]
pub enum UnitPhase {
    Ready,
    Working,
    Reviewing,
    Terminal,
}

impl UnitPhase {
    /// The name of the phase.
    pub open spec fn name_text(self) -> Seq<char> {
        match self {
            UnitPhase::Ready => "Ready"@,
            UnitPhase::Working => "Working"@,
            UnitPhase::Reviewing => "Reviewing"@,
            UnitPhase::Terminal => "Terminal"@,
        }
    }

    /// The name of the phase.
    pub fn name(self) -> (r: &'static str)
        ensures
            r@ == self.name_text(),
    {
        match self {
            UnitPhase::Ready => "Ready",
            UnitPhase::Working => "Working",
            UnitPhase::Reviewing => "Reviewing",
            UnitPhase::Terminal => "Terminal",
        }
    }
}

/// A rejection that the generator planned: an accepted apply is then a violation.
#[derive(Debug, Clone, Copy, PartialEq, Eq, Structural)]
pub enum ExpectedRejection {
    /// A superseded attempt epoch.
    StaleLease,
    /// A wrong holder for the current epoch.
    StaleHolder,
}

/// One observation of an effect, written once.
#[derive(Debug)]
pub struct EffectRow {
    pub intent_id: u64,
    pub operation_key: String,
    pub state: EffectState,
}

/// The view of a `EffectRow`.
pub struct EffectRowView {
    pub intent_id: u64,
    pub operation_key: Seq<char>,
    pub state: EffectState,
}

impl View for EffectRow {
    type V = EffectRowView;

    open spec fn view(&self) -> EffectRowView {
        EffectRowView {
            intent_id: self.intent_id,
            operation_key: self.operation_key@,
            state: self.state,
        }
    }
}

impl Clone for EffectRow {
    fn clone(&self) -> (r: Self)
        ensures
            r@ == self@,
    {
        EffectRow {
            intent_id: self.intent_id,
            operation_key: self.operation_key.clone(),
            state: self.state,
        }
    }
}

/// A copy of a list.
fn copy_semantic_events(list: &Vec<SemanticEvent>) -> (r: Vec<SemanticEvent>)
    ensures
        r@.map_values(|x: SemanticEvent| x@) == list@.map_values(|x: SemanticEvent| x@),
{
    let mut r: Vec<SemanticEvent> = Vec::new();
    let mut i: usize = 0;
    while i < list.len()
        invariant
            i <= list.len(),
            r.len() == i,
            forall|k: int| 0 <= k < i ==> (#[trigger] r@[k])@ == list@[k]@,
        decreases list.len() - i,
    {
        r.push(list[i].clone());
        i += 1;
    }
    proof {
        assert(r@.map_values(|x: SemanticEvent| x@) =~= list@.map_values(|x: SemanticEvent| x@));
    }
    r
}

/// What one transaction must write.
#[derive(Debug)]
pub struct CommitSpec {
    pub writer: u32,
    pub step: u32,
    pub kind: CommandKind,
    pub slot: usize,
    pub unit_id: u64,
    /// The version that the unit must still be at.
    pub expected_version: u64,
    /// The attempt epoch that the command claims to act under.
    pub attempt_epoch: u32,
    pub holder_id: u64,
    pub new_phase: UnitPhase,
    pub expect_reject: Option<ExpectedRejection>,
    pub command_id: u64,
    pub request_digest: String,
    pub events: Vec<SemanticEvent>,
    /// On a dispatch and a tool completion.
    pub effect: Option<EffectRow>,
    /// On review evidence: a content-addressed artifact.
    pub artifact_ref: Option<String>,
}

/// The view of a `CommitSpec`.
pub struct CommitSpecView {
    pub writer: u32,
    pub step: u32,
    pub kind: CommandKind,
    pub slot: usize,
    pub unit_id: u64,
    pub expected_version: u64,
    pub attempt_epoch: u32,
    pub holder_id: u64,
    pub new_phase: UnitPhase,
    pub expect_reject: Option<ExpectedRejection>,
    pub command_id: u64,
    pub request_digest: Seq<char>,
    pub events: Seq<SemanticEventView>,
    pub effect: Option<EffectRowView>,
    pub artifact_ref: Option<Seq<char>>,
}

impl View for CommitSpec {
    type V = CommitSpecView;

    open spec fn view(&self) -> CommitSpecView {
        CommitSpecView {
            writer: self.writer,
            step: self.step,
            kind: self.kind,
            slot: self.slot,
            unit_id: self.unit_id,
            expected_version: self.expected_version,
            attempt_epoch: self.attempt_epoch,
            holder_id: self.holder_id,
            new_phase: self.new_phase,
            expect_reject: self.expect_reject,
            command_id: self.command_id,
            request_digest: self.request_digest@,
            events: self.events@.map_values(|x: SemanticEvent| x@),
            effect: match self.effect { Some(x) => Some(x@), None => None },
            artifact_ref: opt_view(self.artifact_ref),
        }
    }
}

impl Clone for CommitSpec {
    fn clone(&self) -> (r: Self)
        ensures
            r@ == self@,
    {
        CommitSpec {
            writer: self.writer,
            step: self.step,
            kind: self.kind,
            slot: self.slot,
            unit_id: self.unit_id,
            expected_version: self.expected_version,
            attempt_epoch: self.attempt_epoch,
            holder_id: self.holder_id,
            new_phase: self.new_phase,
            expect_reject: self.expect_reject,
            command_id: self.command_id,
            request_digest: self.request_digest.clone(),
            events: copy_semantic_events(&self.events),
            effect: self.effect.clone(),
            artifact_ref: self.artifact_ref.clone(),
        }
    }
}

/// A unit of the pool.
#[derive(Debug)]
pub struct Slot {
    pub unit_id: u64,
    pub phase: UnitPhase,
    pub version: u64,
    pub attempt_epoch: u32,
    pub claimed: bool,
    /// The writer that dispatched the current epoch.
    pub holder: u64,
    /// The operation key of the outstanding effect.
    pub open_op: Option<String>,
}

/// The view of a `Slot`.
pub struct SlotView {
    pub unit_id: u64,
    pub phase: UnitPhase,
    pub version: u64,
    pub attempt_epoch: u32,
    pub claimed: bool,
    pub holder: u64,
    pub open_op: Option<Seq<char>>,
}

impl View for Slot {
    type V = SlotView;

    open spec fn view(&self) -> SlotView {
        SlotView {
            unit_id: self.unit_id,
            phase: self.phase,
            version: self.version,
            attempt_epoch: self.attempt_epoch,
            claimed: self.claimed,
            holder: self.holder,
            open_op: opt_view(self.open_op),
        }
    }
}

impl Clone for Slot {
    fn clone(&self) -> (r: Self)
        ensures
            r@ == self@,
    {
        Slot {
            unit_id: self.unit_id,
            phase: self.phase,
            version: self.version,
            attempt_epoch: self.attempt_epoch,
            claimed: self.claimed,
            holder: self.holder,
            open_op: self.open_op.clone(),
        }
    }
}

/// The shared population of units.
#[derive(Debug)]
pub struct UnitPool {
    pub next_unit: u64,
    pub slots: Vec<Slot>,
}

/// The view of a `UnitPool`.
pub struct UnitPoolView {
    pub next_unit: u64,
    pub slots: Seq<SlotView>,
}

impl View for UnitPool {
    type V = UnitPoolView;

    open spec fn view(&self) -> UnitPoolView {
        UnitPoolView {
            next_unit: self.next_unit,
            slots: self.slots@.map_values(|s: Slot| s@),
        }
    }
}

/// A slot with a fresh unit.
pub open spec fn fresh_slot(unit_id: u64) -> SlotView {
    SlotView {
        unit_id,
        phase: UnitPhase::Ready,
        version: 0,
        attempt_epoch: 0,
        claimed: false,
        holder: 0,
        open_op: None,
    }
}

/// A slot after its command was applied.
pub open spec fn advanced_slot(s: SlotView, spec: CommitSpecView) -> SlotView {
    let moved = SlotView {
        phase: spec.new_phase,
        version: (s.version + 1) as u64,
        claimed: false,
        ..s
    };
    match spec.kind {
        CommandKind::Dispatch => SlotView {
            attempt_epoch: spec.attempt_epoch,
            holder: spec.holder_id,
            open_op: match spec.effect {
                Some(e) => Some(e.operation_key),
                None => None,
            },
            ..moved
        },
        CommandKind::ToolCompletion => SlotView { open_op: None, ..moved },
        _ => moved,
    }
}

/// The pool after a slot is released: moved on only where the apply advanced, and refilled
/// with a fresh unit where the unit is done.
pub open spec fn released(
    pool: UnitPoolView,
    slot: int,
    spec: CommitSpecView,
    advanced: bool,
) -> UnitPoolView {
    let s = pool.slots[slot];
    if !advanced {
        UnitPoolView {
            slots: pool.slots.update(slot, SlotView { claimed: false, ..s }),
            ..pool
        }
    } else if spec.new_phase == UnitPhase::Terminal {
        UnitPoolView {
            next_unit: (pool.next_unit + 1) as u64,
            slots: pool.slots.update(slot, fresh_slot((pool.next_unit + 1) as u64)),
        }
    } else {
        UnitPoolView { slots: pool.slots.update(slot, advanced_slot(s, spec)), ..pool }
    }
}

impl UnitPool {
    /// A pool of fresh units, numbered from 0.
    pub fn new(size: usize) -> (r: UnitPool)
        ensures
            r@ == (UnitPoolView {
                next_unit: size as u64,
                slots: Seq::new(size as nat, |i: int| fresh_slot(i as u64)),
            }),
    {
        let mut slots: Vec<Slot> = Vec::new();
        let mut i: usize = 0;
        while i < size
            invariant
                i <= size,
                slots.len() == i,
                forall|k: int| 0 <= k < i ==> (#[trigger] slots@[k])@ == fresh_slot(k as u64),
            decreases size - i,
        {
            slots.push(
                Slot {
                    unit_id: i as u64,
                    phase: UnitPhase::Ready,
                    version: 0,
                    attempt_epoch: 0,
                    claimed: false,
                    holder: 0,
                    open_op: None,
                },
            );
            i += 1;
        }
        let r = UnitPool { next_unit: size as u64, slots };
        proof {
            assert(r@.slots =~= Seq::new(size as nat, |i: int| fresh_slot(i as u64)));
        }
        r
    }

    /// Releases a claimed slot. A rejected apply releases without moving: the store did not
    /// move, so the pool must not either.
    pub fn release(&mut self, slot: usize, spec: &CommitSpec, advanced: bool)
        requires
            slot < old(self)@.slots.len(),
            old(self)@.slots[slot as int].claimed,
            old(self)@.next_unit < u64::MAX,
            old(self)@.slots[slot as int].version < u64::MAX,
        ensures
            final(self)@ == released(old(self)@, slot as int, spec@, advanced),
    {
        let ghost before = self@;
        proof {
            assert(before.slots[slot as int] == self.slots@[slot as int]@);
        }
        if advanced {
            if spec.new_phase == UnitPhase::Terminal {
                let next: u64 = self.next_unit + 1;
                self.next_unit = next;
                self.slots.set(
                    slot,
                    Slot {
                        unit_id: next,
                        phase: UnitPhase::Ready,
                        version: 0,
                        attempt_epoch: 0,
                        claimed: false,
                        holder: 0,
                        open_op: None,
                    },
                );
                proof {
                    assert(self@.slots =~= before.slots.update(slot as int, fresh_slot(next)));
                }
                return ;
            }
            let mut s = self.slots[slot].clone();
            s.phase = spec.new_phase;
            s.version = s.version + 1;
            s.claimed = false;
            match spec.kind {
                CommandKind::Dispatch => {
                    s.attempt_epoch = spec.attempt_epoch;
                    s.holder = spec.holder_id;
                    s.open_op = match &spec.effect {
                        Some(e) => Some(e.operation_key.clone()),
                        None => None,
                    };
                },
                CommandKind::ToolCompletion => {
                    s.open_op = None;
                },
                _ => {},
            }
            let ghost moved = s@;
            self.slots.set(slot, s);
            proof {
                assert(self@.slots =~= before.slots.update(slot as int, moved));
            }
        } else {
            let mut s = self.slots[slot].clone();
            s.claimed = false;
            let ghost kept = s@;
            self.slots.set(slot, s);
            proof {
                assert(self@.slots =~= before.slots.update(slot as int, kept));
            }
        }
    }
}

// --- Decisions on what was drawn -----------------------------------------------------------------

/// Whether a slot can be claimed.
pub open spec fn claimable(s: SlotView) -> bool {
    !s.claimed && s.phase != UnitPhase::Terminal
}

/// The places that can be claimed among the first `n`, in order.
pub open spec fn free_places(slots: Seq<SlotView>, n: nat) -> Seq<usize>
    decreases n,
{
    if n == 0 {
        Seq::empty()
    } else {
        let front = free_places(slots, (n - 1) as nat);
        if claimable(slots[n - 1]) {
            front.push((n - 1) as usize)
        } else {
            front
        }
    }
}

/// The command for a unit that is being worked on.
pub open spec fn working_kind(draw: nat) -> CommandKind {
    if draw <= 3 {
        CommandKind::LeaseRenewal
    } else if draw <= 6 {
        CommandKind::ProgressRollup
    } else if draw <= 8 {
        CommandKind::ToolCompletion
    } else {
        CommandKind::Cancellation
    }
}

/// The command for a unit that is being reviewed.
pub open spec fn reviewing_kind(draw: nat) -> CommandKind {
    if draw <= 1 {
        CommandKind::ReviewEvidence
    } else {
        CommandKind::OwnerDecision
    }
}

/// The phase that a command leads to. A cancellation is rework: the unit is ready again.
pub open spec fn phase_after(kind: CommandKind) -> UnitPhase {
    match kind {
        CommandKind::Dispatch | CommandKind::LeaseRenewal | CommandKind::ProgressRollup =>
            UnitPhase::Working,
        CommandKind::ToolCompletion | CommandKind::ReviewEvidence => UnitPhase::Reviewing,
        CommandKind::Cancellation => UnitPhase::Ready,
        CommandKind::OwnerDecision => UnitPhase::Terminal,
    }
}

/// The phase that a command leads to.
pub fn next_phase(kind: CommandKind) -> (r: UnitPhase)
    ensures
        r == phase_after(kind),
{
    match kind {
        CommandKind::Dispatch | CommandKind::LeaseRenewal | CommandKind::ProgressRollup =>
            UnitPhase::Working,
        CommandKind::ToolCompletion | CommandKind::ReviewEvidence => UnitPhase::Reviewing,
        CommandKind::Cancellation => UnitPhase::Ready,
        CommandKind::OwnerDecision => UnitPhase::Terminal,
    }
}

/// The command of a drawn number for a unit that is being worked on.
pub fn kind_when_working(draw: u32) -> (r: CommandKind)
    ensures
        r == working_kind(draw as nat),
{
    if draw <= 3 {
        CommandKind::LeaseRenewal
    } else if draw <= 6 {
        CommandKind::ProgressRollup
    } else if draw <= 8 {
        CommandKind::ToolCompletion
    } else {
        CommandKind::Cancellation
    }
}

/// The command of a drawn number for a unit that is being reviewed.
pub fn kind_when_reviewing(draw: u32) -> (r: CommandKind)
    ensures
        r == reviewing_kind(draw as nat),
{
    if draw <= 1 {
        CommandKind::ReviewEvidence
    } else {
        CommandKind::OwnerDecision
    }
}

/// Whether a command can carry an injection.
pub open spec fn injectable(kind: CommandKind) -> bool {
    ||| kind == CommandKind::LeaseRenewal
    ||| kind == CommandKind::ProgressRollup
    ||| kind == CommandKind::ToolCompletion
}

/// The epoch, the holder and the planned rejection of a command, for a drawn number: 0 injects
/// a superseded epoch where there is one, 1 a wrong holder.
pub open spec fn injection(s: SlotView, draw: nat) -> (u32, u64, Option<ExpectedRejection>) {
    if draw == 0 && s.attempt_epoch >= 2 {
        ((s.attempt_epoch - 1) as u32, s.holder, Some(ExpectedRejection::StaleLease))
    } else if draw == 1 {
        (s.attempt_epoch, s.holder ^ 0x5741_1E00u64, Some(ExpectedRejection::StaleHolder))
    } else {
        (s.attempt_epoch, s.holder, None)
    }
}

/// The epoch, the holder and the planned rejection of a command, for a drawn number.
pub fn inject(s: &Slot, draw: u32) -> (r: (u32, u64, Option<ExpectedRejection>))
    ensures
        r == injection(s@, draw as nat),
{
    if draw == 0 && s.attempt_epoch >= 2 {
        (s.attempt_epoch - 1, s.holder, Some(ExpectedRejection::StaleLease))
    } else if draw == 1 {
        (s.attempt_epoch, s.holder ^ 0x5741_1E00u64, Some(ExpectedRejection::StaleHolder))
    } else {
        (s.attempt_epoch, s.holder, None)
    }
}

/// The command id of a writer's command: the writer in the high bits, the count in the low 40.
pub open spec fn command_id_of(writer: u32, seq: u64) -> u64 {
    ((writer as u64) << 40u64) | seq
}

/// The payload of a command.
pub open spec fn payload_of(
    kind: CommandKind,
    unit_id: u64,
    writer: u32,
    step: u32,
    filler: Seq<char>,
) -> Seq<char> {
    "{\"kind\":\""@ + kind.name_text() + "\",\"unit\":"@ + dec(unit_id as nat)
        + ",\"writer\":"@ + dec(writer as nat) + ",\"step\":"@ + dec(step as nat)
        + ",\"filler\":\""@ + filler + "\"}"@
}

/// The key of an operation of its own.
pub open spec fn own_key(unit_id: u64, command_id: u64) -> Seq<char> {
    "op-"@ + dec(unit_id as nat) + "-"@ + dec(command_id as nat)
}

/// The effect row of a command: an intent on a dispatch, and on a tool completion the terminal
/// observation of the outstanding intent, under its key.
pub open spec fn effect_of(kind: CommandKind, s: SlotView, command_id: u64) -> Option<
    EffectRowView,
> {
    match kind {
        CommandKind::Dispatch => Some(
            EffectRowView {
                intent_id: (command_id << 8u64) | 2,
                operation_key: own_key(s.unit_id, command_id),
                state: EffectState::Prepared,
            },
        ),
        CommandKind::ToolCompletion => Some(
            EffectRowView {
                intent_id: (command_id << 8u64) | 2,
                operation_key: match s.open_op {
                    Some(key) => key,
                    None => own_key(s.unit_id, command_id),
                },
                state: EffectState::Succeeded,
            },
        ),
        _ => None,
    }
}

/// The spec of a command on a slot, once everything is drawn.
pub open spec fn spec_of(
    writer: u32,
    step: u32,
    seq: u64,
    place: usize,
    s: SlotView,
    kind: CommandKind,
    injected: (u32, u64, Option<ExpectedRejection>),
    payload: Seq<char>,
) -> CommitSpecView {
    let command_id = command_id_of(writer, seq);
    let text = digest_text(encode_utf8(payload));
    CommitSpecView {
        writer,
        step,
        kind,
        slot: place,
        unit_id: s.unit_id,
        expected_version: s.version,
        attempt_epoch: injected.0,
        holder_id: injected.1,
        new_phase: phase_after(kind),
        expect_reject: injected.2,
        command_id,
        request_digest: text,
        events: seq![
            SemanticEventView {
                event_id: (command_id << 8u64) | 1,
                aggregate_id: s.unit_id,
                aggregate_version: (s.version + 1) as u64,
                ordinal: 0,
                kind: kind.name_text(),
                payload,
                causation_ref: Some(command_id),
            },
        ],
        effect: effect_of(kind, s, command_id),
        artifact_ref: if kind == CommandKind::ReviewEvidence {
            Some(text)
        } else {
            None
        },
    }
}

/// Whether a spec is that of a claim: its slot was free, it alone changes, and only in that it is
/// claimed now; and the spec moves the unit of that slot on by one version.
pub open spec fn claims(pool: UnitPoolView, after: UnitPoolView, spec: CommitSpecView) -> bool {
    let place = spec.slot as int;
    &&& 0 <= place < pool.slots.len()
    &&& claimable(pool.slots[place])
    &&& after == (UnitPoolView {
        slots: pool.slots.update(place, SlotView { claimed: true, ..pool.slots[place] }),
        ..pool
    })
    &&& spec.unit_id == pool.slots[place].unit_id
    &&& spec.expected_version == pool.slots[place].version
    &&& spec.events.len() == 1
    &&& spec.events[0].aggregate_version == spec.expected_version + 1
    &&& spec.artifact_ref is Some <==> spec.kind == CommandKind::ReviewEvidence
}

/// Builds the spec of a command on a slot.
pub fn build_spec(
    writer: u32,
    step: u32,
    seq: u64,
    place: usize,
    s: &Slot,
    kind: CommandKind,
    injected: (u32, u64, Option<ExpectedRejection>),
    payload: String,
) -> (r: CommitSpec)
    requires
        s@.version < u64::MAX,
    ensures
        r@ == spec_of(writer, step, seq, place, s@, kind, injected, payload@),
{
    let command_id: u64 = ((writer as u64) << 40u64) | seq;
    let request_digest = digest(payload.as_str().as_bytes());
    let artifact_ref = if kind == CommandKind::ReviewEvidence {
        Some(digest(payload.as_str().as_bytes()))
    } else {
        None
    };
    let mut key = "op-".to_owned();
    key.append(&decimal(s.unit_id));
    key.append("-");
    key.append(&decimal(command_id));
    let effect = match kind {
        CommandKind::Dispatch => Some(
            EffectRow {
                intent_id: (command_id << 8u64) | 2,
                operation_key: key,
                state: EffectState::Prepared,
            },
        ),
        CommandKind::ToolCompletion => {
            let operation_key = match &s.open_op {
                Some(open) => open.clone(),
                None => key,
            };
            Some(
                EffectRow {
                    intent_id: (command_id << 8u64) | 2,
                    operation_key,
                    state: EffectState::Succeeded,
                },
            )
        },
        _ => None,
    };
    let event = SemanticEvent {
        event_id: (command_id << 8u64) | 1,
        aggregate_id: s.unit_id,
        aggregate_version: s.version + 1,
        ordinal: 0,
        kind: kind.name().to_owned(),
        payload,
        causation_ref: Some(command_id),
    };
    let ghost event_view = event@;
    let mut events: Vec<SemanticEvent> = Vec::new();
    events.push(event);
    let r = CommitSpec {
        writer,
        step,
        kind,
        slot: place,
        unit_id: s.unit_id,
        expected_version: s.version,
        attempt_epoch: injected.0,
        holder_id: injected.1,
        new_phase: next_phase(kind),
        expect_reject: injected.2,
        command_id,
        request_digest,
        events,
        effect,
        artifact_ref,
    };
    proof {
        assert(r@.events =~= seq![event_view]);
    }
    r
}

// --- Streams -------------------------------------------------------------------------------------

/// The command stream of one writer.
pub struct WriterStream {
    pub writer: u32,
    rng: ChaCha20Rng,
    step: u32,
    command_seq: u64,
}

/// The view of a `WriterStream`: the seed and the position stand for its generator.
pub struct WriterStreamView {
    pub writer: u32,
    pub seed: Seq<u8>,
    pub pos: nat,
    pub step: u32,
    pub command_seq: u64,
}

impl View for WriterStream {
    type V = WriterStreamView;

    closed spec fn view(&self) -> WriterStreamView {
        WriterStreamView {
            writer: self.writer,
            seed: chacha_seed(self.rng),
            pos: chacha_pos(self.rng),
            step: self.step,
            command_seq: self.command_seq,
        }
    }
}

/// The seed of a writer's stream: the trial seed and the writer, least significant byte first,
/// and zeros.
pub open spec fn writer_seed(trial_seed: u64, writer: u32) -> Seq<u8> {
    Seq::new(
        32,
        |i: int|
            if i < 8 {
                byte_of(trial_seed, i)
            } else if i < 12 {
                byte_of(writer as u64, i - 8)
            } else {
                0u8
            },
    )
}

/// A byte of a number, counted from the least significant.
pub open spec fn byte_of(n: u64, i: int) -> u8 {
    ((n >> ((8 * i) as u64)) & 0xff) as u8
}

/// The letters from `a` to `z` drawn from a position on, and the position after them.
pub open spec fn letters(seed: Seq<u8>, pos: nat, n: nat) -> (Seq<char>, nat)
    decreases n,
{
    if n == 0 {
        (Seq::empty(), pos)
    } else {
        let front = letters(seed, pos, (n - 1) as nat);
        let draw = u8_draw(seed, front.1, 97, 122);
        (front.0.push(draw.0 as char), draw.1)
    }
}

/// The filler of a payload, and the position after it.
pub open spec fn filler_at(seed: Seq<u8>, pos: nat) -> (Seq<char>, nat) {
    let draw = usize_draw(seed, pos, 160, 420);
    letters(seed, draw.1, draw.0)
}

/// The kind of the next command on a slot, and the position after it was drawn.
pub open spec fn kind_at(phase: UnitPhase, seed: Seq<u8>, pos: nat) -> (CommandKind, nat) {
    match phase {
        UnitPhase::Ready => (CommandKind::Dispatch, pos),
        UnitPhase::Working => {
            let draw = u32_draw(seed, pos, 10);
            (working_kind(draw.0), draw.1)
        },
        _ => {
            let draw = u32_draw(seed, pos, 3);
            (reviewing_kind(draw.0), draw.1)
        },
    }
}

/// The injection of the next command, and the position after it was drawn.
pub open spec fn injection_at(
    writer: u32,
    kind: CommandKind,
    s: SlotView,
    seed: Seq<u8>,
    pos: nat,
) -> ((u32, u64, Option<ExpectedRejection>), nat) {
    if kind == CommandKind::Dispatch {
        (((s.attempt_epoch + 1) as u32, writer as u64, None), pos)
    } else if injectable(kind) {
        let draw = u32_draw(seed, pos, 32);
        (injection(s, draw.0), draw.1)
    } else {
        ((s.attempt_epoch, s.holder, None), pos)
    }
}

/// What the next command of a stream is: the stream and the pool after it, and its spec. A pool
/// without a free slot gives none and draws nothing.
pub open spec fn next_of(st: WriterStreamView, pool: UnitPoolView) -> Option<
    (WriterStreamView, UnitPoolView, CommitSpecView),
> {
    let free = free_places(pool.slots, pool.slots.len());
    if free.len() == 0 {
        None
    } else {
        let pick = usize_draw(st.seed, st.pos, 0, free.len());
        let place = free[pick.0 as int];
        let s = pool.slots[place as int];
        let kind = kind_at(s.phase, st.seed, pick.1);
        let injected = injection_at(st.writer, kind.0, s, st.seed, kind.1);
        let step = (st.step + 1) as u32;
        let filler = filler_at(st.seed, injected.1);
        let seq = (st.command_seq + 1) as u64;
        let payload = payload_of(kind.0, s.unit_id, st.writer, step, filler.0);
        Some(
            (
                WriterStreamView { pos: filler.1, step, command_seq: seq, ..st },
                UnitPoolView {
                    slots: pool.slots.update(place as int, SlotView { claimed: true, ..s }),
                    ..pool
                },
                spec_of(st.writer, step, seq, place, s, kind.0, injected.0, payload),
            ),
        )
    }
}

/// Whether a pool's counters have room for one more command each.
pub open spec fn pool_has_room(pool: UnitPoolView) -> bool {
    forall|i: int|
        0 <= i < pool.slots.len() ==> (#[trigger] pool.slots[i]).version < u64::MAX
            && pool.slots[i].attempt_epoch < u32::MAX
}

proof fn free_places_hold(slots: Seq<SlotView>, n: nat, k: int)
    requires
        n <= slots.len(),
        slots.len() <= usize::MAX,
        0 <= k < free_places(slots, n).len(),
    ensures
        free_places(slots, n)[k] < n,
        claimable(slots[free_places(slots, n)[k] as int]),
    decreases n,
{
    let front = free_places(slots, (n - 1) as nat);
    if k < front.len() {
        free_places_hold(slots, (n - 1) as nat, k);
    }
}

proof fn claimable_is_free(slots: Seq<SlotView>, n: nat, i: int)
    requires
        n <= slots.len(),
        slots.len() <= usize::MAX,
        0 <= i < n,
        claimable(slots[i]),
    ensures
        free_places(slots, n).contains(i as usize),
    decreases n,
{
    let front = free_places(slots, (n - 1) as nat);
    if i == n - 1 {
        assert(free_places(slots, n).last() == i as usize);
        assert(free_places(slots, n)[free_places(slots, n).len() - 1] == i as usize);
    } else {
        claimable_is_free(slots, (n - 1) as nat, i);
        let k = choose|k: int| 0 <= k < front.len() && front[k] == i as usize;
        assert(free_places(slots, n)[k] == i as usize);
    }
}

fn list_free(pool: &UnitPool) -> (r: Vec<usize>)
    ensures
        r@ == free_places(pool@.slots, pool@.slots.len()),
{
    let ghost slots = pool@.slots;
    let mut free: Vec<usize> = Vec::new();
    let mut i: usize = 0;
    while i < pool.slots.len()
        invariant
            i <= pool.slots.len(),
            slots == pool@.slots,
            free@ == free_places(slots, i as nat),
        decreases pool.slots.len() - i,
    {
        proof {
            assert(slots[i as int] == pool.slots@[i as int]@);
        }
        if !pool.slots[i].claimed && pool.slots[i].phase != UnitPhase::Terminal {
            free.push(i);
        }
        i += 1;
    }
    free
}

fn low_byte(n: u64, i: u64) -> (r: u8)
    requires
        i < 8,
    ensures
        r == byte_of(n, i as int),
{
    let shift: u64 = 8 * i;
    let b: u64 = (n >> shift) & 0xff;
    proof {
        assert((n >> shift) & 0xff <= 0xff) by (bit_vector);
    }
    b as u8
}

impl WriterStream {
    /// The stream of a writer in a trial.
    pub fn new(trial_seed: u64, writer: u32) -> (r: WriterStream)
        ensures
            r@ == (WriterStreamView {
                writer,
                seed: writer_seed(trial_seed, writer),
                pos: 0,
                step: 0,
                command_seq: 0,
            }),
    {
        let mut seed: [u8; 32] = [0u8;32];
        let mut i: usize = 0;
        while i < 12
            invariant
                i <= 12,
                forall|k: int| 0 <= k < i ==> seed@[k] == writer_seed(trial_seed, writer)[k],
                forall|k: int| i <= k < 32 ==> seed@[k] == 0,
            decreases 12 - i,
        {
            let b: u8 = if i < 8 {
                low_byte(trial_seed, i as u64)
            } else {
                low_byte(writer as u64, (i - 8) as u64)
            };
            seed[i] = b;
            i += 1;
        }
        proof {
            assert(seed@ =~= writer_seed(trial_seed, writer));
        }
        WriterStream { writer, rng: seeded(seed), step: 0, command_seq: 0 }
    }

    fn payload(&mut self, kind: CommandKind, unit_id: u64) -> (r: String)
        ensures
            ({
                let filler = filler_at(old(self)@.seed, old(self)@.pos);
                &&& r@ == payload_of(
                    kind,
                    unit_id,
                    old(self)@.writer,
                    old(self)@.step,
                    filler.0,
                )
                &&& final(self)@ == (WriterStreamView { pos: filler.1, ..old(self)@ })
            }),
            payload_is_sized(unit_id, old(self)@.writer, old(self)@.step, r@),
    {
        let ghost seed = self@.seed;
        let filler_len: usize = draw_usize(&mut self.rng, 160, 420);
        let ghost start = self@.pos;
        let mut filler = String::new();
        let mut i: usize = 0;
        while i < filler_len
            invariant
                i <= filler_len,
                (filler@, self@.pos) == letters(seed, start, i as nat),
                self@ == (WriterStreamView { pos: self@.pos, ..old(self)@ }),
                seed == old(self)@.seed,
            decreases filler_len - i,
        {
            let code: u8 = draw_u8(&mut self.rng, 97, 122);
            filler.push(code as char);
            i += 1;
        }
        proof {
            letters_count(seed, start, filler_len as nat);
            payloads_are_sized(kind, unit_id, self@.writer, self@.step, filler@);
        }
        let mut s = "{\"kind\":\"".to_owned();
        s.append(kind.name());
        s.append("\",\"unit\":");
        s.append(&decimal(unit_id));
        s.append(",\"writer\":");
        s.append(&decimal(self.writer as u64));
        s.append(",\"step\":");
        s.append(&decimal(self.step as u64));
        s.append(",\"filler\":\"");
        s.append(&filler);
        s.append("\"}");
        s
    }

    /// Claims a free slot, and no other, and produces its next legal command. `None` when no slot
    /// is free; the miss draws nothing, so that timing does not affect the stream.
    pub fn next_spec(&mut self, pool: &mut UnitPool) -> (r: Option<CommitSpec>)
        requires
            old(self)@.step < u32::MAX,
            old(self)@.command_seq < u64::MAX,
            pool_has_room(old(pool)@),
        ensures
            match r {
                Some(spec) => {
                    &&& next_of(old(self)@, old(pool)@) == Some(
                        (final(self)@, final(pool)@, spec@),
                    )
                    &&& claims(old(pool)@, final(pool)@, spec@)
                    &&& payload_is_sized(
                        spec@.unit_id,
                        spec@.writer,
                        spec@.step,
                        spec@.events[0].payload,
                    )
                },
                None => {
                    &&& next_of(old(self)@, old(pool)@) is None
                    &&& final(self)@ == old(self)@
                    &&& final(pool)@ == old(pool)@
                    &&& forall|i: int|
                        0 <= i < old(pool)@.slots.len() ==> !claimable(
                            #[trigger] old(pool)@.slots[i],
                        )
                },
            },
    {
        let free = list_free(pool);
        if free.len() == 0 {
            proof {
                assert(pool@.slots.len() == pool.slots.len());
                assert forall|i: int| 0 <= i < pool@.slots.len() implies !claimable(
                    #[trigger] pool@.slots[i],
                ) by {
                    misses_mean_no_free_slot(self@, pool@, i);
                }
            }
            return None;
        }
        let ghost before = pool@;
        let ghost st = self@;
        let pick: usize = draw_usize(&mut self.rng, 0, free.len());
        let place: usize = free[pick];
        proof {
            assert(before.slots.len() == pool.slots.len());
            free_places_hold(before.slots, before.slots.len(), pick as int);
            assert(before.slots[place as int] == pool.slots@[place as int]@);
        }
        let s = pool.slots[place].clone();
        let mut claimed = s.clone();
        claimed.claimed = true;
        pool.slots.set(place, claimed);
        proof {
            assert(pool@.slots =~= before.slots.update(
                place as int,
                SlotView { claimed: true, ..s@ },
            ));
        }
        let kind = match s.phase {
            UnitPhase::Ready => CommandKind::Dispatch,
            UnitPhase::Working => {
                let draw: u32 = draw_u32(&mut self.rng, 10);
                kind_when_working(draw)
            },
            _ => {
                let draw: u32 = draw_u32(&mut self.rng, 3);
                kind_when_reviewing(draw)
            },
        };
        proof {
            assert((kind, self@.pos) == kind_at(
                s@.phase,
                st.seed,
                usize_draw(st.seed, st.pos, 0, free@.len()).1,
            ));
        }
        let ghost kind_pos = self@.pos;
        let injected = if matches!(kind, CommandKind::Dispatch) {
            (s.attempt_epoch + 1, self.writer as u64, None)
        } else if matches!(
            kind,
            CommandKind::LeaseRenewal | CommandKind::ProgressRollup | CommandKind::ToolCompletion
        ) {
            let draw: u32 = draw_u32(&mut self.rng, 32);
            inject(&s, draw)
        } else {
            (s.attempt_epoch, s.holder, None)
        };
        proof {
            assert((injected, self@.pos) == injection_at(st.writer, kind, s@, st.seed, kind_pos));
        }
        self.step = self.step + 1;
        self.command_seq = self.command_seq + 1;
        let payload = self.payload(kind, s.unit_id);
        Some(
            build_spec(
                self.writer,
                self.step,
                self.command_seq,
                place,
                &s,
                kind,
                injected,
                payload,
            ),
        )
    }
}

// --- Laws ----------------------------------------------------------------------------------------

/// Two streams with one seed, at one position, produce the same command from the same pool.
pub proof fn streams_replay(a: WriterStreamView, b: WriterStreamView, pool: UnitPoolView)
    requires
        a.writer == b.writer,
        a.seed == b.seed,
        a.pos == b.pos,
        a.step == b.step,
        a.command_seq == b.command_seq,
    ensures
        next_of(a, pool) == next_of(b, pool),
{
}

/// A stream finds nothing only when every slot is claimed or done.
pub proof fn misses_mean_no_free_slot(st: WriterStreamView, pool: UnitPoolView, i: int)
    requires
        next_of(st, pool) is None,
        pool.slots.len() <= usize::MAX,
        0 <= i < pool.slots.len(),
    ensures
        !claimable(pool.slots[i]),
{
    if claimable(pool.slots[i]) {
        claimable_is_free(pool.slots, pool.slots.len(), i);
    }
}

/// Review evidence, and nothing else, carries an artifact.
pub proof fn artifacts_ride_review_evidence(
    writer: u32,
    step: u32,
    seq: u64,
    place: usize,
    s: SlotView,
    kind: CommandKind,
    injected: (u32, u64, Option<ExpectedRejection>),
    payload: Seq<char>,
)
    ensures
        spec_of(writer, step, seq, place, s, kind, injected, payload).artifact_ref is Some <==> kind
            == CommandKind::ReviewEvidence,
{
}

/// A planned rejection always carries a triple that is not the current one.
pub proof fn injections_are_stale(s: SlotView, draw: nat)
    ensures
        injection(s, draw).2 == Some(ExpectedRejection::StaleLease) ==> injection(s, draw).0
            < s.attempt_epoch,
        injection(s, draw).2 == Some(ExpectedRejection::StaleHolder) ==> injection(s, draw).1
            != s.holder,
        injection(s, draw).2 is None ==> injection(s, draw).0 == s.attempt_epoch && injection(
            s,
            draw,
        ).1 == s.holder,
{
    let h = s.holder;
    assert(h ^ 0x5741_1E00u64 != h) by (bit_vector);
}

/// No two commands of a trial share an id, as long as writers fit 24 bits and counts fit 40.
pub proof fn command_ids_are_distinct(wa: u32, sa: u64, wb: u32, sb: u64)
    requires
        wa < 0x100_0000,
        wb < 0x100_0000,
        sa < 0x100_0000_0000,
        sb < 0x100_0000_0000,
        command_id_of(wa, sa) == command_id_of(wb, sb),
    ensures
        wa == wb,
        sa == sb,
{
    let a = wa as u64;
    let b = wb as u64;
    assert(a == b && sa == sb) by (bit_vector)
        requires
            a < 0x100_0000,
            b < 0x100_0000,
            sa < 0x100_0000_0000,
            sb < 0x100_0000_0000,
            (a << 40u64) | sa == (b << 40u64) | sb,
    ;
}

/// Whether a payload holds the size that the load is planned for: 200 to 500 characters, as long
/// as the numbers that it names have at most 18 digits together.
pub open spec fn payload_is_sized(unit_id: u64, writer: u32, step: u32, payload: Seq<char>) -> bool {
    dec(unit_id as nat).len() + dec(writer as nat).len() + dec(step as nat).len() <= 18 ==> 200
        <= payload.len() <= 500
}

proof fn letters_count(seed: Seq<u8>, pos: nat, n: nat)
    ensures
        letters(seed, pos, n).0.len() == n,
    decreases n,
{
    if n > 0 {
        letters_count(seed, pos, (n - 1) as nat);
    }
}

/// A payload with a filler of 160 to 419 characters holds the planned size.
pub proof fn payloads_are_sized(
    kind: CommandKind,
    unit_id: u64,
    writer: u32,
    step: u32,
    filler: Seq<char>,
)
    requires
        160 <= filler.len() < 420,
    ensures
        payload_is_sized(unit_id, writer, step, payload_of(kind, unit_id, writer, step, filler)),
{
    reveal_strlit("{\"kind\":\"");
    reveal_strlit("\",\"unit\":");
    reveal_strlit(",\"writer\":");
    reveal_strlit(",\"step\":");
    reveal_strlit(",\"filler\":\"");
    reveal_strlit("\"}");
    reveal_strlit("Dispatch");
    reveal_strlit("LeaseRenewal");
    reveal_strlit("ProgressRollup");
    reveal_strlit("ToolCompletion");
    reveal_strlit("ReviewEvidence");
    reveal_strlit("Cancellation");
    reveal_strlit("OwnerDecision");
    assert(8 <= kind.name_text().len() <= 14);
}

/// Whether every unit of a pool is numbered at or below its counter, and no two alike.
pub open spec fn numbered(pool: UnitPoolView) -> bool {
    &&& forall|i: int|
        0 <= i < pool.slots.len() ==> (#[trigger] pool.slots[i]).unit_id <= pool.next_unit
    &&& forall|i: int, j: int|
        0 <= i < j < pool.slots.len() ==> (#[trigger] pool.slots[i]).unit_id != (
        #[trigger] pool.slots[j]).unit_id
}

/// A new pool is numbered.
pub proof fn new_pools_are_numbered(size: usize)
    ensures
        numbered(
            UnitPoolView {
                next_unit: size as u64,
                slots: Seq::new(size as nat, |i: int| fresh_slot(i as u64)),
            },
        ),
{
}

/// A claim leaves a pool numbered, with the same units.
pub proof fn claims_keep_numbers(pool: UnitPoolView, after: UnitPoolView, spec: CommitSpecView)
    requires
        numbered(pool),
        claims(pool, after, spec),
    ensures
        numbered(after),
        after.next_unit == pool.next_unit,
        forall|i: int|
            0 <= i < pool.slots.len() ==> (#[trigger] after.slots[i]).unit_id
                == pool.slots[i].unit_id,
{
    assert forall|i: int| 0 <= i < pool.slots.len() implies (#[trigger] after.slots[i]).unit_id
        == pool.slots[i].unit_id by {}
    assert forall|i: int, j: int| 0 <= i < j < after.slots.len() implies (
    #[trigger] after.slots[i]).unit_id != (#[trigger] after.slots[j]).unit_id by {
        assert(pool.slots[i].unit_id != pool.slots[j].unit_id);
    }
}

/// A release leaves a pool numbered, and its counter never falls. Where it refills the slot, the
/// new unit lies above every number that the counter had, so that no slot ever held it.
pub proof fn refills_are_fresh(pool: UnitPoolView, slot: int, spec: CommitSpecView, advanced: bool)
    requires
        numbered(pool),
        0 <= slot < pool.slots.len(),
        pool.next_unit < u64::MAX,
    ensures
        ({
            let after = released(pool, slot, spec, advanced);
            &&& numbered(after)
            &&& after.next_unit >= pool.next_unit
            &&& advanced && spec.new_phase == UnitPhase::Terminal ==> after.slots[slot].unit_id
                > pool.next_unit && forall|i: int|
                0 <= i < pool.slots.len() ==> (#[trigger] pool.slots[i]).unit_id
                    < after.slots[slot].unit_id
            &&& !(advanced && spec.new_phase == UnitPhase::Terminal) ==> after.slots[slot].unit_id
                == pool.slots[slot].unit_id
        }),
{
    let after = released(pool, slot, spec, advanced);
    assert forall|i: int, j: int| 0 <= i < j < after.slots.len() implies (
    #[trigger] after.slots[i]).unit_id != (#[trigger] after.slots[j]).unit_id by {
        assert(pool.slots[i].unit_id != pool.slots[j].unit_id);
        assert(pool.slots[i].unit_id <= pool.next_unit);
        assert(pool.slots[j].unit_id <= pool.next_unit);
    }
    assert forall|i: int| 0 <= i < after.slots.len() implies (#[trigger] after.slots[i]).unit_id
        <= after.next_unit by {
        assert(pool.slots[i].unit_id <= pool.next_unit);
    }
}

/// A rejected apply leaves the unit of its slot as it was, and frees the slot.
pub proof fn rejected_applies_do_not_move(pool: UnitPoolView, slot: int, spec: CommitSpecView)
    requires
        0 <= slot < pool.slots.len(),
    ensures
        released(pool, slot, spec, false).slots[slot] == (SlotView {
            claimed: false,
            ..pool.slots[slot]
        }),
        released(pool, slot, spec, false).next_unit == pool.next_unit,
{
}

} // verus!
