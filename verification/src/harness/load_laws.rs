//! What the load of a trial is: which command comes next on a unit, that the store accepts it
//! exactly as planned, and that the pool of units follows the store.
use crate::harness::commit_laws::{specs_are_applied, specs_are_decided};
use crate::harness::schema::{CommandKind, EffectState};
use crate::harness::store::{applied, fault_of, refusal, RejectionView, StoreView};
use crate::harness::worker::is_planned;
use crate::harness::workload::{
    byte_of, claimable, free_places, fresh_slot, injectable, injection, next_of, phase_after,
    released, reviewing_kind, spec_of, working_kind, writer_seed, CommitSpecView,
    ExpectedRejection, SlotView, UnitPhase, UnitPoolView, WriterStreamView,
};
use crate::ids::{blake3_of, hex_of};
use crate::table::lookup;
use crate::text::dec;
use vstd::prelude::*;
use vstd::string::*;
use vstd::utf8::encode_utf8;

verus! {

// --- What comes next -----------------------------------------------------------------------------

/// The command for a unit in work: of ten draws four renew its lease, three roll its progress up,
/// two complete a tool and one cancels.
pub proof fn work_is_drawn(draw: nat)
    ensures
        draw < 4 <==> working_kind(draw) == CommandKind::LeaseRenewal,
        4 <= draw < 7 <==> working_kind(draw) == CommandKind::ProgressRollup,
        7 <= draw < 9 <==> working_kind(draw) == CommandKind::ToolCompletion,
        9 <= draw <==> working_kind(draw) == CommandKind::Cancellation,
{
}

/// The command for a unit in review: of three draws two bring evidence and one decides.
pub proof fn reviews_are_drawn(draw: nat)
    ensures
        draw < 2 <==> reviewing_kind(draw) == CommandKind::ReviewEvidence,
        2 <= draw <==> reviewing_kind(draw) == CommandKind::OwnerDecision,
{
}

/// Where a command leads: a dispatch, a renewal and a rollup to work, a tool that completes and
/// evidence to review, a cancellation back to ready, and a decision to the end.
pub proof fn commands_lead_on(kind: CommandKind)
    ensures
        phase_after(kind) == UnitPhase::Working <==> kind == CommandKind::Dispatch || kind
            == CommandKind::LeaseRenewal || kind == CommandKind::ProgressRollup,
        phase_after(kind) == UnitPhase::Reviewing <==> kind == CommandKind::ToolCompletion || kind
            == CommandKind::ReviewEvidence,
        phase_after(kind) == UnitPhase::Ready <==> kind == CommandKind::Cancellation,
        phase_after(kind) == UnitPhase::Terminal <==> kind == CommandKind::OwnerDecision,
{
}

/// What a command is planned to be refused for: only a renewal, a rollup and a tool completion can
/// be. A draw of 0 takes the epoch before the current one, where there is one; a draw of 1 takes
/// another holder; any other draw plans nothing.
pub proof fn refusals_are_planned(s: SlotView, kind: CommandKind, draw: nat)
    ensures
        injectable(kind) <==> kind == CommandKind::LeaseRenewal || kind
            == CommandKind::ProgressRollup || kind == CommandKind::ToolCompletion,
        draw == 0 && s.attempt_epoch >= 2 ==> injection(s, draw).0 == s.attempt_epoch - 1
            && injection(s, draw).1 == s.holder && injection(s, draw).2 == Some(
            ExpectedRejection::StaleLease,
        ),
        draw == 1 ==> injection(s, draw).0 == s.attempt_epoch && injection(s, draw).1 != s.holder
            && injection(s, draw).2 == Some(ExpectedRejection::StaleHolder),
        draw > 1 || draw == 0 && s.attempt_epoch < 2 ==> injection(s, draw) == (
            s.attempt_epoch,
            s.holder,
            None::<ExpectedRejection>,
        ),
{
    crate::harness::workload::injections_are_stale(s, draw);
}

/// The places that are free are those whose slot is neither claimed nor done, in order.
pub proof fn free_places_are_free(slots: Seq<SlotView>, n: nat)
    requires
        n <= slots.len(),
        slots.len() <= usize::MAX,
    ensures
        forall|k: int|
            0 <= k < free_places(slots, n).len() ==> (#[trigger] free_places(slots, n)[k]) < n
                && !slots[free_places(slots, n)[k] as int].claimed && slots[free_places(
                slots,
                n,
            )[k] as int].phase != UnitPhase::Terminal,
        forall|i: int|
            0 <= i < n && !(#[trigger] slots[i]).claimed && slots[i].phase != UnitPhase::Terminal
                ==> free_places(slots, n).contains(i as usize),
        forall|j: int, k: int|
            0 <= j < k < free_places(slots, n).len() ==> (#[trigger] free_places(slots, n)[j]) < (
            #[trigger] free_places(slots, n)[k]),
    decreases n,
{
    if n > 0 {
        free_places_are_free(slots, (n - 1) as nat);
        let front = free_places(slots, (n - 1) as nat);
        let all = free_places(slots, n);
        assert forall|i: int|
            0 <= i < n && !(#[trigger] slots[i]).claimed && slots[i].phase
                != UnitPhase::Terminal implies all.contains(i as usize) by {
            if i < n - 1 {
                let k = choose|k: int| 0 <= k < front.len() && front[k] == i as usize;
                assert(all[k] == i as usize);
            } else {
                assert(all[front.len() as int] == i as usize);
            }
        }
    }
}

/// What a command carries: the unit and the version of its slot, an event of the next version that
/// it causes, the digest of its payload, the artifact of evidence; on a dispatch the intent of its
/// operation, and on a tool completion the success of the one that is open.
pub proof fn commands_carry_their_parts(
    writer: u32,
    step: u32,
    seq: u64,
    place: usize,
    s: SlotView,
    kind: CommandKind,
    injected: (u32, u64, Option<ExpectedRejection>),
    payload: Seq<char>,
)
    requires
        s.version < u64::MAX,
    ensures
        ({
            let spec = spec_of(writer, step, seq, place, s, kind, injected, payload);
            let id = spec.command_id;
            let digest = "blake3:"@ + hex_of(blake3_of(encode_utf8(payload)));
            let own = "op-"@ + dec(s.unit_id as nat) + "-"@ + dec(id as nat);
            &&& spec.writer == writer
            &&& spec.step == step
            &&& spec.slot == place
            &&& spec.kind == kind
            &&& spec.unit_id == s.unit_id
            &&& spec.expected_version == s.version
            &&& spec.attempt_epoch == injected.0
            &&& spec.holder_id == injected.1
            &&& spec.expect_reject == injected.2
            &&& id == ((writer as u64) << 40u64) | seq
            &&& spec.request_digest == digest
            &&& spec.events.len() == 1
            &&& spec.events[0].event_id == (id << 8u64) | 1
            &&& spec.events[0].aggregate_id == s.unit_id
            &&& spec.events[0].aggregate_version == s.version + 1
            &&& spec.events[0].ordinal == 0
            &&& spec.events[0].kind == kind.name_text()
            &&& spec.events[0].payload == payload
            &&& spec.events[0].causation_ref == Some(id)
            &&& kind == CommandKind::ReviewEvidence ==> spec.artifact_ref == Some(digest)
            &&& kind != CommandKind::ReviewEvidence ==> spec.artifact_ref is None
            &&& spec.effect is Some <==> kind == CommandKind::Dispatch || kind
                == CommandKind::ToolCompletion
            &&& spec.effect is Some ==> spec.effect->0.intent_id == (id << 8u64) | 2
            &&& kind == CommandKind::Dispatch ==> spec.effect->0.operation_key == own
                && spec.effect->0.state == EffectState::Prepared
            &&& kind == CommandKind::ToolCompletion ==> spec.effect->0.state
                == EffectState::Succeeded && spec.effect->0.operation_key == if s.open_op is Some {
                s.open_op->0
            } else {
                own
            }
        }),
{
}

// --- The pool and the store ----------------------------------------------------------------------

/// Whether a slot says what the store says of its unit: a fresh one is not there, and any other is
/// there in the same version, epoch, holder and phase.
pub open spec fn mirrors(store: StoreView, s: SlotView) -> bool {
    let u = lookup(store.units, s.unit_id);
    if s.version == 0 {
        u is None && s.phase == UnitPhase::Ready && s.attempt_epoch == 0
    } else {
        u is Some && u->0.version == s.version && u->0.attempt_epoch == s.attempt_epoch
            && u->0.holder_id == s.holder && u->0.phase == s.phase.name_text()
    }
}

/// Whether a spec was drawn for a slot: of a kind that its phase allows, and as the slot stands or
/// with a planned refusal.
pub open spec fn is_drawn_for(spec: CommitSpecView, s: SlotView) -> bool {
    &&& spec.unit_id == s.unit_id
    &&& spec.expected_version == s.version
    &&& spec.new_phase == phase_after(spec.kind)
    &&& s.phase == UnitPhase::Ready <==> spec.kind == CommandKind::Dispatch
    &&& spec.kind == CommandKind::Dispatch ==> spec.attempt_epoch == s.attempt_epoch + 1
        && spec.expect_reject is None
    &&& spec.kind != CommandKind::Dispatch ==> match spec.expect_reject {
        None => spec.attempt_epoch == s.attempt_epoch && spec.holder_id == s.holder,
        Some(ExpectedRejection::StaleLease) => spec.attempt_epoch < s.attempt_epoch
            && spec.holder_id == s.holder,
        Some(ExpectedRejection::StaleHolder) => spec.attempt_epoch == s.attempt_epoch
            && spec.holder_id != s.holder,
    }
}

/// The next command of a stream is drawn for the slot that it claims.
pub proof fn next_commands_are_drawn(st: WriterStreamView, pool: UnitPoolView)
    requires
        next_of(st, pool) is Some,
        pool.slots.len() <= usize::MAX,
        ({
            let place = (next_of(st, pool)->0).2.slot as int;
            0 <= place < pool.slots.len() && claimable(pool.slots[place])
                && pool.slots[place].attempt_epoch < u32::MAX
        }),
    ensures
        ({
            let (after, left, spec) = next_of(st, pool)->0;
            let s = pool.slots[spec.slot as int];
            &&& is_drawn_for(spec, s)
            &&& spec.writer == st.writer
            &&& left == (UnitPoolView {
                slots: pool.slots.update(spec.slot as int, SlotView { claimed: true, ..s }),
                ..pool
            })
            &&& after.writer == st.writer
            &&& after.seed == st.seed
            &&& after.command_seq == (st.command_seq + 1) as u64
            &&& after.step == (st.step + 1) as u32
        }),
{
    let (after, left, spec) = next_of(st, pool)->0;
    let s = pool.slots[spec.slot as int];
    let h = s.holder;
    assert(h ^ 0x5741_1E00u64 != h) by (bit_vector);
}

/// A command that was drawn for a slot that mirrors the store is accepted exactly where no refusal
/// was planned, and is else refused for just what was planned.
pub proof fn commands_meet_their_plan(store: StoreView, s: SlotView, spec: CommitSpecView)
    requires
        mirrors(store, s),
        is_drawn_for(spec, s),
    ensures
        refusal(store, spec) is None <==> spec.expect_reject is None,
        refusal(store, spec) is Some ==> is_planned(spec.expect_reject, refusal(store, spec)->0),
{
    specs_are_decided(store, spec);
}

/// A rejection is the planned one exactly where it is of the planned kind.
pub proof fn plans_are_kept(expected: Option<ExpectedRejection>, r: RejectionView)
    ensures
        is_planned(expected, r) <==> match expected {
            Some(ExpectedRejection::StaleLease) => r is StaleLease,
            Some(ExpectedRejection::StaleHolder) => r is StaleHolder,
            None => false,
        },
{
}

/// A slot whose command was accepted and that is released mirrors the store again, and is free: it
/// moved on with its unit, or holds a fresh one where the unit is done.
#[verifier::spinoff_prover]
pub proof fn released_slots_mirror_the_store(
    store: StoreView,
    pool: UnitPoolView,
    slot: int,
    spec: CommitSpecView,
)
    requires
        0 <= slot < pool.slots.len(),
        mirrors(store, pool.slots[slot]),
        is_drawn_for(spec, pool.slots[slot]),
        spec.expect_reject is None,
        spec.events.len() > 0,
        pool.slots[slot].version < u64::MAX,
        pool.next_unit < u64::MAX,
        fault_of(store, spec) is None,
        lookup(store.units, (pool.next_unit + 1) as u64) is None,
        spec.unit_id <= pool.next_unit,
    ensures
        ({
            let after = released(pool, slot, spec, true);
            let s = after.slots[slot];
            &&& mirrors(applied(store, spec), s)
            &&& !s.claimed
            &&& spec.kind == CommandKind::OwnerDecision ==> s == fresh_slot(
                (pool.next_unit + 1) as u64,
            ) && after.next_unit == pool.next_unit + 1
            &&& spec.kind != CommandKind::OwnerDecision ==> s.unit_id == spec.unit_id && s.version
                == spec.expected_version + 1 && after.next_unit == pool.next_unit
            &&& spec.kind == CommandKind::Dispatch ==> s.open_op == match spec.effect {
                Some(e) => Some(e.operation_key),
                None => None,
            }
            &&& spec.kind == CommandKind::ToolCompletion ==> s.open_op is None
            &&& spec.kind != CommandKind::Dispatch && spec.kind != CommandKind::ToolCompletion
                && spec.kind != CommandKind::OwnerDecision ==> s.open_op
                == pool.slots[slot].open_op
            &&& forall|i: int|
                0 <= i < pool.slots.len() && i != slot ==> #[trigger] after.slots[i]
                    == pool.slots[i]
        }),
{
    specs_are_applied(store, spec);
    specs_are_decided(store, spec);
    let fresh = (pool.next_unit + 1) as u64;
    assert(lookup(applied(store, spec).units, fresh) == lookup(store.units, fresh));
}

// --- Seeds ---------------------------------------------------------------------------------------

/// Every writer of every trial draws from a stream of its own: two that have one seed are one writer of
/// one trial.
pub proof fn writers_draw_apart(a: u64, w: u32, b: u64, v: u32)
    requires
        writer_seed(a, w) == writer_seed(b, v),
    ensures
        a == b,
        w == v,
{
    let s = writer_seed(a, w);
    let t = writer_seed(b, v);
    assert(s[0] == t[0] && s[1] == t[1] && s[2] == t[2] && s[3] == t[3] && s[4] == t[4] && s[5]
        == t[5] && s[6] == t[6] && s[7] == t[7]);
    assert(s[8] == t[8] && s[9] == t[9] && s[10] == t[10] && s[11] == t[11]);
    let x = w as u64;
    let y = v as u64;
    assert(byte_of(a, 0) == byte_of(b, 0) && byte_of(a, 1) == byte_of(b, 1) && byte_of(a, 2)
        == byte_of(b, 2) && byte_of(a, 3) == byte_of(b, 3) && byte_of(a, 4) == byte_of(b, 4)
        && byte_of(a, 5) == byte_of(b, 5) && byte_of(a, 6) == byte_of(b, 6) && byte_of(a, 7)
        == byte_of(b, 7));
    assert(byte_of(x, 0) == byte_of(y, 0) && byte_of(x, 1) == byte_of(y, 1) && byte_of(x, 2)
        == byte_of(y, 2) && byte_of(x, 3) == byte_of(y, 3));
    assert(a == b) by (bit_vector)
        requires
            ((a >> 0u64) & 0xff) as u8 == ((b >> 0u64) & 0xff) as u8,
            ((a >> 8u64) & 0xff) as u8 == ((b >> 8u64) & 0xff) as u8,
            ((a >> 16u64) & 0xff) as u8 == ((b >> 16u64) & 0xff) as u8,
            ((a >> 24u64) & 0xff) as u8 == ((b >> 24u64) & 0xff) as u8,
            ((a >> 32u64) & 0xff) as u8 == ((b >> 32u64) & 0xff) as u8,
            ((a >> 40u64) & 0xff) as u8 == ((b >> 40u64) & 0xff) as u8,
            ((a >> 48u64) & 0xff) as u8 == ((b >> 48u64) & 0xff) as u8,
            ((a >> 56u64) & 0xff) as u8 == ((b >> 56u64) & 0xff) as u8,
    ;
    assert(x == y) by (bit_vector)
        requires
            x <= 0xffff_ffff,
            y <= 0xffff_ffff,
            ((x >> 0u64) & 0xff) as u8 == ((y >> 0u64) & 0xff) as u8,
            ((x >> 8u64) & 0xff) as u8 == ((y >> 8u64) & 0xff) as u8,
            ((x >> 16u64) & 0xff) as u8 == ((y >> 16u64) & 0xff) as u8,
            ((x >> 24u64) & 0xff) as u8 == ((y >> 24u64) & 0xff) as u8,
    ;
}

} // verus!
