//! What a trial is and what it demands: where a kill is directed and where it landed, what each cell
//! must find after recovery, and what follows an attempt.
use crate::harness::audit::{AuditSnapshotView, UnitRowView};
use crate::harness::gate::{action_of, follow_of, scored_one_more, Action, Follow};
use crate::harness::orchestrate::{
    after_attempt_of, clean_entries, counts_for, directive_of, entries_between, filler_needle,
    first_match, handoff_failures, holds_text, is_confirmed, is_disqualified, is_store_kept,
    journal_failures, kill_failures, landing_of, last_of_kind, max_confirmed, needle_of, passes,
    probe_list, reserved_units, scan_of, steps_of, takeover_failures, unconfirmed_keys,
    AfterAttempt, GateSummary, Handoff, JournalEvidence, Landing, Probe, Recovered, TakeoverEvidence,
    WalReadView, WalScanView,
};
use crate::harness::schema::{Cell, CommandKind, KillPoint};
use crate::harness::sidecar::{
    corrupt_at, records_of, torn_before, ConfirmedView, EvidenceLineView,
};
use crate::harness::watch::events_in;
use crate::harness::worker::{slots_for, KillDirective, KillMode};
use crate::harness::workload::CommitSpecView;
use crate::table::lookup;
use crate::text::dec;
use vstd::prelude::*;
use vstd::string::*;
use vstd::utf8::encode_utf8;

verus! {

// --- The log -------------------------------------------------------------------------------------

/// Whether a log is clean up to a place and no further: entries alone, and then its end or a step
/// that is none.
pub open spec fn is_clean_to(reads: Seq<WalReadView>, n: int) -> bool {
    &&& 0 <= n <= reads.len()
    &&& forall|i: int| 0 <= i < n ==> (#[trigger] reads[i]) is Entry
    &&& n < reads.len() ==> !(reads[n] is Entry)
}

proof fn clean_shows(reads: Seq<WalReadView>, i: int)
    requires
        0 <= i <= reads.len(),
    ensures
        ({
            let n = clean_entries(reads, i);
            &&& i <= n <= reads.len()
            &&& forall|k: int| i <= k < n ==> (#[trigger] reads[k]) is Entry
            &&& n < reads.len() ==> !(reads[n] is Entry)
        }),
    decreases reads.len() - i,
{
    if i < reads.len() && reads[i] is Entry {
        clean_shows(reads, i + 1);
    }
}

/// What a scan of a log tells: how many entries it has before anything else, the last of them, and
/// whether it then ends, is torn, or fails.
pub proof fn scans_tell(reads: Seq<WalReadView>, n: int)
    requires
        is_clean_to(reads, n),
        n <= u64::MAX,
    ensures
        clean_entries(reads, 0) == n,
        scan_of(reads).entries == n,
        n > 0 ==> scan_of(reads).last_seq == reads[n - 1]->Entry_sequence,
        n == 0 ==> scan_of(reads).last_seq == 0,
        scan_of(reads).torn <==> n < reads.len() && reads[n] is Torn,
        n < reads.len() && reads[n] is Error ==> scan_of(reads).stop_error == Some(
            reads[n]->Error_0,
        ),
        !(n < reads.len() && reads[n] is Error) ==> scan_of(reads).stop_error is None,
{
    clean_shows(reads, 0);
    let m = clean_entries(reads, 0);
    if m < n {
        assert(reads[m] is Entry);
    }
    if n < m {
        assert(reads[n] is Entry);
    }
}

/// What a poll gives of a log: the entries after the cursor and up to the watermark, in order, and
/// no other.
pub proof fn polls_give_what_is_durable(
    reads: Seq<WalReadView>,
    n: int,
    after: u64,
    watermark: u64,
)
    requires
        0 <= n <= reads.len(),
    ensures
        entries_between(reads, n, after, watermark) == reads.take(n).filter(
            |r: WalReadView|
                r is Entry && after < r->Entry_sequence && r->Entry_sequence <= watermark,
        ).map_values(|r: WalReadView| (r->Entry_sequence, r->Entry_event_ids)),
    decreases n,
{
    reveal(Seq::filter);
    let own = |r: WalReadView|
        r is Entry && after < r->Entry_sequence && r->Entry_sequence <= watermark;
    let pair = |r: WalReadView| (r->Entry_sequence, r->Entry_event_ids);
    let part = reads.take(n);
    if n > 0 {
        polls_give_what_is_durable(reads, n - 1, after, watermark);
        assert(part.drop_last() =~= reads.take(n - 1));
        let front = reads.take(n - 1).filter(own);
        if own(part.last()) {
            assert(front.push(part.last()).map_values(pair) =~= front.map_values(pair).push(
                pair(part.last()),
            ));
        }
    } else {
        assert(part.filter(own).map_values(pair) =~= Seq::<(u64, Seq<u64>)>::empty());
    }
}

/// The events of polled entries are all of theirs, in order: one more entry adds its events.
pub proof fn polled_events_are_all(entries: Seq<(u64, Seq<u64>)>, last: (u64, Seq<u64>))
    ensures
        events_in(Seq::<(u64, Seq<u64>)>::empty()) == Seq::<u64>::empty(),
        events_in(entries.push(last)) == events_in(entries) + last.1,
{
    assert(entries.push(last).drop_last() =~= entries);
}

// --- Kills ---------------------------------------------------------------------------------------

/// Where each cell directs its kill: before a commit, on a timer in it, after a commit of the kind
/// that the cell is about, or before its response; at the drawn count of eligible commits.
pub proof fn kills_are_directed(
    cell: KillPoint,
    at_any: u64,
    at_kinded: u64,
    timer_us: u64,
    phase_post: bool,
)
    ensures
        ({
            let d = directive_of(cell, at_any, at_kinded, timer_us, phase_post);
            &&& cell == KillPoint::PreSeal ==> d.mode == KillMode::BeforeCommit
            &&& cell == KillPoint::PostSealPrePublish || cell == KillPoint::CursorAllocAbort
                <==> d.mode == KillMode::Timer
            &&& d.timer_us == if d.mode == KillMode::Timer {
                timer_us
            } else {
                0
            }
            &&& cell == KillPoint::ArtifactPublication ==> d.only_kind == Some(
                CommandKind::ReviewEvidence,
            ) && d.mode == if phase_post {
                KillMode::AfterCommit
            } else {
                KillMode::BeforeCommit
            }
            &&& cell == KillPoint::MidEffectIntent ==> d.only_kind == Some(CommandKind::Dispatch)
                && d.mode == KillMode::AfterCommit
            &&& cell == KillPoint::PostPublishPreResponse ==> d.mode == KillMode::ResponseWindow
            &&& d.only_kind is Some ==> d.at_eligible == at_kinded
            &&& d.only_kind is None ==> d.at_eligible == at_any
            &&& d.only_kind is Some <==> cell == KillPoint::ArtifactPublication || cell
                == KillPoint::MidEffectIntent
        }),
{
}

/// The highest confirmed cursor is that of a confirmed commit, and none lies above it; without one
/// it is 0.
pub proof fn the_highest_confirmation_is_there(records: Seq<ConfirmedView>)
    ensures
        forall|i: int|
            0 <= i < records.len() && (#[trigger] records[i]).durable_at is Some
                ==> records[i].durable_at->0 <= max_confirmed(records),
        max_confirmed(records) > 0 ==> exists|i: int|
            0 <= i < records.len() && (#[trigger] records[i]).durable_at == Some(
                max_confirmed(records),
            ),
    decreases records.len(),
{
    if records.len() > 0 {
        let front = records.drop_last();
        the_highest_confirmation_is_there(front);
        assert(records[records.len() - 1] == records.last());
        assert forall|i: int|
            0 <= i < records.len() && (#[trigger] records[i]).durable_at is Some implies
            records[i].durable_at->0 <= max_confirmed(records) by {
            if i < front.len() {
                assert(front[i] == records[i]);
            }
        }
        if max_confirmed(records) > 0 && max_confirmed(records) == max_confirmed(front) {
            let i = choose|i: int|
                0 <= i < front.len() && (#[trigger] front[i]).durable_at == Some(
                    max_confirmed(front),
                );
            assert(records[i] == front[i]);
        }
    }
}

/// Where a kill landed: one that was not timed landed where it was directed; a timed one in an
/// append where the log is torn, after it where the log goes beyond every confirmation, and before
/// it otherwise.
pub proof fn landings_are_told(
    directive: KillDirective,
    records: Seq<ConfirmedView>,
    scan: WalScanView,
)
    ensures
        ({
            let timed = directive.mode == KillMode::Timer;
            let beyond = scan.last_seq > 0 && forall|i: int|
                0 <= i < records.len() && (#[trigger] records[i]).durable_at is Some
                    ==> records[i].durable_at->0 < scan.last_seq;
            let l = landing_of(directive, records, scan);
            &&& l == Landing::Exact <==> !timed
            &&& l == Landing::TornTail <==> timed && scan.torn
            &&& l == Landing::DurableUnconfirmed <==> timed && !scan.torn && beyond
            &&& l == Landing::PreAppend <==> timed && !scan.torn && !beyond
        }),
{
    the_highest_confirmation_is_there(records);
    let beyond = scan.last_seq > 0 && forall|i: int|
        0 <= i < records.len() && (#[trigger] records[i]).durable_at is Some
            ==> records[i].durable_at->0 < scan.last_seq;
    if beyond && max_confirmed(records) > 0 {
        let i = choose|i: int|
            0 <= i < records.len() && (#[trigger] records[i]).durable_at == Some(
                max_confirmed(records),
            );
        assert(records[i].durable_at->0 < scan.last_seq);
    }
}

/// Which attempts are sampled again: those whose worker was not killed, and after the seal and
/// before publication those that did not land inside the commit.
pub proof fn misses_are_sampled_again(signal: Option<i32>, cell: KillPoint, landing: Landing)
    ensures
        is_disqualified(signal, cell, landing) <==> signal is None || cell
            == KillPoint::PostSealPrePublish && (landing == Landing::Exact || landing
            == Landing::PreAppend),
        counts_for(cell, landing) <==> !(cell == KillPoint::PostSealPrePublish && (landing
            == Landing::Exact || landing == Landing::PreAppend)),
{
}

/// Whether the commit at a place is the last confirmed one of a kind.
pub open spec fn is_last_of(records: Seq<ConfirmedView>, kind: CommandKind, i: int) -> bool {
    &&& 0 <= i < records.len()
    &&& records[i].spec.kind == kind
    &&& forall|j: int| i < j < records.len() ==> (#[trigger] records[j]).spec.kind != kind
}

/// The last confirmed commit of a kind is the last one of it.
pub proof fn the_last_of_a_kind_is_last(records: Seq<ConfirmedView>, kind: CommandKind)
    ensures
        match last_of_kind(records, kind) {
            Some(rec) => exists|i: int| #[trigger]
                is_last_of(records, kind, i) && records[i] == rec,
            None => forall|i: int|
                0 <= i < records.len() ==> (#[trigger] records[i]).spec.kind != kind,
        },
        forall|i: int| #[trigger]
            is_last_of(records, kind, i) ==> last_of_kind(records, kind) == Some(records[i]),
    decreases records.len(),
{
    if records.len() > 0 {
        let front = records.drop_last();
        let n = records.len() - 1;
        the_last_of_a_kind_is_last(front, kind);
        assert(records[n] == records.last());
        if records.last().spec.kind == kind {
            assert(is_last_of(records, kind, n));
            assert forall|i: int| #[trigger] is_last_of(records, kind, i) implies last_of_kind(
                records,
                kind,
            ) == Some(records[i]) by {
                if i < n {
                    assert(records[n].spec.kind != kind);
                }
            }
        } else {
            match last_of_kind(front, kind) {
                Some(rec) => {
                    let i = choose|i: int| #[trigger]
                        is_last_of(front, kind, i) && front[i] == rec;
                    assert forall|j: int| i < j < records.len() implies (
                    #[trigger] records[j]).spec.kind != kind by {
                        if j < n {
                            assert(front[j] == records[j]);
                        }
                    }
                    assert(is_last_of(records, kind, i));
                },
                None => {
                    assert forall|i: int| 0 <= i < records.len() implies (
                    #[trigger] records[i]).spec.kind != kind by {
                        if i < n {
                            assert(front[i] == records[i]);
                        }
                    }
                },
            }
            assert forall|i: int| #[trigger] is_last_of(records, kind, i) implies last_of_kind(
                records,
                kind,
            ) == Some(records[i]) by {
                assert(i < n);
                assert(front[i] == records[i]);
                assert forall|j: int| i < j < front.len() implies (#[trigger] front[j]).spec.kind
                    != kind by {
                    assert(records[j].spec.kind != kind);
                }
                assert(is_last_of(front, kind, i));
            }
        }
    }
}

proof fn probes_show(probes: Seq<Probe>, n: int)
    requires
        0 <= n <= probes.len(),
    ensures
        probe_list(probes, n).len() == 0 <==> forall|i: int|
            0 <= i < n ==> (#[trigger] probes[i]).outcome is Duplicate,
    decreases n,
{
    if n > 0 {
        probes_show(probes, n - 1);
    }
}

/// What each kill cell demands beyond the audit. In the middle of an effect: that the intent of the
/// last confirmed dispatch is reported open. After an artifact was published: that it is there, and
/// its unit references it. In the response window: that there is a claim to repeat, and every one
/// is refused as a duplicate. Where a cursor was lost: that no confirmation lies beyond what was
/// recovered, and the next commit goes beyond every confirmation. The other cells demand nothing.
#[verifier::spinoff_prover]
pub proof fn cells_demand_this(
    cell: KillPoint,
    phase_post: bool,
    records: Seq<ConfirmedView>,
    found: Recovered,
    i: int,
)
    ensures
        ({
            let met = kill_failures(cell, phase_post, records, found).len() == 0;
            let open = crate::harness::audit::nonterminal(
                found.snap@.effects,
                found.snap@.effects,
            );
            &&& cell == KillPoint::MidEffectIntent && is_last_of(records, CommandKind::Dispatch, i)
                ==> (met <==> open.contains(records[i].spec.effect->0.intent_id))
            &&& cell == KillPoint::MidEffectIntent && (forall|k: int|
                0 <= k < records.len() ==> (#[trigger] records[k]).spec.kind
                    != CommandKind::Dispatch) ==> !met
            &&& cell == KillPoint::ArtifactPublication && phase_post && is_last_of(
                records,
                CommandKind::ReviewEvidence,
                i,
            ) ==> (met <==> {
                let unit = lookup(found.snap@.units, records[i].spec.unit_id);
                &&& found.snap@.artifacts.contains(records[i].spec.artifact_ref->0)
                &&& unit is Some && unit->0.artifact_ref == Some(records[i].spec.artifact_ref->0)
            })
            &&& cell == KillPoint::ArtifactPublication && phase_post && (forall|k: int|
                0 <= k < records.len() ==> (#[trigger] records[k]).spec.kind
                    != CommandKind::ReviewEvidence) ==> !met
            &&& cell == KillPoint::ArtifactPublication && !phase_post ==> met
            &&& cell == KillPoint::PostPublishPreResponse ==> (met <==> found.probes@.len() > 0
                && forall|k: int|
                0 <= k < found.probes@.len() ==> (#[trigger] found.probes@[k]).outcome is Duplicate)
            &&& cell == KillPoint::CursorAllocAbort ==> (met <==> max_confirmed(records)
                <= found.frontier && found.continuation is Ok && found.continuation->Ok_0 is Some
                && found.continuation->Ok_0->0 > max_confirmed(records))
            &&& cell == KillPoint::PreSeal || cell == KillPoint::PostSealPrePublish || cell
                == KillPoint::WriterTakeover ==> met
        }),
{
    the_last_of_a_kind_is_last(records, CommandKind::Dispatch);
    the_last_of_a_kind_is_last(records, CommandKind::ReviewEvidence);
    probes_show(found.probes@, found.probes@.len() as int);
}

/// The keys that are probed are those of the durable commits that were not confirmed, in order, each
/// by its unit and the command that its event belongs to.
pub proof fn unconfirmed_commits_are_probed(
    snap: AuditSnapshotView,
    records: Seq<ConfirmedView>,
    n: nat,
)
    requires
        n <= snap.events.len(),
    ensures
        unconfirmed_keys(snap, records, n) == snap.events.take(n as int).filter(
            |e: (u64, crate::harness::audit::EventRowView)|
                forall|k: int|
                    0 <= k < records.len() ==> (#[trigger] records[k]).spec.events[0].event_id
                        != e.0,
        ).map_values(
            |e: (u64, crate::harness::audit::EventRowView)|
                dec(e.1.aggregate_id as nat) + "/"@ + dec((e.0 >> 8u64) as nat),
        ),
    decreases n,
{
    reveal(Seq::filter);
    let own = |e: (u64, crate::harness::audit::EventRowView)|
        forall|k: int|
            0 <= k < records.len() ==> (#[trigger] records[k]).spec.events[0].event_id != e.0;
    let key = |e: (u64, crate::harness::audit::EventRowView)|
        dec(e.1.aggregate_id as nat) + "/"@ + dec((e.0 >> 8u64) as nat);
    let part = snap.events.take(n as int);
    if n > 0 {
        unconfirmed_commits_are_probed(snap, records, (n - 1) as nat);
        assert(part.drop_last() =~= snap.events.take(n - 1));
        assert(part.last() == snap.events[n - 1]);
        let front = snap.events.take(n - 1).filter(own);
        assert(own(part.last()) <==> !is_confirmed(records, part.last().0));
        if own(part.last()) {
            assert(front.push(part.last()).map_values(key) =~= front.map_values(key).push(
                key(part.last()),
            ));
        }
    } else {
        assert(part.filter(own).map_values(key) =~= Seq::<Seq<char>>::empty());
    }
}

// --- The other cells -----------------------------------------------------------------------------

/// What the journal cell demands: every attempt to change a committed event is refused, and its bytes
/// stay.
pub proof fn journals_demand_this(e: JournalEvidence)
    ensures
        journal_failures(e).len() == 0 <==> e.update is Refused && e.delete is Refused
            && e.duplicate_id is Refused && e.duplicate_composite is Refused && e.before@
            == e.after@,
{
}

/// What the handoff cell demands: that a snapshot was taken, and every committed event is in it or was
/// polled after it.
pub proof fn handoffs_demand_this(h: Option<Handoff>)
    ensures
        handoff_failures(h).len() == 0 <==> h is Some && forall|i: int|
            0 <= i < h->0.committed@.len() ==> h->0.snapshot@.contains(
                #[trigger] h->0.committed@[i],
            ) || h->0.polled@.contains(h->0.committed@[i]),
{
    if h is Some {
        crate::harness::orchestrate::no_gap_means_all_seen(h->0, h->0.committed@.len());
    }
}

/// How many units of the reserved range a store holds.
pub proof fn reserved_units_are_counted(units: Seq<(u64, UnitRowView)>)
    ensures
        reserved_units(units) == units.filter(
            |u: (u64, UnitRowView)| u.0 & (1u64 << 40u64) != 0,
        ).len(),
    decreases units.len(),
{
    reveal(Seq::filter);
    if units.len() > 0 {
        reserved_units_are_counted(units.drop_last());
    }
}

/// What the takeover cell demands: the contender was held off while the holder lived; of the racers
/// one won and the other was held off, or both won in turn; and one that won alone wrote three or
/// four reserved units.
pub proof fn takeovers_demand_this(e: TakeoverEvidence)
    ensures
        ({
            let won_one = holds_text(e.racer_one@, "RACE:WON"@);
            let won_two = holds_text(e.racer_two@, "RACE:WON"@);
            let held_one = holds_text(e.racer_one@, "RACE:HELD"@);
            let held_two = holds_text(e.racer_two@, "RACE:HELD"@);
            let units = reserved_units(e.snap@.units);
            takeover_failures(e).len() == 0 <==> {
                &&& holds_text(e.contender@, "CONTEND:HELD"@)
                &&& won_one && won_two || won_one != won_two && held_one != held_two && (units == 3
                    || units == 4)
            }
        }),
{
}

/// What the drill looks for in a record: in any event, or in that of a dispatch, the first 48 bytes of
/// its filler; or the digest of a request that is no evidence.
pub proof fn drills_look_for_this(variant: u32, spec: CommitSpecView)
    ensures
        variant % 3 == 0 ==> needle_of(variant, spec) == filler_needle(
            encode_utf8(spec.events[0].payload),
        ),
        variant % 3 == 1 && spec.kind != CommandKind::ReviewEvidence ==> needle_of(variant, spec)
            == Some(encode_utf8(spec.request_digest)),
        variant % 3 == 1 && spec.kind == CommandKind::ReviewEvidence ==> needle_of(variant, spec)
            is None,
        variant % 3 == 2 && spec.kind == CommandKind::Dispatch ==> needle_of(variant, spec)
            == filler_needle(encode_utf8(spec.events[0].payload)),
        variant % 3 == 2 && spec.kind != CommandKind::Dispatch ==> needle_of(variant, spec) is None,
        needle_of(variant, spec) is Some && variant % 3 != 1 ==> needle_of(variant, spec)->0.len()
            == 48,
{
}

/// The first match of a row of bytes is one, and there is none before it; without one there is none
/// at all.
pub proof fn first_matches_are_first(hay: Seq<u8>, needle: Seq<u8>, i: int)
    requires
        0 <= i,
        needle.len() > 0,
    ensures
        match first_match(hay, needle, i) {
            Some(at) => {
                &&& i <= at
                &&& at + needle.len() <= hay.len()
                &&& hay.subrange(at, at + needle.len()) == needle
                &&& forall|k: int|
                    i <= k < at ==> #[trigger] hay.subrange(k, k + needle.len()) != needle
            },
            None => forall|k: int|
                i <= k && k + needle.len() <= hay.len() ==> #[trigger] hay.subrange(
                    k,
                    k + needle.len(),
                ) != needle,
        },
    decreases hay.len() - i,
{
    if i < hay.len() && i + needle.len() <= hay.len() && hay.subrange(i, i + needle.len())
        != needle {
        first_matches_are_first(hay, needle, i + 1);
    }
}

// --- Runs ----------------------------------------------------------------------------------------

/// What a cell is run as: a kill, a takeover, or a cell of its own; the artifact cell in its second
/// attempt after publication; the drill in the variant of its repetition; and without attempts a
/// kill cell is given up.
pub proof fn cells_are_run(cell: Cell, attempt: u32, rep: u32, cap: u32)
    ensures
        ({
            let act = action_of(cell, attempt, rep, cap);
            let k = cell->Kill_0;
            &&& cell is Kill && k == KillPoint::ArtifactPublication ==> act == (Action::Kill {
                cell: k,
                attempt,
                phase_post: attempt == 1,
            })
            &&& cell is Kill && k != KillPoint::ArtifactPublication && cap == 0 ==> act is GiveUp
            &&& cell is Kill && k == KillPoint::WriterTakeover && cap > 0 ==> act == (
            Action::Takeover { attempt })
            &&& cell is Kill && k != KillPoint::ArtifactPublication && k
                != KillPoint::WriterTakeover && cap > 0 ==> act == (Action::Kill {
                cell: k,
                attempt,
                phase_post: false,
            })
            &&& cell is JournalImmutability ==> act is Journal
            &&& cell is SnapshotWatchHandoff ==> act is Watch
            &&& cell is CorruptionDrill ==> act == (Action::Drill { variant: (rep % 3) as u32 })
        }),
{
}

/// What follows an attempt: its trial counts, but for a kill whose landing does not, which is sampled
/// anew while attempts are left and then falls short; the artifact cell counts in both phases.
pub proof fn verdicts_are_followed(cell: Cell, attempt: int, cap: int, disqualified: bool)
    requires
        0 <= attempt,
        0 <= cap,
    ensures
        ({
            let next = follow_of(cell, attempt, cap, disqualified);
            let sampled = cell is Kill && cell->Kill_0 != KillPoint::ArtifactPublication;
            &&& !sampled && !(cell is Kill && attempt == 0) ==> next is Score
            &&& !sampled && cell is Kill && attempt == 0 ==> next is OtherPhase
            &&& sampled && cap == 0 ==> next == (Follow::FallShort { used: false })
            &&& sampled && cap > 0 && !disqualified ==> next is Score
            &&& sampled && cap > 0 && disqualified && attempt + 1 < cap ==> next is SampleAgain
            &&& sampled && cap > 0 && disqualified && attempt + 1 >= cap ==> next == (
            Follow::FallShort { used: true })
        }),
{
}

/// How many steps a writer of a killed worker gets: forty more than its share of eight for each
/// eligible commit, and at least seventy.
pub proof fn steps_go_just_past(at_eligible: u64, writers: u32)
    ensures
        ({
            let n = steps_of(at_eligible, writers) - 40;
            let w: int = if writers == 0 {
                1
            } else {
                writers as int
            };
            let total = at_eligible as int % 0x1_0000_0000 * 8;
            &&& n >= 30
            &&& (n + 1) * w > total
            &&& n > 30 ==> n * w <= total
        }),
{
    let w: int = if writers == 0 {
        1
    } else {
        writers as int
    };
    let total = at_eligible as int % 0x1_0000_0000 * 8;
    let q = total / w;
    assert(q * w <= total < (q + 1) * w) by (nonlinear_arith)
        requires
            q == total / w,
            w > 0,
            total >= 0,
    ;
    let n = steps_of(at_eligible, writers) - 40;
    assert((n + 1) * w >= (q + 1) * w) by (nonlinear_arith)
        requires
            n >= q,
            w > 0,
    ;
}

// --- Evidence ------------------------------------------------------------------------------------

/// The records of a file are its whole lines, in order.
pub proof fn records_are_the_lines(lines: Seq<EvidenceLineView>)
    ensures
        records_of(lines) == lines.filter(|l: EvidenceLineView| l is Record).map_values(
            |l: EvidenceLineView| l->Record_0,
        ),
    decreases lines.len(),
{
    reveal(Seq::filter);
    let own = |l: EvidenceLineView| l is Record;
    let rec = |l: EvidenceLineView| l->Record_0;
    if lines.len() > 0 {
        records_are_the_lines(lines.drop_last());
        let front = lines.drop_last().filter(own);
        if own(lines.last()) {
            assert(front.push(lines.last()).map_values(rec) =~= front.map_values(rec).push(
                rec(lines.last()),
            ));
        }
    } else {
        assert(lines.filter(own).map_values(rec) =~= Seq::<ConfirmedView>::empty());
    }
}

proof fn torn_shows(lines: Seq<EvidenceLineView>, n: int)
    requires
        0 <= n <= lines.len(),
    ensures
        torn_before(lines, n) is Some <==> exists|k: int|
            0 <= k < n && (#[trigger] lines[k]) is Torn,
    decreases n,
{
    if n > 0 {
        torn_shows(lines, n - 1);
    }
}

/// A file is corrupt at a line exactly where that line holds anything and a torn one comes before it.
pub proof fn corruption_follows_a_torn_line(lines: Seq<EvidenceLineView>, n: int)
    requires
        0 <= n < lines.len(),
    ensures
        corrupt_at(lines, n) <==> !(lines[n] is Empty) && exists|k: int|
            0 <= k < n && (#[trigger] lines[k]) is Torn,
{
    torn_shows(lines, n);
}

// --- Workers -------------------------------------------------------------------------------------

/// When a worker is killed: at the eligible spec that the directive counts to, and at no other; a spec is
/// eligible where the directive names no kind, or its own. Before the apply it is then killed, or a timer
/// is set, or nothing is done yet.
pub proof fn directives_fire_once(d: KillDirective, kind: CommandKind, seen: u64, later: u64)
    ensures
        d.fires_at(kind, seen) ==> d.at_eligible == seen + 1 && (d.only_kind is None || d.only_kind
            == Some(kind)),
        (d.only_kind is None || d.only_kind == Some(kind)) && d.at_eligible == seen + 1
            ==> d.fires_at(kind, seen),
        d.fires_at(kind, seen) && seen != later ==> !d.fires_at(kind, later),
        d.act_before() is Kill <==> d.mode == KillMode::BeforeCommit,
        d.act_before() is ArmTimer <==> d.mode == KillMode::Timer,
        d.act_before() is ArmTimer ==> d.act_before()->ArmTimer_0 == d.timer_us,
        d.act_before() is Proceed <==> d.mode == KillMode::AfterCommit || d.mode
            == KillMode::ResponseWindow,
{
}

/// Every writer has four slots of its own to work on, and a pool has eight at least.
pub proof fn pools_have_room_for_all(writers: u32)
    ensures
        slots_for(writers) >= 8,
        slots_for(writers) >= 4 * writers,
        writers >= 2 ==> slots_for(writers) == 4 * writers,
{
}

/// When a trial passes: it counts, the store shows no violation, and the cell got all that it demands.
pub proof fn trials_pass(counts: bool, violations: nat, failures: nat)
    ensures
        passes(counts, violations, failures) ==> counts && violations == 0 && failures == 0,
        counts && violations == 0 && failures == 0 ==> passes(counts, violations, failures),
{
}

/// What follows an attempt at a kill cell: the artifact cell counts as it comes; elsewhere an attempt
/// that does not count is sampled anew while there is one left.
pub proof fn attempts_are_used_up(cell: KillPoint, missed: bool, attempt: u32, cap: u32)
    ensures
        ({
            let next = after_attempt_of(cell, missed, attempt, cap);
            &&& next == AfterAttempt::Score <==> !missed || cell == KillPoint::ArtifactPublication
            &&& next == AfterAttempt::SampleAgain <==> missed && cell
                != KillPoint::ArtifactPublication && attempt + 1 < cap
            &&& next == AfterAttempt::FallShort <==> missed && cell
                != KillPoint::ArtifactPublication && attempt + 1 >= cap
        }),
{
}

/// Which stores are kept: of every failed trial, and of the first and the last repetition.
pub proof fn failed_stores_are_kept(pass: bool, rep: u32, reps: u32)
    requires
        rep < reps,
    ensures
        !pass ==> is_store_kept(pass, rep, reps),
        rep == 0 || rep + 1 == reps ==> is_store_kept(pass, rep, reps),
        pass && 0 < rep && rep + 1 < reps ==> !is_store_kept(pass, rep, reps),
{
}

/// A tally of scored trials stays balanced: one more trial is one more that passed or one more that
/// failed, and never both.
pub proof fn tallies_stay_balanced(a: GateSummary, b: GateSummary, pass: bool)
    requires
        a.scored == a.passed + a.failed,
        scored_one_more(a, b, pass),
    ensures
        b.scored == b.passed + b.failed,
        b.scored == a.scored + 1,
        pass ==> b.passed == a.passed + 1 && b.failed == a.failed,
        !pass ==> b.failed == a.failed + 1 && b.passed == a.passed,
{
}

} // verus!
