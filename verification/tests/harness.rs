use rand::{Rng, SeedableRng};
use std::collections::BTreeSet;
use yah::harness::audit::{score, Bar};
use yah::harness::gate::{Action, GateRun};
use yah::harness::graph;
use yah::harness::manifest::{git_head, Manifest, Probes};
use yah::harness::orchestrate::{
    after_attempt, base_verdict, cell_name, classify, continuation_source, contains_text,
    corrupt, corruption_trial, directive_for, directive_from, drill_needle, drill_variant,
    invisible_gap, journal_cell_trial, keeps_store, kill_trial, poll_wal, probe_keys, qualifies,
    racer_source, same_id_event, same_place_event, scan_wal, takeover_trial, watch_cell_trial,
    worker_steps, AfterAttempt, DrillOutcome, GateSummary, Handoff, JournalArm, JournalEvidence,
    Landing, NeedleSearch, Probe, ProbeOutcome, Recovered, RunConfig, TakeoverEvidence, TrialCtx,
    WalRead, WalScan,
};
use yah::harness::plan::trial_seed;
use yah::harness::schema::{digest, Arm, Batching, Cell, CommandKind, KillPoint};
use yah::harness::sidecar::{read_confirmed, Confirmed, EvidenceLine};
use yah::harness::store::{
    agg_ver_ord, Applied, ApplyError, DeleteTarget, EngineAnswer, EventEntry, Rejection, Store,
};
use yah::harness::watch::{Recorder, Watcher};
use yah::harness::worker::{
    after_apply, planned_rejection, pool_size, racer_step, AfterApply, BeforeApply, KillDirective,
    KillMode, RacerStep,
};
use yah::harness::workload::{CommitSpec, ExpectedRejection, UnitPhase, UnitPool, WriterStream};

#[test]
fn main_trial_seeds_are_stable_and_distinct() {
    let arm = Arm::all()[0];
    let a = trial_seed(7, &arm, Cell::Kill(KillPoint::PreSeal), 0);
    let b = trial_seed(7, &arm, Cell::Kill(KillPoint::PreSeal), 0);
    let c = trial_seed(7, &arm, Cell::Kill(KillPoint::PreSeal), 1);
    assert_eq!(a, b);
    assert_ne!(a, c);
}

#[test]
fn plan_trial_seeds_are_stable_and_distinct() {
    let arm = Arm::all()[0];
    let a = trial_seed(7, &arm, Cell::Kill(KillPoint::PreSeal), 0);
    let b = trial_seed(7, &arm, Cell::Kill(KillPoint::PreSeal), 0);
    let c = trial_seed(7, &arm, Cell::Kill(KillPoint::PreSeal), 1);
    assert_eq!(a, b);
    assert_ne!(a, c);
}

#[test]
fn digest_wire_form() {
    let d = digest(b"x");
    assert!(d.starts_with("blake3:"));
    assert_eq!(d.len(), "blake3:".len() + 64);
}

#[test]
fn cell_counts_match_card_arithmetic() {
    assert_eq!(KillPoint::ALL.len(), 7);
    assert_eq!(Cell::all().len(), 10);
    assert_eq!(Arm::all().len(), 6);
}

/// Single-threaded claim/apply/release loop: every spec applies, so this
/// exercises generation determinism, not contention.
fn generate(seed: u64, writers: u32, steps: u32) -> Vec<CommitSpec> {
    let mut pool = UnitPool::new((writers * 4) as usize);
    let mut streams: Vec<_> = (0..writers).map(|w| WriterStream::new(seed, w)).collect();
    let mut out = Vec::new();
    for _ in 0..steps {
        for s in &mut streams {
            let spec = s.next_spec(&mut pool).expect("pool has free slots");
            let advanced = spec.expect_reject.is_none();
            pool.release(spec.slot, &spec, advanced);
            out.push(spec);
        }
    }
    out
}

#[test]
fn streams_replay_byte_identically() {
    let a = format!("{:?}", generate(42, 8, 50));
    let b = format!("{:?}", generate(42, 8, 50));
    assert_eq!(a, b);
    let c = format!("{:?}", generate(43, 8, 50));
    assert_ne!(a, c);
}

#[test]
fn payloads_hold_the_size_placeholder() {
    for spec in generate(7, 2, 200) {
        let len = spec.events[0].payload.len();
        assert!((200..=500).contains(&len), "payload {len} bytes");
    }
}

#[test]
fn mix_covers_all_seven_commands() {
    let specs = generate(11, 8, 400);
    for kind in CommandKind::MIX {
        assert!(specs.iter().any(|s| s.kind == kind), "{kind:?} never generated");
    }
}

#[test]
fn artifact_refs_ride_review_evidence() {
    let specs = generate(11, 8, 400);
    assert!(specs
        .iter()
        .all(|s| s.artifact_ref.is_some() == (s.kind == CommandKind::ReviewEvidence)));
    assert!(specs.iter().any(|s| s.artifact_ref.is_some()));
}

#[test]
fn rework_grows_epochs_and_injects_stale_leases() {
    let specs = generate(13, 8, 600);
    assert!(
        specs.iter().any(|s| s.kind == CommandKind::Dispatch && s.attempt_epoch >= 2),
        "no unit ever re-dispatched; stale-lease coverage is impossible"
    );
    let stale: Vec<_> = specs.iter().filter(|s| s.expect_reject.is_some()).collect();
    assert!(!stale.is_empty(), "no injection in 4800 specs");
    assert!(
        stale.iter().any(|s| s.expect_reject == Some(ExpectedRejection::StaleLease)),
        "no stale-epoch injection"
    );
    assert!(
        stale.iter().any(|s| s.expect_reject == Some(ExpectedRejection::StaleHolder)),
        "no stale-holder injection"
    );
    assert!(
        stale.iter().any(|s| s.kind != CommandKind::LeaseRenewal),
        "the write half was never injected"
    );
}

#[test]
fn claims_are_exclusive() {
    let mut pool = UnitPool::new(4);
    let mut a = WriterStream::new(5, 0);
    let mut b = WriterStream::new(5, 1);
    let sa = a.next_spec(&mut pool).unwrap();
    let sb = b.next_spec(&mut pool).unwrap();
    assert_ne!(sa.slot, sb.slot, "two writers claimed one slot");
    // Exhaust the pool: claims without release must eventually return None.
    assert!(a.next_spec(&mut pool).is_some());
    assert!(b.next_spec(&mut pool).is_some());
    assert!(a.next_spec(&mut pool).is_none());
}

fn committed(n: u64) -> EngineAnswer {
    EngineAnswer::Committed(Applied { generation: n, durable_at: Some(n) })
}

/// Claim, apply and release loop for one writer; returns the confirmed commits.
fn drive(store: &mut Store, pool: &mut UnitPool, stream: &mut WriterStream, steps: u64) -> Vec<Confirmed> {
    let mut applied = Vec::new();
    for n in 1..=steps {
        let spec = stream.next_spec(pool).expect("free slot");
        match store.apply(&spec, committed(n)) {
            Ok(done) => {
                assert!(spec.expect_reject.is_none(), "planned-stale spec was accepted: {spec:?}");
                pool.release(spec.slot, &spec, true);
                applied.push(Confirmed {
                    spec,
                    generation: done.generation,
                    durable_at: done.durable_at,
                    stale_accepted: false,
                });
            }
            Err(ApplyError::Rejected(r)) => {
                assert!(planned_rejection(spec.expect_reject, &r), "unplanned {r:?} for {spec:?}");
                pool.release(spec.slot, &spec, false);
            }
            Err(other) => panic!("store error: {other:?}"),
        }
    }
    applied
}

#[test]
fn stale_lease_rejects_typed() {
    let mut store = Store::empty();
    let mut pool = UnitPool::new(2);
    let mut stream = WriterStream::new(0xE3, 0);

    // Drive until some unit is Working under epoch >= 1, then hand-craft a
    // renewal claiming a superseded epoch.
    let applied = drive(&mut store, &mut pool, &mut stream, 30);
    let dispatch = applied
        .iter()
        .rev()
        .find(|c| c.spec.kind == CommandKind::Dispatch)
        .map(|c| c.spec.clone())
        .expect("a dispatch happened");
    let (version, epoch, _) = store.unit_state(dispatch.unit_id).expect("unit exists");

    let mut stale = dispatch;
    stale.kind = CommandKind::LeaseRenewal;
    stale.expected_version = version;
    stale.attempt_epoch = epoch.wrapping_sub(1);
    match store.apply(&stale, committed(99)) {
        Err(ApplyError::Rejected(Rejection::StaleLease { claimed_epoch, current_epoch, .. })) => {
            assert_eq!(claimed_epoch, epoch.wrapping_sub(1));
            assert_eq!(current_epoch, epoch);
        }
        other => panic!("stale lease not rejected typed: {other:?}"),
    }
}

#[test]
fn applied_commits_audit_clean_and_keep_their_payloads() {
    let mut store = Store::empty();
    let mut pool = UnitPool::new(8);
    let mut stream = WriterStream::new(0xE1, 0);
    let applied = drive(&mut store, &mut pool, &mut stream, 300);
    assert!(!applied.is_empty());
    for c in &applied {
        let ev = &c.spec.events[0];
        assert_eq!(store.event_payload(ev.event_id).as_deref(), Some(ev.payload.as_str()));
    }
    let mut last = std::collections::HashMap::new();
    for c in &applied {
        last.insert(c.spec.unit_id, &c.spec);
    }
    for (unit_id, spec) in last {
        if spec.new_phase == UnitPhase::Terminal {
            continue;
        }
        let (version, _, _) = store.unit_state(unit_id).expect("unit is there");
        assert_eq!(version, spec.expected_version + 1, "unit {unit_id} version diverged");
    }
    let report = score(&store.audit_snapshot(), &applied);
    assert!(report.violations.is_empty(), "{:?}", report.violations);
    assert_eq!(report.confirmed_checked, applied.len());
    assert_eq!(report.events_checked, applied.len());
    let ids = store.snapshot_event_ids();
    assert_eq!(ids.len(), applied.len());
    assert!(ids.windows(2).all(|w| w[0] < w[1]));
}

#[test]
fn journal_rows_are_never_deleted() {
    let mut store = Store::empty();
    let mut pool = UnitPool::new(4);
    let mut stream = WriterStream::new(0xE2, 0);
    let applied = drive(&mut store, &mut pool, &mut stream, 50);
    let target = &applied[10].spec.events[0];
    let before = store.event_payload(target.event_id).expect("payload");
    match store.apply_delete(DeleteTarget::Event { event_id: target.event_id }) {
        Err(ApplyError::Rejected(Rejection::JournalDelete { event_id })) => {
            assert_eq!(event_id, target.event_id)
        }
        other => panic!("{other:?}"),
    }
    assert_eq!(store.event_payload(target.event_id).unwrap(), before);
}

#[test]
fn a_failed_commit_changes_nothing() {
    let mut store = Store::empty();
    let mut pool = UnitPool::new(2);
    let spec = WriterStream::new(1, 0).next_spec(&mut pool).unwrap();
    match store.apply(&spec, EngineAnswer::Failed("disk full".to_owned())) {
        Err(ApplyError::Graph(e)) => assert_eq!(e, "disk full"),
        other => panic!("{other:?}"),
    }
    assert!(store.unit_state(spec.unit_id).is_none());
    assert!(store.snapshot_event_ids().is_empty());
}

#[test]
fn the_auditor_names_what_is_lost_torn_and_stale() {
    let mut store = Store::empty();
    let mut pool = UnitPool::new(8);
    let mut stream = WriterStream::new(0xE7, 0);
    let mut applied = drive(&mut store, &mut pool, &mut stream, 40);
    let lost = stream.next_spec(&mut pool).unwrap();
    applied.push(Confirmed { spec: lost, generation: 99, durable_at: Some(99), stale_accepted: false });
    let report = score(&store.audit_snapshot(), &applied);
    assert!(report.violations.iter().any(|v| v.bar == Bar::CommittedTransitionLoss));
    applied.pop();
    applied[0].stale_accepted = true;
    let report = score(&store.audit_snapshot(), &applied);
    assert_eq!(
        report.violations.iter().map(|v| v.bar).collect::<Vec<Bar>>(),
        vec![Bar::StaleLeaseAcceptance]
    );
}

#[test]
fn round_trip_and_torn_tail() {
    let record = || Confirmed {
        spec: WriterStream::new(1, 0).next_spec(&mut UnitPool::new(2)).unwrap(),
        generation: 1,
        durable_at: Some(1),
        stale_accepted: false,
    };
    let lines = vec![
        EvidenceLine::Record(record()),
        EvidenceLine::Record(record()),
        EvidenceLine::Record(record()),
        // A kill mid-append leaves torn trailing bytes.
        EvidenceLine::Torn,
    ];
    let recs = read_confirmed(lines).unwrap();
    assert_eq!(recs.len(), 3);
    assert_eq!(
        read_confirmed(vec![EvidenceLine::Torn, EvidenceLine::Record(record())]).unwrap_err(),
        "sidecar corrupt: unparseable line 0 followed by valid line 1"
    );
    // Only the last line may be torn.
    assert_eq!(
        read_confirmed(vec![EvidenceLine::Torn, EvidenceLine::Torn]).unwrap_err(),
        "sidecar corrupt: unparseable line 0 followed by unparseable line 1"
    );
    assert_eq!(read_confirmed(vec![EvidenceLine::Torn]).unwrap().len(), 0);
    assert_eq!(
        read_confirmed(vec![EvidenceLine::Empty, EvidenceLine::Record(record())]).unwrap().len(),
        1
    );
}

fn entry(sequence: u64, ids: Vec<u64>) -> WalRead {
    WalRead::Entry { sequence, event_ids: ids }
}

#[test]
fn a_log_is_scanned_up_to_its_torn_end() {
    let scan = scan_wal(&vec![entry(1, vec![]), entry(2, vec![7]), WalRead::Torn]);
    assert_eq!((scan.entries, scan.last_seq, scan.torn), (2, 2, true));
    assert!(scan.stop_error.is_none());
    let scan = scan_wal(&vec![WalRead::Error("bad checksum".to_owned()), entry(3, vec![])]);
    assert_eq!((scan.entries, scan.torn), (0, false));
    assert_eq!(scan.stop_error.as_deref(), Some("bad checksum"));
}

#[test]
fn a_poll_trusts_nothing_beyond_the_watermark() {
    let reads = vec![entry(1, vec![10]), entry(2, vec![20]), entry(3, vec![30]), WalRead::Torn];
    assert_eq!(poll_wal(&reads, 1, 2).unwrap(), vec![(2, vec![20])]);
    assert_eq!(poll_wal(&reads, 0, 9).unwrap().len(), 3);
    let broken = vec![entry(1, vec![10]), WalRead::Error("io".to_owned())];
    assert_eq!(poll_wal(&broken, 0, 9).unwrap_err(), "io");
}

fn clean_scan(last: u64) -> WalScan {
    WalScan { entries: last, last_seq: last, torn: false, stop_error: None }
}

fn ctx() -> TrialCtx {
    TrialCtx { arm: Arm { writers: 2, batching: Batching::Off }, rep: 3, trial_seed: 77 }
}

#[test]
fn landings_are_told_from_the_evidence() {
    let timer = directive_from(KillPoint::PostSealPrePublish, 20, 2, 40, false);
    assert_eq!(timer.mode, KillMode::Timer);
    let torn = WalScan { torn: true, ..clean_scan(1) };
    assert_eq!(classify(&timer, &vec![], &torn), Landing::TornTail);
    assert_eq!(classify(&timer, &vec![], &clean_scan(1)), Landing::DurableUnconfirmed);
    assert_eq!(classify(&timer, &vec![], &clean_scan(0)), Landing::PreAppend);
    let exact = directive_from(KillPoint::PreSeal, 20, 2, 40, false);
    assert_eq!(classify(&exact, &vec![], &torn), Landing::Exact);
    assert!(!qualifies(KillPoint::PostSealPrePublish, Landing::PreAppend));
    assert!(qualifies(KillPoint::CursorAllocAbort, Landing::PreAppend));
}

#[test]
fn directives_are_seeded() {
    let a = directive_for(5, 0, KillPoint::PostSealPrePublish, false);
    assert_eq!(a, directive_for(5, 0, KillPoint::PostSealPrePublish, false));
    assert_ne!(a, directive_for(5, 1, KillPoint::PostSealPrePublish, false));
    assert!((20..80).contains(&a.at_eligible));
    assert!((30..2_500).contains(&a.timer_us));
    let mut rng = rand_chacha::ChaCha20Rng::seed_from_u64(5);
    let at_any = rng.random_range(20..80u64);
    let _ = rng.random_range(2..8u64);
    assert_eq!(a.at_eligible, at_any);
    assert_eq!(a.timer_us, rng.random_range(30..2_500u64));
    let k = directive_for(5, 0, KillPoint::MidEffectIntent, false);
    assert_eq!(k.only_kind, Some(CommandKind::Dispatch));
    assert!((2..8).contains(&k.at_eligible));
    assert_eq!(
        directive_for(5, 0, KillPoint::ArtifactPublication, true).mode,
        KillMode::AfterCommit
    );
}

#[test]
fn a_directive_fires_once() {
    let d = KillDirective {
        mode: KillMode::Timer,
        at_eligible: 2,
        only_kind: Some(CommandKind::Dispatch),
        timer_us: 9,
    };
    assert!(!d.fires(CommandKind::Dispatch, 0));
    assert!(d.fires(CommandKind::Dispatch, 1));
    assert!(!d.fires(CommandKind::Dispatch, 2));
    assert!(!d.fires(CommandKind::LeaseRenewal, 1));
    assert_eq!(d.before_apply(), BeforeApply::ArmTimer(9));
    assert_eq!(pool_size(1), 8);
    assert_eq!(pool_size(8), 32);
    assert_eq!(worker_steps(70, 2), 320);
    assert_eq!(worker_steps(2, 8), 70);
}

fn blank_recovered(store: &Store) -> Recovered {
    Recovered {
        snap: store.audit_snapshot(),
        probes: vec![],
        frontier: 1_000,
        continuation: Ok(Some(1_001)),
    }
}

#[test]
fn a_clean_kill_passes_and_a_lost_commit_fails() {
    let mut store = Store::empty();
    let mut pool = UnitPool::new(8);
    let mut stream = WriterStream::new(3, 0);
    let mut confirmed = drive(&mut store, &mut pool, &mut stream, 60);
    let d = directive_from(KillPoint::PreSeal, 20, 2, 0, false);
    let v = kill_trial(
        &ctx(),
        KillPoint::PreSeal,
        0,
        false,
        d,
        Some(9),
        &confirmed,
        clean_scan(60),
        Some(blank_recovered(&store)),
    );
    assert!(v.pass, "{:?} {:?}", v.audit.violations, v.cell_failures);
    assert_eq!(v.cell, "PreSeal");
    assert_eq!(v.landing, Landing::Exact);

    let v = kill_trial(
        &ctx(),
        KillPoint::PreSeal,
        1,
        false,
        d,
        None,
        &confirmed,
        clean_scan(60),
        None,
    );
    assert!(v.disqualified && !v.pass);

    let lost = stream.next_spec(&mut pool).unwrap();
    confirmed.push(Confirmed { spec: lost, generation: 1, durable_at: Some(61), stale_accepted: false });
    let v = kill_trial(
        &ctx(),
        KillPoint::PreSeal,
        0,
        false,
        d,
        Some(9),
        &confirmed,
        clean_scan(60),
        Some(blank_recovered(&store)),
    );
    assert!(!v.pass && !v.audit.violations.is_empty());
}

#[test]
fn cells_demand_more_than_the_audit() {
    let mut store = Store::empty();
    let mut pool = UnitPool::new(8);
    let mut stream = WriterStream::new(3, 0);
    let confirmed = drive(&mut store, &mut pool, &mut stream, 60);
    let run = |cell: KillPoint, post: bool, records: &Vec<Confirmed>, found: Recovered| {
        kill_trial(
            &ctx(),
            cell,
            0,
            post,
            directive_from(cell, 20, 2, 0, post),
            Some(9),
            records,
            clean_scan(60),
            Some(found),
        )
    };
    // No confirmed dispatch or review at all.
    let v = run(KillPoint::MidEffectIntent, false, &vec![], blank_recovered(&Store::empty()));
    assert_eq!(v.cell_failures, vec!["no confirmed Dispatch in sidecar"]);
    let v = run(KillPoint::ArtifactPublication, true, &vec![], blank_recovered(&Store::empty()));
    assert_eq!(v.cell, "ArtifactPublication-post");
    assert_eq!(v.cell_failures, vec!["no confirmed ReviewEvidence in sidecar"]);
    // The response window must find something to probe, and each probe must be refused.
    let v = run(KillPoint::PostPublishPreResponse, false, &confirmed, blank_recovered(&store));
    assert_eq!(v.cell_failures, vec!["no durable-unconfirmed commit found to probe"]);
    let mut found = blank_recovered(&store);
    found.probes = vec![
        Probe { key: "1/2".to_owned(), outcome: ProbeOutcome::Duplicate },
        Probe { key: "3/4".to_owned(), outcome: ProbeOutcome::Accepted },
        Probe { key: "5/6".to_owned(), outcome: ProbeOutcome::WrongError("io".to_owned()) },
    ];
    let v = run(KillPoint::PostPublishPreResponse, false, &confirmed, found);
    assert_eq!(
        v.cell_failures,
        vec![
            "replay probe 3/4: duplicate receipt ACCEPTED — re-execution possible",
            "replay probe 5/6: wrong error io"
        ]
    );
    // The cursor goes on above every confirmation.
    let mut found = blank_recovered(&store);
    found.frontier = 1;
    found.continuation = Ok(Some(2));
    let v = run(KillPoint::CursorAllocAbort, false, &confirmed, found);
    assert_eq!(v.landing, Landing::PreAppend);
    let highest = confirmed.iter().filter_map(|c| c.durable_at).max().unwrap();
    assert_eq!(
        v.cell_failures,
        vec![
            format!("confirmed durable_at {highest} beyond recovered frontier 1"),
            "post-recovery commit did not advance the cursor".to_owned()
        ]
    );
    let mut found = blank_recovered(&store);
    found.continuation = Err("locked".to_owned());
    let v = run(KillPoint::CursorAllocAbort, false, &confirmed, found);
    assert_eq!(v.cell_failures, vec!["post-recovery commit failed: locked"]);
    // Keys of commits that were never confirmed.
    let keys = probe_keys(&store.audit_snapshot(), &confirmed[1..].to_vec_of());
    let first = &confirmed[0].spec;
    assert_eq!(keys, vec![format!("{}/{}", first.unit_id, first.command_id)]);
}

trait ToVecOf {
    fn to_vec_of(&self) -> Vec<Confirmed>;
}

impl ToVecOf for [Confirmed] {
    fn to_vec_of(&self) -> Vec<Confirmed> {
        self.iter()
            .map(|c| Confirmed {
                spec: c.spec.clone(),
                generation: c.generation,
                durable_at: c.durable_at,
                stale_accepted: c.stale_accepted,
            })
            .collect()
    }
}

#[test]
fn an_open_intent_and_a_published_artifact_satisfy_their_cells() {
    let mut store = Store::empty();
    let mut pool = UnitPool::new(8);
    let mut stream = WriterStream::new(3, 0);
    let mut confirmed = Vec::new();
    while confirmed.iter().all(|c: &Confirmed| c.spec.kind != CommandKind::ReviewEvidence) {
        confirmed.extend(drive(&mut store, &mut pool, &mut stream, 1));
    }
    let found = blank_recovered(&store);
    let v = kill_trial(
        &ctx(),
        KillPoint::ArtifactPublication,
        1,
        true,
        directive_from(KillPoint::ArtifactPublication, 20, 2, 0, true),
        Some(9),
        &confirmed,
        clean_scan(1),
        Some(found),
    );
    assert!(v.pass, "{:?} {:?}", v.audit.violations, v.cell_failures);

    let mut store = Store::empty();
    let mut pool = UnitPool::new(8);
    let mut stream = WriterStream::new(4, 0);
    let confirmed = drive(&mut store, &mut pool, &mut stream, 1);
    let v = kill_trial(
        &ctx(),
        KillPoint::MidEffectIntent,
        0,
        false,
        directive_from(KillPoint::MidEffectIntent, 20, 2, 0, false),
        Some(9),
        &confirmed,
        clean_scan(1),
        Some(blank_recovered(&store)),
    );
    assert!(v.pass, "{:?} {:?}", v.audit.violations, v.cell_failures);
    assert_eq!(
        v.audit.nonterminal_intents,
        vec![confirmed[0].spec.effect.as_ref().unwrap().intent_id]
    );
}

#[test]
fn the_journal_cell_lists_every_wrong_outcome() {
    let v = journal_cell_trial(&ctx(), &None);
    assert_eq!(v.cell_failures, vec!["no commits applied"]);
    let fine = JournalEvidence {
        update: JournalArm::Refused,
        delete: JournalArm::Refused,
        duplicate_id: JournalArm::Refused,
        duplicate_composite: JournalArm::Refused,
        before: "a".to_owned(),
        after: "a".to_owned(),
    };
    assert!(journal_cell_trial(&ctx(), &Some(fine)).pass);
    let wrong = JournalEvidence {
        update: JournalArm::Wrong("ok".to_owned()),
        delete: JournalArm::Refused,
        duplicate_id: JournalArm::Wrong("x".to_owned()),
        duplicate_composite: JournalArm::Refused,
        before: "a".to_owned(),
        after: "b".to_owned(),
    };
    let v = journal_cell_trial(&ctx(), &Some(wrong));
    assert!(!v.pass);
    assert_eq!(
        v.cell_failures,
        vec![
            "update arm: expected immutable rejection, got ok",
            "dup event_id arm: x",
            "journal bytes changed under rejected mutations"
        ]
    );
    let spec = WriterStream::new(1, 0).next_spec(&mut UnitPool::new(2)).unwrap();
    let event = &spec.events[0];
    assert_eq!(same_id_event(event).payload, "{}");
    assert_eq!(same_id_event(event).event_id, event.event_id);
    assert_eq!(same_place_event(event).event_id, event.event_id ^ (1 << 60));
    assert_eq!(same_place_event(event).payload, event.payload);
}

#[test]
fn a_handoff_must_leave_nothing_unseen() {
    let v = watch_cell_trial(&ctx(), &None);
    assert_eq!(v.cell_failures, vec!["stream too short: snapshot point never reached"]);
    let h = Handoff { committed: vec![1, 2, 3, 3], snapshot: vec![1], polled: vec![2] };
    assert_eq!(invisible_gap(&h), vec![3]);
    let v = watch_cell_trial(&ctx(), &Some(h));
    assert_eq!(v.cell_failures, vec!["invisible gap: 1 events in neither snapshot nor poll"]);
    let h = Handoff { committed: vec![1, 2], snapshot: vec![1], polled: vec![2, 9] };
    assert!(watch_cell_trial(&ctx(), &Some(h)).pass);
}

fn takeover(contender: &str, one: &str, two: &str, store: &Store) -> TakeoverEvidence {
    TakeoverEvidence {
        contender: contender.to_owned(),
        racer_one: one.to_owned(),
        racer_two: two.to_owned(),
        wal_pre: clean_scan(3),
        snap: store.audit_snapshot(),
    }
}

#[test]
fn exactly_one_racer_wins() {
    let mut store = Store::empty();
    let (mut pool, mut stream) = racer_source(1);
    let records = drive(&mut store, &mut pool, &mut stream, 3);
    let units: BTreeSet<u64> = records.iter().map(|c| c.spec.unit_id).collect();
    assert!(units.iter().all(|u| u & (1 << 40) != 0));
    let won = "RACE:WON:3";
    let v = takeover_trial(&ctx(), 0, &records, takeover("CONTEND:HELD", won, "RACE:HELD", &store));
    if units.len() >= 3 {
        assert!(v.pass, "{:?}", v.cell_failures);
    } else {
        assert_eq!(
            v.cell_failures,
            vec![format!("winner wrote {} reserved units (want 3-4)", units.len())]
        );
    }
    let v = takeover_trial(&ctx(), 0, &records, takeover("CONTEND:HELD", won, won, &store));
    assert!(v.disqualified && !v.pass);
    let v = takeover_trial(
        &ctx(),
        0,
        &vec![],
        takeover("CONTEND:OPENED", "RACE:HELD", "RACE:HELD", &Store::empty()),
    );
    assert_eq!(
        v.cell_failures,
        vec![
            "live contention did not hold: CONTEND:OPENED",
            "race outcome wins=0 helds=2: [RACE:HELD] [RACE:HELD]"
        ]
    );
    assert!(contains_text("xx RACE:WON:3", "RACE:WON"));
    assert!(!contains_text("RACE:WO", "RACE:WON"));
}

#[test]
fn the_drill_damages_a_located_record() {
    let specs = generate(11, 2, 60);
    let confirmed: Vec<Confirmed> = specs
        .iter()
        .map(|s| Confirmed {
            spec: s.clone(),
            generation: 1,
            durable_at: None,
            stale_accepted: false,
        })
        .collect();
    let mut search = NeedleSearch::new(5);
    let needle = loop {
        if let Some(n) = search.next(2, &confirmed) {
            break n;
        }
    };
    assert_eq!(needle.len(), 48);
    let log: Vec<u8> = confirmed
        .iter()
        .flat_map(|c| c.spec.events[0].payload.clone().into_bytes())
        .collect();
    let damaged = corrupt(&log, &needle).unwrap();
    let changed: Vec<usize> = (0..log.len()).filter(|i| log[*i] != damaged[*i]).collect();
    assert_eq!(changed.len(), 1);
    assert_eq!(&log[changed[0] - 20..changed[0] + 28], needle.as_slice());
    assert_eq!(damaged[changed[0]], log[changed[0]] ^ 0x40);
    assert!(corrupt(&vec![0u8; 100], &needle).is_none());

    let first = &specs[0];
    assert_eq!(drill_needle(1, first).unwrap(), first.request_digest.clone().into_bytes());
    let review = specs.iter().find(|s| s.kind == CommandKind::ReviewEvidence).unwrap();
    assert!(drill_needle(1, review).is_none());
    assert!(drill_needle(2, review).is_none());
    assert_eq!(drill_variant(5), 2);
}

#[test]
fn damage_must_be_named() {
    let mut store = Store::empty();
    let mut pool = UnitPool::new(8);
    let confirmed = drive(&mut store, &mut pool, &mut WriterStream::new(8, 0), 20);
    let v = corruption_trial(
        &ctx(),
        1,
        &confirmed,
        clean_scan(1),
        &DrillOutcome::Refused("bad checksum".to_owned()),
    );
    assert!(v.pass);
    assert_eq!(v.cell, "CorruptionDrill-v1");
    assert_eq!(v.audit.violations[0].detail, "engine refused corrupted store: bad checksum");
    let v = corruption_trial(
        &ctx(),
        0,
        &confirmed,
        clean_scan(1),
        &DrillOutcome::Opened(store.audit_snapshot()),
    );
    assert!(!v.pass);
    assert_eq!(
        v.cell_failures,
        vec!["store recovered over corruption and the auditor found nothing — fail-open"]
    );
    let v = corruption_trial(
        &ctx(),
        0,
        &confirmed,
        clean_scan(1),
        &DrillOutcome::Opened(Store::empty().audit_snapshot()),
    );
    assert!(v.pass);
}

#[test]
fn a_run_is_tallied() {
    let mut g = GateSummary::new();
    g.record(true);
    g.record(false);
    g.resample();
    g.fall_short(&Arm { writers: 8, batching: Batching::DefaultBound }, KillPoint::PreSeal, 4);
    assert_eq!((g.scored, g.passed, g.failed, g.resampled_attempts), (2, 1, 1, 1));
    assert_eq!(g.shortfalls, vec!["w8-batchON/PreSeal/rep4"]);
    assert_eq!(after_attempt(KillPoint::PreSeal, true, 0, 2), AfterAttempt::SampleAgain);
    assert_eq!(after_attempt(KillPoint::PreSeal, true, 1, 2), AfterAttempt::FallShort);
    assert_eq!(after_attempt(KillPoint::ArtifactPublication, true, 1, 2), AfterAttempt::Score);
    assert!(keeps_store(true, 0, 20) && keeps_store(true, 19, 20) && keeps_store(false, 5, 20));
    assert!(!keeps_store(true, 5, 20));
    assert_eq!(cell_name(Cell::Kill(KillPoint::PreSeal)), "PreSeal");
    assert_eq!(cell_name(Cell::CorruptionDrill), "CorruptionDrill");
    let v = base_verdict(&ctx(), "X", 2);
    assert_eq!((v.arm.as_str(), v.cell.as_str(), v.rep, v.attempt), ("w2-batchOFF", "X", 3, 2));
}

#[test]
fn reserved_ids_stay_apart() {
    let (mut pool, mut stream) = continuation_source(9);
    let spec = stream.next_spec(&mut pool).unwrap();
    assert!(spec.unit_id & (1 << 41) != 0);
    assert_eq!(spec.writer, 2000);
}

#[test]
fn a_manifest_records_and_never_guesses() {
    assert_eq!(git_head("abc", ""), "abc");
    assert_eq!(git_head("abc", " M file"), "abc-dirty");
    assert_eq!(git_head("unrecorded", " M file"), "unrecorded");
    let text = |s: &str| Some(s.to_owned());
    let m = Manifest::capture(
        &Probes {
            selene_sha: text("abc"),
            selene_status: text(" M x"),
            harness_sha: text("def"),
            harness_status: text(""),
            rustc_version: text("1"),
            cpu_model: None,
            physical_cores: text(""),
            logical_cores: text("8"),
            ram_bytes: text("1"),
            os_build: text("x"),
        },
        7,
        20,
        50,
    );
    assert_eq!(m.selene_db_sha, "abc-dirty");
    assert_eq!(m.harness_sha, "def");
    assert_eq!(m.cpu_model, "unrecorded");
    assert_eq!(m.physical_cores, "unrecorded");
    assert_eq!((m.seed, m.reps_per_cell, m.samples_per_arm), (7, 20, 50));
}

#[test]
fn the_harness_schema_freezes_the_journal() {
    let g = graph::graph_type();
    assert_eq!(g.node_types.len(), 7);
    let event = g.node_types.iter().find(|n| n.label == "Event").unwrap();
    assert!(event.properties.iter().all(|p| p.immutable));
    assert_eq!(event.properties[1].name, "agg_ver_ord");
}

fn run_config(cells: Vec<Cell>, reps: u32, cap: u32) -> RunConfig {
    RunConfig {
        out: String::new(),
        root_seed: 7,
        reps,
        arms: vec![Arm { writers: 2, batching: Batching::Off }],
        cells,
        attempt_cap: cap,
    }
}

#[test]
fn a_run_visits_every_trial_once_and_samples_again() {
    let mut run = GateRun::new(run_config(Cell::all(), 2, 3));
    let mut seen = Vec::new();
    while let Some((ctx, action)) = run.current() {
        assert_eq!(
            ctx.trial_seed,
            trial_seed(7, &ctx.arm, run.cfg.cells[run.cell], ctx.rep)
        );
        seen.push((run.cell, ctx.rep, action));
        // Every first attempt at a sampled cell is disqualified.
        let again = matches!(action, Action::Takeover { attempt: 0 })
            || matches!(action, Action::Kill { cell, attempt: 0, .. } if cell != KillPoint::ArtifactPublication);
        run.advance(true, again);
    }
    // Six sampled cells take two attempts, the artifact cell has two phases, three take one.
    assert_eq!(seen.len(), 2 * (6 * 2 + 2 + 3));
    assert_eq!(run.summary.scored, 2 * (6 + 2 + 3));
    assert_eq!(run.summary.resampled_attempts, 12);
    assert!(run.summary.shortfalls.is_empty());
    assert!(seen.iter().any(|s| s.2
        == Action::Kill {
            cell: KillPoint::ArtifactPublication,
            attempt: 1,
            phase_post: true
        }));
}

#[test]
fn a_cell_that_never_counts_falls_short() {
    let cell = Cell::Kill(KillPoint::PreSeal);
    let mut run = GateRun::new(run_config(vec![cell], 1, 2));
    run.advance(false, true);
    assert_eq!(run.attempt, 1);
    run.advance(false, true);
    assert!(run.current().is_none());
    assert_eq!(run.summary.shortfalls, vec!["w2-batchOFF/PreSeal/rep0"]);
    assert_eq!(run.summary.resampled_attempts, 2);
    let mut run = GateRun::new(run_config(vec![cell], 1, 0));
    assert_eq!(run.current().unwrap().1, Action::GiveUp);
    run.advance(false, true);
    assert_eq!(run.summary.resampled_attempts, 0);
    assert_eq!(run.summary.shortfalls.len(), 1);
    assert!(GateRun::new(run_config(vec![], 1, 1)).current().is_none());
}

#[test]
fn a_worker_confirms_releases_or_stops() {
    let spec = WriterStream::new(1, 0).next_spec(&mut UnitPool::new(2)).unwrap();
    let applied = || Ok(Applied { generation: 3, durable_at: Some(4) });
    let directive = |mode: KillMode| {
        Some(KillDirective { mode, at_eligible: 1, only_kind: None, timer_us: 0 })
    };
    assert!(matches!(
        after_apply(&spec, directive(KillMode::ResponseWindow), applied()),
        AfterApply::Kill
    ));
    match after_apply(&spec, directive(KillMode::AfterCommit), applied()) {
        AfterApply::Confirm { record, then_kill } => {
            assert!(then_kill);
            assert_eq!((record.generation, record.durable_at), (3, Some(4)));
            assert!(!record.stale_accepted);
        }
        other => panic!("{other:?}"),
    }
    let refused = || {
        Err(ApplyError::Rejected(Rejection::StaleLease {
            unit_id: 1,
            claimed_epoch: 1,
            current_epoch: 2,
        }))
    };
    // A refusal that was not planned comes back with the refusal itself.
    assert!(matches!(
        after_apply(&spec, None, refused()),
        AfterApply::Unplanned(Rejection::StaleLease { current_epoch: 2, .. })
    ));
    let mut stale = spec.clone();
    stale.expect_reject = Some(ExpectedRejection::StaleLease);
    assert!(matches!(after_apply(&stale, None, refused()), AfterApply::Release));
    match after_apply(&stale, None, applied()) {
        AfterApply::Confirm { record, .. } => assert!(record.stale_accepted),
        other => panic!("{other:?}"),
    }
    match after_apply(&spec, None, Err(ApplyError::Graph("io".to_owned()))) {
        AfterApply::Defect(d) => assert_eq!(d, "store error in worker: io"),
        other => panic!("{other:?}"),
    }
}

#[test]
fn a_watcher_polls_from_its_snapshot_on() {
    let mut recorder = Recorder::new();
    let taken: Vec<bool> = (1..=41u64).map(|n| recorder.record(n, Some(n))).collect();
    assert_eq!(taken.iter().filter(|t| **t).count(), 1);
    assert!(taken[39]);
    assert_eq!(recorder.watermark, 41);
    let mut w = Watcher::new();
    assert_eq!(w.next_range(9), None);
    w.take_snapshot(40, (1..=40).collect());
    assert_eq!(w.next_range(40), None);
    assert_eq!(w.next_range(41), Some((40, 41)));
    w.absorb(41, &vec![(41, vec![41])]);
    assert_eq!(w.next_range(41), None);
    let h = w.into_handoff(recorder.committed).unwrap();
    assert!(invisible_gap(&h).is_empty());
    assert!(Watcher::new().into_handoff(vec![1]).is_none());
}

#[test]
fn a_racer_counts_commits_and_no_refusals() {
    let applied = Ok(Applied { generation: 1, durable_at: Some(1) });
    assert!(matches!(racer_step(0, &applied), RacerStep::Advance { applied: 1, done: false }));
    assert!(matches!(racer_step(2, &applied), RacerStep::Advance { applied: 3, done: true }));
    let refused = Err(ApplyError::Rejected(Rejection::UnknownUnit { unit_id: 7 }));
    assert!(matches!(racer_step(2, &refused), RacerStep::Release));
    let lost = Err(ApplyError::Graph("io".to_owned()));
    assert!(matches!(racer_step(0, &lost), RacerStep::Fail(e) if e == "io"));
    let incoherent = Err(ApplyError::Harness("no row".to_owned()));
    assert!(matches!(racer_step(0, &incoherent), RacerStep::Fail(e) if e == "no row"));
}

#[test]
fn the_place_of_an_event_is_its_composite_key() {
    let e = EventEntry {
        aggregate_id: 12,
        aggregate_version: 3,
        ordinal: 0,
        kind: "Dispatch".to_owned(),
        payload: "{}".to_owned(),
        causation_ref: 1,
    };
    assert_eq!(agg_ver_ord(&e), "12/3/0");
}

#[test]
fn refilled_slots_hold_units_that_no_slot_held() {
    let mut pool = UnitPool::new(3);
    let mut stream = WriterStream::new(11, 0);
    let mut seen: Vec<u64> = pool.slots.iter().map(|s| s.unit_id).collect();
    for _ in 0..400 {
        let spec = stream.next_spec(&mut pool).unwrap();
        pool.release(spec.slot, &spec, spec.expect_reject.is_none());
        let id = pool.slots[spec.slot].unit_id;
        if id != spec.unit_id {
            assert!(!seen.contains(&id), "{id}");
            seen.push(id);
        }
    }
    assert!(seen.len() > 3);
}
