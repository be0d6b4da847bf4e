//! Submission: stage a command, let the durable engine commit what it writes, and finish with
//! the engine's answer.
use crate::error::ErrorKind;
use crate::funnel::apply::{applied, in_range};
use crate::funnel::command::{Command, Method, Submission, SubmissionView};
use crate::funnel::plan::{writable, AcceptedView, EventDraft, EventDraftView, Plan, PlanView};
use crate::funnel::pre::{pre_read, rows_for};
use crate::funnel::receipt::{
    bounded, bounded_detail, properties, receipt_key, receipt_key_of, receipt_row_of, refusal_text,
    refusal_value, refused, replay_answer, replay_stored, replayed, StoredReceipt,
};
use crate::funnel::validate::{decide, decisions_are_small, fits};
use crate::funnel::{fresh, Funnel, FunnelView};
use crate::ids::uuid_text;
use crate::json::{
    json_ok, json_parse, json_text, json_tree, render_json, text_of_value, to_value, JsonView,
};
use crate::store::{EventRecord, EventRecordView, ReceiptRow, ReceiptRowView, StoreView, TablesView};
use crate::table::{lookup, place_from_rule, upsert};
use crate::text::opt_view;
use serde_json::Value;
use vstd::prelude::*;
use vstd::string::*;

verus! {

/// What a command will write, if anything.
#[derive(Debug)]
pub enum Staged {
    /// Nothing: the answer is known.
    Answer(Submission),
    /// The receipt of a refusal that is kept.
    Refusal { receipt: ReceiptRow, kind: ErrorKind, detail: String },
    /// The plan, the events and the receipt of an accepted command.
    Commit { plan: Plan, events: Vec<EventRecord>, receipt: ReceiptRow, result: Value },
}

/// The view of a `Staged`.
pub enum StagedView {
    Answer(SubmissionView),
    Refusal { receipt: ReceiptRowView, kind: ErrorKind, detail: Seq<char> },
    Commit {
        plan: PlanView,
        events: Seq<EventRecordView>,
        receipt: ReceiptRowView,
        result: JsonView,
    },
}

impl View for Staged {
    type V = StagedView;

    open spec fn view(&self) -> StagedView {
        match self {
            Staged::Answer(s) => StagedView::Answer(s@),
            Staged::Refusal { receipt, kind, detail } => StagedView::Refusal {
                receipt: receipt@,
                kind: *kind,
                detail: detail@,
            },
            Staged::Commit { plan, events, receipt, result } => StagedView::Commit {
                plan: plan@,
                events: events@.map_values(|e: EventRecord| e@),
                receipt: receipt@,
                result: json_tree(*result),
            },
        }
    }
}

/// What the durable engine says of a transaction.
#[derive(Debug)]
pub enum CommitOutcome {
    Committed,
    /// The engine refused a row of the plan, before any event was numbered; nothing is durable.
    PlanFailed(String),
    /// The engine refused an event or the receipt; nothing is durable.
    StagingFailed(String),
    /// The commit failed before anything was durable.
    CommitFailed(String),
    /// The commit failed, and the write may be durable all the same.
    CommitUnknown(String),
}

/// Whether the funnel has room for one more command: identifiers, a cursor, and the version
/// of every lease.
pub open spec fn has_room(f: FunnelView) -> bool {
    &&& f.mint_seq <= u64::MAX - 4
    &&& f.store.next_cursor < u64::MAX
    &&& forall|i: int|
        0 <= i < f.store.tables.leases.len() ==> (#[trigger] f.store.tables.leases[i]).1.version
            < u64::MAX
}

/// The answer of a poisoned funnel.
pub open spec fn poisoned(poison: Seq<char>) -> SubmissionView {
    refused(
        ErrorKind::Unavailable,
        "funnel poisoned by uncertain commit: "@ + poison,
        false,
    )
}

/// The answer that a stored row gives to a command.
pub open spec fn row_answer(cmd: Command, row: ReceiptRowView) -> SubmissionView {
    replay_answer(
        cmd,
        row.request_digest,
        row.principal_kind,
        row.principal_id,
        row.status,
        row.result,
    )
}

/// The event of a draft at a cursor.
pub open spec fn event_of(
    f: FunnelView,
    cmd: Command,
    draft: EventDraftView,
    cursor: u64,
    id: u128,
) -> EventRecordView {
    EventRecordView {
        cursor,
        event_id: uuid_text(id),
        aggregate_kind: draft.aggregate_kind,
        aggregate_id: draft.aggregate_id,
        aggregate_version: draft.aggregate_version,
        ordinal: 0,
        event_kind: draft.event_kind,
        payload: json_text(draft.payload),
        receipt_key: receipt_key_of(cmd),
        command_id: cmd.command_id@,
        actor_kind: cmd.principal_kind.wire_text(),
        actor_id: cmd.principal_id@,
        occurred_at_ms: f.clock_ms,
        causation_id: opt_view(cmd.causation_id),
        correlation_id: opt_view(cmd.correlation_id),
    }
}

/// The events of an accepted command, under cursors and identifiers from here on.
pub open spec fn events_of(f: FunnelView, cmd: Command, a: AcceptedView) -> Seq<EventRecordView> {
    Seq::new(
        a.events.len(),
        |i: int|
            event_of(
                f,
                cmd,
                a.events[i],
                (f.store.next_cursor + i) as u64,
                fresh(f, a.minted + 1 + i),
            ),
    )
}

/// The cursors of an accepted command: the first and the last.
pub open spec fn cursors_of(f: FunnelView, a: AcceptedView) -> Option<(u64, u64)> {
    if a.events.len() == 0 {
        None
    } else {
        Some((f.store.next_cursor, (f.store.next_cursor + a.events.len() - 1) as u64))
    }
}

/// What a command stages: a poisoned funnel and a stored receipt answer at once, a refusal is
/// kept or not, and an accepted command writes.
pub open spec fn staged(f: FunnelView, cmd: Command) -> StagedView {
    match f.gate {
        Some(poison) => StagedView::Answer(poisoned(poison)),
        None => match lookup(f.store.tables.receipts, receipt_key_of(cmd)) {
            Some(row) => StagedView::Answer(row_answer(cmd, row)),
            None => match decide(f, cmd, rows_for(cmd.method, f.store.tables)) {
                Err(e) => if e.persist {
                    StagedView::Refusal {
                        receipt: receipt_row_of(
                            cmd,
                            "rejected"@,
                            json_text(refusal_value(e.kind, e.detail)),
                            None,
                        ),
                        kind: e.kind,
                        detail: e.detail,
                    }
                } else {
                    StagedView::Answer(refused(e.kind, e.detail, false))
                },
                Ok(a) => StagedView::Commit {
                    plan: a.plan,
                    events: events_of(f, cmd, a),
                    receipt: receipt_row_of(
                        cmd,
                        "completed"@,
                        json_text(a.result),
                        cursors_of(f, a),
                    ),
                    result: a.result,
                },
            },
        },
    }
}

/// The funnel after a command was staged: identifiers and cursors are burned, whether or not
/// anything commits, unless the engine refuses the plan before the events are numbered.
pub open spec fn after_staging(f: FunnelView, cmd: Command) -> FunnelView {
    match staged(f, cmd) {
        StagedView::Commit { .. } => {
            let a = decide(f, cmd, rows_for(cmd.method, f.store.tables))->Ok_0;
            FunnelView {
                mint_seq: (f.mint_seq + a.minted + a.events.len()) as u64,
                store: StoreView {
                    next_cursor: (f.store.next_cursor + a.events.len()) as u64,
                    ..f.store
                },
                ..f
            }
        },
        _ => f,
    }
}

/// The tables after a transaction.
pub open spec fn tables_with(
    t: TablesView,
    plan: PlanView,
    events: Seq<EventRecordView>,
    receipt: ReceiptRowView,
) -> TablesView {
    let written = applied(t, plan);
    TablesView {
        receipts: upsert(written.receipts, receipt.receipt_key, receipt),
        events: written.events + events,
        ..written
    }
}

/// A funnel with other tables.
pub open spec fn with_tables(f: FunnelView, tables: TablesView) -> FunnelView {
    FunnelView { store: StoreView { tables, ..f.store }, ..f }
}

/// A funnel that takes back the cursors and identifiers of the last `n` events.
pub open spec fn unnumbered(f: FunnelView, n: nat) -> FunnelView {
    FunnelView {
        mint_seq: (f.mint_seq - n) as u64,
        store: StoreView { next_cursor: (f.store.next_cursor - n) as u64, ..f.store },
        ..f
    }
}

/// The funnel after the engine's answer.
pub open spec fn after_commit(f: FunnelView, s: StagedView, outcome: CommitOutcome) -> FunnelView {
    match s {
        StagedView::Answer(_) => f,
        StagedView::Refusal { receipt, .. } => match outcome {
            CommitOutcome::Committed => with_tables(
                f,
                TablesView {
                    receipts: upsert(f.store.tables.receipts, receipt.receipt_key, receipt),
                    ..f.store.tables
                },
            ),
            CommitOutcome::PlanFailed(_) | CommitOutcome::StagingFailed(_) => f,
            CommitOutcome::CommitFailed(e) => FunnelView { gate: Some(e@), ..f },
            CommitOutcome::CommitUnknown(e) => FunnelView { gate: Some(e@), ..f },
        },
        StagedView::Commit { plan, events, receipt, .. } => match outcome {
            CommitOutcome::Committed => with_tables(
                f,
                tables_with(f.store.tables, plan, events, receipt),
            ),
            CommitOutcome::PlanFailed(_) => unnumbered(f, events.len()),
            CommitOutcome::StagingFailed(_) => f,
            CommitOutcome::CommitFailed(e) => FunnelView { gate: Some(e@), ..f },
            CommitOutcome::CommitUnknown(e) => FunnelView { gate: Some(e@), ..f },
        },
    }
}

/// The answer after the engine's: a refusal is certain either way; an accepted command is
/// completed, refused as internal, or of unknown outcome.
pub open spec fn answer_after(s: StagedView, outcome: CommitOutcome) -> SubmissionView {
    match s {
        StagedView::Answer(a) => a,
        StagedView::Refusal { kind, detail, .. } => refused(kind, detail, false),
        StagedView::Commit { result, .. } => match outcome {
            CommitOutcome::Committed => SubmissionView::Completed { result },
            CommitOutcome::PlanFailed(e) => refused(ErrorKind::Internal, e@, false),
            CommitOutcome::StagingFailed(e) => refused(ErrorKind::Internal, e@, false),
            CommitOutcome::CommitFailed(e) => refused(
                ErrorKind::OutcomeUnknown,
                "commit outcome uncertain: "@ + e@,
                false,
            ),
            CommitOutcome::CommitUnknown(e) => refused(
                ErrorKind::OutcomeUnknown,
                "commit outcome uncertain: "@ + e@,
                false,
            ),
        },
    }
}

/// Whether the stored text of what was staged reads back as the answer it was written for.
pub open spec fn reads_back(s: StagedView) -> bool {
    match s {
        StagedView::Answer(_) => true,
        StagedView::Refusal { receipt, kind, detail } => json_parse(receipt.result) == json_ok(
            refusal_value(kind, detail),
        ),
        StagedView::Commit { receipt, result, .. } => json_parse(receipt.result) == json_ok(result),
    }
}

/// Whether what was staged can be finished by a funnel: the plan keeps its versions in range, and
/// the events are numbered by the funnel.
pub open spec fn finishable(f: FunnelView, s: StagedView) -> bool {
    s is Commit ==> {
        &&& in_range(s->plan)
        &&& s->events.len() <= f.mint_seq
        &&& s->events.len() <= f.store.next_cursor
    }
}

/// The rows read for a method always fit it.
pub proof fn rows_fit(method: Method, tables: TablesView)
    ensures
        fits(method, rows_for(method, tables)),
{
}

proof fn dispatch_in_range(f: FunnelView, cmd: Command)
    requires
        has_room(f),
        decide(f, cmd, rows_for(cmd.method, f.store.tables)) is Ok,
    ensures
        in_range(decide(f, cmd, rows_for(cmd.method, f.store.tables))->Ok_0.plan),
{
    let pre = rows_for(cmd.method, f.store.tables);
    match cmd.method {
        Method::UnitDispatch { unit_id, holder_id } => {
            place_from_rule(f.store.tables.leases, unit_id@, 0);
            if pre.lease is Some {
                let i = crate::table::place(f.store.tables.leases, unit_id@);
                assert(f.store.tables.leases[i].1 == pre.lease->0);
            }
        },
        Method::CancelRequest { .. } | Method::CancelRecordDelivery { .. } => {},
        _ => {},
    }
}

impl Funnel {
    /// Whether the funnel has room for one more command.
    pub fn has_room(&self) -> (r: bool)
        ensures
            r == has_room(self@),
    {
        if self.mint_seq > u64::MAX - 4 || self.store.next_cursor == u64::MAX {
            return false;
        }
        let leases = &self.store.tables.leases;
        let mut i: usize = 0;
        while i < leases.len()
            invariant
                i <= leases@.len(),
                leases@ == self@.store.tables.leases,
                forall|k: int| 0 <= k < i ==> (#[trigger] leases@[k]).1.version < u64::MAX,
            decreases leases@.len() - i,
        {
            if leases.row_at(i).version == u64::MAX {
                proof {
                    assert(!(leases@[i as int].1.version < u64::MAX));
                }
                return false;
            }
            i += 1;
        }
        true
    }

    fn event_row(&self, cmd: &Command, draft: &EventDraft, cursor: u64, k: u64) -> (r: EventRecord)
        requires
            self@.mint_seq + k <= u64::MAX,
            crate::json::plain(draft@.payload, 8),
        ensures
            r@ == event_of(self@, *cmd, draft@, cursor, fresh(self@, k as int)),
    {
        EventRecord {
            cursor,
            event_id: self.id_after(k).to_string(),
            aggregate_kind: draft.aggregate_kind.to_owned(),
            aggregate_id: draft.aggregate_id.clone(),
            aggregate_version: draft.aggregate_version,
            ordinal: 0,
            event_kind: draft.event_kind.to_owned(),
            payload: render_json(&draft.payload),
            receipt_key: receipt_key(cmd),
            command_id: cmd.command_id.clone(),
            actor_kind: cmd.principal_kind.wire().to_owned(),
            actor_id: cmd.principal_id.clone(),
            occurred_at_ms: self.clock_ms,
            causation_id: cmd.causation_id.clone(),
            correlation_id: cmd.correlation_id.clone(),
        }
    }

    /// Stages a command: decides it and works out what it writes.
    pub fn stage(&mut self, cmd: &Command) -> (r: Staged)
        requires
            has_room(old(self)@),
        ensures
            r@ == staged(old(self)@, *cmd),
            final(self)@ == after_staging(old(self)@, *cmd),
            finishable(final(self)@, r@),
            reads_back(r@),
    {
        if let Some(poison) = &self.gate {
            let mut detail = "funnel poisoned by uncertain commit: ".to_owned();
            detail.append(poison);
            return Staged::Answer(
                Submission::Rejected { kind: ErrorKind::Unavailable, detail, replayed: false },
            );
        }
        let key = receipt_key(cmd);
        if let Some(row) = self.store.tables.receipts.get(&key) {
            let stored = StoredReceipt {
                request_digest: Some(row.request_digest.clone()),
                principal_kind: Some(row.principal_kind.clone()),
                principal_id: Some(row.principal_id.clone()),
                status: Some(row.status.clone()),
                result: Some(row.result.clone()),
            };
            return Staged::Answer(replay_stored(cmd, Some(stored)));
        }
        let ghost f = self@;
        let pre = pre_read(&cmd.method, &self.store.tables);
        proof {
            rows_fit(cmd.method, f.store.tables);
            decisions_are_small(f, *cmd, pre@);
        }
        let accepted = match self.validate(cmd, &pre) {
            Ok(a) => a,
            Err(e) => {
                if !e.persist {
                    return Staged::Answer(
                        Submission::Rejected { kind: e.kind, detail: e.detail, replayed: false },
                    );
                }
                let text = refusal_text(e.kind, &e.detail);
                let receipt = properties(cmd, "rejected", text, None);
                return Staged::Refusal { receipt, kind: e.kind, detail: e.detail };
            },
        };
        proof {
            dispatch_in_range(f, *cmd);
        }
        let ghost a = accepted@;
        let ghost wanted = events_of(f, *cmd, a);
        let first: u64 = self.store.next_cursor;
        let mut events: Vec<EventRecord> = Vec::new();
        let mut i: usize = 0;
        while i < accepted.events.len()
            invariant
                i <= accepted.events.len() <= 1,
                accepted@ == a,
                a.minted <= 2,
                self@ == f,
                first == f.store.next_cursor,
                has_room(f),
                writable(a),
                wanted == events_of(f, *cmd, a),
                events.len() == i,
                forall|k: int| 0 <= k < i ==> (#[trigger] events@[k])@ == wanted[k],
            decreases accepted.events.len() - i,
        {
            let draft = &accepted.events[i];
            proof {
                assert(a.events[i as int] == draft@);
            }
            events.push(
                self.event_row(cmd, draft, first + i as u64, accepted.minted + 1 + i as u64),
            );
            i += 1;
        }
        let count: u64 = accepted.events.len() as u64;
        proof {
            assert(events@.map_values(|e: EventRecord| e@) =~= wanted);
        }
        let cursors = if count == 0 {
            None
        } else {
            Some((first, first + (count - 1)))
        };
        let result = to_value(&accepted.result);
        let text = text_of_value(&result);
        let receipt = properties(cmd, "completed", text, cursors);
        self.mint_seq = self.mint_seq + accepted.minted + count;
        self.store.next_cursor = first + count;
        Staged::Commit { plan: accepted.plan, events, receipt, result }
    }

    /// Finishes a staged command with the engine's answer. A failed commit poisons the funnel.
    pub fn finish(&mut self, staged: Staged, outcome: CommitOutcome) -> (r: Submission)
        requires
            finishable(old(self)@, staged@),
        ensures
            final(self)@ == after_commit(old(self)@, staged@, outcome),
            r@ == answer_after(staged@, outcome),
    {
        match staged {
            Staged::Answer(answer) => answer,
            Staged::Refusal { receipt, kind, detail } => {
                match outcome {
                    CommitOutcome::Committed => {
                        let key = receipt.receipt_key.clone();
                        self.store.tables.receipts.set(&key, receipt);
                    },
                    CommitOutcome::PlanFailed(_) | CommitOutcome::StagingFailed(_) => {},
                    CommitOutcome::CommitFailed(e) => {
                        self.gate = Some(e);
                    },
                    CommitOutcome::CommitUnknown(e) => {
                        self.gate = Some(e);
                    },
                }
                Submission::Rejected { kind, detail, replayed: false }
            },
            Staged::Commit { plan, events, receipt, result } => {
                match outcome {
                    CommitOutcome::Committed => {
                        self.store.tables.apply(&plan);
                        let key = receipt.receipt_key.clone();
                        self.store.tables.receipts.set(&key, receipt);
                        let mut events = events;
                        let ghost before = self.store.tables.events@;
                        let ghost added = events@;
                        self.store.tables.events.append(&mut events);
                        proof {
                            assert(self.store.tables.events@.map_values(|e: EventRecord| e@)
                                =~= before.map_values(|e: EventRecord| e@) + added.map_values(
                                |e: EventRecord| e@,
                            ));
                        }
                        Submission::Completed { result }
                    },
                    CommitOutcome::PlanFailed(detail) => {
                        let n: u64 = events.len() as u64;
                        self.mint_seq = self.mint_seq - n;
                        self.store.next_cursor = self.store.next_cursor - n;
                        Submission::Rejected { kind: ErrorKind::Internal, detail, replayed: false }
                    },
                    CommitOutcome::StagingFailed(detail) => Submission::Rejected {
                        kind: ErrorKind::Internal,
                        detail,
                        replayed: false,
                    },
                    CommitOutcome::CommitFailed(e) => {
                        let mut detail = "commit outcome uncertain: ".to_owned();
                        detail.append(&e);
                        self.gate = Some(e);
                        Submission::Rejected {
                            kind: ErrorKind::OutcomeUnknown,
                            detail,
                            replayed: false,
                        }
                    },
                    CommitOutcome::CommitUnknown(e) => {
                        let mut detail = "commit outcome uncertain: ".to_owned();
                        detail.append(&e);
                        self.gate = Some(e);
                        Submission::Rejected {
                            kind: ErrorKind::OutcomeUnknown,
                            detail,
                            replayed: false,
                        }
                    },
                }
            },
        }
    }

    /// Submits a command whose transaction, if it has one, ends as `outcome` says.
    pub fn submit(&mut self, cmd: &Command, outcome: CommitOutcome) -> (r: Submission)
        requires
            has_room(old(self)@),
        ensures
            final(self)@ == after_commit(
                after_staging(old(self)@, *cmd),
                staged(old(self)@, *cmd),
                outcome,
            ),
            r@ == answer_after(staged(old(self)@, *cmd), outcome),
            reads_back(staged(old(self)@, *cmd)),
    {
        let staged = self.stage(cmd);
        self.finish(staged, outcome)
    }
}


// --- Keyed refusals ------------------------------------------------------------------------------

/// What a refusal from outside stages: it is kept under the command's key, unless the funnel
/// is poisoned or the key is taken.
pub open spec fn staged_refusal(
    f: FunnelView,
    cmd: Command,
    kind: ErrorKind,
    detail: Seq<char>,
) -> StagedView {
    match f.gate {
        Some(poison) => StagedView::Answer(poisoned(poison)),
        None => match lookup(f.store.tables.receipts, receipt_key_of(cmd)) {
            Some(row) => StagedView::Answer(row_answer(cmd, row)),
            None => StagedView::Refusal {
                receipt: receipt_row_of(
                    cmd,
                    "rejected"@,
                    json_text(refusal_value(kind, bounded(detail))),
                    None,
                ),
                kind,
                detail: bounded(detail),
            },
        },
    }
}

/// The funnel after the engine's answer to a refusal from outside: only an uncertain commit
/// poisons it.
pub open spec fn after_refusal(f: FunnelView, s: StagedView, outcome: CommitOutcome) -> FunnelView {
    match (s, outcome) {
        (StagedView::Refusal { receipt, .. }, CommitOutcome::Committed) => with_tables(
            f,
            TablesView {
                receipts: upsert(f.store.tables.receipts, receipt.receipt_key, receipt),
                ..f.store.tables
            },
        ),
        (StagedView::Refusal { .. }, CommitOutcome::CommitUnknown(e)) => FunnelView {
            gate: Some(e@),
            ..f
        },
        _ => f,
    }
}

/// The answer to a refusal from outside: the refusal itself, unless it is known not to be
/// durable.
pub open spec fn refusal_answer(s: StagedView, outcome: CommitOutcome) -> SubmissionView {
    match s {
        StagedView::Refusal { kind, detail, .. } => match outcome {
            CommitOutcome::PlanFailed(e) | CommitOutcome::StagingFailed(e) => refused(
                ErrorKind::Internal,
                "cannot stage protocol rejection: "@ + e@,
                false,
            ),
            CommitOutcome::CommitFailed(_) => refused(
                ErrorKind::Internal,
                "protocol rejection commit failed before durability"@,
                false,
            ),
            _ => refused(kind, detail, false),
        },
        StagedView::Answer(a) => a,
        StagedView::Commit { result, .. } => SubmissionView::Completed { result },
    }
}

impl Funnel {
    /// Stages a refusal that was decided outside the funnel.
    pub fn stage_refusal(&self, cmd: &Command, kind: ErrorKind, detail: &str) -> (r: Staged)
        ensures
            r@ == staged_refusal(self@, *cmd, kind, detail@),
            finishable(self@, r@),
            reads_back(r@),
    {
        if let Some(poison) = &self.gate {
            let mut text = "funnel poisoned by uncertain commit: ".to_owned();
            text.append(poison);
            return Staged::Answer(
                Submission::Rejected { kind: ErrorKind::Unavailable, detail: text, replayed: false },
            );
        }
        let key = receipt_key(cmd);
        if let Some(row) = self.store.tables.receipts.get(&key) {
            let stored = StoredReceipt {
                request_digest: Some(row.request_digest.clone()),
                principal_kind: Some(row.principal_kind.clone()),
                principal_id: Some(row.principal_id.clone()),
                status: Some(row.status.clone()),
                result: Some(row.result.clone()),
            };
            return Staged::Answer(replay_stored(cmd, Some(stored)));
        }
        let detail = bounded_detail(detail);
        let text = refusal_text(kind, &detail);
        let receipt = properties(cmd, "rejected", text, None);
        Staged::Refusal { receipt, kind, detail }
    }

    /// Finishes a refusal from outside with the engine's answer.
    pub fn finish_refusal(&mut self, staged: Staged, outcome: CommitOutcome) -> (r: Submission)
        ensures
            final(self)@ == after_refusal(old(self)@, staged@, outcome),
            r@ == refusal_answer(staged@, outcome),
    {
        match staged {
            Staged::Answer(answer) => answer,
            Staged::Commit { result, .. } => Submission::Completed { result },
            Staged::Refusal { receipt, kind, detail } => {
                match outcome {
                    CommitOutcome::Committed => {
                        let key = receipt.receipt_key.clone();
                        self.store.tables.receipts.set(&key, receipt);
                    },
                    CommitOutcome::PlanFailed(e) | CommitOutcome::StagingFailed(e) => {
                        let mut text = "cannot stage protocol rejection: ".to_owned();
                        text.append(&e);
                        return Submission::Rejected {
                            kind: ErrorKind::Internal,
                            detail: text,
                            replayed: false,
                        };
                    },
                    CommitOutcome::CommitFailed(_) => {
                        return Submission::Rejected {
                            kind: ErrorKind::Internal,
                            detail: "protocol rejection commit failed before durability".to_owned(),
                            replayed: false,
                        };
                    },
                    CommitOutcome::CommitUnknown(e) => {
                        self.gate = Some(e);
                    },
                }
                Submission::Rejected { kind, detail, replayed: false }
            },
        }
    }

    /// Keeps a refusal that was decided outside the funnel under the command's key.
    pub fn reject_keyed(
        &mut self,
        cmd: &Command,
        kind: ErrorKind,
        detail: &str,
        outcome: CommitOutcome,
    ) -> (r: Submission)
        ensures
            final(self)@ == after_refusal(
                old(self)@,
                staged_refusal(old(self)@, *cmd, kind, detail@),
                outcome,
            ),
            r@ == refusal_answer(staged_refusal(old(self)@, *cmd, kind, detail@), outcome),
    {
        let staged = self.stage_refusal(cmd, kind, detail);
        self.finish_refusal(staged, outcome)
    }
}

} // verus!
