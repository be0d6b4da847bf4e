//! Requests: how the adapter starts, in which order it judges a command, and how a request
//! crosses the JSON boundary.
use crate::error::ErrorKind as KernelErrorKind;
use crate::funnel::command as kernel;
use crate::funnel::submit::{
    after_commit, after_refusal, after_staging, answer_after, finishable, has_room,
    refusal_answer, staged, staged_refusal, CommitOutcome, Staged, StagedView,
};
use crate::funnel::{Funnel, FunnelView};
use crate::ids::Digest;
use crate::json::{from_value, json_text, read_bytes, reading_of, text_of_value};
use crate::protocol::adapter::{
    adapter_ok, digest_fault, error_of, protocol_error, rejection_of, rejection_receipt,
    validate_request_digest, AdapterView, InProcessAdapter,
};
use crate::protocol::event::project;
use crate::protocol::numbers::{numbers_safe, validate_numbers, MAX_DEPTH};
use crate::protocol::project::{receipt_of, with_poison};
use crate::protocol::stream::{closed, polled, published_through, resumed, subscribed};
use crate::protocol::subscription::{projected, DurableSubscription, DurableSubscriptionView};
use crate::protocol::translate::{
    envelope_fault, into_funnel, is_refusal_of, is_translation, refusal_command, translation_fault,
    validate_envelope,
};
use crate::protocol::types::{
    ClientMessage, ClientMessageView, Command, CommandBody, CommandView, DecimalU64, Error,
    ErrorKind, ErrorView, Event, Receipt, ReceiptView, ScopeKind, ServerMessage, ServerMessageView,
    SubscriptionOpened, SubscriptionPoll, SubscriptionPollView,
};
use crate::protocol::wire::{
    client_tree, client_value, decode_client_message, encodable, encode_server_message,
    error_encodable, is_client_message, reads_as, receipt_encodable, server_tree,
    validate_wire_limits, wire_fault, WireLimitError, WireLimitErrorView,
};
use crate::store::{
    internal_form, internal_text, is_owned, later, max_cursor, AttemptTokenClaims,
    AttemptTokenClaimsView, EventRecord, EventRecordView,
};
use crate::table::{lookup, Table};
use crate::text::{dec, decimal, same};
use vstd::prelude::*;
use vstd::string::*;
use vstd::utf8::encode_utf8;

verus! {

// --- Starting ------------------------------------------------------------------------------------

/// Why the first of the first `n` records that do not project does not.
pub open spec fn first_fault(records: Seq<EventRecordView>, n: nat) -> Option<Seq<char>>
    decreases n,
{
    if n == 0 {
        None
    } else {
        match first_fault(records, (n - 1) as nat) {
            Some(e) => Some(e),
            None => match projected(records[n - 1]) {
                Err(detail) => Some(detail),
                Ok(_) => None,
            },
        }
    }
}

proof fn first_fault_stays(records: Seq<EventRecordView>, i: nat, n: nat)
    requires
        i <= n,
        first_fault(records, i) is Some,
    ensures
        first_fault(records, n) == first_fault(records, i),
    decreases n - i,
{
    if i < n {
        first_fault_stays(records, i + 1, n);
    }
}

/// Whether every event of a funnel's journal is owned by the receipt that it names.
pub open spec fn all_owned(f: FunnelView) -> bool {
    forall|i: int|
        0 <= i < f.store.tables.events.len() ==> is_owned(
            f.store.tables.receipts,
            #[trigger] f.store.tables.events[i],
        )
}

/// Why an adapter does not start over a funnel.
pub open spec fn start_fault(f: FunnelView, project_id: Seq<char>) -> Option<ErrorView> {
    let records = later(f.store.tables.events, 0);
    if f.store.project != project_id {
        Some(
            error_of(
                ErrorKind::InvalidRequest,
                "adapter project must match the durable control graph"@,
            ),
        )
    } else {
        match first_fault(records, records.len()) {
            Some(detail) => Some(error_of(ErrorKind::Internal, detail)),
            None => if !all_owned(f) {
                Some(
                    error_of(
                        ErrorKind::Internal,
                        "durable event ownership is invalid: "@ + internal_form(
                            "event is not owned by its receipt"@,
                        ),
                    ),
                )
            } else {
                None
            },
        }
    }
}

impl InProcessAdapter {
    /// Starts an adapter over a funnel, with the key under which tokens are sealed. The project
    /// must be the funnel's, every durable event must project, and every event must be owned by
    /// its receipt.
    pub fn new(funnel: Funnel, project_id: &str, token_key: [u8; 32]) -> (r: Result<Self, Error>)
        ensures
            match r {
                Ok(a) => {
                    &&& start_fault(funnel@, project_id@) is None
                    &&& adapter_ok(a@)
                    &&& a@ == AdapterView {
                        funnel: funnel@,
                        project_id: project_id@,
                        token_key: token_key@,
                        by_token: Seq::empty(),
                        by_unit: Seq::empty(),
                        subscriptions: Seq::empty(),
                        next_subscription_id: 0,
                        published_cursor: max_cursor(funnel@.store.tables.events),
                    }
                },
                Err(e) => start_fault(funnel@, project_id@) == Some(e@),
            },
    {
        if !same(funnel.store.project_id(), project_id) {
            return Err(
                protocol_error(
                    ErrorKind::InvalidRequest,
                    "adapter project must match the durable control graph",
                ),
            );
        }
        let count: usize = funnel.store.tables.events.len();
        let records = funnel.store.events_after_limit(0, count);
        let ghost list = records@.map_values(|e: EventRecord| e@);
        proof {
            assert(list.len() == records.len());
            crate::store::later_is_no_longer(funnel@.store.tables.events, 0);
        }
        let mut i: usize = 0;
        while i < records.len()
            invariant
                i <= records.len(),
                list.len() == records.len(),
                list == records@.map_values(|e: EventRecord| e@),
                list == later(funnel@.store.tables.events, 0),
                funnel@.store.project == project_id@,
                first_fault(list, i as nat) is None,
            decreases records.len() - i,
        {
            proof {
                assert(list[i as int] == records@[i as int]@);
            }
            if let Err(detail) = project(&records[i]) {
                proof {
                    first_fault_stays(list, (i + 1) as nat, list.len());
                }
                return Err(protocol_error(ErrorKind::Internal, &detail));
            }
            i += 1;
        }
        if let Err(e) = funnel.store.validate_event_receipts() {
            let mut detail = "durable event ownership is invalid: ".to_owned();
            detail.append(&internal_text(&e));
            return Err(protocol_error(ErrorKind::Internal, &detail));
        }
        let published_cursor: u64 = funnel.store.latest_cursor();
        let subscriptions: Vec<DurableSubscription> = Vec::new();
        let a = InProcessAdapter {
            funnel,
            project_id: project_id.to_owned(),
            token_key,
            by_token: Table::new(),
            by_unit: Table::new(),
            subscriptions,
            next_subscription_id: 0,
            published_cursor,
        };
        proof {
            assert(a@.subscriptions =~= Seq::<DurableSubscriptionView>::empty());
        }
        Ok(a)
    }
}

// --- Commands ------------------------------------------------------------------------------------

/// The claims that the token of a command stands for.
pub open spec fn resolved(a: AdapterView, c: CommandView) -> Result<
    Option<AttemptTokenClaimsView>,
    Seq<char>,
> {
    match c.attempt_token {
        None => Ok(None),
        Some(token) => match lookup(a.by_token, token) {
            Some(claims) => Ok(Some(claims)),
            None => Err("attempt_token is stale or unresolvable"@),
        },
    }
}

/// Whether a token is sealed for another unit than the one that a command names.
pub open spec fn is_foreign(c: CommandView, claims: AttemptTokenClaimsView) -> bool {
    ||| c.scope.scope_kind != ScopeKind::Unit
    ||| c.scope.scope_id != claims.unit_id
    ||| c.target.aggregate_kind != "unit"@
    ||| c.target.aggregate_id != claims.unit_id
    ||| !(c.body is ProgressReport && c.body->ProgressReport_0.unit_id == claims.unit_id)
}

/// What becomes of a command.
pub enum RouteView {
    /// It is refused, and nothing is recorded.
    Refuse { kind: ErrorKind, detail: Seq<char> },
    /// It is refused as invalid, and the refusal is recorded under its key.
    Keyed { claims: Option<AttemptTokenClaimsView>, detail: Seq<char> },
    /// It goes to the funnel.
    Submit { claims: Option<AttemptTokenClaimsView> },
}

/// The claims that make the sender of a holder command known, as far as they resolve.
pub open spec fn known_claims(a: AdapterView, c: CommandView) -> Option<AttemptTokenClaimsView> {
    if c.body is ProgressReport {
        match resolved(a, c) {
            Ok(claims) => claims,
            Err(_) => None,
        }
    } else {
        None
    }
}

/// What becomes of a command whose envelope is refused: a refusal is recorded only where the
/// sender is known, and a token for another unit is a fence.
pub open spec fn envelope_route(a: AdapterView, c: CommandView, detail: Seq<char>) -> RouteView {
    let claims = known_claims(a, c);
    if claims is Some && is_foreign(c, claims->0) {
        RouteView::Refuse {
            kind: ErrorKind::FenceRejected,
            detail: "attempt_token is sealed for another unit"@,
        }
    } else if !(c.body is ProgressReport) || claims is Some {
        RouteView::Keyed { claims, detail }
    } else {
        RouteView::Refuse { kind: ErrorKind::InvalidRequest, detail }
    }
}

/// Why the authority epoch of a command is refused. A command in the global scope has none to
/// match.
pub open spec fn epoch_fault(a: AdapterView, c: CommandView) -> Option<(ErrorKind, Seq<char>)> {
    if c.scope.scope_kind == ScopeKind::Global {
        None
    } else {
        match c.authority_epoch {
            None => Some(
                (ErrorKind::InvalidRequest, "control-graph command requires authority_epoch"@),
            ),
            Some(epoch) => if epoch == a.funnel.store.epoch.0 {
                None
            } else {
                Some(
                    (
                        ErrorKind::FenceRejected,
                        "authority epoch "@ + dec(epoch as nat) + " does not match current "@
                            + dec(a.funnel.store.epoch.0 as nat),
                    ),
                )
            },
        }
    }
}

/// What becomes of a command whose digest, epoch and envelope are good.
pub open spec fn scoped_route(a: AdapterView, c: CommandView) -> RouteView {
    let foreign = c.scope.scope_id != a.project_id;
    if c.body is WorkItemCreate && (c.scope.scope_kind != ScopeKind::Project || foreign) {
        RouteView::Keyed {
            claims: None,
            detail: "work_item.create requires the current project receipt scope"@,
        }
    } else if c.scope.scope_kind == ScopeKind::Project && foreign {
        RouteView::Keyed {
            claims: None,
            detail: "command scope does not match the control graph project"@,
        }
    } else {
        match resolved(a, c) {
            Err(detail) => RouteView::Refuse { kind: ErrorKind::FenceRejected, detail },
            Ok(claims) => match translation_fault(c) {
                Some(detail) => RouteView::Keyed { claims, detail },
                None => RouteView::Submit { claims },
            },
        }
    }
}

/// What becomes of a command: its digest, its epoch, its envelope, its scope, its token and its
/// translation are judged in this order.
pub open spec fn route_of(a: AdapterView, c: CommandView) -> RouteView {
    match digest_fault(c) {
        Some(detail) => RouteView::Refuse { kind: ErrorKind::InvalidRequest, detail },
        None => match epoch_fault(a, c) {
            Some(fault) => RouteView::Refuse { kind: fault.0, detail: fault.1 },
            None => match envelope_fault(c) {
                Some(detail) => envelope_route(a, c, detail),
                None => scoped_route(a, c),
            },
        },
    }
}

/// What becomes of a command, with the command that the funnel gets.
#[derive(Debug)]
pub enum Route {
    Refuse { kind: ErrorKind, detail: String },
    Keyed { command: kernel::Command, detail: String },
    Submit { command: kernel::Command },
}

/// Whether a route is the one that a command takes.
pub open spec fn takes(a: AdapterView, c: CommandView, r: Route) -> bool {
    match (route_of(a, c), r) {
        (RouteView::Refuse { kind, detail }, Route::Refuse { kind: k, detail: d }) => kind == k
            && detail == d@,
        (RouteView::Keyed { claims, detail }, Route::Keyed { command, detail: d }) => detail == d@
            && is_refusal_of(command, c, claims),
        (RouteView::Submit { claims }, Route::Submit { command }) => is_translation(
            command,
            c,
            claims,
        ),
        _ => false,
    }
}

/// The receipt of a command that took a route, and the adapter then.
pub open spec fn routed(a: AdapterView, c: CommandView, r: Route, outcome: CommitOutcome) -> (
    ReceiptView,
    AdapterView,
) {
    match r {
        Route::Refuse { kind, detail } => (rejection_of(c, kind, detail@), a),
        Route::Keyed { command, detail } => {
            let s = staged_refusal(
                a.funnel,
                command,
                KernelErrorKind::InvalidRequest,
                detail@,
            );
            receipt_of(
                AdapterView { funnel: after_refusal(a.funnel, s, outcome), ..a },
                c,
                refusal_answer(s, outcome),
            )
        },
        Route::Submit { command } => {
            let s = staged(a.funnel, command);
            let (receipt, b) = receipt_of(
                AdapterView {
                    funnel: after_commit(after_staging(a.funnel, command), s, outcome),
                    ..a
                },
                c,
                answer_after(s, outcome),
            );
            if receipt.event_cursors.len() > 0 {
                (receipt, published_through(b, receipt.event_cursors.last()))
            } else {
                (receipt, b)
            }
        },
    }
}

/// A command that was begun.
#[derive(Debug)]
pub enum Pending {
    Refuse { kind: ErrorKind, detail: String },
    /// A refusal that is recorded under the command's key.
    Keyed(Staged),
    Submit(Staged),
}

/// The view of a `Pending`.
pub enum PendingView {
    Refuse { kind: ErrorKind, detail: Seq<char> },
    Keyed(StagedView),
    Submit(StagedView),
}

impl View for Pending {
    type V = PendingView;

    open spec fn view(&self) -> PendingView {
        match self {
            Pending::Refuse { kind, detail } => PendingView::Refuse {
                kind: *kind,
                detail: detail@,
            },
            Pending::Keyed(s) => PendingView::Keyed(s@),
            Pending::Submit(s) => PendingView::Submit(s@),
        }
    }
}

/// Whether a command on a route begins as a pending one, and the adapter then.
pub open spec fn begins(a: AdapterView, r: Route, p: PendingView, b: AdapterView) -> bool {
    match r {
        Route::Refuse { kind, detail } => p == (PendingView::Refuse { kind, detail: detail@ }) && b
            == a,
        Route::Keyed { command, detail } => p == PendingView::Keyed(
            staged_refusal(a.funnel, command, KernelErrorKind::InvalidRequest, detail@),
        ) && b == a,
        Route::Submit { command } => p == PendingView::Submit(staged(a.funnel, command)) && b == (
        AdapterView { funnel: after_staging(a.funnel, command), ..a }),
    }
}

/// The receipt of a pending command, and the adapter then.
pub open spec fn finished(
    a: AdapterView,
    c: CommandView,
    p: PendingView,
    outcome: CommitOutcome,
) -> (ReceiptView, AdapterView) {
    match p {
        PendingView::Refuse { kind, detail } => (rejection_of(c, kind, detail), a),
        PendingView::Keyed(s) => receipt_of(
            AdapterView { funnel: after_refusal(a.funnel, s, outcome), ..a },
            c,
            refusal_answer(s, outcome),
        ),
        PendingView::Submit(s) => {
            let (receipt, b) = receipt_of(
                AdapterView { funnel: after_commit(a.funnel, s, outcome), ..a },
                c,
                answer_after(s, outcome),
            );
            if receipt.event_cursors.len() > 0 {
                (receipt, published_through(b, receipt.event_cursors.last()))
            } else {
                (receipt, b)
            }
        },
    }
}

/// Whether a receipt and an adapter are what a command leads to.
pub open spec fn command_leads_to(
    a: AdapterView,
    c: CommandView,
    outcome: CommitOutcome,
    receipt: ReceiptView,
    b: AdapterView,
) -> bool {
    exists|r: Route| takes(a, c, r) && (receipt, b) == #[trigger] routed(a, c, r, outcome)
}

proof fn projecting_keeps_subscriptions(
    a: AdapterView,
    c: CommandView,
    s: kernel::SubmissionView,
)
    ensures
        receipt_of(a, c, s).1.subscriptions == a.subscriptions,
        receipt_of(a, c, s).1.next_subscription_id == a.next_subscription_id,
{
}

fn keyed(
    c: &Command,
    digest: Digest,
    claims: Option<AttemptTokenClaims>,
    detail: String,
) -> (r: Route)
    requires
        digest@ == c@.request_digest,
    ensures
        r is Keyed,
        r->Keyed_detail@ == detail@,
        is_refusal_of(
            r->Keyed_command,
            c@,
            match claims {
                Some(t) => Some(t@),
                None => None,
            },
        ),
{
    Route::Keyed { command: refusal_command(c, digest, claims), detail }
}

impl InProcessAdapter {
    fn resolve_token(&self, c: &Command) -> (r: Result<Option<AttemptTokenClaims>, String>)
        ensures
            match r {
                Ok(Some(t)) => resolved(self@, c@) == Ok::<
                    Option<AttemptTokenClaimsView>,
                    Seq<char>,
                >(Some(t@)),
                Ok(None) => resolved(self@, c@) == Ok::<Option<AttemptTokenClaimsView>, Seq<char>>(
                    None,
                ),
                Err(e) => resolved(self@, c@) == Err::<Option<AttemptTokenClaimsView>, Seq<char>>(
                    e@,
                ),
            },
    {
        match &c.attempt_token {
            None => Ok(None),
            Some(token) => match self.by_token.get(token) {
                Some(claims) => Ok(Some(claims.clone())),
                None => Err("attempt_token is stale or unresolvable".to_owned()),
            },
        }
    }

    fn route_envelope(&self, c: &Command, digest: Digest, detail: String) -> (r: Route)
        requires
            digest@ == c@.request_digest,
            digest_fault(c@) is None,
            epoch_fault(self@, c@) is None,
            envelope_fault(c@) == Some(detail@),
        ensures
            takes(self@, c@, r),
    {
        let holder = matches!(c.body, CommandBody::ProgressReport(_));
        if !holder {
            return keyed(c, digest, None, detail);
        }
        let claims = match self.resolve_token(c) {
            Ok(claims) => claims,
            Err(_) => None,
        };
        match claims {
            None => Route::Refuse { kind: ErrorKind::InvalidRequest, detail },
            Some(t) => {
                let unit_matches = match &c.body {
                    CommandBody::ProgressReport(p) => same(&p.unit_id, &t.unit_id),
                    _ => false,
                };
                if c.scope.scope_kind != ScopeKind::Unit || !same(&c.scope.scope_id, &t.unit_id)
                    || !same(&c.target.aggregate_kind, "unit") || !same(
                    &c.target.aggregate_id,
                    &t.unit_id,
                ) || !unit_matches {
                    return Route::Refuse {
                        kind: ErrorKind::FenceRejected,
                        detail: "attempt_token is sealed for another unit".to_owned(),
                    };
                }
                keyed(c, digest, Some(t), detail)
            },
        }
    }

    fn route_scope(&self, c: &Command, digest: Digest) -> (r: Route)
        requires
            digest@ == c@.request_digest,
            digest_fault(c@) is None,
            epoch_fault(self@, c@) is None,
            envelope_fault(c@) is None,
        ensures
            takes(self@, c@, r),
    {
        let foreign = !same(&c.scope.scope_id, &self.project_id);
        if matches!(c.body, CommandBody::WorkItemCreate(_)) && (c.scope.scope_kind
            != ScopeKind::Project || foreign) {
            return keyed(
                c,
                digest,
                None,
                "work_item.create requires the current project receipt scope".to_owned(),
            );
        }
        if c.scope.scope_kind == ScopeKind::Project && foreign {
            return keyed(
                c,
                digest,
                None,
                "command scope does not match the control graph project".to_owned(),
            );
        }
        let claims = match self.resolve_token(c) {
            Ok(claims) => claims,
            Err(detail) => {
                return Route::Refuse { kind: ErrorKind::FenceRejected, detail };
            },
        };
        match into_funnel(c, digest.clone(), claims.clone()) {
            Ok(command) => Route::Submit { command },
            Err(detail) => keyed(c, digest, claims, detail),
        }
    }

    /// Decides what becomes of a command.
    pub fn route(&self, c: &Command) -> (r: Route)
        ensures
            takes(self@, c@, r),
    {
        let digest = match validate_request_digest(c) {
            Ok(d) => d,
            Err(detail) => {
                return Route::Refuse { kind: ErrorKind::InvalidRequest, detail };
            },
        };
        if c.scope.scope_kind != ScopeKind::Global {
            let current: u64 = self.funnel.store.authority_epoch().0;
            match &c.authority_epoch {
                None => {
                    return Route::Refuse {
                        kind: ErrorKind::InvalidRequest,
                        detail: "control-graph command requires authority_epoch".to_owned(),
                    };
                },
                Some(epoch) => {
                    if epoch.get() != current {
                        let mut detail = "authority epoch ".to_owned();
                        detail.append(&decimal(epoch.get()));
                        detail.append(" does not match current ");
                        detail.append(&decimal(current));
                        return Route::Refuse { kind: ErrorKind::FenceRejected, detail };
                    }
                },
            }
        }
        if let Err(detail) = validate_envelope(c) {
            return self.route_envelope(c, digest, detail);
        }
        self.route_scope(c, digest)
    }

    /// Begins a command: decides what becomes of it and stages what it writes. What is staged is
    /// committed by the durable engine, and its answer finishes the command.
    pub fn begin_command(&mut self, c: &Command) -> (r: Pending)
        requires
            adapter_ok(old(self)@),
            has_room(old(self)@.funnel),
        ensures
            exists|route: Route| #[trigger]
                takes(old(self)@, c@, route) && begins(old(self)@, route, r@, final(self)@),
            r@ is Submit ==> finishable(final(self)@.funnel, r@->Submit_0),
            adapter_ok(final(self)@),
    {
        let ghost a = self@;
        let route = self.route(c);
        let ghost taken = route;
        let pending = match route {
            Route::Refuse { kind, detail } => Pending::Refuse { kind, detail },
            Route::Keyed { command, detail } => Pending::Keyed(
                self.funnel.stage_refusal(&command, KernelErrorKind::InvalidRequest, &detail),
            ),
            Route::Submit { command } => Pending::Submit(self.funnel.stage(&command)),
        };
        proof {
            assert(takes(a, c@, taken));
            assert(begins(a, taken, pending@, self@));
        }
        pending
    }

    /// Finishes a command with the answer of the durable engine.
    pub fn finish_command(&mut self, c: &Command, pending: Pending, outcome: CommitOutcome) -> (r:
        Receipt)
        requires
            adapter_ok(old(self)@),
            pending@ is Submit ==> finishable(old(self)@.funnel, pending@->Submit_0),
        ensures
            (r@, final(self)@) == finished(old(self)@, c@, pending@, outcome),
            receipt_encodable(r@),
            adapter_ok(final(self)@),
    {
        match pending {
            Pending::Refuse { kind, detail } => rejection_receipt(c, kind, &detail),
            Pending::Keyed(staged) => {
                let submission = self.funnel.finish_refusal(staged, outcome);
                proof {
                    projecting_keeps_subscriptions(self@, c@, submission@);
                }
                self.project_submission(c, submission)
            },
            Pending::Submit(staged) => {
                let submission = self.funnel.finish(staged, outcome);
                proof {
                    projecting_keeps_subscriptions(self@, c@, submission@);
                }
                let r = self.project_submission(c, submission);
                if r.event_cursors.len() > 0 {
                    let last: u64 = r.event_cursors[r.event_cursors.len() - 1].get();
                    proof {
                        assert(r@.event_cursors.last() == last);
                    }
                    self.publish_through(last);
                }
                r
            },
        }
    }

    /// Answers a command whose transaction, if it has one, ends as `outcome` says.
    pub fn handle_command(&mut self, c: &Command, outcome: CommitOutcome) -> (r: Receipt)
        requires
            adapter_ok(old(self)@),
            has_room(old(self)@.funnel),
        ensures
            command_leads_to(old(self)@, c@, outcome, r@, final(self)@),
            receipt_encodable(r@),
            adapter_ok(final(self)@),
    {
        let ghost a = self@;
        let pending = self.begin_command(c);
        let ghost begun = pending@;
        let ghost b = self@;
        let r = self.finish_command(c, pending, outcome);
        proof {
            let route = choose|route: Route| #[trigger]
                takes(a, c@, route) && begins(a, route, begun, b);
            assert((r@, self@) == routed(a, c@, route, outcome));
        }
        r
    }
}

/// A poisoned funnel answers no command with success.
pub proof fn poisoned_adapters_complete_nothing(
    a: AdapterView,
    c: CommandView,
    outcome: CommitOutcome,
    receipt: ReceiptView,
    b: AdapterView,
)
    requires
        a.funnel.gate is Some,
        command_leads_to(a, c, outcome, receipt, b),
    ensures
        receipt.outcome == crate::protocol::types::ReceiptOutcome::Rejected,
        receipt.error is Some,
        receipt.result is None,
        b.funnel == a.funnel,
{
}

/// A command whose digest does not match what it asks for is refused before anything else, and
/// changes nothing.
pub proof fn forged_digests_change_nothing(
    a: AdapterView,
    c: CommandView,
    outcome: CommitOutcome,
    receipt: ReceiptView,
    b: AdapterView,
)
    requires
        c.request_digest != crate::protocol::adapter::digest_of(c),
        command_leads_to(a, c, outcome, receipt, b),
    ensures
        b == a,
        receipt.outcome == crate::protocol::types::ReceiptOutcome::Rejected,
        receipt.error is Some && receipt.error->0.kind == ErrorKind::InvalidRequest,
{
    assert(digest_fault(c) is Some);
}

// --- Requests ------------------------------------------------------------------------------------

/// Whether an answer and an adapter are what a request leads to.
pub open spec fn leads_to(
    a: AdapterView,
    m: ClientMessageView,
    outcome: CommitOutcome,
    answer: ServerMessageView,
    b: AdapterView,
) -> bool {
    match m {
        ClientMessageView::Command(c) => answer is Receipt && command_leads_to(
            a,
            c,
            outcome,
            answer->Receipt_0,
            b,
        ),
        ClientMessageView::Resume { project_id, after_cursor } => (answer, b) == resumed(
            a,
            project_id,
            after_cursor,
        ),
        ClientMessageView::Subscribe { project_id, after_cursor } => (answer, b) == subscribed(
            a,
            project_id,
            after_cursor,
        ),
        ClientMessageView::SubscriptionPoll { subscription_id } => (answer, b) == polled(
            a,
            subscription_id,
        ),
        ClientMessageView::SubscriptionClose { subscription_id } => (answer, b) == closed(
            a,
            subscription_id,
        ),
    }
}

/// The words of the strict reader, where it has any; these otherwise.
pub open spec fn in_words(reader: Result<(), String>, own: Seq<char>) -> Seq<char> {
    match reader {
        Ok(()) => own,
        Err(e) => e@,
    }
}

/// The error that a request is answered with before it is handled: a limit, or a text that is no
/// message. `reader` is what the strict reader of messages says of the text: it refuses a name
/// that occurs twice, and puts every other fault in its own words.
pub open spec fn request_fault(bytes: Seq<u8>, reader: Result<(), String>) -> Option<ErrorView> {
    match wire_fault(bytes) {
        Some(WireLimitErrorView::Frame) => Some(
            error_of(ErrorKind::PayloadTooLarge, "encoded protocol frame exceeds its limit"@),
        ),
        Some(WireLimitErrorView::Command) => Some(
            error_of(ErrorKind::PayloadTooLarge, "encoded command exceeds 1 MiB"@),
        ),
        Some(WireLimitErrorView::Payload) => Some(
            error_of(ErrorKind::PayloadTooLarge, "encoded command payload exceeds 256 KiB"@),
        ),
        Some(WireLimitErrorView::Invalid(e)) => Some(invalid_message(in_words(reader, e))),
        None => match reading_of(bytes, MAX_DEPTH as nat) {
            Err(e) => Some(invalid_message(in_words(reader, e))),
            Ok(tree) => match reader {
                Err(e) => Some(invalid_message(e@)),
                Ok(()) => if !numbers_safe(tree, MAX_DEPTH as nat) {
                    Some(
                        invalid_message(
                            "JSON integer exceeds the I-JSON safe range; encode it as a string"@,
                        ),
                    )
                } else if !is_client_message(tree) {
                    Some(invalid_message("wrong shape"@))
                } else {
                    None
                },
            },
        },
    }
}

/// The error of a text that is no message.
pub open spec fn invalid_message(detail: Seq<char>) -> ErrorView {
    error_of(ErrorKind::InvalidRequest, "invalid JSON message: "@ + detail)
}

fn invalid_error(detail: &str) -> (r: Error)
    ensures
        r@ == invalid_message(detail@),
        error_encodable(r@),
{
    let mut s = "invalid JSON message: ".to_owned();
    s.append(detail);
    protocol_error(ErrorKind::InvalidRequest, &s)
}

fn invalid_in_words(reader: &Result<(), String>, own: &str) -> (r: Error)
    ensures
        r@ == invalid_message(in_words(*reader, own@)),
        error_encodable(r@),
{
    match reader {
        Ok(()) => invalid_error(own),
        Err(e) => invalid_error(e),
    }
}

/// Reads a request from its bytes: limits first, then the text, the names, the numbers and the
/// shape.
pub fn read_request(bytes: &[u8], reader: Result<(), String>) -> (r: Result<ClientMessage, Error>)
    ensures
        match r {
            Ok(m) => {
                let tree = reading_of(bytes@, MAX_DEPTH as nat);
                request_fault(bytes@, reader) is None && tree is Ok && reads_as(tree->Ok_0, m@)
            },
            Err(e) => request_fault(bytes@, reader) == Some(e@) && error_encodable(e@),
        },
{
    if let Err(e) = validate_wire_limits(bytes) {
        return Err(
            match e {
                WireLimitError::Frame => protocol_error(
                    ErrorKind::PayloadTooLarge,
                    "encoded protocol frame exceeds its limit",
                ),
                WireLimitError::Command => protocol_error(
                    ErrorKind::PayloadTooLarge,
                    "encoded command exceeds 1 MiB",
                ),
                WireLimitError::Payload => protocol_error(
                    ErrorKind::PayloadTooLarge,
                    "encoded command payload exceeds 256 KiB",
                ),
                WireLimitError::Invalid(detail) => invalid_in_words(&reader, &detail),
            },
        );
    }
    let value = match read_bytes(bytes, MAX_DEPTH) {
        Ok(value) => value,
        Err(e) => {
            return Err(invalid_in_words(&reader, &e));
        },
    };
    if let Err(e) = reader {
        return Err(invalid_error(&e));
    }
    if let Err(e) = validate_numbers(&from_value(&value)) {
        return Err(invalid_error(&e));
    }
    match decode_client_message(&value) {
        Some(m) => Ok(m),
        None => Err(invalid_error("wrong shape")),
    }
}

/// Whether an answer and an adapter are what the bytes of a request lead to.
pub open spec fn bytes_lead_to(
    a: AdapterView,
    bytes: Seq<u8>,
    reader: Result<(), String>,
    outcome: CommitOutcome,
    answer: ServerMessageView,
    b: AdapterView,
) -> bool {
    match request_fault(bytes, reader) {
        Some(e) => answer == ServerMessageView::Error(e) && b == a,
        None => exists|m: ClientMessageView|
            reads_as(reading_of(bytes, MAX_DEPTH as nat)->Ok_0, m) && #[trigger] leads_to(
                a,
                m,
                outcome,
                answer,
                b,
            ),
    }
}

impl InProcessAdapter {
    /// Answers a request.
    pub fn handle(&mut self, m: &ClientMessage, outcome: CommitOutcome) -> (r: ServerMessage)
        requires
            adapter_ok(old(self)@),
            has_room(old(self)@.funnel),
        ensures
            leads_to(old(self)@, m@, outcome, r@, final(self)@),
            encodable(r@),
            adapter_ok(final(self)@),
    {
        match m {
            ClientMessage::Command(c) => ServerMessage::Receipt(self.handle_command(c, outcome)),
            ClientMessage::Resume { project_id, after_cursor } => self.handle_resume(
                project_id,
                after_cursor.get(),
            ),
            ClientMessage::Subscribe { project_id, after_cursor } => self.handle_subscribe(
                project_id,
                after_cursor.get(),
            ),
            ClientMessage::SubscriptionPoll { subscription_id } => self.handle_subscription_poll(
                subscription_id,
            ),
            ClientMessage::SubscriptionClose { subscription_id } => {
                self.handle_subscription_close(subscription_id)
            },
        }
    }

    /// Answers the bytes of a request.
    pub fn handle_bytes(
        &mut self,
        bytes: &[u8],
        reader: Result<(), String>,
        outcome: CommitOutcome,
    ) -> (r: ServerMessage)
        requires
            adapter_ok(old(self)@),
            has_room(old(self)@.funnel),
        ensures
            bytes_lead_to(old(self)@, bytes@, reader, outcome, r@, final(self)@),
            encodable(r@),
            adapter_ok(final(self)@),
    {
        match read_request(bytes, reader) {
            Ok(m) => {
                let ghost a = self@;
                let r = self.handle(&m, outcome);
                proof {
                    assert(leads_to(a, m@, outcome, r@, self@));
                }
                r
            },
            Err(e) => ServerMessage::Error(e),
        }
    }

    /// Answers the bytes of a request with the text of the answer.
    pub fn handle_json(
        &mut self,
        bytes: &[u8],
        reader: Result<(), String>,
        outcome: CommitOutcome,
    ) -> (r: String)
        requires
            adapter_ok(old(self)@),
            has_room(old(self)@.funnel),
        ensures
            exists|answer: ServerMessageView| #[trigger]
                bytes_lead_to(old(self)@, bytes@, reader, outcome, answer, final(self)@) && r@
                    == json_text(server_tree(answer)),
            adapter_ok(final(self)@),
    {
        let ghost a = self@;
        let answer = self.handle_bytes(bytes, reader, outcome);
        proof {
            assert(bytes_lead_to(a, bytes@, reader, outcome, answer@, self@));
        }
        encode_server_message(&answer)
    }

    fn send(&mut self, m: &ClientMessage, outcome: CommitOutcome) -> (r: ServerMessage)
        requires
            adapter_ok(old(self)@),
            has_room(old(self)@.funnel),
        ensures
            bytes_lead_to(
                old(self)@,
                encode_utf8(json_text(client_tree(m@))),
                Ok(()),
                outcome,
                r@,
                final(self)@,
            ),
            encodable(r@),
            adapter_ok(final(self)@),
    {
        let text = text_of_value(&client_value(m));
        self.handle_bytes(text.as_str().as_bytes(), Ok(()), outcome)
    }

    /// Submits a command across the JSON boundary.
    pub fn submit(&mut self, command: Command, outcome: CommitOutcome) -> (r: Result<
        Receipt,
        Error,
    >)
        requires
            adapter_ok(old(self)@),
            has_room(old(self)@.funnel),
        ensures
            exists|answer: ServerMessageView| #[trigger]
                bytes_lead_to(
                    old(self)@,
                    encode_utf8(json_text(client_tree(ClientMessageView::Command(command@)))),
                    Ok(()),
                    outcome,
                    answer,
                    final(self)@,
                ) && receipt_in(answer, r),
            adapter_ok(final(self)@),
    {
        let ghost a = self@;
        let m = ClientMessage::Command(command);
        let answer = self.send(&m, outcome);
        proof {
            assert(bytes_lead_to(
                a,
                encode_utf8(json_text(client_tree(m@))),
                Ok(()),
                outcome,
                answer@,
                self@,
            ));
        }
        match answer {
            ServerMessage::Receipt(receipt) => Ok(receipt),
            ServerMessage::Error(error) => Err(error),
            _ => Err(protocol_error(ErrorKind::Internal, "command returned non-receipt")),
        }
    }

    /// Resumes from a cursor across the JSON boundary.
    pub fn resume(&mut self, after_cursor: u64) -> (r: Result<Vec<Event>, Error>)
        requires
            adapter_ok(old(self)@),
            has_room(old(self)@.funnel),
        ensures
            exists|answer: ServerMessageView| #[trigger]
                bytes_lead_to(
                    old(self)@,
                    encode_utf8(
                        json_text(
                            client_tree(
                                ClientMessageView::Resume {
                                    project_id: old(self)@.project_id,
                                    after_cursor,
                                },
                            ),
                        ),
                    ),
                    Ok(()),
                    CommitOutcome::Committed,
                    answer,
                    final(self)@,
                ) && events_in(answer, r),
            adapter_ok(final(self)@),
    {
        let ghost a = self@;
        let m = ClientMessage::Resume {
            project_id: self.project_id.clone(),
            after_cursor: DecimalU64::new(after_cursor),
        };
        let answer = self.send(&m, CommitOutcome::Committed);
        proof {
            assert(bytes_lead_to(
                a,
                encode_utf8(json_text(client_tree(m@))),
                Ok(()),
                CommitOutcome::Committed,
                answer@,
                self@,
            ));
        }
        match answer {
            ServerMessage::Events(events) => Ok(events),
            ServerMessage::CursorExpired(e) => Err(expired_error(e.min_retained_cursor.get())),
            ServerMessage::Error(error) => Err(error),
            _ => Err(protocol_error(ErrorKind::Internal, "resume returned non-stream response")),
        }
    }

    /// Opens a subscription across the JSON boundary.
    pub fn subscribe(&mut self, after_cursor: u64) -> (r: Result<SubscriptionOpened, Error>)
        requires
            adapter_ok(old(self)@),
            has_room(old(self)@.funnel),
        ensures
            exists|answer: ServerMessageView| #[trigger]
                bytes_lead_to(
                    old(self)@,
                    encode_utf8(
                        json_text(
                            client_tree(
                                ClientMessageView::Subscribe {
                                    project_id: old(self)@.project_id,
                                    after_cursor,
                                },
                            ),
                        ),
                    ),
                    Ok(()),
                    CommitOutcome::Committed,
                    answer,
                    final(self)@,
                ) && opened_in(answer, r),
            adapter_ok(final(self)@),
    {
        let ghost a = self@;
        let m = ClientMessage::Subscribe {
            project_id: self.project_id.clone(),
            after_cursor: DecimalU64::new(after_cursor),
        };
        let answer = self.send(&m, CommitOutcome::Committed);
        proof {
            assert(bytes_lead_to(
                a,
                encode_utf8(json_text(client_tree(m@))),
                Ok(()),
                CommitOutcome::Committed,
                answer@,
                self@,
            ));
        }
        match answer {
            ServerMessage::SubscriptionOpened(opened) => Ok(opened),
            ServerMessage::CursorExpired(e) => Err(expired_error(e.min_retained_cursor.get())),
            ServerMessage::Error(error) => Err(error),
            _ => Err(
                protocol_error(ErrorKind::Internal, "subscribe returned unexpected response"),
            ),
        }
    }

    /// Polls a subscription across the JSON boundary.
    pub fn poll_subscription(&mut self, subscription_id: &str) -> (r: Result<
        SubscriptionPoll,
        Error,
    >)
        requires
            adapter_ok(old(self)@),
            has_room(old(self)@.funnel),
        ensures
            exists|answer: ServerMessageView| #[trigger]
                bytes_lead_to(
                    old(self)@,
                    encode_utf8(
                        json_text(
                            client_tree(
                                ClientMessageView::SubscriptionPoll {
                                    subscription_id: subscription_id@,
                                },
                            ),
                        ),
                    ),
                    Ok(()),
                    CommitOutcome::Committed,
                    answer,
                    final(self)@,
                ) && poll_in(answer, r),
            adapter_ok(final(self)@),
    {
        let ghost a = self@;
        let m = ClientMessage::SubscriptionPoll { subscription_id: subscription_id.to_owned() };
        let answer = self.send(&m, CommitOutcome::Committed);
        proof {
            assert(bytes_lead_to(
                a,
                encode_utf8(json_text(client_tree(m@))),
                Ok(()),
                CommitOutcome::Committed,
                answer@,
                self@,
            ));
        }
        match answer {
            ServerMessage::Event(event) => Ok(SubscriptionPoll::Event(event)),
            ServerMessage::SubscriptionPending(_) => Ok(SubscriptionPoll::Pending),
            ServerMessage::SlowConsumer(condition) => Ok(SubscriptionPoll::SlowConsumer(condition)),
            ServerMessage::Error(error) => Err(error),
            _ => Err(
                protocol_error(
                    ErrorKind::Internal,
                    "subscription poll returned unexpected response",
                ),
            ),
        }
    }

    /// Closes a subscription across the JSON boundary.
    pub fn close_subscription(&mut self, subscription_id: &str) -> (r: Result<(), Error>)
        requires
            adapter_ok(old(self)@),
            has_room(old(self)@.funnel),
        ensures
            exists|answer: ServerMessageView| #[trigger]
                bytes_lead_to(
                    old(self)@,
                    encode_utf8(
                        json_text(
                            client_tree(
                                ClientMessageView::SubscriptionClose {
                                    subscription_id: subscription_id@,
                                },
                            ),
                        ),
                    ),
                    Ok(()),
                    CommitOutcome::Committed,
                    answer,
                    final(self)@,
                ) && close_in(answer, r),
            adapter_ok(final(self)@),
    {
        let ghost a = self@;
        let m = ClientMessage::SubscriptionClose { subscription_id: subscription_id.to_owned() };
        let answer = self.send(&m, CommitOutcome::Committed);
        proof {
            assert(bytes_lead_to(
                a,
                encode_utf8(json_text(client_tree(m@))),
                Ok(()),
                CommitOutcome::Committed,
                answer@,
                self@,
            ));
        }
        match answer {
            ServerMessage::SubscriptionClosed(_) => Ok(()),
            ServerMessage::Error(error) => Err(error),
            _ => Err(
                protocol_error(
                    ErrorKind::Internal,
                    "subscription close returned unexpected response",
                ),
            ),
        }
    }

    /// Records that the journal keeps nothing below a cursor, as the store answers it. An
    /// uncertain answer poisons the funnel.
    pub fn set_min_retained_cursor(&mut self, cursor: u64, answer: RetentionAnswer) -> (r: Result<
        (),
        Error,
    >)
        requires
            adapter_ok(old(self)@),
        ensures
            adapter_ok(final(self)@),
            ({
                let a = old(self)@;
                let b = final(self)@;
                if a.funnel.gate is Some {
                    r is Err && r->Err_0@ == error_of(ErrorKind::Unavailable, a.funnel.gate->0)
                        && b == a
                } else {
                    match answer {
                        RetentionAnswer::Kept => r is Ok && b == AdapterView {
                            funnel: FunnelView {
                                store: crate::store::StoreView {
                                    min_retained: cursor,
                                    ..a.funnel.store
                                },
                                ..a.funnel
                            },
                            ..a
                        },
                        RetentionAnswer::Invalid(detail) => r is Err && r->Err_0@ == error_of(
                            ErrorKind::InvalidRequest,
                            detail@,
                        ) && b == a,
                        RetentionAnswer::Unknown(detail) => r is Err && r->Err_0@ == error_of(
                            ErrorKind::OutcomeUnknown,
                            detail@,
                        ) && b == with_poison(a, detail@),
                        RetentionAnswer::Failed(detail) => r is Err && r->Err_0@ == error_of(
                            ErrorKind::Internal,
                            "cannot persist retention floor: "@ + detail@,
                        ) && b == a,
                    }
                }
            }),
            final(self)@ == retained(old(self)@, cursor, answer),
            r is Ok <==> old(self)@.funnel.gate is None && answer is Kept,
    {
        if let Some(detail) = self.funnel.poison_detail() {
            return Err(protocol_error(ErrorKind::Unavailable, &detail));
        }
        match answer {
            RetentionAnswer::Kept => {
                self.funnel.store.min_retained = cursor;
                Ok(())
            },
            RetentionAnswer::Invalid(detail) => Err(
                protocol_error(ErrorKind::InvalidRequest, &detail),
            ),
            RetentionAnswer::Unknown(detail) => {
                let e = protocol_error(ErrorKind::OutcomeUnknown, &detail);
                self.funnel.poison(detail);
                Err(e)
            },
            RetentionAnswer::Failed(detail) => {
                let mut s = "cannot persist retention floor: ".to_owned();
                s.append(&detail);
                Err(protocol_error(ErrorKind::Internal, &s))
            },
        }
    }
}

/// What the durable engine says of a new retention floor.
#[derive(Debug)]
pub enum RetentionAnswer {
    Kept,
    Invalid(String),
    Unknown(String),
    Failed(String),
}

/// The adapter after the store answered a new retention floor.
pub open spec fn retained(a: AdapterView, cursor: u64, answer: RetentionAnswer) -> AdapterView {
    if a.funnel.gate is Some {
        a
    } else {
        match answer {
            RetentionAnswer::Kept => AdapterView {
                funnel: FunnelView {
                    store: crate::store::StoreView { min_retained: cursor, ..a.funnel.store },
                    ..a.funnel
                },
                ..a
            },
            RetentionAnswer::Unknown(detail) => with_poison(a, detail@),
            _ => a,
        }
    }
}

/// The error that a cursor lies below the retained floor.
pub open spec fn expired_view(floor: u64) -> ErrorView {
    error_of(
        ErrorKind::CursorExpired,
        "cursor is older than retained floor "@ + dec(floor as nat),
    )
}

fn expired_error(floor: u64) -> (r: Error)
    ensures
        r@ == expired_view(floor),
{
    let mut s = "cursor is older than retained floor ".to_owned();
    s.append(&decimal(floor));
    protocol_error(ErrorKind::CursorExpired, &s)
}

/// What a caller gets of the answer to a command.
pub open spec fn receipt_in(answer: ServerMessageView, r: Result<Receipt, Error>) -> bool {
    match answer {
        ServerMessageView::Receipt(x) => r is Ok && r->Ok_0@ == x,
        ServerMessageView::Error(e) => r is Err && r->Err_0@ == e,
        _ => r is Err && r->Err_0@ == error_of(
            ErrorKind::Internal,
            "command returned non-receipt"@,
        ),
    }
}

/// What a caller gets of the answer to a resume.
pub open spec fn events_in(answer: ServerMessageView, r: Result<Vec<Event>, Error>) -> bool {
    match answer {
        ServerMessageView::Events(x) => r is Ok && r->Ok_0@.map_values(|e: Event| e@) == x,
        ServerMessageView::CursorExpired(e) => r is Err && r->Err_0@ == expired_view(
            e.min_retained_cursor,
        ),
        ServerMessageView::Error(e) => r is Err && r->Err_0@ == e,
        _ => r is Err && r->Err_0@ == error_of(
            ErrorKind::Internal,
            "resume returned non-stream response"@,
        ),
    }
}

/// What a caller gets of the answer to a subscribe.
pub open spec fn opened_in(answer: ServerMessageView, r: Result<SubscriptionOpened, Error>) -> bool {
    match answer {
        ServerMessageView::SubscriptionOpened(x) => r is Ok && r->Ok_0@ == x,
        ServerMessageView::CursorExpired(e) => r is Err && r->Err_0@ == expired_view(
            e.min_retained_cursor,
        ),
        ServerMessageView::Error(e) => r is Err && r->Err_0@ == e,
        _ => r is Err && r->Err_0@ == error_of(
            ErrorKind::Internal,
            "subscribe returned unexpected response"@,
        ),
    }
}

/// What a caller gets of the answer to a poll.
pub open spec fn poll_in(answer: ServerMessageView, r: Result<SubscriptionPoll, Error>) -> bool {
    match answer {
        ServerMessageView::Event(x) => r is Ok && r->Ok_0@ == SubscriptionPollView::Event(x),
        ServerMessageView::SubscriptionPending(_) => r is Ok && r->Ok_0@
            == SubscriptionPollView::Pending,
        ServerMessageView::SlowConsumer(x) => r is Ok && r->Ok_0@
            == SubscriptionPollView::SlowConsumer(x),
        ServerMessageView::Error(e) => r is Err && r->Err_0@ == e,
        _ => r is Err && r->Err_0@ == error_of(
            ErrorKind::Internal,
            "subscription poll returned unexpected response"@,
        ),
    }
}

/// What a caller gets of the answer to a close.
pub open spec fn close_in(answer: ServerMessageView, r: Result<(), Error>) -> bool {
    match answer {
        ServerMessageView::SubscriptionClosed(_) => r is Ok,
        ServerMessageView::Error(e) => r is Err && r->Err_0@ == e,
        _ => r is Err && r->Err_0@ == error_of(
            ErrorKind::Internal,
            "subscription close returned unexpected response"@,
        ),
    }
}

} // verus!
