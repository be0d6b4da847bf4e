//! What committing a cancellation and recording its deliveries do: which scopes are frozen and in
//! which order, who is delivered to next, and which effects are parked.
use crate::cancel::{
    member_index, outcome_named, CancelKind, CancelPolicy, CancelReason, CancelRequestView,
    CancelScopeView, CancelStatus, DeliveryOutcome, MemberInput, MemberInputView, ScopeMemberView,
};
use crate::effect::{EffectIntentView, EffectState};
use crate::error::ErrorKind;
use crate::funnel::cancel::is_uuid_text;
use crate::funnel::cancel_rules::{
    delivered, discharged, is_next, next_is, status_after, DeliverySummaryView,
};
use crate::funnel::command::Command;
use crate::funnel::effect_laws::is_keyed;
use crate::funnel::ground::{
    answer, by_daemon, completes, completion_is_acceptance, daemons_pass, is_new, journals,
    one_event_is_journalled, refused_as, rows_after,
};
use crate::funnel::pre::{deliveries_of, rows_for};
use crate::funnel::run_laws::{
    attempt_named_is_first, effect_named_is_first, is_attempt_at, is_discharged_in, is_effect_at,
    unit_is_in,
};
use crate::funnel::validate::decide;
use crate::funnel::{fresh, FunnelView};
use crate::ids::uuid_text;
use crate::json::JsonView;
use crate::store::{
    CancelDeliveryRowView, CancelRequestRowView, EffectRowView, IntentRecordView, TablesView,
};
use crate::table::{lookup, lookup_at, read_after_write, unique, upsert};
use vstd::prelude::*;
use vstd::string::*;

verus! {

// --- Deliveries ----------------------------------------------------------------------------------

/// The name of an outcome.
pub open spec fn outcome_word(o: DeliveryOutcome) -> Seq<char> {
    match o {
        DeliveryOutcome::ObservedStopped => "observed_stopped"@,
        DeliveryOutcome::Unresponsive => "unresponsive"@,
        DeliveryOutcome::AlreadyTerminal => "already_terminal"@,
        DeliveryOutcome::DetachedDeclined => "detached_declined"@,
    }
}

/// Whether a delivery to a member of a cancellation is recorded.
pub open spec fn is_delivered_in(
    t: TablesView,
    request_id: Seq<char>,
    member_id: Seq<char>,
) -> bool {
    exists|k: int|
        0 <= k < t.deliveries.len() && (#[trigger] t.deliveries[k]).1.cancel_request_id
            == request_id && t.deliveries[k].1.member_id == member_id && exists|o: DeliveryOutcome|
            t.deliveries[k].1.outcome == #[trigger] outcome_word(o)
}

/// Whether a member of a scope is the one that an id names, at its place.
pub open spec fn is_member_at(scope: CancelScopeView, member_id: Seq<char>, i: int) -> bool {
    &&& 0 <= i < scope.members.len()
    &&& scope.members[i].member_id == member_id
    &&& forall|j: int| 0 <= j < i ==> (#[trigger] scope.members[j]).member_id != member_id
}

/// Whether the member at a place of a scope is next: it has no delivery, and every other member
/// without one comes later in the order.
pub open spec fn is_due(t: TablesView, row: CancelRequestRowView, i: int) -> bool {
    let members = row.record.scope.members;
    &&& 0 <= i < members.len()
    &&& !is_delivered_in(t, row.cancel_request_id, members[i].member_id)
    &&& forall|k: int|
        0 <= k < members.len() && k != i && !is_delivered_in(
            t,
            row.cancel_request_id,
            (#[trigger] members[k]).member_id,
        ) ==> members[i].order_index < members[k].order_index || members[i].order_index
            == members[k].order_index && i < k
}

proof fn outcomes_are_named(name: Seq<char>)
    ensures
        outcome_named(name) is Some <==> exists|o: DeliveryOutcome| name == #[trigger] outcome_word(
            o,
        ),
        forall|o: DeliveryOutcome| #[trigger] outcome_word(o) == o.wire_text(),
        outcome_named(name) is Some ==> outcome_word(outcome_named(name)->0) == name,
        outcome_named(name) is Some && outcome_named(name)->0.discharges() <==> (name
            == "observed_stopped"@ || name == "already_terminal"@ || name == "detached_declined"@),
{
    crate::cancel::outcome_reads_back(DeliveryOutcome::ObservedStopped);
    crate::cancel::outcome_reads_back(DeliveryOutcome::AlreadyTerminal);
    crate::cancel::outcome_reads_back(DeliveryOutcome::DetachedDeclined);
    crate::cancel::outcome_reads_back(DeliveryOutcome::Unresponsive);
    assert forall|o: DeliveryOutcome| #[trigger] outcome_word(o) == o.wire_text() by {
        match o {
            DeliveryOutcome::ObservedStopped => {},
            DeliveryOutcome::Unresponsive => {},
            DeliveryOutcome::AlreadyTerminal => {},
            DeliveryOutcome::DetachedDeclined => {},
        }
    }
    assert(outcome_named(name) is Some ==> outcome_word(outcome_named(name)->0) == name);
    if exists|o: DeliveryOutcome| name == #[trigger] outcome_word(o) {
        let o = choose|o: DeliveryOutcome| name == #[trigger] outcome_word(o);
        crate::cancel::outcome_reads_back(o);
    }
}

proof fn deliveries_are_summed(
    rows: Seq<(Seq<char>, CancelDeliveryRowView)>,
    request_id: Seq<char>,
    member_id: Seq<char>,
)
    ensures
        delivered(deliveries_of(rows, request_id), member_id) <==> exists|k: int|
            0 <= k < rows.len() && (#[trigger] rows[k]).1.cancel_request_id == request_id
                && rows[k].1.member_id == member_id && outcome_named(rows[k].1.outcome) is Some,
        discharged(deliveries_of(rows, request_id), member_id) <==> exists|k: int|
            0 <= k < rows.len() && (#[trigger] rows[k]).1.cancel_request_id == request_id
                && rows[k].1.member_id == member_id && outcome_named(rows[k].1.outcome) is Some
                && outcome_named(rows[k].1.outcome)->0.discharges(),
    decreases rows.len(),
{
    if rows.len() > 0 {
        let front = rows.drop_last();
        let n = rows.len() - 1;
        deliveries_are_summed(front, request_id, member_id);
        let before = deliveries_of(front, request_id);
        let all = deliveries_of(rows, request_id);
        assert(forall|k: int| 0 <= k < n ==> #[trigger] front[k] == rows[k]);
        assert(forall|k: int| 0 <= k < n ==> front[k] == #[trigger] rows[k]);
        let row = rows[n].1;
        if outcome_named(row.outcome) is Some && row.cancel_request_id == request_id {
            assert(all[before.len() as int] == (DeliverySummaryView {
                member_id: row.member_id,
                outcome: outcome_named(row.outcome)->0,
            }));
            assert(forall|k: int| 0 <= k < before.len() ==> #[trigger] all[k] == before[k]);
            assert(forall|k: int| 0 <= k < before.len() ==> all[k] == #[trigger] before[k]);
        } else {
            assert(all == before);
        }
    }
}

proof fn deliveries_are_counted(t: TablesView, request_id: Seq<char>, member_id: Seq<char>)
    ensures
        delivered(deliveries_of(t.deliveries, request_id), member_id) <==> is_delivered_in(
            t,
            request_id,
            member_id,
        ),
        discharged(deliveries_of(t.deliveries, request_id), member_id) <==> is_discharged_in(
            t,
            request_id,
            member_id,
        ),
{
    deliveries_are_summed(t.deliveries, request_id, member_id);
    assert forall|name: Seq<char>| true implies {
        &&& #[trigger] outcome_named(name) is Some <==> exists|o: DeliveryOutcome|
            name == #[trigger] outcome_word(o)
        &&& outcome_named(name) is Some && outcome_named(name)->0.discharges() <==> (name
            == "observed_stopped"@ || name == "already_terminal"@ || name == "detached_declined"@)
    } by {
        outcomes_are_named(name);
    }
    let rows = t.deliveries;
    if is_delivered_in(t, request_id, member_id) {
        let k = choose|k: int|
            0 <= k < t.deliveries.len() && (#[trigger] t.deliveries[k]).1.cancel_request_id
                == request_id && t.deliveries[k].1.member_id == member_id && exists|
                o: DeliveryOutcome,
            |
                t.deliveries[k].1.outcome == #[trigger] outcome_word(o);
        assert(outcome_named(rows[k].1.outcome) is Some);
    }
}

/// Whether a delivery finds an effect out in the world: the member is an effect intent of the
/// scope, and the effect at this place of the table is the one that it names, dispatching,
/// dispatched or observing, and without a terminal.
pub open spec fn finds_effect(
    t: TablesView,
    scope: CancelScopeView,
    member_id: Seq<char>,
    e: int,
) -> bool {
    let row = t.effects[e].1;
    let intent = row.record->Readable_0;
    &&& exists|m: int| #[trigger]
        is_member_at(scope, member_id, m) && scope.members[m].member_kind
            == CancelKind::EffectIntent
    &&& is_effect_at(t, member_id, e)
    &&& row.record is Readable
    &&& intent.terminal is None
    &&& intent.state == EffectState::Dispatching || intent.state == EffectState::Dispatched
        || intent.state == EffectState::Observing
}

/// Whether what a delivery would do to the effect that it finds can be done: the record can be read,
/// and the version has room.
pub open spec fn effect_is_fit(t: TablesView, scope: CancelScopeView, member_id: Seq<char>) -> bool {
    forall|e: int, m: int| #[trigger]
        is_member_at(scope, member_id, m) && scope.members[m].member_kind
            == CancelKind::EffectIntent && #[trigger] is_effect_at(t, member_id, e) ==> {
            &&& t.effects[e].1.record is Readable
            &&& finds_effect(t, scope, member_id, e) ==> t.effects[e].1.version < u64::MAX
        }
}

/// How far a request has got once one more member has this outcome: settled when every member is
/// discharged, observed in part when every member has a delivery, delivering otherwise.
pub open spec fn status_word(
    t: TablesView,
    row: CancelRequestRowView,
    member_id: Seq<char>,
    outcome: DeliveryOutcome,
) -> CancelStatus {
    let members = row.record.scope.members;
    if forall|i: int|
        0 <= i < members.len() ==> is_discharged_in(
            t,
            row.cancel_request_id,
            (#[trigger] members[i]).member_id,
        ) || members[i].member_id == member_id && outcome != DeliveryOutcome::Unresponsive {
        CancelStatus::Settled
    } else if forall|i: int|
        0 <= i < members.len() ==> is_delivered_in(
            t,
            row.cancel_request_id,
            (#[trigger] members[i]).member_id,
        ) || members[i].member_id == member_id {
        CancelStatus::ObservedPartial
    } else {
        CancelStatus::Delivering
    }
}

proof fn members_are_found(scope: CancelScopeView, member_id: Seq<char>)
    ensures
        member_index(scope, member_id) < scope.members.len() ==> is_member_at(
            scope,
            member_id,
            member_index(scope, member_id),
        ),
        forall|i: int| #[trigger]
            is_member_at(scope, member_id, i) ==> member_index(scope, member_id) == i,
        0 <= member_index(scope, member_id) <= scope.members.len(),
        (exists|i: int| 0 <= i < scope.members.len() && (#[trigger] scope.members[i]).member_id
            == member_id) <==> member_index(scope, member_id) < scope.members.len(),
{
    crate::cancel::index_from_rule(scope.members, member_id, 0);
    let at = member_index(scope, member_id);
    assert forall|i: int| #[trigger] is_member_at(scope, member_id, i) implies at == i by {
        if at < i {
            assert(scope.members[at].member_id != member_id);
        }
    }
}

proof fn dues_are_next(t: TablesView, row: CancelRequestRowView, i: int)
    ensures
        is_due(t, row, i) <==> is_next(
            row.record.scope.members,
            deliveries_of(t.deliveries, row.cancel_request_id),
            i,
        ),
{
    let members = row.record.scope.members;
    let rows = deliveries_of(t.deliveries, row.cancel_request_id);
    assert forall|k: int| 0 <= k < members.len() implies (delivered(
        rows,
        (#[trigger] members[k]).member_id,
    ) <==> is_delivered_in(t, row.cancel_request_id, members[k].member_id)) by {
        deliveries_are_counted(t, row.cancel_request_id, members[k].member_id);
    }
}

proof fn statuses_follow(
    t: TablesView,
    row: CancelRequestRowView,
    member_id: Seq<char>,
    outcome: DeliveryOutcome,
)
    ensures
        status_after(
            row.record.scope.members,
            deliveries_of(t.deliveries, row.cancel_request_id).push(
                DeliverySummaryView { member_id, outcome },
            ),
        ) == status_word(t, row, member_id, outcome),
{
    let members = row.record.scope.members;
    let rows = deliveries_of(t.deliveries, row.cancel_request_id);
    let last = DeliverySummaryView { member_id, outcome };
    let all = rows.push(last);
    assert(all[rows.len() as int] == last);
    assert forall|k: int| 0 <= k < members.len() implies {
        &&& discharged(all, (#[trigger] members[k]).member_id) <==> is_discharged_in(
            t,
            row.cancel_request_id,
            members[k].member_id,
        ) || members[k].member_id == member_id && outcome != DeliveryOutcome::Unresponsive
        &&& delivered(all, members[k].member_id) <==> is_delivered_in(
            t,
            row.cancel_request_id,
            members[k].member_id,
        ) || members[k].member_id == member_id
    } by {
        deliveries_are_counted(t, row.cancel_request_id, members[k].member_id);
        assert(forall|j: int| 0 <= j < rows.len() ==> #[trigger] all[j] == rows[j]);
        assert(forall|j: int| 0 <= j < rows.len() ==> all[j] == #[trigger] rows[j]);
    }
}

/// When a delivery completes: for the daemon, of a member of the frozen scope that has no delivery
/// yet and is next in the order. A missing request is not found; a member that is not of the scope,
/// has its delivery or is not next is refused.
#[verifier::spinoff_prover]
#[verifier::rlimit(40)]
pub proof fn deliveries_complete_in_order(f: FunnelView, cmd: Command)
    requires
        is_new(f, cmd),
        cmd.method is CancelRecordDelivery,
        lookup(
            f.store.tables.requests,
            cmd.method->CancelRecordDelivery_cancel_request_id@,
        ) is Some ==> lookup(
            f.store.tables.requests,
            cmd.method->CancelRecordDelivery_cancel_request_id@,
        )->0.cancel_request_id == cmd.method->CancelRecordDelivery_cancel_request_id@,
    ensures
        ({
            let t = f.store.tables;
            let request_id = cmd.method->CancelRecordDelivery_cancel_request_id@;
            let member_id = cmd.method->CancelRecordDelivery_member_id@;
            let row = lookup(t.requests, request_id)->0;
            let scope = row.record.scope;
            let found = by_daemon(f, cmd) && lookup(t.requests, request_id) is Some;
            let due = exists|i: int| #[trigger]
                is_due(t, row, i) && scope.members[i].member_id == member_id;
            &&& completes(f, cmd) <==> {
                &&& found
                &&& due
                &&& effect_is_fit(t, scope, member_id)
                &&& row.version < u64::MAX
                &&& is_uuid_text(request_id)
            }
            &&& by_daemon(f, cmd) && lookup(t.requests, request_id) is None ==> refused_as(
                f,
                cmd,
                ErrorKind::NotFound,
            )
            &&& found && !due ==> refused_as(f, cmd, ErrorKind::InvalidRequest)
            &&& forall|u: u128| request_id == #[trigger] uuid_text(u) ==> is_uuid_text(request_id)
        }),
{
    completion_is_acceptance(f, cmd);
    daemons_pass(f, cmd);
    let t = f.store.tables;
    let request_id = cmd.method->CancelRecordDelivery_cancel_request_id@;
    let member_id = cmd.method->CancelRecordDelivery_member_id@;
    let row = lookup(t.requests, request_id)->0;
    let scope = row.record.scope;
    let rows = deliveries_of(t.deliveries, request_id);
    members_are_found(scope, member_id);
    deliveries_are_counted(t, request_id, member_id);
    effect_named_is_first(t, member_id);
    assert forall|u: u128| request_id == #[trigger] uuid_text(u) implies is_uuid_text(
        request_id,
    ) by {
        crate::ids::uuid_text_reads_back(u);
    }
    if lookup(t.requests, request_id) is Some {
        assert forall|i: int| #[trigger]
            is_due(t, row, i) <==> is_next(scope.members, rows, i) by {
            dues_are_next(t, row, i);
        }
        assert forall|i: int| #[trigger]
            is_next(scope.members, rows, i) <==> is_due(t, row, i) by {
            dues_are_next(t, row, i);
        }
        let at = member_index(scope, member_id);
        let due = exists|i: int| #[trigger]
            is_due(t, row, i) && scope.members[i].member_id == member_id;
        assert(due <==> next_is(scope.members, rows, member_id));
        if due {
            let i = choose|i: int| #[trigger]
                is_due(t, row, i) && scope.members[i].member_id == member_id;
            assert(at < scope.members.len());
            assert(!delivered(rows, member_id));
        }
        let park = crate::funnel::cancel::park_of(
            crate::funnel::pre::delivery_effect(t, Some(row), member_id),
        );
        assert(at < scope.members.len() ==> (effect_is_fit(t, scope, member_id) <==> park is Ok))
            by {
            if at < scope.members.len() {
                assert(is_member_at(scope, member_id, at));
                if scope.members[at].member_kind == CancelKind::EffectIntent {
                    match crate::funnel::run_rules::effect_named(t.effects, member_id) {
                        Some(held) => {
                            let e = choose|e: int| #[trigger]
                                is_effect_at(t, member_id, e) && t.effects[e].1 == held;
                            assert(is_effect_at(t, member_id, e));
                            if park is Ok {
                                assert forall|e2: int, m: int| #[trigger]
                                    is_member_at(scope, member_id, m)
                                        && scope.members[m].member_kind
                                        == CancelKind::EffectIntent && #[trigger] is_effect_at(
                                        t,
                                        member_id,
                                        e2,
                                    ) implies {
                                    &&& t.effects[e2].1.record is Readable
                                    &&& finds_effect(t, scope, member_id, e2)
                                        ==> t.effects[e2].1.version < u64::MAX
                                } by {
                                    assert(t.effects[e2].1 == held);
                                }
                            } else {
                                assert(held.record is Readable ==> finds_effect(
                                    t,
                                    scope,
                                    member_id,
                                    e,
                                ));
                            }
                        },
                        None => {
                            assert forall|e2: int| !#[trigger] is_effect_at(t, member_id, e2) by {}
                        },
                    }
                }
            }
        }
    }
}

/// What a delivery leaves in the rows: the delivery itself, and the request one version further on
/// with the status that follows from its deliveries; beside them at most one effect.
#[verifier::spinoff_prover]
#[verifier::rlimit(40)]
pub proof fn deliveries_are_recorded(f: FunnelView, cmd: Command)
    requires
        is_new(f, cmd),
        cmd.method is CancelRecordDelivery,
        completes(f, cmd),
        lookup(
            f.store.tables.requests,
            cmd.method->CancelRecordDelivery_cancel_request_id@,
        )->0.cancel_request_id == cmd.method->CancelRecordDelivery_cancel_request_id@,
    ensures
        ({
            let t = f.store.tables;
            let after = rows_after(f, cmd);
            let request_id = cmd.method->CancelRecordDelivery_cancel_request_id@;
            let member_id = cmd.method->CancelRecordDelivery_member_id@;
            let delivered_at = cmd.method->CancelRecordDelivery_delivered_at;
            let observed_at = cmd.method->CancelRecordDelivery_observed_at;
            let outcome = cmd.method->CancelRecordDelivery_outcome;
            let row = lookup(t.requests, request_id)->0;
            let key = request_id + "|"@ + member_id;
            let status = status_word(t, row, member_id, outcome);
            let word = match status {
                CancelStatus::Requested => "requested"@,
                CancelStatus::Delivering => "delivering"@,
                CancelStatus::ObservedPartial => "observed_partial"@,
                CancelStatus::Settled => "settled"@,
            };
            let kept = lookup(after.deliveries, key);
            &&& after == (TablesView {
                requests: after.requests,
                deliveries: after.deliveries,
                effects: after.effects,
                events: after.events,
                receipts: after.receipts,
                ..t
            })
            &&& lookup(after.requests, request_id) == Some(
                CancelRequestRowView {
                    version: (row.version + 1) as u64,
                    status: word,
                    record: CancelRequestView { status, ..row.record },
                    ..row
                },
            )
            &&& forall|other: Seq<char>|
                other != request_id ==> #[trigger] lookup(after.requests, other) == lookup(
                    t.requests,
                    other,
                )
            &&& kept is Some
            &&& kept->0.delivery_key == key
            &&& kept->0.cancel_request_id == request_id
            &&& kept->0.member_id == member_id
            &&& kept->0.outcome == outcome_word(outcome)
            &&& kept->0.record.member_id == member_id
            &&& kept->0.record.delivered_at == delivered_at
            &&& kept->0.record.observed_at == observed_at
            &&& kept->0.record.outcome == outcome
            &&& forall|m: int| #[trigger]
                is_member_at(row.record.scope, member_id, m) ==> {
                    let kind = row.record.scope.members[m].member_kind;
                    &&& kept->0.record.member_kind == kind
                    &&& kept->0.member_kind == match kind {
                        CancelKind::Run => "run"@,
                        CancelKind::ExecutionUnit => "execution_unit"@,
                        CancelKind::Attempt => "attempt"@,
                        CancelKind::EffectIntent => "effect_intent"@,
                    }
                }
            &&& forall|u: u128| request_id == #[trigger] uuid_text(u)
                ==> kept->0.record.cancel_request_id == u
            &&& forall|other: Seq<char>|
                other != key ==> #[trigger] lookup(after.deliveries, other) == lookup(
                    t.deliveries,
                    other,
                )
            &&& journals(
                f,
                cmd,
                "cancel_request"@,
                request_id,
                (row.version + 1) as u64,
                "cancel_request.delivered"@,
                JsonView::Object(
                    Map::empty().insert("member_id"@, JsonView::Str(member_id)).insert(
                        "delivered_at"@,
                        JsonView::Uint(delivered_at),
                    ).insert(
                        "observed_at"@,
                        match observed_at {
                            Some(at) => JsonView::Uint(at),
                            None => JsonView::Null,
                        },
                    ).insert("outcome"@, JsonView::Str(outcome_word(outcome))).insert(
                        "status"@,
                        JsonView::Str(word),
                    ),
                ),
            )
            &&& answer(f, cmd)->Completed_result == JsonView::Object(
                Map::empty().insert("cancel_request_id"@, JsonView::Str(request_id)).insert(
                    "member_id"@,
                    JsonView::Str(member_id),
                ).insert("outcome"@, JsonView::Str(outcome_word(outcome))).insert(
                    "status"@,
                    JsonView::Str(word),
                ),
            )
        }),
{
    completion_is_acceptance(f, cmd);
    let t = f.store.tables;
    let after = rows_after(f, cmd);
    let request_id = cmd.method->CancelRecordDelivery_cancel_request_id@;
    let member_id = cmd.method->CancelRecordDelivery_member_id@;
    let outcome = cmd.method->CancelRecordDelivery_outcome;
    let row = lookup(t.requests, request_id)->0;
    let key = request_id + "|"@ + member_id;
    members_are_found(row.record.scope, member_id);
    statuses_follow(t, row, member_id, outcome);
    outcomes_are_named(outcome_word(outcome));
    one_event_is_journalled(f, cmd);
    let plan = decide(f, cmd, rows_for(cmd.method, t))->Ok_0.plan;
    let p = plan->RecordDelivery_0;
    let new_row = CancelRequestRowView {
        version: p.request_version_after,
        status: p.request_after.status.wire_text(),
        record: p.request_after,
        ..row
    };
    let new_delivery = CancelDeliveryRowView {
        delivery_key: key,
        cancel_request_id: request_id,
        member_id: p.member_id,
        member_kind: p.member_kind.wire_text(),
        outcome: p.outcome.wire_text(),
        record: p.delivery,
    };
    assert(after.requests == upsert(t.requests, request_id, new_row));
    assert(after.deliveries == upsert(t.deliveries, key, new_delivery));
    read_after_write(t.requests, request_id, new_row, request_id);
    read_after_write(t.deliveries, key, new_delivery, key);
    assert forall|other: Seq<char>| other != request_id implies #[trigger] lookup(
        after.requests,
        other,
    ) == lookup(t.requests, other) by {
        read_after_write(t.requests, request_id, new_row, other);
    }
    assert forall|other: Seq<char>| other != key implies #[trigger] lookup(after.deliveries, other)
        == lookup(t.deliveries, other) by {
        read_after_write(t.deliveries, key, new_delivery, other);
    }
    assert forall|u: u128| request_id == #[trigger] uuid_text(u) implies lookup(
        after.deliveries,
        key,
    )->0.record.cancel_request_id == u by {
        crate::ids::uuid_text_reads_back(u);
    }
}

/// A delivery that finds an effect out in the world parks it: its row is then reconciling, one
/// version further on, with the rest of its record as it was, and no other effect changes. A
/// delivery that finds none changes no effect.
#[verifier::spinoff_prover]
#[verifier::rlimit(40)]
pub proof fn deliveries_park_what_is_out(f: FunnelView, cmd: Command)
    requires
        is_new(f, cmd),
        is_keyed(f.store.tables),
        unique(f.store.tables.effects),
        cmd.method is CancelRecordDelivery,
        completes(f, cmd),
    ensures
        ({
            let t = f.store.tables;
            let after = rows_after(f, cmd);
            let request_id = cmd.method->CancelRecordDelivery_cancel_request_id@;
            let member_id = cmd.method->CancelRecordDelivery_member_id@;
            let scope = lookup(t.requests, request_id)->0.record.scope;
            &&& forall|e: int| #[trigger]
                finds_effect(t, scope, member_id, e) ==> {
                    let row = t.effects[e].1;
                    let version = (row.version + 1) as u64;
                    &&& row.version < u64::MAX
                    &&& lookup(after.effects, row.operation_key) == Some(
                        EffectRowView {
                            version,
                            state: "reconciling"@,
                            record: IntentRecordView::Readable(
                                EffectIntentView {
                                    state: EffectState::Reconciling,
                                    version,
                                    ..row.record->Readable_0
                                },
                            ),
                            ..row
                        },
                    )
                    &&& forall|other: Seq<char>|
                        other != row.operation_key ==> #[trigger] lookup(after.effects, other)
                            == lookup(t.effects, other)
                }
            &&& (forall|e: int| !#[trigger] finds_effect(t, scope, member_id, e)) ==> after.effects
                == t.effects
        }),
{
    completion_is_acceptance(f, cmd);
    let t = f.store.tables;
    let after = rows_after(f, cmd);
    let request_id = cmd.method->CancelRecordDelivery_cancel_request_id@;
    let member_id = cmd.method->CancelRecordDelivery_member_id@;
    let request = lookup(t.requests, request_id)->0;
    let scope = request.record.scope;
    members_are_found(scope, member_id);
    effect_named_is_first(t, member_id);
    let at = member_index(scope, member_id);
    let held = crate::funnel::pre::delivery_effect(t, Some(request), member_id);
    assert(is_member_at(scope, member_id, at));
    assert forall|e: int| #[trigger] finds_effect(t, scope, member_id, e) implies {
        let row = t.effects[e].1;
        let version = (row.version + 1) as u64;
        &&& row.version < u64::MAX
        &&& lookup(after.effects, row.operation_key) == Some(
            EffectRowView {
                version,
                state: "reconciling"@,
                record: IntentRecordView::Readable(
                    EffectIntentView {
                        state: EffectState::Reconciling,
                        version,
                        ..row.record->Readable_0
                    },
                ),
                ..row
            },
        )
        &&& forall|other: Seq<char>|
            other != row.operation_key ==> #[trigger] lookup(after.effects, other) == lookup(
                t.effects,
                other,
            )
    } by {
        let m = choose|m: int| #[trigger]
            is_member_at(scope, member_id, m) && scope.members[m].member_kind
                == CancelKind::EffectIntent;
        assert(m == at);
        let (key, row) = t.effects[e];
        assert(held == Some(row));
        lookup_at(t.effects, e);
        let version = (row.version + 1) as u64;
        let new = EffectRowView {
            version,
            state: "reconciling"@,
            record: IntentRecordView::Readable(
                EffectIntentView {
                    state: EffectState::Reconciling,
                    version,
                    ..row.record->Readable_0
                },
            ),
            ..row
        };
        assert(after.effects == upsert(t.effects, key, new));
        read_after_write(t.effects, key, new, key);
        assert forall|other: Seq<char>| other != key implies #[trigger] lookup(after.effects, other)
            == lookup(t.effects, other) by {
            read_after_write(t.effects, key, new, other);
        }
    }
    if forall|e: int| !#[trigger] finds_effect(t, scope, member_id, e) {
        if held is Some {
            let e = choose|e: int| #[trigger]
                is_effect_at(t, member_id, e) && t.effects[e].1 == held->0;
            assert(!finds_effect(t, scope, member_id, e));
        }
    }
}

// --- Requests ------------------------------------------------------------------------------------

/// Whether a kind stands below another in the tree: an effect below an attempt, an attempt below a
/// unit, a unit below a run.
pub open spec fn is_below(a: CancelKind, b: CancelKind) -> bool {
    match b {
        CancelKind::Run => a != CancelKind::Run,
        CancelKind::ExecutionUnit => a == CancelKind::Attempt || a == CancelKind::EffectIntent,
        CancelKind::Attempt => a == CancelKind::EffectIntent,
        CancelKind::EffectIntent => false,
    }
}

/// Whether a unit holds the attempt or the effect that a member names.
pub open spec fn unit_holds(
    t: TablesView,
    unit_id: Seq<char>,
    member_kind: CancelKind,
    member_id: Seq<char>,
) -> bool {
    &&& lookup(t.units, unit_id) is Some
    &&& match member_kind {
        CancelKind::Attempt => exists|i: int| #[trigger]
            is_attempt_at(t, member_id, i) && t.attempts[i].1.unit_id == unit_id,
        CancelKind::EffectIntent => exists|i: int| #[trigger]
            is_effect_at(t, member_id, i) && t.effects[i].1.unit_id == unit_id,
        _ => false,
    }
}

/// Whether a member lives in the tree of a root: it is the root, or a unit of the run, or an attempt
/// or an effect of such a unit or of the unit, or an effect of the attempt.
pub open spec fn lives_under(
    t: TablesView,
    root_kind: CancelKind,
    root_id: Seq<char>,
    member_kind: CancelKind,
    member_id: Seq<char>,
) -> bool {
    ||| member_kind == root_kind && member_id == root_id
    ||| root_kind == CancelKind::Run && member_kind == CancelKind::ExecutionUnit && unit_is_in(
        t,
        member_id,
        root_id,
    )
    ||| root_kind == CancelKind::Run && exists|u: Seq<char>|
        unit_is_in(t, u, root_id) && #[trigger] unit_holds(t, u, member_kind, member_id)
    ||| root_kind == CancelKind::ExecutionUnit && unit_holds(t, root_id, member_kind, member_id)
    ||| root_kind == CancelKind::Attempt && member_kind == CancelKind::EffectIntent && exists|
        r: int,
        e: int,
    | #[trigger]
        is_attempt_at(t, root_id, r) && #[trigger] is_effect_at(t, member_id, e)
            && t.effects[e].1.unit_id == t.attempts[r].1.unit_id && lookup(
            t.units,
            t.effects[e].1.unit_id,
        ) is Some && t.effects[e].1.attempt_epoch == t.attempts[r].1.attempt_epoch
}

/// Whether these places put proposed members in the order of their delivery: each place once, the
/// leaves first, and members of one kind as they were proposed.
pub open spec fn is_leaf_first(wanted: Seq<MemberInputView>, at: Seq<int>) -> bool {
    &&& at.len() == wanted.len()
    &&& forall|i: int| 0 <= i < at.len() ==> 0 <= #[trigger] at[i] < wanted.len()
    &&& forall|k: int| 0 <= k < wanted.len() ==> #[trigger] at.contains(k)
    &&& forall|i: int, j: int|
        0 <= i < j < at.len() ==> {
            let a = wanted[#[trigger] at[i]].member_kind;
            let b = wanted[#[trigger] at[j]].member_kind;
            is_below(a, b) || a == b && at[i] < at[j]
        }
}

/// Whether a scope was frozen from proposed members: all of them and no other, numbered in the order
/// of their delivery.
pub open spec fn is_frozen_from(
    members: Seq<ScopeMemberView>,
    wanted: Seq<MemberInputView>,
) -> bool {
    exists|at: Seq<int>| #[trigger]
        is_leaf_first(wanted, at) && members == Seq::new(
            at.len(),
            |i: int|
                ScopeMemberView {
                    member_kind: wanted[at[i]].member_kind,
                    member_id: wanted[at[i]].member_id,
                    attachment: wanted[at[i]].attachment,
                    order_index: i as u32,
                },
        )
}

spec fn places_of(wanted: Seq<MemberInputView>, kind: CancelKind) -> Seq<int>
    decreases wanted.len(),
{
    if wanted.len() == 0 {
        Seq::empty()
    } else {
        let front = places_of(wanted.drop_last(), kind);
        if wanted.last().member_kind == kind {
            front.push(wanted.len() - 1)
        } else {
            front
        }
    }
}

proof fn places_show(wanted: Seq<MemberInputView>, kind: CancelKind)
    ensures
        ({
            let at = places_of(wanted, kind);
            let list = crate::cancel::of_kind(wanted, kind);
            &&& list.len() == at.len()
            &&& forall|i: int|
                0 <= i < at.len() ==> 0 <= #[trigger] at[i] < wanted.len() && wanted[at[i]]
                    == list[i] && wanted[at[i]].member_kind == kind
            &&& forall|i: int, j: int| 0 <= i < j < at.len() ==> #[trigger] at[i] < #[trigger] at[j]
            &&& forall|k: int|
                0 <= k < wanted.len() && (#[trigger] wanted[k]).member_kind == kind ==> at.contains(
                    k,
                )
        }),
    decreases wanted.len(),
{
    if wanted.len() > 0 {
        let front = wanted.drop_last();
        let n = wanted.len() - 1;
        places_show(front, kind);
        let before = places_of(front, kind);
        let at = places_of(wanted, kind);
        let list = crate::cancel::of_kind(wanted, kind);
        assert forall|i: int| 0 <= i < at.len() implies 0 <= #[trigger] at[i] < wanted.len()
            && wanted[at[i]] == list[i] && wanted[at[i]].member_kind == kind by {
            if i < before.len() {
                assert(at[i] == before[i]);
                assert(front[before[i]] == wanted[before[i]]);
            }
        }
        assert forall|i: int, j: int| 0 <= i < j < at.len() implies #[trigger] at[i]
            < #[trigger] at[j] by {
            assert(at[i] == before[i]);
            if j < before.len() {
                assert(at[j] == before[j]);
            }
        }
        assert forall|k: int|
            0 <= k < wanted.len() && (#[trigger] wanted[k]).member_kind == kind implies at.contains(
            k,
        ) by {
            if k < n {
                assert(front[k] == wanted[k]);
                let i = choose|i: int| 0 <= i < before.len() && before[i] == k;
                assert(at[i] == k);
            } else {
                assert(at[before.len() as int] == k);
            }
        }
    }
}

proof fn one_kind_each(wanted: Seq<MemberInputView>)
    ensures
        places_of(wanted, CancelKind::EffectIntent).len() + places_of(
            wanted,
            CancelKind::Attempt,
        ).len() + places_of(wanted, CancelKind::ExecutionUnit).len() + places_of(
            wanted,
            CancelKind::Run,
        ).len() == wanted.len(),
    decreases wanted.len(),
{
    if wanted.len() > 0 {
        one_kind_each(wanted.drop_last());
    }
}

#[verifier::spinoff_prover]
#[verifier::rlimit(40)]
proof fn scopes_are_leaf_first(wanted: Seq<MemberInputView>)
    ensures
        is_frozen_from(crate::cancel::numbered(crate::cancel::leaf_first(wanted)), wanted),
{
    let e = places_of(wanted, CancelKind::EffectIntent);
    let a = places_of(wanted, CancelKind::Attempt);
    let u = places_of(wanted, CancelKind::ExecutionUnit);
    let r = places_of(wanted, CancelKind::Run);
    places_show(wanted, CancelKind::EffectIntent);
    places_show(wanted, CancelKind::Attempt);
    places_show(wanted, CancelKind::ExecutionUnit);
    places_show(wanted, CancelKind::Run);
    one_kind_each(wanted);
    let at = e + a + u + r;
    let x = e.len() as int;
    let y = x + a.len();
    let z = y + u.len();
    let list = crate::cancel::leaf_first(wanted);
    assert forall|i: int| 0 <= i < at.len() implies {
        &&& 0 <= #[trigger] at[i] < wanted.len()
        &&& wanted[at[i]] == list[i]
        &&& i < x ==> at[i] == e[i] && wanted[at[i]].member_kind == CancelKind::EffectIntent
        &&& x <= i < y ==> at[i] == a[i - x] && wanted[at[i]].member_kind == CancelKind::Attempt
        &&& y <= i < z ==> at[i] == u[i - y] && wanted[at[i]].member_kind
            == CancelKind::ExecutionUnit
        &&& z <= i ==> at[i] == r[i - z] && wanted[at[i]].member_kind == CancelKind::Run
    } by {}
    assert forall|k: int| 0 <= k < wanted.len() implies #[trigger] at.contains(k) by {
        match wanted[k].member_kind {
            CancelKind::EffectIntent => {
                let i = choose|i: int| 0 <= i < e.len() && e[i] == k;
                assert(at[i] == k);
            },
            CancelKind::Attempt => {
                let i = choose|i: int| 0 <= i < a.len() && a[i] == k;
                assert(at[x + i] == k);
            },
            CancelKind::ExecutionUnit => {
                let i = choose|i: int| 0 <= i < u.len() && u[i] == k;
                assert(at[y + i] == k);
            },
            CancelKind::Run => {
                let i = choose|i: int| 0 <= i < r.len() && r[i] == k;
                assert(at[z + i] == k);
            },
        }
    }
    assert(is_leaf_first(wanted, at));
    assert(crate::cancel::numbered(list) =~= Seq::new(
        at.len(),
        |i: int|
            ScopeMemberView {
                member_kind: wanted[at[i]].member_kind,
                member_id: wanted[at[i]].member_id,
                attachment: wanted[at[i]].attachment,
                order_index: i as u32,
            },
    ));
}

/// Whether every proposed member can be frozen under a root: no id twice, and of each the kind is
/// below the root's, or it is the root.
pub open spec fn can_be_frozen(
    root_kind: CancelKind,
    root_id: Seq<char>,
    wanted: Seq<MemberInputView>,
) -> bool {
    &&& wanted.len() <= 1024
    &&& forall|i: int, j: int|
        0 <= i < j < wanted.len() ==> (#[trigger] wanted[i]).member_id != (
        #[trigger] wanted[j]).member_id
    &&& forall|i: int|
        0 <= i < wanted.len() ==> is_below((#[trigger] wanted[i]).member_kind, root_kind)
            || wanted[i].member_kind == root_kind && wanted[i].member_id == root_id
}

proof fn freeze_faults_show(
    root_kind: CancelKind,
    root_id: Seq<char>,
    wanted: Seq<MemberInputView>,
    n: int,
)
    requires
        0 <= n <= wanted.len(),
    ensures
        crate::funnel::cancel::freeze_fault_from(root_kind, root_id, wanted, n) is None <==> {
            &&& forall|i: int, j: int|
                0 <= i < j < wanted.len() && n <= j ==> (#[trigger] wanted[i]).member_id != (
                #[trigger] wanted[j]).member_id
            &&& forall|i: int|
                n <= i < wanted.len() ==> is_below((#[trigger] wanted[i]).member_kind, root_kind)
                    || wanted[i].member_kind == root_kind && wanted[i].member_id == root_id
        },
    decreases wanted.len() - n,
{
    if n < wanted.len() {
        freeze_faults_show(root_kind, root_id, wanted, n + 1);
    }
}

proof fn links_are_found(t: TablesView, wanted: Seq<MemberInputView>, n: int, k: int)
    requires
        0 <= k < n <= wanted.len(),
        forall|i: int, j: int|
            0 <= i < j < wanted.len() ==> (#[trigger] wanted[i]).member_id != (
            #[trigger] wanted[j]).member_id,
    ensures
        crate::funnel::cancel::link_for(
            Seq::new(
                wanted.len(),
                |i: int| crate::funnel::pre::link_of(t, wanted[i]),
            ).take(n),
            wanted[k].member_id,
        ) == Some(crate::funnel::pre::link_of(t, wanted[k])),
    decreases n,
{
    let links = Seq::new(wanted.len(), |i: int| crate::funnel::pre::link_of(t, wanted[i]));
    assert(links.take(n).drop_last() =~= links.take(n - 1));
    assert(links.take(n).last() == crate::funnel::pre::link_of(t, wanted[n - 1]));
    if k < n - 1 {
        links_are_found(t, wanted, n - 1, k);
    } else {
        no_link_before(t, wanted, n - 1, wanted[k].member_id);
    }
}

proof fn no_link_before(t: TablesView, wanted: Seq<MemberInputView>, n: int, id: Seq<char>)
    requires
        0 <= n <= wanted.len(),
        forall|i: int| 0 <= i < n ==> (#[trigger] wanted[i]).member_id != id,
    ensures
        crate::funnel::cancel::link_for(
            Seq::new(
                wanted.len(),
                |i: int| crate::funnel::pre::link_of(t, wanted[i]),
            ).take(n),
            id,
        ) is None,
    decreases n,
{
    let links = Seq::new(wanted.len(), |i: int| crate::funnel::pre::link_of(t, wanted[i]));
    if n > 0 {
        assert(links.take(n).drop_last() =~= links.take(n - 1));
        assert(links.take(n).last() == crate::funnel::pre::link_of(t, wanted[n - 1]));
        no_link_before(t, wanted, n - 1, id);
    }
}

proof fn strangers_show(
    root_kind: CancelKind,
    root_id: Seq<char>,
    root_attempt: Option<crate::funnel::pre::AttemptRootView>,
    links: Seq<crate::funnel::pre::MemberLinkView>,
    members: Seq<ScopeMemberView>,
    n: int,
)
    requires
        0 <= n <= members.len(),
    ensures
        n <= crate::funnel::cancel::stranger_from(
            root_kind,
            root_id,
            root_attempt,
            links,
            members,
            n,
        ) <= members.len(),
        crate::funnel::cancel::stranger_from(root_kind, root_id, root_attempt, links, members, n)
            == members.len() <==> forall|i: int|
            n <= i < members.len() ==> crate::funnel::cancel::in_tree(
                root_kind,
                root_id,
                root_attempt,
                links,
                #[trigger] members[i],
            ),
    decreases members.len() - n,
{
    if n < members.len() {
        strangers_show(root_kind, root_id, root_attempt, links, members, n + 1);
    }
}

#[verifier::spinoff_prover]
#[verifier::rlimit(40)]
proof fn trees_show(
    t: TablesView,
    root_kind: CancelKind,
    root_id: Seq<char>,
    m: MemberInputView,
)
    requires
        root_id.len() > 0,
        is_below(m.member_kind, root_kind) || m.member_kind == root_kind && m.member_id == root_id,
    ensures
        ({
            let link = crate::funnel::pre::link_of(t, m);
            let root = crate::funnel::run_rules::attempt_named(t.attempts, root_id);
            let inside = m.member_kind == root_kind && m.member_id == root_id || match root_kind {
                CancelKind::Run => link.run_id == Some(root_id),
                CancelKind::ExecutionUnit => (m.member_kind == CancelKind::Attempt || m.member_kind
                    == CancelKind::EffectIntent) && link.parent_unit == Some(root_id),
                CancelKind::Attempt => m.member_kind == CancelKind::EffectIntent && root is Some
                    && link.parent_unit == Some(root->0.unit_id) && link.attempt_epoch == Some(
                    root->0.attempt_epoch,
                ),
                CancelKind::EffectIntent => false,
            };
            inside <==> lives_under(t, root_kind, root_id, m.member_kind, m.member_id)
        }),
{
    let link = crate::funnel::pre::link_of(t, m);
    let id = m.member_id;
    attempt_named_is_first(t, id);
    attempt_named_is_first(t, root_id);
    effect_named_is_first(t, id);
    let root = crate::funnel::run_rules::attempt_named(t.attempts, root_id);
    match m.member_kind {
        CancelKind::Attempt => {
            match crate::funnel::run_rules::attempt_named(t.attempts, id) {
                Some(row) => {
                    let i = choose|i: int| #[trigger]
                        is_attempt_at(t, id, i) && t.attempts[i].1 == row;
                    if lookup(t.units, row.unit_id) is Some {
                        assert(unit_holds(t, row.unit_id, CancelKind::Attempt, id));
                    }
                },
                None => {},
            }
        },
        CancelKind::EffectIntent => {
            match crate::funnel::run_rules::effect_named(t.effects, id) {
                Some(row) => {
                    let i = choose|i: int| #[trigger]
                        is_effect_at(t, id, i) && t.effects[i].1 == row;
                    if lookup(t.units, row.unit_id) is Some {
                        assert(unit_holds(t, row.unit_id, CancelKind::EffectIntent, id));
                    }
                    if root is Some {
                        let r = choose|r: int| #[trigger]
                            is_attempt_at(t, root_id, r) && t.attempts[r].1 == root->0;
                        assert(is_attempt_at(t, root_id, r) && is_effect_at(t, id, i));
                    }
                },
                None => {},
            }
        },
        _ => {},
    }
}

/// Committing a cancellation: the daemon may cancel from a root whose scope can be frozen and whose
/// members all live in the root's tree. The request is then requested, at version 1, with the frozen
/// scope; every other request and every other table is as it was.
#[verifier::spinoff_prover]
#[verifier::rlimit(60)]
pub proof fn cancellations_are_committed(f: FunnelView, cmd: Command)
    requires
        is_new(f, cmd),
        cmd.method is CancelRequest,
        cmd.method->CancelRequest_root_id@.len() > 0,
    ensures
        ({
            let t = f.store.tables;
            let after = rows_after(f, cmd);
            let root_kind = cmd.method->CancelRequest_root_kind;
            let root_id = cmd.method->CancelRequest_root_id@;
            let reason = cmd.method->CancelRequest_reason;
            let policy = cmd.method->CancelRequest_policy;
            let list = cmd.method->CancelRequest_proposed@;
            let wanted = Seq::new(list.len(), |i: int| list[i]@);
            let sound = can_be_frozen(root_kind, root_id, wanted) && forall|i: int|
                0 <= i < wanted.len() ==> lives_under(
                    t,
                    root_kind,
                    root_id,
                    (#[trigger] wanted[i]).member_kind,
                    wanted[i].member_id,
                );
            let id = uuid_text(fresh(f, 1));
            let row = lookup(after.requests, id);
            let root_word = match root_kind {
                CancelKind::Run => "run"@,
                CancelKind::ExecutionUnit => "execution_unit"@,
                CancelKind::Attempt => "attempt"@,
                CancelKind::EffectIntent => "effect_intent"@,
            };
            let policy_word = match policy {
                CancelPolicy::AttachedCascade => "attached_cascade"@,
                CancelPolicy::RootOnly => "root_only"@,
            };
            let reason_word = match reason {
                CancelReason::OwnerRequest => "owner_request"@,
                CancelReason::BudgetExhausted => "budget_exhausted"@,
                CancelReason::PolicyViolation => "policy_violation"@,
                CancelReason::SupersededByEpoch => "superseded_by_epoch"@,
                CancelReason::DependencyFailed => "dependency_failed"@,
                CancelReason::ShutdownDrain => "shutdown_drain"@,
            };
            &&& completes(f, cmd) <==> by_daemon(f, cmd) && sound
            &&& by_daemon(f, cmd) && !sound ==> refused_as(f, cmd, ErrorKind::InvalidRequest)
            &&& completes(f, cmd) ==> {
                &&& after == (TablesView {
                    requests: after.requests,
                    events: after.events,
                    receipts: after.receipts,
                    ..t
                })
                &&& row is Some
                &&& is_frozen_from(row->0.record.scope.members, wanted)
                &&& row->0 == (CancelRequestRowView {
                    cancel_request_id: id,
                    version: 1,
                    root_kind: root_word,
                    root_id,
                    policy: policy_word,
                    reason: reason_word,
                    status: "requested"@,
                    record: CancelRequestView {
                        cancel_request_id: fresh(f, 1),
                        reason,
                        policy,
                        scope: CancelScopeView {
                            root_kind,
                            root_id,
                            members: row->0.record.scope.members,
                        },
                        status: CancelStatus::Requested,
                        requested_at: f.clock_ms,
                        requested_by_kind: "daemon"@,
                    },
                })
                &&& forall|other: Seq<char>|
                    other != id ==> #[trigger] lookup(after.requests, other) == lookup(
                        t.requests,
                        other,
                    )
                &&& journals(
                    f,
                    cmd,
                    "cancel_request"@,
                    id,
                    1,
                    "cancel_request.requested"@,
                    JsonView::Object(
                        Map::empty().insert("root_kind"@, JsonView::Str(root_word)).insert(
                            "root_id"@,
                            JsonView::Str(root_id),
                        ).insert("reason"@, JsonView::Str(reason_word)).insert(
                            "policy"@,
                            JsonView::Str(policy_word),
                        ).insert("status"@, JsonView::Str("requested"@)).insert(
                            "members"@,
                            JsonView::Uint(list.len() as u64),
                        ),
                    ),
                )
                &&& answer(f, cmd)->Completed_result == JsonView::Object(
                    Map::empty().insert("cancel_request_id"@, JsonView::Str(id)).insert(
                        "status"@,
                        JsonView::Str("requested"@),
                    ).insert("root_kind"@, JsonView::Str(root_word)).insert(
                        "root_id"@,
                        JsonView::Str(root_id),
                    ),
                )
            }
        }),
{
    completion_is_acceptance(f, cmd);
    daemons_pass(f, cmd);
    let t = f.store.tables;
    let root_kind = cmd.method->CancelRequest_root_kind;
    let root_id = cmd.method->CancelRequest_root_id@;
    let list = cmd.method->CancelRequest_proposed@;
    let wanted = Seq::new(list.len(), |i: int| list[i]@);
    assert(list.map_values(|m: MemberInput| m@) =~= wanted);
    freeze_faults_show(root_kind, root_id, wanted, 0);
    scopes_are_leaf_first(wanted);
    let members = crate::cancel::numbered(crate::cancel::leaf_first(wanted));
    let c = rows_for(cmd.method, t).cancel->0;
    let links = Seq::new(wanted.len(), |i: int| crate::funnel::pre::link_of(t, wanted[i]));
    assert(c.member_links =~= links);
    assert(links.take(links.len() as int) =~= links);
    if can_be_frozen(root_kind, root_id, wanted) {
        strangers_show(root_kind, root_id, c.root_attempt, links, members, 0);
        let at = choose|at: Seq<int>| #[trigger]
            is_leaf_first(wanted, at) && members == Seq::new(
                at.len(),
                |i: int|
                    ScopeMemberView {
                        member_kind: wanted[at[i]].member_kind,
                        member_id: wanted[at[i]].member_id,
                        attachment: wanted[at[i]].attachment,
                        order_index: i as u32,
                    },
            );
        assert forall|i: int| 0 <= i < members.len() implies (crate::funnel::cancel::in_tree(
            root_kind,
            root_id,
            c.root_attempt,
            links,
            #[trigger] members[i],
        ) <==> lives_under(
            t,
            root_kind,
            root_id,
            wanted[at[i]].member_kind,
            wanted[at[i]].member_id,
        )) by {
            links_are_found(t, wanted, wanted.len() as int, at[i]);
            trees_show(t, root_kind, root_id, wanted[at[i]]);
        }
        if forall|i: int|
            0 <= i < members.len() ==> crate::funnel::cancel::in_tree(
                root_kind,
                root_id,
                c.root_attempt,
                links,
                #[trigger] members[i],
            ) {
            assert forall|k: int| 0 <= k < wanted.len() implies lives_under(
                t,
                root_kind,
                root_id,
                (#[trigger] wanted[k]).member_kind,
                wanted[k].member_id,
            ) by {
                assert(at.contains(k));
                let i = choose|i: int| 0 <= i < at.len() && at[i] == k;
                assert(crate::funnel::cancel::in_tree(
                    root_kind,
                    root_id,
                    c.root_attempt,
                    links,
                    members[i],
                ));
            }
        }
    }
    if completes(f, cmd) {
        one_event_is_journalled(f, cmd);
        let id = uuid_text(fresh(f, 1));
        let p = decide(f, cmd, rows_for(cmd.method, t))->Ok_0.plan->CreateCancelRequest_0;
        let new = CancelRequestRowView {
            cancel_request_id: id,
            version: 1,
            root_kind: p.request.scope.root_kind.wire_text(),
            root_id: p.request.scope.root_id,
            policy: p.request.policy.wire_text(),
            reason: p.request.reason.wire_text(),
            status: "requested"@,
            record: p.request,
        };
        assert(rows_after(f, cmd).requests == upsert(t.requests, id, new));
        read_after_write(t.requests, id, new, id);
        assert forall|other: Seq<char>| other != id implies #[trigger] lookup(
            rows_after(f, cmd).requests,
            other,
        ) == lookup(t.requests, other) by {
            read_after_write(t.requests, id, new, other);
        }
    }
}

} // verus!
