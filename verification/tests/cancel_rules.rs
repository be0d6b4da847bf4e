use yah::cancel::{
    kind_from_wire, outcome_from_wire, Attachment, CancelKind, CancelScope, CancelStatus,
    DeliveryOutcome, MemberInput,
};
use yah::funnel::cancel_rules::{
    already_delivered, delivery_leaf_first, next_undelivered, request_status_after,
    root_in_lineage, DeliverySummary,
};
use yah::ids::Uuid7;

fn id(n: u64) -> String {
    Uuid7::mint(1_700_000_000_000, n as u128).to_string()
}

fn member(kind: CancelKind, n: u64) -> MemberInput {
    MemberInput {
        member_kind: kind,
        member_id: id(n),
        attachment: Attachment::Attached,
    }
}

fn scope(proposed: Vec<MemberInput>) -> CancelScope {
    CancelScope::freeze(CancelKind::Run, id(1), proposed).expect("scope freezes")
}

fn summary(member_id: &str, outcome: DeliveryOutcome) -> DeliverySummary {
    DeliverySummary {
        member_id: member_id.to_owned(),
        outcome,
    }
}

#[test]
fn status_advances_requested_to_delivering_to_settled() {
    let s = scope(vec![
        member(CancelKind::EffectIntent, 40),
        member(CancelKind::Attempt, 30),
    ]);
    assert_eq!(request_status_after(&s, &vec![]), CancelStatus::Requested);
    assert_eq!(
        request_status_after(
            &s,
            &vec![summary(&id(40), DeliveryOutcome::ObservedStopped)]
        ),
        CancelStatus::Delivering
    );
    assert_eq!(
        request_status_after(
            &s,
            &vec![
                summary(&id(40), DeliveryOutcome::ObservedStopped),
                summary(&id(30), DeliveryOutcome::ObservedStopped),
            ]
        ),
        CancelStatus::Settled
    );
}

#[test]
fn unresponsive_is_terminal_but_never_settles() {
    let s = scope(vec![member(CancelKind::EffectIntent, 40)]);
    assert_eq!(
        request_status_after(&s, &vec![summary(&id(40), DeliveryOutcome::Unresponsive)]),
        CancelStatus::ObservedPartial,
        "delivered but undischarged stays observed_partial, never settled"
    );
}

#[test]
fn all_members_delivered_with_an_undischarged_row_stays_observed_partial() {
    let s = scope(vec![member(CancelKind::EffectIntent, 40)]);
    assert_eq!(
        request_status_after(&s, &vec![summary(&id(40), DeliveryOutcome::Unresponsive)]),
        CancelStatus::ObservedPartial
    );
    assert_eq!(
        request_status_after(&s, &vec![summary(&id(40), DeliveryOutcome::AlreadyTerminal)]),
        CancelStatus::Settled,
        "a discharged outcome settles even when it arrived for the only member"
    );
}

#[test]
fn root_and_cascade_scopes_settle_alike() {
    let root_only = CancelScope::freeze(
        CancelKind::Run,
        id(1),
        vec![member(CancelKind::ExecutionUnit, 20)],
    )
    .expect("freezes");
    assert_eq!(
        request_status_after(
            &root_only,
            &vec![summary(&id(20), DeliveryOutcome::ObservedStopped)]
        ),
        CancelStatus::Settled
    );
}

#[test]
fn leaf_first_picks_the_undelivered_minimum() {
    let s = scope(vec![
        member(CancelKind::EffectIntent, 40),
        member(CancelKind::Attempt, 30),
    ]);
    // EffectIntent (order 0) must deliver before Attempt (order 1).
    assert!(delivery_leaf_first(&s, &vec![], &id(40)));
    assert!(!delivery_leaf_first(&s, &vec![], &id(30)));
    // Once the leaf is delivered, the attempt is next.
    assert!(delivery_leaf_first(
        &s,
        &vec![summary(&id(40), DeliveryOutcome::ObservedStopped)],
        &id(30)
    ));
    assert!(!delivery_leaf_first(
        &s,
        &vec![summary(&id(40), DeliveryOutcome::ObservedStopped)],
        &id(40)
    ));
    assert_eq!(next_undelivered(&s, &vec![]).unwrap().member_id, id(40));
}

#[test]
fn the_write_once_pair_identity_is_member_scoped() {
    assert!(!already_delivered(&vec![], &id(1)));
    let rows = vec![summary(&id(1), DeliveryOutcome::ObservedStopped)];
    assert!(already_delivered(&rows, &id(1)));
    assert!(!already_delivered(&rows, &id(2)));
}

#[test]
fn root_lineage_matching_ignores_policy_axis() {
    let lineage = vec![
        (CancelKind::Run, id(1).clone()),
        (CancelKind::ExecutionUnit, id(20).clone()),
    ];
    assert!(root_in_lineage(CancelKind::Run, &id(1), &lineage));
    assert!(root_in_lineage(
        CancelKind::ExecutionUnit,
        &id(20),
        &lineage
    ));
    // A sibling run does not match.
    assert!(!root_in_lineage(CancelKind::Run, &id(2), &lineage));
    // A request rooted at the child itself (a unit not yet existing) is
    // not an ancestor of the child and does not match.
    assert!(!root_in_lineage(
        CancelKind::ExecutionUnit,
        &id(99),
        &lineage
    ));
}

#[test]
fn cancel_names_read_back() {
    for kind in [
        CancelKind::Run,
        CancelKind::ExecutionUnit,
        CancelKind::Attempt,
        CancelKind::EffectIntent,
    ] {
        assert_eq!(kind_from_wire(kind.wire()), Some(kind));
    }
    for outcome in [
        DeliveryOutcome::ObservedStopped,
        DeliveryOutcome::AlreadyTerminal,
        DeliveryOutcome::Unresponsive,
    ] {
        assert_eq!(outcome_from_wire(outcome.wire()), Some(outcome));
    }
    assert_eq!(kind_from_wire("nothing"), None);
}
