use yah::ids::{AttemptEpoch, AuthorityEpoch, Stamp};
use yah::store::{
    agg_ver_ord, schema, AttemptTokenClaims, EventRecord, FenceRead, LeaseFence, Store, StoreError,
    StoreRejection, Tables, UnitFence,
};

fn append_event(store: &mut Store, event_id: &str, aggregate_id: &str, version: u64) -> u64 {
    let cursor = store.allocate_cursor();
    store.tables.events.push(EventRecord {
        cursor,
        event_id: event_id.to_owned(),
        aggregate_kind: "unit".to_owned(),
        aggregate_id: aggregate_id.to_owned(),
        aggregate_version: version,
        ordinal: 0,
        event_kind: "test".to_owned(),
        payload: "{}".to_owned(),
        receipt_key: String::new(),
        command_id: String::new(),
        actor_kind: "daemon".to_owned(),
        actor_id: "daemon-local".to_owned(),
        occurred_at_ms: 0,
        causation_id: None,
        correlation_id: None,
    });
    cursor
}

#[test]
fn authority_epoch_increments_on_every_takeover() {
    let store = Store::create("inst-1");
    assert_eq!(store.authority_epoch(), AuthorityEpoch(1));
    let store = Store::recover(store.tables, "inst-2", "").unwrap();
    assert_eq!(store.authority_epoch(), AuthorityEpoch(2));
    let store = Store::recover(store.tables, "inst-3", "").unwrap();
    assert_eq!(store.authority_epoch(), AuthorityEpoch(3));
    let row = store.tables.authority.as_ref().unwrap();
    assert_eq!(row.holder_instance_id, "inst-3");
    assert_eq!(row.prior_instance_id.as_deref(), Some("inst-2"));
}

#[test]
fn cursor_allocator_restores_strictly_above_committed_max() {
    let mut store = Store::create("inst-1");
    append_event(&mut store, "e1", "u1", 1);
    append_event(&mut store, "e2", "u1", 2);
    let burned = store.allocate_cursor();
    assert_eq!(burned, 3);
    let mut store = Store::recover(store.tables, "inst-2", "").unwrap();
    assert_eq!(store.allocate_cursor(), 3);
    let committed_at = append_event(&mut store, "e3", "u1", 3);
    assert_eq!(committed_at, 4);
    let mut store = Store::recover(store.tables, "inst-3", "").unwrap();
    assert_eq!(store.allocate_cursor(), 5);
}

#[test]
fn rows_without_an_authority_do_not_recover() {
    match Store::recover(Tables::empty(), "inst-1", "") {
        Err(StoreError::Internal(detail)) => {
            assert_eq!(detail, "control graph has no Authority row")
        }
        other => panic!("expected an internal error, got {other:?}"),
    }
}

#[test]
fn journal_delete_requests_reject_typed() {
    let store = Store::create("inst-1");
    assert_eq!(
        store.request_journal_delete("e1"),
        StoreRejection::JournalImmutable {
            detail: "delete of committed event e1".to_owned()
        }
    );
}

fn claims(store: &Store) -> AttemptTokenClaims {
    AttemptTokenClaims {
        unit_id: "u1".into(),
        attempt_epoch: AttemptEpoch(3),
        stamp: Stamp(1),
        authority_epoch: store.authority_epoch(),
        holder_id: "h1".into(),
        nonce: "n".into(),
    }
}

fn healthy_read() -> FenceRead {
    FenceRead {
        unit: Some(UnitFence {
            attempt_epoch: AttemptEpoch(3),
            stamp: Stamp(1),
        }),
        lease: Some(LeaseFence {
            holder_id: "h1".into(),
            status: "active".into(),
        }),
    }
}

#[test]
fn holder_fence_checks_all_five_axes() {
    let store = Store::create("inst-1");
    let ok = claims(&store);
    assert_eq!(store.check_holder_fence(&healthy_read(), &ok), Ok(()));

    // Axis 1: authority epoch behind current.
    let mut stale = ok.clone();
    stale.authority_epoch = AuthorityEpoch(0);
    assert!(matches!(
        store.check_holder_fence(&healthy_read(), &stale),
        Err(StoreRejection::FenceRejected { .. })
    ));

    // Axis 2: attempt epoch superseded.
    let mut stale = ok.clone();
    stale.attempt_epoch = AttemptEpoch(2);
    assert!(matches!(
        store.check_holder_fence(&healthy_read(), &stale),
        Err(StoreRejection::FenceRejected { .. })
    ));

    // Axis 3: stamp bumped; no new attempt required.
    let mut stale = ok.clone();
    stale.stamp = Stamp(0);
    assert!(matches!(
        store.check_holder_fence(&healthy_read(), &stale),
        Err(StoreRejection::FenceRejected { .. })
    ));

    // Axis 4: lease not active.
    let mut read = healthy_read();
    read.lease = Some(LeaseFence {
        holder_id: "h1".into(),
        status: "revoked".into(),
    });
    assert!(matches!(
        store.check_holder_fence(&read, &ok),
        Err(StoreRejection::FenceRejected { .. })
    ));

    // Axis 5: wrong holder for the active lease.
    let mut read = healthy_read();
    read.lease = Some(LeaseFence {
        holder_id: "h2".into(),
        status: "active".into(),
    });
    assert!(matches!(
        store.check_holder_fence(&read, &ok),
        Err(StoreRejection::FenceRejected { .. })
    ));

    // Missing unit is NotFound, not a fence rejection.
    let read = FenceRead {
        unit: None,
        lease: None,
    };
    assert!(matches!(
        store.check_holder_fence(&read, &ok),
        Err(StoreRejection::NotFound { .. })
    ));
}

#[test]
fn missing_lease_with_present_unit_is_not_found() {
    let store = Store::create("inst-1");
    let read = FenceRead {
        unit: Some(UnitFence {
            attempt_epoch: AttemptEpoch(3),
            stamp: Stamp(1),
        }),
        lease: None,
    };
    let claims = claims(&store);
    assert!(matches!(
        store.check_holder_fence(&read, &claims),
        Err(StoreRejection::NotFound { .. })
    ));
}

#[test]
fn events_are_read_above_a_cursor_and_up_to_a_limit() {
    let mut store = Store::create("inst-1");
    for n in 1..=5u64 {
        append_event(&mut store, &format!("e{n}"), "u1", n);
    }
    let ids = |after: u64, limit: usize| {
        store
            .events_after_limit(after, limit)
            .iter()
            .map(|e| e.event_id.clone())
            .collect::<Vec<String>>()
    };
    assert_eq!(ids(0, 2), vec!["e1", "e2"]);
    assert_eq!(ids(3, 10), vec!["e4", "e5"]);
    assert!(ids(5, 10).is_empty());
    assert_eq!(store.latest_cursor(), 5);
    assert!(store.validate_event_receipts().is_err());
}

#[test]
fn the_control_schema_freezes_the_journal() {
    let graph = schema::graph_type();
    assert_eq!(graph.name, "oa.control");
    assert_eq!(graph.node_types.len(), 9);
    for node in &graph.node_types {
        let key = &node.properties[0];
        assert!(key.required && key.unique && key.immutable, "{}", node.name);
        if node.label == "Event" || node.label == "Evidence" {
            assert!(node.properties.iter().all(|p| p.immutable));
        }
    }
    let unit = graph.node_types.iter().find(|n| n.label == "Unit").unwrap();
    assert_eq!(
        unit.properties.iter().map(|p| p.name).collect::<Vec<&str>>(),
        vec![
            "unit_id",
            "version",
            "current_attempt_epoch",
            "stamp",
            "status",
            "work_item_id",
            "record"
        ]
    );
}

#[test]
fn the_place_of_an_event_names_the_kind_first() {
    let mut store = Store::create("kernel-k");
    append_event(&mut store, "e-1", "u-1", 4);
    assert_eq!(agg_ver_ord(&store.tables.events[0]), "unit/u-1/4/0");
}
