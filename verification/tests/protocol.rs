use yah::funnel::submit::CommitOutcome;
use yah::funnel::Funnel;
use yah::ids::Digest;
use yah::protocol::adapter::{protocol_error, request_digest, InProcessAdapter};
use yah::protocol::event::{format_timestamp, project};
use yah::protocol::handle::{read_request, RetentionAnswer};
use yah::protocol::numbers::{is_large_real, validate_numbers};
use yah::protocol::types::{
    BoundedU32, ClientMessage, Command, CommandBody, DecimalU64, ErrorKind, Event,
    ProgressReportPayload, Receipt, ReceiptOutcome, Rfc3339Timestamp, RunClosePayload,
    RunCloseOutcome, RunOpenPayload, Scope, ScopeKind, ServerMessage, SubscriptionPoll, Target,
    UnitAdmitPayload, UnitDispatchPayload, UnitPayload, WorkItemCreatePayload,
};
use yah::protocol::wire::{
    client_value, decode_client_message, encode_server_message, validate_wire_limits,
    WireLimitError,
};
use yah::protocol::{
    MAX_COMMAND_BYTES, MAX_EVENT_PAYLOAD_BYTES, MAX_PAYLOAD_BYTES, MAX_RESUME_BYTES,
};
use yah::store::{EventRecord, Store};

const KEY: [u8; 32] = [7; 32];

fn adapter() -> InProcessAdapter {
    let store = Store::create_project("adapter-a", "p-1");
    InProcessAdapter::new(Funnel::new(store, 1_000).unwrap(), "p-1", KEY).unwrap()
}

fn insert_test_event(adapter: &mut InProcessAdapter, record: &EventRecord) {
    adapter.funnel.store.tables.events.push(record.clone());
}

#[test]
fn timestamps_cover_minutes_and_calendar_dates() {
    assert_eq!(
        format_timestamp(61_000).unwrap(),
        "1970-01-01T00:01:01.000Z"
    );
    assert_eq!(
        format_timestamp(1_700_000_000_123).unwrap(),
        "2023-11-14T22:13:20.123Z"
    );
}

#[test]
fn timestamps_cover_leap_days_and_the_last_millisecond() {
    assert_eq!(format_timestamp(951_782_400_000).unwrap(), "2000-02-29T00:00:00.000Z");
    assert_eq!(format_timestamp(4_107_542_400_000).unwrap(), "2100-03-01T00:00:00.000Z");
    assert_eq!(
        format_timestamp(253_402_300_799_999).unwrap(),
        "9999-12-31T23:59:59.999Z"
    );
    assert!(format_timestamp(253_402_300_800_000).is_err());
    for ms in [0u64, 1, 86_399_999, 1_709_210_096_007] {
        assert!(Rfc3339Timestamp::new(format_timestamp(ms).unwrap()).is_ok());
    }
}

#[test]
fn timestamps_on_the_wire_are_utc_with_milliseconds() {
    assert_eq!(
        Rfc3339Timestamp::new("2023-11-14T22:13:20.123Z".to_owned())
            .unwrap()
            .as_str(),
        "2023-11-14T22:13:20.123Z"
    );
    for text in [
        "2023-11-14T22:13:20Z",
        "2023-11-14T22:13:20.123+01:00",
        "2023-11-14T22:13:20.123456Z",
    ] {
        assert_eq!(
            Rfc3339Timestamp::new(text.to_owned()).unwrap_err(),
            "timestamp must be UTC with millisecond precision",
            "{text}"
        );
    }
    assert!(Rfc3339Timestamp::new("yesterday".to_owned())
        .unwrap_err()
        .starts_with("invalid RFC 3339 timestamp: "));
    assert_eq!(
        Rfc3339Timestamp::from_reading("t".to_owned(), Ok((0, "t".to_owned())))
            .unwrap()
            .as_str(),
        "t"
    );
}

#[test]
fn decimals_are_canonical() {
    assert_eq!(DecimalU64::try_from("0".to_owned()).unwrap().get(), 0);
    assert_eq!(
        DecimalU64::try_from("18446744073709551615".to_owned()).unwrap().get(),
        u64::MAX
    );
    assert_eq!(DecimalU64::new(42).to_text(), "42");
    for bad in ["", "00", "01", "-1", "1.0", " 1", "x"] {
        assert_eq!(
            DecimalU64::try_from(bad.to_owned()).unwrap_err(),
            format!("non-canonical u64 string: {bad:?}")
        );
    }
    assert_eq!(
        DecimalU64::try_from("18446744073709551616".to_owned()).unwrap_err(),
        "u64 string out of range: \"18446744073709551616\""
    );
    assert_eq!(BoundedU32::new(7).get(), 7);
}

fn malformed_event() -> EventRecord {
    EventRecord {
        cursor: 1,
        event_id: "event-1".into(),
        aggregate_kind: "run".into(),
        aggregate_id: "run-1".into(),
        aggregate_version: 1,
        ordinal: 0,
        event_kind: "run.opened".into(),
        payload: "{".into(),
        receipt_key: "run/run-1/command-1".into(),
        command_id: "command-1".into(),
        actor_kind: "daemon".into(),
        actor_id: "daemon-local".into(),
        occurred_at_ms: 0,
        causation_id: None,
        correlation_id: None,
    }
}

#[test]
fn malformed_durable_event_data_fails_projection() {
    assert!(project(&malformed_event()).unwrap_err().contains("invalid JSON"));
}

#[test]
fn projection_refuses_what_the_wire_cannot_carry() {
    let mut e = malformed_event();
    e.payload = "[]".into();
    assert_eq!(
        project(&e).unwrap_err(),
        "durable event event-1 has a payload that is no JSON object"
    );
    e.payload = "{}".into();
    assert!(project(&e).is_ok());
    e.ordinal = 1 << 32;
    assert!(project(&e).unwrap_err().contains("ordinal"));
    e.ordinal = 0;
    e.occurred_at_ms = 253_402_300_800_000;
    assert!(project(&e).unwrap_err().contains("9999"));
    e.occurred_at_ms = 0;
    e.aggregate_id = "x".repeat(70_000);
    assert!(project(&e).unwrap_err().contains("64 KiB"));
    e.aggregate_id = "run-1".into();
    e.payload = format!("{{\"p\":\"{}\"}}", "x".repeat(MAX_EVENT_PAYLOAD_BYTES));
    assert!(project(&e).unwrap_err().contains("16 KiB"));
}

#[test]
fn adapter_startup_rejects_malformed_durable_events() {
    let mut store = Store::create_project("adapter-a", "p-1");
    store.tables.events.push(malformed_event());
    let funnel = Funnel::new(store, 0).unwrap();
    assert!(InProcessAdapter::new(funnel, "p-1", KEY).is_err());
}

#[test]
fn adapter_startup_wants_its_project_and_owned_events() {
    let store = Store::create_project("adapter-a", "p-1");
    let error = InProcessAdapter::new(Funnel::new(store, 0).unwrap(), "p-2", KEY).unwrap_err();
    assert_eq!(error.kind, ErrorKind::InvalidRequest);
    let mut store = Store::create_project("adapter-a", "p-1");
    let mut e = malformed_event();
    e.payload = "{}".into();
    store.tables.events.push(e);
    let error = InProcessAdapter::new(Funnel::new(store, 0).unwrap(), "p-1", KEY).unwrap_err();
    assert_eq!(error.kind, ErrorKind::Internal);
    assert!(error.message.starts_with("durable event ownership is invalid"));
}

fn test_event(cursor: u64, padding: usize) -> EventRecord {
    EventRecord {
        cursor,
        event_id: format!("event-{cursor}"),
        aggregate_kind: "run".into(),
        aggregate_id: format!("run-{cursor}"),
        aggregate_version: 1,
        ordinal: 0,
        event_kind: "run.opened".into(),
        payload: format!("{{\"padding\":\"{}\"}}", "x".repeat(padding)),
        receipt_key: format!("run/run-{cursor}/command-{cursor}"),
        command_id: format!("command-{cursor}"),
        actor_kind: "daemon".into(),
        actor_id: "daemon-local".into(),
        occurred_at_ms: 0,
        causation_id: None,
        correlation_id: None,
    }
}

fn events_len(events: Vec<Event>) -> usize {
    encode_server_message(&ServerMessage::Events(events)).len()
}

#[test]
fn resume_enforces_the_exact_response_byte_limit() {
    let mut adapter = adapter();
    let mut projected: Vec<Event> = Vec::new();
    let mut cursor = 1;
    loop {
        let record = test_event(cursor, MAX_EVENT_PAYLOAD_BYTES - 14);
        let event = project(&record).unwrap();
        let mut candidate = projected.clone();
        candidate.push(event);
        if events_len(candidate) > MAX_RESUME_BYTES {
            let empty_record = test_event(cursor, 0);
            let empty_event = project(&empty_record).unwrap();
            let mut minimum = projected.clone();
            minimum.push(empty_event);
            let minimum_len = events_len(minimum);
            let padding = MAX_RESUME_BYTES - minimum_len;
            let final_record = test_event(cursor, padding);
            projected.push(project(&final_record).unwrap());
            insert_test_event(&mut adapter, &final_record);
            break;
        }
        projected.push(project(&record).unwrap());
        insert_test_event(&mut adapter, &record);
        cursor += 1;
    }

    let request = client_value(&ClientMessage::Resume {
        project_id: "p-1".into(),
        after_cursor: DecimalU64::new(0),
    })
    .to_string();
    let response = adapter.handle_json(request.as_bytes(), Ok(()), CommitOutcome::Committed);
    assert_eq!(response.len(), MAX_RESUME_BYTES);
    assert_eq!(
        response,
        encode_server_message(&ServerMessage::Events(projected))
    );

    let overflow = test_event(cursor + 1, 0);
    insert_test_event(&mut adapter, &overflow);
    let response = adapter.handle_bytes(request.as_bytes(), Ok(()), CommitOutcome::Committed);
    let ServerMessage::Error(error) = response else {
        panic!("cumulative response overflow must be rejected")
    };
    assert_eq!(error.kind, ErrorKind::ResourceExhausted);
}

#[test]
fn raw_limits_accept_the_boundary_and_reject_one_more_byte() {
    let payload = format!("\"{}\"", "x".repeat(MAX_PAYLOAD_BYTES - 2));
    let frame = format!(r#"{{"kind":"command","message":{{"payload":{payload}}}}}"#);
    assert!(validate_wire_limits(frame.as_bytes()).is_ok());

    let payload = format!("\"{}\"", "x".repeat(MAX_PAYLOAD_BYTES - 1));
    let frame = format!(r#"{{"kind":"command","message":{{"payload":{payload}}}}}"#);
    assert!(matches!(
        validate_wire_limits(frame.as_bytes()),
        Err(WireLimitError::Payload)
    ));

    let prefix = r#"{"payload":null,"padding":""#;
    let suffix = r#""}"#;
    let padding = "x".repeat(MAX_COMMAND_BYTES - prefix.len() - suffix.len());
    let message = format!("{prefix}{padding}{suffix}");
    let frame = format!(r#"{{"kind":"command","message":{message}}}"#);
    assert!(validate_wire_limits(frame.as_bytes()).is_ok());

    let message = format!("{prefix}{padding}x{suffix}");
    let frame = format!(r#"{{"kind":"command","message":{message}}}"#);
    assert!(matches!(
        validate_wire_limits(frame.as_bytes()),
        Err(WireLimitError::Command)
    ));
}

#[test]
fn control_frames_have_the_smaller_limit() {
    let frame = format!(r#"{{"kind":"resume","message":"{}"}}"#, "x".repeat(17_000));
    assert!(matches!(
        validate_wire_limits(frame.as_bytes()),
        Err(WireLimitError::Frame)
    ));
    let frame = "x".repeat(1_052_673);
    assert!(matches!(
        validate_wire_limits(frame.as_bytes()),
        Err(WireLimitError::Frame)
    ));
    for bad in ["", "[]", r#"{"kind":"resume"}"#, r#"{"message":1}"#, r#"{"kind":1,"message":1}"#] {
        assert!(matches!(
            validate_wire_limits(bad.as_bytes()),
            Err(WireLimitError::Invalid(_))
        ));
    }
}

fn message_error(text: &str) -> (ErrorKind, String) {
    let e = read_request(text.as_bytes(), Ok(())).unwrap_err();
    (e.kind, e.message)
}

#[test]
fn requests_are_read_strictly() {
    assert!(matches!(
        read_request(
            br#"{"kind":"resume","message":{"project_id":"p","after_cursor":"3","other":1}}"#,
            Ok(())
        ),
        Ok(ClientMessage::Resume { after_cursor, .. }) if after_cursor.get() == 3
    ));
    assert_eq!(
        message_error(r#"{"kind":"resume","message":{"project_id":"p","after_cursor":3}}"#),
        (ErrorKind::InvalidRequest, "invalid JSON message: wrong shape".to_owned())
    );
    assert_eq!(
        message_error(r#"{"kind":"resume","message":{"project_id":"p","after_cursor":"3","n":9007199254740992}}"#).1,
        "invalid JSON message: JSON integer exceeds the I-JSON safe range; encode it as a string"
    );
    let e = read_request(
        br#"{"kind":"resume","message":{"project_id":"p","after_cursor":"3"}}"#,
        Err("duplicate JSON object name \"kind\"".to_owned()),
    )
    .unwrap_err();
    assert_eq!(e.message, "invalid JSON message: duplicate JSON object name \"kind\"");
    let big = format!(
        r#"{{"kind":"command","message":{{"payload":"{}"}}}}"#,
        "x".repeat(MAX_PAYLOAD_BYTES)
    );
    assert_eq!(
        message_error(&big),
        (
            ErrorKind::PayloadTooLarge,
            "encoded command payload exceeds 256 KiB".to_owned()
        )
    );
}

#[test]
fn unsafe_numbers_are_found_at_any_depth_and_in_any_notation() {
    let bad = |text: &str| {
        validate_numbers(&yah::json::parse_json(text).unwrap()).is_err()
    };
    for text in ["9007199254740992", "-9007199254740992", "[[{\"a\":1e300}]]", "9007199254740992.0", "1e16"] {
        assert!(bad(text), "{text}");
    }
    for text in ["9007199254740991", "-9007199254740991", "0.5", "9007199254740991.0", "1e15", "1e-300", "[]"] {
        assert!(!bad(text), "{text}");
    }
    assert!(is_large_real("9.007199254740992e15"));
    assert!(!is_large_real("9.007199254740991e15"));
    assert!(!is_large_real("0.00001e20"));
    assert!(is_large_real("0.00001e22"));
    assert!(!is_large_real("0e9999999999999"));
}

fn command(id: &str, scope: (ScopeKind, &str), target: (&str, &str), body: CommandBody) -> Command {
    let mut c = Command {
        protocol_version: BoundedU32::new(1),
        command_id: id.to_owned(),
        scope: Scope { scope_kind: scope.0, scope_id: scope.1.to_owned() },
        payload_schema_version: BoundedU32::new(1),
        target: Target { aggregate_kind: target.0.to_owned(), aggregate_id: target.1.to_owned() },
        expected_versions: vec![],
        attempt_token: None,
        authority_epoch: Some(DecimalU64::new(1)),
        deadline: None,
        causation_id: None,
        correlation_id: None,
        trace_context: None,
        body,
        request_digest: String::new(),
    };
    seal(&mut c);
    c
}

fn seal(c: &mut Command) {
    c.request_digest = request_digest(c).into_string();
}

fn work_item(id: &str) -> Command {
    command(
        id,
        (ScopeKind::Project, "p-1"),
        ("work_item", "wi-1"),
        CommandBody::WorkItemCreate(WorkItemCreatePayload {
            work_item_id: "wi-1".to_owned(),
            acceptance_contract_digest: Digest::of_bytes(b"c").into_string(),
            declared_write_scope: vec!["src".to_owned()],
            extra: vec![],
        }),
    )
}

fn send(a: &mut InProcessAdapter, c: Command) -> Receipt {
    a.submit(c, CommitOutcome::Committed).unwrap()
}

fn completed(a: &mut InProcessAdapter, c: Command) -> Receipt {
    let r = send(a, c);
    assert_eq!(r.outcome, ReceiptOutcome::Completed, "{:?}", r.error);
    r
}

fn error_of(r: &Receipt) -> (ErrorKind, String) {
    let e = r.error.as_ref().unwrap();
    (e.kind, e.message.clone())
}

fn prepared() -> InProcessAdapter {
    let mut a = adapter();
    completed(&mut a, work_item("c-1"));
    completed(
        &mut a,
        command(
            "c-2",
            (ScopeKind::Run, "run-1"),
            ("run", "run-1"),
            CommandBody::RunOpen(RunOpenPayload {
                run_id: "run-1".to_owned(),
                goal_work_item_id: "wi-1".to_owned(),
                extra: vec![],
            }),
        ),
    );
    completed(
        &mut a,
        command(
            "c-3",
            (ScopeKind::Unit, "u-1"),
            ("unit", "u-1"),
            CommandBody::UnitAdmit(UnitAdmitPayload {
                unit_id: "u-1".to_owned(),
                work_item_id: "wi-1".to_owned(),
                run_id: "run-1".to_owned(),
                extra: vec![],
            }),
        ),
    );
    a
}

fn versioned(mut c: Command, version: u64) -> Command {
    c.expected_versions = vec![yah::protocol::types::ExpectedVersion {
        aggregate_kind: c.target.aggregate_kind.clone(),
        aggregate_id: c.target.aggregate_id.clone(),
        version: DecimalU64::new(version),
    }];
    seal(&mut c);
    c
}

fn dispatch(id: &str, holder: &str, version: u64) -> Command {
    versioned(
        command(
            id,
            (ScopeKind::Unit, "u-1"),
            ("unit", "u-1"),
            CommandBody::UnitDispatch(UnitDispatchPayload {
                unit_id: "u-1".to_owned(),
                holder_id: holder.to_owned(),
                extra: vec![],
            }),
        ),
        version,
    )
}

fn progress(id: &str, token: &str, version: u64) -> Command {
    let mut c = versioned(
        command(
            id,
            (ScopeKind::Unit, "u-1"),
            ("unit", "u-1"),
            CommandBody::ProgressReport(ProgressReportPayload { unit_id: "u-1".to_owned() }),
        ),
        version,
    );
    c.attempt_token = Some(token.to_owned());
    c
}

fn token_in(r: &Receipt) -> String {
    match r.result.as_ref().unwrap().get("attempt_token") {
        Some(serde_json::Value::String(s)) => s.clone(),
        other => panic!("no token: {other:?}"),
    }
}

#[test]
fn the_request_digest_covers_the_canonical_request() {
    let c = work_item("c-1");
    let preimage = format!(
        "{{\"command_type\":\"work_item.create\",\"expected_versions\":[],\"payload\":{{\"acceptance_contract_digest\":\"{}\",\"declared_write_scope\":[\"src\"],\"work_item_id\":\"wi-1\"}},\"payload_schema_version\":1,\"target\":{{\"aggregate_id\":\"wi-1\",\"aggregate_kind\":\"work_item\"}}}}",
        Digest::of_bytes(b"c").into_string()
    );
    assert_eq!(c.request_digest, Digest::of_bytes(preimage.as_bytes()).into_string());
    assert_eq!(work_item("another").request_digest, c.request_digest);
    let mut extended = work_item("c-1");
    if let CommandBody::WorkItemCreate(p) = &mut extended.body {
        p.extra = vec![(
            "weight".to_owned(),
            serde_json::from_str::<serde_json::Value>("1.50").unwrap(),
        )];
    }
    let with_member = preimage.replace(
        "\"work_item_id\":\"wi-1\"",
        "\"weight\":1.5,\"work_item_id\":\"wi-1\"",
    );
    assert_eq!(
        request_digest(&extended).into_string(),
        Digest::of_bytes(with_member.as_bytes()).into_string()
    );
}

#[test]
fn commands_complete_replay_and_conflict() {
    let mut a = adapter();
    let first = completed(&mut a, work_item("c-1"));
    assert_eq!(first.event_cursors.iter().map(|c| c.get()).collect::<Vec<u64>>(), vec![1]);
    assert_eq!(first.state_version.unwrap().get(), 1);
    let again = send(&mut a, work_item("c-1"));
    assert_eq!(again.outcome, ReceiptOutcome::Replayed);
    assert_eq!(again.event_cursors[0].get(), 1);
    let mut other = work_item("c-1");
    if let CommandBody::WorkItemCreate(p) = &mut other.body {
        p.declared_write_scope = vec![];
    }
    seal(&mut other);
    let r = send(&mut a, other);
    assert_eq!(r.outcome, ReceiptOutcome::Rejected);
    assert_eq!(error_of(&r).0, ErrorKind::IdempotencyConflict);
}

#[test]
fn a_forged_digest_is_refused_before_anything_else() {
    let mut a = adapter();
    let mut c = work_item("c-1");
    c.request_digest = Digest::of_bytes(b"forged").into_string();
    let r = send(&mut a, c);
    assert_eq!(
        error_of(&r),
        (
            ErrorKind::InvalidRequest,
            "request_digest does not match canonical command preimage".to_owned()
        )
    );
    assert_eq!(a.funnel.store.tables.receipts.len(), 0);
}

#[test]
fn the_authority_epoch_must_be_current() {
    let mut a = adapter();
    let mut c = work_item("c-1");
    c.authority_epoch = None;
    assert_eq!(
        error_of(&send(&mut a, c)),
        (
            ErrorKind::InvalidRequest,
            "control-graph command requires authority_epoch".to_owned()
        )
    );
    let mut c = work_item("c-1");
    c.authority_epoch = Some(DecimalU64::new(9));
    assert_eq!(
        error_of(&send(&mut a, c)),
        (
            ErrorKind::FenceRejected,
            "authority epoch 9 does not match current 1".to_owned()
        )
    );
}

#[test]
fn envelope_refusals_are_kept_under_the_key() {
    let mut a = adapter();
    let mut c = work_item("c-1");
    if let CommandBody::WorkItemCreate(p) = &mut c.body {
        p.extra = vec![(
            "surprise".to_owned(),
            serde_json::from_str::<serde_json::Value>("true").unwrap(),
        )];
    }
    seal(&mut c);
    let r = send(&mut a, c);
    assert_eq!(
        error_of(&r),
        (ErrorKind::InvalidRequest, "payload has an unknown member".to_owned())
    );
    assert!(a.funnel.store.tables.receipts.get("project/p-1/c-1").is_some());
    let mut c = work_item("c-2");
    c.scope.scope_id = "p-9".to_owned();
    assert_eq!(
        error_of(&send(&mut a, c)).1,
        "work_item.create requires the current project receipt scope"
    );
    let mut c = work_item("c-3");
    c.protocol_version = BoundedU32::new(2);
    assert_eq!(error_of(&send(&mut a, c)).1, "unsupported protocol_version");
    let mut c = work_item("c-4");
    c.target.aggregate_id = "wi-2".to_owned();
    seal(&mut c);
    assert_eq!(error_of(&send(&mut a, c)).1, "target does not match the payload");
    let mut c = versioned(work_item("c-5"), 1);
    c.expected_versions[0].aggregate_id = "other".to_owned();
    seal(&mut c);
    assert_eq!(error_of(&send(&mut a, c)).1, "expected_versions may name the target alone");
    let mut c = work_item("c-6");
    if let CommandBody::WorkItemCreate(p) = &mut c.body {
        p.acceptance_contract_digest = "sha".to_owned();
    }
    seal(&mut c);
    assert_eq!(
        error_of(&send(&mut a, c)).1,
        "digest missing blake3: prefix: \"sha\""
    );
}

#[test]
fn a_dispatch_hands_out_a_token_and_ends_the_earlier_one() {
    let mut a = prepared();
    let r = completed(&mut a, dispatch("c-4", "h-1", 1));
    let first = token_in(&r);
    assert_eq!(first.len(), 64);
    let result = r.result.as_ref().unwrap();
    for hidden in ["attempt_epoch", "stamp", "authority_epoch", "holder_id", "token_nonce"] {
        assert!(result.get(hidden).is_none(), "{hidden}");
    }
    assert!(matches!(result.get("version"), Some(serde_json::Value::String(v)) if v == "2"));
    completed(&mut a, progress("c-5", &first, 2));
    let replay = send(&mut a, dispatch("c-4", "h-1", 1));
    assert_eq!(replay.outcome, ReceiptOutcome::Replayed);
    assert_eq!(token_in(&replay), first);

    let second = token_in(&completed(&mut a, dispatch("c-6", "h-2", 2)));
    assert_ne!(second, first);
    assert_eq!(
        error_of(&send(&mut a, progress("c-7", &first, 3))),
        (
            ErrorKind::FenceRejected,
            "attempt_token is stale or unresolvable".to_owned()
        )
    );
    completed(&mut a, progress("c-8", &second, 3));
}

#[test]
fn a_token_is_the_keyed_hash_of_its_claims() {
    let mut a = prepared();
    let r = completed(&mut a, dispatch("c-4", "h-1", 1));
    let claims = a.by_token.get(&token_in(&r)).unwrap().clone();
    let text = format!(
        "{{\"attempt_epoch\":\"{}\",\"authority_epoch\":\"{}\",\"holder_id\":\"h-1\",\"nonce\":\"{}\",\"project_id\":\"p-1\",\"stamp\":\"{}\",\"unit_id\":\"u-1\"}}",
        claims.attempt_epoch.0, claims.authority_epoch.0, claims.nonce, claims.stamp.0
    );
    assert_eq!(
        token_in(&r),
        blake3::keyed_hash(&KEY, text.as_bytes()).to_hex().to_string()
    );
}

#[test]
fn a_token_for_another_unit_is_a_fence() {
    let mut a = prepared();
    let token = token_in(&completed(&mut a, dispatch("c-4", "h-1", 1)));
    let mut c = progress("c-5", &token, 2);
    c.scope.scope_id = "u-2".to_owned();
    c.target.aggregate_id = "bad id".to_owned();
    seal(&mut c);
    assert_eq!(
        error_of(&send(&mut a, c)),
        (
            ErrorKind::FenceRejected,
            "attempt_token is sealed for another unit".to_owned()
        )
    );
    let mut c = progress("c-6", "0000", 2);
    c.target.aggregate_id = "bad id".to_owned();
    seal(&mut c);
    let r = send(&mut a, c);
    assert_eq!(error_of(&r).0, ErrorKind::InvalidRequest);
    assert!(a.funnel.store.tables.receipts.get("unit/u-1/c-6").is_none());
}

#[test]
fn an_uncertain_commit_is_told_and_closes_the_adapter() {
    let mut a = adapter();
    let r = a
        .submit(work_item("c-1"), CommitOutcome::CommitUnknown("lost".to_owned()))
        .unwrap();
    assert_eq!(r.outcome, ReceiptOutcome::OutcomeUnknown);
    let e = r.error.as_ref().unwrap();
    assert!(e.reconcile_required && !e.retryable);
    let r = send(&mut a, work_item("c-2"));
    assert_eq!(error_of(&r).0, ErrorKind::Unavailable);
    assert_eq!(a.resume(0).unwrap_err().kind, ErrorKind::Unavailable);
    assert_eq!(a.subscribe(0).unwrap_err().kind, ErrorKind::Unavailable);
    assert_eq!(
        a.set_min_retained_cursor(1, RetentionAnswer::Kept).unwrap_err().kind,
        ErrorKind::Unavailable
    );
}

#[test]
fn a_run_closes_over_the_wire_and_a_bump_ends_the_token() {
    let mut a = prepared();
    let token = token_in(&completed(&mut a, dispatch("c-4", "h-1", 1)));
    completed(
        &mut a,
        versioned(
            command(
                "c-5",
                (ScopeKind::Unit, "u-1"),
                ("unit", "u-1"),
                CommandBody::StampBump(UnitPayload { unit_id: "u-1".to_owned(), extra: vec![] }),
            ),
            2,
        ),
    );
    assert_eq!(
        error_of(&send(&mut a, progress("c-6", &token, 3))).0,
        ErrorKind::FenceRejected
    );
    let version = a.funnel.store.tables.runs.get("run-1").unwrap().version;
    completed(
        &mut a,
        versioned(
            command(
                "c-7",
                (ScopeKind::Run, "run-1"),
                ("run", "run-1"),
                CommandBody::RunClose(RunClosePayload {
                    run_id: "run-1".to_owned(),
                    outcome: RunCloseOutcome::ClosedFailure,
                    extra: vec![],
                }),
            ),
            version,
        ),
    );
}

#[test]
fn resume_gives_every_event_above_the_cursor() {
    let mut a = prepared();
    let all = a.resume(0).unwrap();
    assert_eq!(all.iter().map(|e| e.cursor.get()).collect::<Vec<u64>>(), vec![1, 2, 3]);
    assert_eq!(all[0].event_kind, "work_item.created");
    assert_eq!(all[0].occurred_at.as_str(), "1970-01-01T00:00:01.000Z");
    assert_eq!(all[0].actor.principal_id, "daemon-local");
    assert_eq!(a.resume(2).unwrap().len(), 1);
    assert!(a.resume(3).unwrap().is_empty());
    let e = a.resume(4).unwrap_err();
    assert_eq!(e.message, "cursor is ahead of the project journal");
    a.set_min_retained_cursor(2, RetentionAnswer::Kept).unwrap();
    let e = a.resume(1).unwrap_err();
    assert_eq!(e.kind, ErrorKind::CursorExpired);
    assert_eq!(e.message, "cursor is older than retained floor 2");
    assert_eq!(a.resume(2).unwrap().len(), 1);
    let m = a.handle(
        &ClientMessage::Resume { project_id: "p-9".to_owned(), after_cursor: DecimalU64::new(0) },
        CommitOutcome::Committed,
    );
    assert!(matches!(m, ServerMessage::Error(e) if e.kind == ErrorKind::InvalidRequest));
}

#[test]
fn retention_answers_are_told() {
    let mut a = adapter();
    assert_eq!(
        a.set_min_retained_cursor(1, RetentionAnswer::Invalid("too far".to_owned()))
            .unwrap_err()
            .message,
        "too far"
    );
    let e = a
        .set_min_retained_cursor(1, RetentionAnswer::Failed("disk".to_owned()))
        .unwrap_err();
    assert_eq!(e.message, "cannot persist retention floor: disk");
    let e = a
        .set_min_retained_cursor(1, RetentionAnswer::Unknown("lost".to_owned()))
        .unwrap_err();
    assert_eq!(e.kind, ErrorKind::OutcomeUnknown);
    assert_eq!(a.funnel.poison_detail().as_deref(), Some("lost"));
}

fn drain(a: &mut InProcessAdapter, id: &str) -> Vec<u64> {
    let mut out = Vec::new();
    loop {
        match a.poll_subscription(id).unwrap() {
            SubscriptionPoll::Event(e) => out.push(e.cursor.get()),
            _ => return out,
        }
    }
}

#[test]
fn a_subscription_delivers_every_event_once_and_in_order() {
    let mut a = prepared();
    let opened = a.subscribe(1).unwrap();
    assert_eq!(opened.subscription_id, "subscription-1");
    assert_eq!(opened.limits.durable_event_queue_capacity.get(), 1024);
    assert_eq!(opened.limits.progress_event_queue_capacity.get(), 256);
    assert_eq!(opened.retention.max_age_seconds.get(), 1_209_600);
    let other = a.subscribe(3).unwrap().subscription_id;
    assert_eq!(drain(&mut a, "subscription-1"), vec![2, 3]);
    completed(&mut a, dispatch("c-4", "h-1", 1));
    assert_eq!(drain(&mut a, "subscription-1"), vec![4]);
    assert_eq!(drain(&mut a, &other), vec![4]);
    a.close_subscription(&other).unwrap();
    assert_eq!(
        a.poll_subscription(&other).unwrap_err().message,
        "unknown subscription"
    );
    assert_eq!(a.close_subscription("nobody").unwrap_err().kind, ErrorKind::NotFound);
    assert_eq!(a.subscribe(99).unwrap_err().kind, ErrorKind::InvalidRequest);
}

#[test]
fn subscriptions_are_bounded_and_slow_ones_are_closed() {
    let mut a = adapter();
    for n in 1..=64u64 {
        assert_eq!(a.subscribe(0).unwrap().subscription_id, format!("subscription-{n}"));
    }
    assert_eq!(a.subscribe(0).unwrap_err().kind, ErrorKind::ResourceExhausted);
    for n in 2..=64u64 {
        a.close_subscription(&format!("subscription-{n}")).unwrap();
    }
    for cursor in 1..=1025u64 {
        insert_test_event(&mut a, &test_event(cursor, 0));
    }
    a.publish_through(1025);
    match a.poll_subscription("subscription-1").unwrap() {
        SubscriptionPoll::SlowConsumer(c) => {
            assert_eq!(c.last_delivered_cursor.get(), 0)
        }
        other => panic!("expected a slow consumer, got {other:?}"),
    }
    assert_eq!(
        a.poll_subscription("subscription-1").unwrap_err().kind,
        ErrorKind::NotFound
    );
    // A late subscriber is filled up to its capacity and then goes on from the journal.
    let id = a.subscribe(0).unwrap().subscription_id;
    assert_eq!(drain(&mut a, &id), (1..=1025).collect::<Vec<u64>>());
    assert_eq!(a.resume(0).unwrap_err().kind, ErrorKind::ResourceExhausted);
}

#[test]
fn an_unreadable_journal_closes_every_subscription() {
    let mut a = adapter();
    a.subscribe(0).unwrap();
    a.publish_through(5);
    assert_eq!(
        a.funnel.poison_detail().as_deref(),
        Some("durable event stream ended before committed cursor 5")
    );
}

#[test]
fn answers_have_their_wire_form() {
    let mut a = adapter();
    let text = a.handle_json(
        br#"{"kind":"subscribe","message":{"project_id":"p-1","after_cursor":"0"}}"#,
        Ok(()),
        CommitOutcome::Committed,
    );
    assert_eq!(
        text,
        r#"{"kind":"subscription_opened","message":{"limits":{"durable_event_queue_capacity":1024,"progress_event_queue_capacity":256},"retention":{"max_age_seconds":"1209600","max_events_per_project":"1000000","min_retained_cursor":"0"},"subscription_id":"subscription-1"}}"#
    );
    let text = a.handle_json(
        br#"{"kind":"subscription_poll","message":{"subscription_id":"subscription-1"}}"#,
        Ok(()),
        CommitOutcome::Committed,
    );
    assert_eq!(
        text,
        r#"{"kind":"subscription_pending","message":{"subscription_id":"subscription-1"}}"#
    );
    let text = a.handle_json(b"{", Ok(()), CommitOutcome::Committed);
    assert!(text.starts_with(r#"{"kind":"error","message":{"details":{"detail":"invalid JSON message: "#));
}

#[test]
fn errors_are_bounded_and_named() {
    let e = protocol_error(ErrorKind::NotFound, "gone");
    assert_eq!(
        e.occurrence_id,
        format!("error:3.{}", &blake3::hash(b"gone").to_hex()[..48])
    );
    assert_eq!(e.reason, "protocol.rejected");
    assert!(!e.retryable && !e.reconcile_required);
    assert_eq!(protocol_error(ErrorKind::Internal, &"ä".repeat(600)).message, "ä".repeat(512));
    assert!(protocol_error(ErrorKind::Unavailable, "x").retryable);
}

#[test]
fn commands_cross_the_boundary_unchanged() {
    let mut c = dispatch("c-4", "h-1", 1);
    c.deadline = Some(Rfc3339Timestamp::new("2023-11-14T22:13:20.123Z".to_owned()).unwrap());
    c.correlation_id = Some("corr-1".to_owned());
    c.trace_context = Some("00-abc".to_owned());
    let digest = c.request_digest.clone();
    let value = client_value(&ClientMessage::Command(c));
    match decode_client_message(&value) {
        Some(ClientMessage::Command(back)) => {
            assert_eq!(back.command_id, "c-4");
            assert_eq!(back.request_digest, digest);
            assert_eq!(request_digest(&back).into_string(), digest);
            assert_eq!(back.deadline.unwrap().as_str(), "2023-11-14T22:13:20.123Z");
            assert_eq!(back.correlation_id.as_deref(), Some("corr-1"));
            assert_eq!(back.causation_id, None);
            assert_eq!(back.expected_versions[0].version.get(), 1);
        }
        other => panic!("expected the command, got {other:?}"),
    }
    let mut text = value.to_string();
    text = text.replace("unit.dispatch", "unit.unknown");
    let other = serde_json::from_str::<serde_json::Value>(&text).unwrap();
    assert!(decode_client_message(&other).is_none());
}

#[test]
fn progress_reports_take_no_other_member() {
    let c = progress("c-1", "t", 1);
    let text = client_value(&ClientMessage::Command(c)).to_string();
    let with = text.replace("\"payload\":{", "\"payload\":{\"extra\":1,");
    assert_ne!(text, with);
    let value = serde_json::from_str::<serde_json::Value>(&with).unwrap();
    assert!(decode_client_message(&value).is_none());
}

#[test]
fn frames_may_be_written_by_position() {
    assert!(matches!(
        read_request(br#"["resume",["p","3"]]"#, Ok(())),
        Ok(ClientMessage::Resume { after_cursor, .. }) if after_cursor.get() == 3
    ));
    assert!(matches!(
        read_request(br#"["subscription_poll",{"subscription_id":"s"}]"#, Ok(())),
        Ok(ClientMessage::SubscriptionPoll { subscription_id }) if subscription_id == "s"
    ));
    assert_eq!(
        message_error(r#"["resume",["p","3"],1]"#).1,
        "invalid JSON message: invalid length 3"
    );
    assert_eq!(
        message_error(r#"["resume",["p","3",1]]"#).1,
        "invalid JSON message: wrong shape"
    );
    assert_eq!(
        message_error(r#"{"kind":"resume"}"#).1,
        "invalid JSON message: missing field `message`"
    );
}

#[test]
fn an_object_is_an_object_whatever_its_names() {
    // serde_json would read the inner object as the text that it holds.
    assert_eq!(
        message_error(
            r#"{"kind":"resume","message":{"project_id":{"$serde_json::private::RawValue":"\"p\""},"after_cursor":"3"}}"#
        )
        .1,
        "invalid JSON message: wrong shape"
    );
    assert!(read_request(
        br#"{"kind":"resume","message":{"project_id":"p","after_cursor":"3","x":{"$serde_json::private::RawValue":"{"}}}"#,
        Ok(())
    )
    .is_ok());
    let deep = |n: usize| {
        format!(
            r#"{{"kind":"resume","message":{{"project_id":"p","after_cursor":"3","x":{}{}}}}}"#,
            "[".repeat(n),
            "]".repeat(n)
        )
    };
    assert!(read_request(deep(125).as_bytes(), Ok(())).is_ok());
    // The reason is in the words of the outside reader, with the place.
    assert!(message_error(&deep(126))
        .1
        .starts_with("invalid JSON message: recursion limit exceeded at line 1 column "));
}

#[test]
fn faults_are_told_in_the_words_of_the_strict_reader() {
    let words = "missing field `message` at line 1 column 17";
    let told = |text: &str| {
        read_request(text.as_bytes(), Err(words.to_owned())).unwrap_err().message
    };
    let want = format!("invalid JSON message: {words}");
    // No frame, no JSON, and a wrong shape.
    assert_eq!(told(r#"{"kind":"resume"}"#), want);
    assert_eq!(told("{"), want);
    assert_eq!(told(r#"{"kind":"resume","message":{}}"#), want);
    // A limit is no matter of words.
    let big = format!("[{}]", "1,".repeat(yah::protocol::MAX_FRAME_BYTES));
    assert_eq!(told(&big), "encoded protocol frame exceeds its limit");
}

#[test]
fn a_stored_result_is_told_whatever_it_holds() {
    let mut a = prepared();
    let c = work_item("wi-9");
    let stored = serde_json::from_str::<serde_json::Value>(
        r#"{"version":2,"share":0.5,"deep":[[[[[[[[[[1.25]]]]]]]]]],"x":{"$y":null}}"#,
    )
    .unwrap();
    let told = a.project_result(&c, stored).unwrap();
    assert_eq!(
        told.to_string(),
        r#"{"deep":[[[[[[[[[[1.25]]]]]]]]]],"share":0.5,"version":"2","x":{"$y":null}}"#
    );
    let text = serde_json::Value::String("done".to_owned());
    assert_eq!(
        a.project_result(&c, text).unwrap_err(),
        "durable receipt result must be a JSON object"
    );
}

#[test]
fn a_dispatch_result_without_its_rows_is_told_as_the_store_tells_it() {
    let mut a = prepared();
    let c = dispatch("c-d9", "h-1", 1);
    let stored = serde_json::from_str::<serde_json::Value>(
        r#"{"unit_id":"u-1","attempt_epoch":9,"stamp":0,"authority_epoch":1,"holder_id":"h-1","token_nonce":"n","attempt_id":"a","version":1}"#,
    )
    .unwrap();
    assert_eq!(
        a.project_result(&c, stored).unwrap_err(),
        "durable dispatch result is invalid: Internal(\"attempt or unit is not there\")"
    );
}
