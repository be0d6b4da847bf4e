use yah::error::ProviderErrorKind;
use yah::provider::fake::{
    is_scenario, load_catalog, Attempt, ChunkSpec, ControlAction, ControlKind, FakeProvider,
    Fixture, FixtureError, Turn,
};
use yah::provider::dialect::{parse_responses, ResponsesEvent, WireParse};
use yah::provider::normalize::{Normalizer, StepOutcome, StreamDefect};
use yah::provider::{Dialect, FinishReason, NormalizedEvent, ServedModelEvidence, Usage};

fn feed_all(dialect: Dialect, chunks: &[&str]) -> (Normalizer, Vec<StepOutcome>) {
    let mut n = Normalizer::new(dialect);
    let outcomes = chunks.iter().map(|c| n.feed(c)).collect();
    (n, outcomes)
}

fn defect(outcome: &StepOutcome) -> &StreamDefect {
    match outcome {
        StepOutcome::Defect(d) => d,
        other => panic!("expected defect, got {other:?}"),
    }
}

const A_START: &str = r#"{"type":"message_start","message":{"id":"m","model":"x","usage":{"input_tokens":1,"cache_read_input_tokens":0}}}"#;
const A_STOP: &str = r#"{"type":"message_stop"}"#;

fn a_delta_stop(reason: &str) -> String {
    format!(
        r#"{{"type":"message_delta","delta":{{"stop_reason":"{reason}"}},"usage":{{"output_tokens":1}}}}"#
    )
}

#[test]
fn anthropic_stop_reason_mapping_covers_the_closed_enum() {
    for (wire, want) in [
        ("max_tokens", FinishReason::Length),
        ("stop_sequence", FinishReason::Stop),
        ("refusal", FinishReason::ContentFilter),
    ] {
        let (_, outcomes) = feed_all(
            Dialect::AnthropicMessages,
            &[A_START, &a_delta_stop(wire), A_STOP],
        );
        let StepOutcome::Events(events) = &outcomes[2] else {
            panic!("{wire}: expected events, got {:?}", outcomes[2]);
        };
        assert_eq!(
            events.last(),
            Some(&NormalizedEvent::Finished {
                finish_reason: want
            }),
            "stop_reason {wire}"
        );
    }
    let (_, outcomes) = feed_all(
        Dialect::AnthropicMessages,
        &[A_START, &a_delta_stop("pause_turn"), A_STOP],
    );
    assert!(matches!(
        defect(&outcomes[2]),
        StreamDefect::Malformed { .. }
    ));
}

#[test]
fn responses_incomplete_maps_length_and_content_filter() {
    for (wire, want) in [
        ("max_output_tokens", FinishReason::Length),
        ("content_filter", FinishReason::ContentFilter),
    ] {
        let incomplete = format!(
            r#"{{"type":"response.incomplete","sequence_number":2,"response":{{"status":"incomplete","incomplete_details":{{"reason":"{wire}"}},"usage":{{"input_tokens":1,"output_tokens":1}}}}}}"#
        );
        let (n, outcomes) = feed_all(
            Dialect::Responses,
            &[
                r#"{"type":"response.created","sequence_number":1,"response":{"id":"r","model":"x"}}"#,
                &incomplete,
            ],
        );
        let StepOutcome::Events(events) = &outcomes[1] else {
            panic!("{wire}: expected events, got {:?}", outcomes[1]);
        };
        assert_eq!(
            events.last(),
            Some(&NormalizedEvent::Finished {
                finish_reason: want
            }),
            "incomplete reason {wire}"
        );
        assert!(n.is_terminal());
    }
}

#[test]
fn missing_model_yields_absent_served_evidence() {
    let (_, outcomes) = feed_all(
        Dialect::AnthropicMessages,
        &[r#"{"type":"message_start","message":{"id":"m","usage":{"input_tokens":1}}}"#],
    );
    let StepOutcome::Events(events) = &outcomes[0] else {
        panic!("expected events");
    };
    assert_eq!(
        events[0],
        NormalizedEvent::StreamStart {
            served_model_id: None,
            served_model_evidence: ServedModelEvidence::Absent,
        }
    );
}

#[test]
fn zero_argument_tool_call_normalizes_to_empty_object() {
    let (_, outcomes) = feed_all(
        Dialect::AnthropicMessages,
        &[
            A_START,
            r#"{"type":"content_block_start","index":0,"content_block":{"type":"tool_use","id":"t1","name":"get_time"}}"#,
            r#"{"type":"content_block_stop","index":0}"#,
        ],
    );
    let StepOutcome::Events(events) = &outcomes[2] else {
        panic!("expected events, got {:?}", outcomes[2]);
    };
    assert_eq!(
        events[0],
        NormalizedEvent::ToolCallComplete {
            tool_call_id: "t1".to_owned(),
            arguments_json: "{}".to_owned(),
        }
    );
    let (_, outcomes) = feed_all(
        Dialect::Responses,
        &[
            r#"{"type":"response.created","sequence_number":1,"response":{"id":"r","model":"x"}}"#,
            r#"{"type":"response.output_item.added","sequence_number":2,"item":{"type":"function_call","id":"i1","call_id":"c1","name":"get_time"}}"#,
            r#"{"type":"response.output_item.done","sequence_number":3,"item":{"type":"function_call","id":"i1","call_id":"c1","name":"get_time","arguments":"{}"}}"#,
        ],
    );
    let StepOutcome::Events(events) = &outcomes[2] else {
        panic!("expected events, got {:?}", outcomes[2]);
    };
    assert_eq!(
        events[0],
        NormalizedEvent::ToolCallComplete {
            tool_call_id: "c1".to_owned(),
            arguments_json: "{}".to_owned(),
        }
    );
}

#[test]
fn message_typed_done_for_tool_item_is_malformed() {
    let (_, outcomes) = feed_all(
        Dialect::Responses,
        &[
            r#"{"type":"response.created","sequence_number":1,"response":{"id":"r","model":"x"}}"#,
            r#"{"type":"response.output_item.added","sequence_number":2,"item":{"type":"function_call","id":"i1","call_id":"c1","name":"f"}}"#,
            r#"{"type":"response.output_item.done","sequence_number":3,"item":{"type":"message","id":"i1"}}"#,
        ],
    );
    assert!(matches!(
        defect(&outcomes[2]),
        StreamDefect::Malformed { .. }
    ));
}

#[test]
fn reused_call_id_is_an_ordering_violation() {
    let (_, outcomes) = feed_all(
        Dialect::Responses,
        &[
            r#"{"type":"response.created","sequence_number":1,"response":{"id":"r","model":"x"}}"#,
            r#"{"type":"response.output_item.added","sequence_number":2,"item":{"type":"function_call","id":"i1","call_id":"c1","name":"f"}}"#,
            r#"{"type":"response.output_item.added","sequence_number":3,"item":{"type":"function_call","id":"i2","call_id":"c1","name":"f"}}"#,
        ],
    );
    assert!(matches!(
        defect(&outcomes[2]),
        StreamDefect::OrderingViolation { .. }
    ));
}

#[test]
fn known_type_with_wrong_shape_and_missing_tag_are_malformed() {
    let (_, outcomes) = feed_all(
        Dialect::AnthropicMessages,
        &[r#"{"type":"content_block_delta","index":0}"#],
    );
    assert!(matches!(
        defect(&outcomes[0]),
        StreamDefect::Malformed { .. }
    ));
    let (_, outcomes) = feed_all(Dialect::Responses, &[r#"{"no_type":1}"#]);
    assert!(matches!(
        defect(&outcomes[0]),
        StreamDefect::Malformed { .. }
    ));
}

#[test]
fn sequence_gaps_are_tolerated_by_design() {
    let (n, outcomes) = feed_all(
        Dialect::Responses,
        &[
            r#"{"type":"response.created","sequence_number":1,"response":{"id":"r","model":"x"}}"#,
            r#"{"type":"response.completed","sequence_number":5,"response":{"status":"completed","usage":{"input_tokens":1,"output_tokens":1}}}"#,
        ],
    );
    assert!(matches!(&outcomes[1], StepOutcome::Events(_)));
    assert!(n.is_terminal());
}

fn events(outcome: &StepOutcome) -> &Vec<NormalizedEvent> {
    match outcome {
        StepOutcome::Events(events) => events,
        other => panic!("expected events, got {other:?}"),
    }
}

#[test]
fn a_text_stream_normalizes_alike_in_both_dialects() {
    let (a, from_messages) = feed_all(
        Dialect::AnthropicMessages,
        &[
            A_START,
            r#"{"type":"content_block_start","index":0,"content_block":{"type":"text","text":""}}"#,
            r#"{"type":"content_block_delta","index":0,"delta":{"type":"text_delta","text":"hi"}}"#,
            r#"{"type":"content_block_stop","index":0}"#,
            &a_delta_stop("end_turn"),
            A_STOP,
        ],
    );
    let (r, from_responses) = feed_all(
        Dialect::Responses,
        &[
            r#"{"type":"response.created","sequence_number":1,"response":{"id":"r","model":"x"}}"#,
            r#"{"type":"response.output_item.added","sequence_number":2,"item":{"type":"message","id":"i1"}}"#,
            r#"{"type":"response.output_text.delta","sequence_number":3,"item_id":"i1","delta":"hi"}"#,
            r#"{"type":"response.output_item.done","sequence_number":4,"item":{"type":"message","id":"i1"}}"#,
            r#"{"type":"response.completed","sequence_number":5,"response":{"status":"completed","usage":{"input_tokens":1,"output_tokens":1}}}"#,
        ],
    );
    assert!(a.is_terminal() && r.is_terminal());
    let flat = |steps: &Vec<StepOutcome>| -> Vec<String> {
        steps
            .iter()
            .flat_map(|s| events(s).iter().map(|e| format!("{e:?}")))
            .collect()
    };
    assert_eq!(flat(&from_messages), flat(&from_responses));
    assert_eq!(
        events(&from_responses[4])[0],
        NormalizedEvent::Usage(Usage {
            input_tokens: 1,
            cached_input_tokens: 0,
            output_tokens: 1,
            reasoning_tokens: 0,
        })
    );
}

#[test]
fn unknown_event_types_are_quarantined_and_counted() {
    let (n, outcomes) = feed_all(
        Dialect::AnthropicMessages,
        &[A_START, r#"{"type":"brand_new"}"#, A_STOP],
    );
    assert!(matches!(
        &outcomes[1],
        StepOutcome::Quarantined { event_type } if event_type == "brand_new"
    ));
    assert_eq!(n.quarantined_count(), 1);
    assert!(!n.is_terminal() || matches!(&outcomes[2], StepOutcome::Events(_)));
}

#[test]
fn nothing_follows_a_terminal() {
    let (n, outcomes) = feed_all(
        Dialect::AnthropicMessages,
        &[A_START, &a_delta_stop("end_turn"), A_STOP, A_STOP],
    );
    assert!(n.is_terminal());
    assert!(matches!(
        defect(&outcomes[3]),
        StreamDefect::OrderingViolation { .. }
    ));
}

#[test]
fn repeated_sequence_numbers_are_out_of_order() {
    let (_, outcomes) = feed_all(
        Dialect::Responses,
        &[
            r#"{"type":"response.created","sequence_number":7,"response":{"id":"r","model":"x"}}"#,
            r#"{"type":"response.output_item.added","sequence_number":7,"item":{"type":"message","id":"i1"}}"#,
        ],
    );
    match defect(&outcomes[1]) {
        StreamDefect::OrderingViolation { detail } => {
            assert_eq!(detail, "sequence_number 7 not greater than 7")
        }
        other => panic!("expected an ordering violation, got {other:?}"),
    }
}

#[test]
fn a_text_that_is_no_json_is_malformed() {
    let (_, outcomes) = feed_all(Dialect::Responses, &["{"]);
    assert!(matches!(
        defect(&outcomes[0]),
        StreamDefect::Malformed { .. }
    ));
}

#[test]
fn provider_errors_end_the_stream() {
    let (n, outcomes) = feed_all(
        Dialect::AnthropicMessages,
        &[
            A_START,
            r#"{"type":"error","error":{"type":"rate_limit_error","message":"slow down"}}"#,
        ],
    );
    assert!(n.is_terminal());
    assert!(events(&outcomes[1]).iter().any(|e| matches!(
        e,
        NormalizedEvent::ProviderError { error_kind: ProviderErrorKind::RateLimit, .. }
    )));
}

fn fixture(id: &str, scenario: &str) -> Fixture {
    let json = serde_json::from_str::<serde_json::Value>(r#"{"b":1.5,"a":[true,null]}"#).unwrap();
    Fixture {
        fixture_id: id.to_owned(),
        scenario_id: scenario.to_owned(),
        dialect: Dialect::Responses,
        description: String::new(),
        context_window_tokens: None,
        turns: vec![Turn {
            attempts: vec![
                Attempt { chunks: vec![ChunkSpec::Raw("{ raw".to_owned()), ChunkSpec::Json(json)] },
                Attempt { chunks: vec![ChunkSpec::Raw("second".to_owned())] },
            ],
        }],
        control: vec![ControlAction { turn: 0, at_chunk: 1, action: ControlKind::Cancel }],
        expect: vec![yah::provider::fake::Expect {
            text: None,
            tool_calls: None,
            finish_reason: None,
            usage: None,
            error_kind: None,
            defect: None,
            quarantined: None,
            quarantined_types: None,
            served_model_id: None,
            served_model_evidence: None,
            cancelled_tool_calls: None,
            attempts: None,
        }],
    }
}

#[test]
fn attempts_advance_and_then_stay_on_the_last() {
    let mut p = FakeProvider::new(fixture("f", "typed_error"));
    let first = p.open_stream(0).unwrap();
    assert_eq!(first[0].chunk, "{ raw");
    assert!(!first[0].cancel);
    assert_eq!(first[1].chunk, r#"{"a":[true,null],"b":1.5}"#);
    assert!(first[1].cancel);
    assert_eq!(p.open_stream(0).unwrap()[0].chunk, "second");
    assert_eq!(p.open_stream(0).unwrap()[0].chunk, "second");
    assert_eq!(p.attempts_served(0), 3);
    assert_eq!(p.open_stream(1), Err(FixtureError::NoSuchTurn(1)));
    assert_eq!(p.attempts_served(1), 0);
    assert_eq!(p.fixture().fixture_id, "f");
}

#[test]
fn empty_turns_are_refused() {
    let mut f = fixture("f", "typed_error");
    f.turns[0].attempts.clear();
    let mut p = FakeProvider::new(f);
    assert_eq!(p.open_stream(0), Err(FixtureError::EmptyTurn(0)));
}

#[test]
fn a_catalog_is_closed() {
    assert!(is_scenario("retry_ceiling"));
    assert!(!is_scenario("something_else"));
    let load = |list: Vec<Fixture>| {
        load_catalog(
            list.into_iter().enumerate().map(|(i, f)| (format!("f{i}.json"), Ok(f))).collect(),
        )
    };
    assert_eq!(load(vec![fixture("a", "typed_error")]).unwrap().len(), 1);
    assert_eq!(
        load(vec![fixture("a", "typed_error"), fixture("a", "typed_error")]).unwrap_err(),
        "duplicate fixture id \"a\""
    );
    assert!(load(vec![fixture("a", "other")])
        .unwrap_err()
        .contains("unknown scenario \"other\""));
    let mut short = fixture("a", "typed_error");
    short.expect.clear();
    assert_eq!(
        load(vec![short]).unwrap_err(),
        "fixture f0.json: 0 expect blocks for 1 turns"
    );
    let mut empty = fixture("a", "typed_error");
    empty.turns.clear();
    // Files are taken one by one: the first fault is the one that is told.
    let files = vec![
        ("f0.json".to_owned(), Ok(empty)),
        ("f1.json".to_owned(), Err("EOF".to_owned())),
    ];
    assert_eq!(
        load_catalog(files).unwrap_err(),
        "fixture f0.json has an empty turn or attempt list"
    );
    assert_eq!(
        load_catalog(vec![("f1.json".to_owned(), Err("EOF".to_owned()))]).unwrap_err(),
        "fixture f1.json does not decode: EOF"
    );
}

#[test]
fn a_stream_starts_with_its_start_even_when_it_fails_at_once() {
    for (dialect, chunk) in [
        (
            Dialect::AnthropicMessages,
            r#"{"type":"error","error":{"type":"rate_limit_error","message":"slow down"}}"#,
        ),
        (
            Dialect::Responses,
            r#"{"type":"response.failed","sequence_number":1,"response":{"error":{"code":"rate_limit_exceeded","message":"slow down"}}}"#,
        ),
    ] {
        let (n, outcomes) = feed_all(dialect, &[chunk]);
        assert_eq!(
            outcomes[0],
            StepOutcome::Events(vec![
                NormalizedEvent::StreamStart {
                    served_model_id: None,
                    served_model_evidence: ServedModelEvidence::Absent,
                },
                NormalizedEvent::ProviderError {
                    error_kind: ProviderErrorKind::RateLimit,
                    message: "slow down".to_owned(),
                },
            ])
        );
        assert!(n.is_terminal());
    }
}

fn responses_event(chunk: &str) -> ResponsesEvent {
    match parse_responses(chunk) {
        WireParse::Event(e) => e,
        other => panic!("expected an event, got {other:?}"),
    }
}

#[test]
fn a_number_that_passed_is_the_one_to_beat_whatever_became_of_its_event() {
    let mut n = Normalizer::new(Dialect::Responses);
    let delta = |seq: u64| {
        responses_event(&format!(
            r#"{{"type":"response.output_text.delta","sequence_number":{seq},"item_id":"i","delta":"x"}}"#
        ))
    };
    assert!(n.check_sequence(&delta(1)).is_ok());
    assert!(n.check_sequence(&delta(5)).is_ok());
    assert!(n.check_sequence(&delta(5)).is_err());
    // The item is unknown, so the event is refused; its number is used up all the same.
    assert!(n.feed_responses(delta(7)).is_err());
    assert!(n.check_sequence(&delta(7)).is_err());
    assert!(n.check_sequence(&delta(6)).is_err());
    assert!(n.check_sequence(&delta(8)).is_ok());
}

#[test]
fn structs_may_be_written_by_position() {
    let (_, outcomes) = feed_all(
        Dialect::AnthropicMessages,
        &[
            r#"{"type":"message_start","message":["m","x",[5]]}"#,
            r#"{"type":"content_block_start","index":0,"content_block":["tool_use","t1","f"]}"#,
            r#"{"type":"content_block_stop","index":0}"#,
            r#"{"type":"message_delta","delta":["tool_use"],"usage":[7]}"#,
            A_STOP,
        ],
    );
    assert!(matches!(
        &outcomes[0],
        StepOutcome::Events(e) if e[0] == NormalizedEvent::StreamStart {
            served_model_id: Some("x".to_owned()),
            served_model_evidence: ServedModelEvidence::ResponseField,
        }
    ));
    assert!(matches!(
        &outcomes[4],
        StepOutcome::Events(e) if e[0] == NormalizedEvent::Usage(Usage {
            input_tokens: 5,
            cached_input_tokens: 0,
            output_tokens: 7,
            reasoning_tokens: 0,
        })
    ));
    // One item more than there are fields is a wrong shape.
    let (_, outcomes) = feed_all(
        Dialect::AnthropicMessages,
        &[r#"{"type":"message_start","message":["m","x",[5,0,0]]}"#],
    );
    assert!(matches!(defect(&outcomes[0]), StreamDefect::Malformed { .. }));
    // A tag may be given by its number.
    let (_, outcomes) = feed_all(
        Dialect::AnthropicMessages,
        &[A_START, r#"{"type":"content_block_start","index":0,"content_block":{"type":0}}"#],
    );
    assert_eq!(outcomes[1], StepOutcome::Events(vec![]));
}

#[test]
fn a_provider_keeps_its_fixture_as_it_is() {
    let mut f = fixture("f", "typed_error");
    f.turns.push(Turn { attempts: vec![] });
    f.expect[0].text = Some("one".to_owned());
    let mut second = fixture("g", "typed_error").expect.remove(0);
    second.text = Some("two".to_owned());
    f.expect.push(second);
    let p = FakeProvider::new(f);
    let texts: Vec<_> = p.fixture().expect.iter().map(|e| e.text.clone().unwrap()).collect();
    assert_eq!(texts, vec!["one".to_owned(), "two".to_owned()]);
}
