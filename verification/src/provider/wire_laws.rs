//! How the events of a stream are written in JSON: which members carry what, in either dialect.
use crate::json::{json_parse, JsonView};
use crate::provider::dialect::{
    anthropic_chunk, anthropic_of, responses_chunk, responses_of, AnthropicContentBlockView,
    AnthropicDeltaView, AnthropicEventView, ResponsesEventView, ResponsesItemView,
    ResponsesResponseTailView, WireParseView,
};
use vstd::prelude::*;
use vstd::string::*;

verus! {

/// Whether an object has a member.
pub open spec fn has(value: JsonView, name: Seq<char>) -> bool {
    value is Object && value->Object_0.dom().contains(name)
}

/// A member of an object.
pub open spec fn part(value: JsonView, name: Seq<char>) -> JsonView {
    value->Object_0[name]
}

/// Whether an object has a text under a name.
pub open spec fn has_text(value: JsonView, name: Seq<char>, text: Seq<char>) -> bool {
    has(value, name) && part(value, name) == JsonView::Str(text)
}

/// Whether an object has a number under a name.
pub open spec fn has_number(value: JsonView, name: Seq<char>, n: u64) -> bool {
    has(value, name) && part(value, name) == JsonView::Uint(n)
}

/// Whether an object has this text under a name, or none, or null, where there is none.
pub open spec fn may_have_text(value: JsonView, name: Seq<char>, text: Option<Seq<char>>) -> bool {
    match text {
        Some(s) => has_text(value, name, s),
        None => value is Object && (has(value, name) ==> part(value, name) is Null),
    }
}

/// Whether an object has this count under a name, where there is none 0.
pub open spec fn counts(value: JsonView, name: Seq<char>, n: u64) -> bool {
    value is Object && if has(value, name) {
        part(value, name) == JsonView::Uint(n)
    } else {
        n == 0
    }
}

/// Whether a member, where it is there, gives its own members by name.
pub open spec fn is_named(value: JsonView, name: Seq<char>) -> bool {
    has(value, name) ==> !(part(value, name) is Array) && !(has(part(value, name), "type"@) && part(
        part(value, name),
        "type"@,
    ) is Uint)
}

// --- Messages ------------------------------------------------------------------------------------

/// Whether a value writes an event of a message stream.
pub open spec fn writes_message(value: JsonView, e: AnthropicEventView) -> bool {
    match e {
        AnthropicEventView::MessageStart { message } => {
            let m = part(value, "message"@);
            let u = part(m, "usage"@);
            &&& has_text(value, "type"@, "message_start"@)
            &&& has(value, "message"@)
            &&& has_text(m, "id"@, message.id)
            &&& may_have_text(m, "model"@, message.model)
            &&& if has(m, "usage"@) {
                counts(u, "input_tokens"@, message.usage.input_tokens) && counts(
                    u,
                    "cache_read_input_tokens"@,
                    message.usage.cache_read_input_tokens,
                )
            } else {
                message.usage.input_tokens == 0 && message.usage.cache_read_input_tokens == 0
            }
        },
        AnthropicEventView::ContentBlockStart { index, content_block } => {
            let b = part(value, "content_block"@);
            &&& has_text(value, "type"@, "content_block_start"@)
            &&& has_number(value, "index"@, index as u64)
            &&& has(value, "content_block"@)
            &&& match content_block {
                AnthropicContentBlockView::Text => has_text(b, "type"@, "text"@),
                AnthropicContentBlockView::ToolUse { id, name } => has_text(
                    b,
                    "type"@,
                    "tool_use"@,
                ) && has_text(b, "id"@, id) && has_text(b, "name"@, name),
            }
        },
        AnthropicEventView::ContentBlockDelta { index, delta } => {
            let d = part(value, "delta"@);
            &&& has_text(value, "type"@, "content_block_delta"@)
            &&& has_number(value, "index"@, index as u64)
            &&& has(value, "delta"@)
            &&& match delta {
                AnthropicDeltaView::TextDelta { text } => has_text(d, "type"@, "text_delta"@)
                    && has_text(d, "text"@, text),
                AnthropicDeltaView::InputJsonDelta { partial_json } => has_text(
                    d,
                    "type"@,
                    "input_json_delta"@,
                ) && has_text(d, "partial_json"@, partial_json),
            }
        },
        AnthropicEventView::ContentBlockStop { index } => has_text(
            value,
            "type"@,
            "content_block_stop"@,
        ) && has_number(value, "index"@, index as u64),
        AnthropicEventView::MessageDelta { delta, usage } => {
            &&& has_text(value, "type"@, "message_delta"@)
            &&& has(value, "delta"@)
            &&& has(value, "usage"@)
            &&& may_have_text(part(value, "delta"@), "stop_reason"@, delta.stop_reason)
            &&& counts(part(value, "usage"@), "output_tokens"@, usage.output_tokens)
        },
        AnthropicEventView::MessageStop => has_text(value, "type"@, "message_stop"@),
        AnthropicEventView::Error { error } => {
            &&& has_text(value, "type"@, "error"@)
            &&& has(value, "error"@)
            &&& has_text(part(value, "error"@), "type"@, error.error_type)
            &&& has_text(part(value, "error"@), "message"@, error.message)
        },
    }
}

/// Whether a value gives the parts of a message event by name.
pub open spec fn names_message_parts(value: JsonView) -> bool {
    &&& is_named(value, "message"@)
    &&& is_named(value, "content_block"@)
    &&& is_named(value, "delta"@)
    &&& is_named(value, "usage"@)
    &&& is_named(value, "error"@)
    &&& has(value, "message"@) ==> is_named(part(value, "message"@), "usage"@)
}

proof fn message_words_differ()
    ensures
        "message_start"@.len() == 13,
        "content_block_start"@.len() == 19,
        "content_block_delta"@.len() == 19,
        "content_block_start"@[14] == 's',
        "content_block_delta"@[14] == 'd',
        "content_block_stop"@.len() == 18,
        "message_delta"@.len() == 13,
        "message_start"@[8] == 's',
        "message_delta"@[8] == 'd',
        "message_stop"@.len() == 12,
        "error"@.len() == 5,
        "text"@.len() == 4,
        "tool_use"@.len() == 8,
        "text_delta"@.len() == 10,
        "input_json_delta"@.len() == 16,
{
    reveal_strlit("message_start");
    reveal_strlit("content_block_start");
    reveal_strlit("content_block_delta");
    reveal_strlit("content_block_stop");
    reveal_strlit("message_delta");
    reveal_strlit("message_stop");
    reveal_strlit("error");
    reveal_strlit("text");
    reveal_strlit("tool_use");
    reveal_strlit("text_delta");
    reveal_strlit("input_json_delta");
}

/// A value is an event of a message stream exactly where it writes that event. A tag that is none of
/// these is an unknown type; any other value is damage.
#[verifier::spinoff_prover]
#[verifier::rlimit(40)]
pub proof fn messages_are_written(value: JsonView, e: AnthropicEventView)
    requires
        names_message_parts(value),
    ensures
        anthropic_of(value) == WireParseView::<AnthropicEventView>::Event(e) <==> writes_message(
            value,
            e,
        ),
        anthropic_of(value) is UnknownType <==> exists|tag: Seq<char>| #[trigger]
            has_text(value, "type"@, tag) && tag != "message_start"@ && tag
                != "content_block_start"@ && tag != "content_block_delta"@ && tag
                != "content_block_stop"@ && tag != "message_delta"@ && tag != "message_stop"@
                && tag != "error"@,
        anthropic_of(value) is UnknownType ==> has_text(
            value,
            "type"@,
            anthropic_of(value)->UnknownType_0,
        ),
{
    message_words_differ();
    if anthropic_of(value) is UnknownType {
        assert(has_text(value, "type"@, anthropic_of(value)->UnknownType_0));
    }
}

/// A chunk that is not JSON is damage, and one that is, is what its value is.
pub proof fn message_chunks_are_json(chunk: Seq<char>)
    ensures
        json_parse(chunk) is Err ==> anthropic_chunk(chunk) is Malformed,
        json_parse(chunk) is Ok ==> anthropic_chunk(chunk) == anthropic_of(json_parse(chunk)->Ok_0),
{
}

// --- Responses -----------------------------------------------------------------------------------

/// Whether a value writes an output item.
pub open spec fn writes_item(value: JsonView, item: ResponsesItemView) -> bool {
    match item {
        ResponsesItemView::Message { id } => has_text(value, "type"@, "message"@) && has_text(
            value,
            "id"@,
            id,
        ),
        ResponsesItemView::FunctionCall { id, call_id, name, arguments } => {
            &&& has_text(value, "type"@, "function_call"@)
            &&& has_text(value, "id"@, id)
            &&& has_text(value, "call_id"@, call_id)
            &&& has_text(value, "name"@, name)
            &&& may_have_text(value, "arguments"@, arguments)
        },
    }
}

/// Whether a value writes one count of a part that may be absent.
pub open spec fn counts_in(value: JsonView, name: Seq<char>, count: Seq<char>, n: u64) -> bool {
    if has(value, name) {
        counts(part(value, name), count, n)
    } else {
        n == 0
    }
}

/// Whether a value writes the end of a response.
pub open spec fn writes_tail(value: JsonView, tail: ResponsesResponseTailView) -> bool {
    let u = part(value, "usage"@);
    &&& has_text(value, "status"@, tail.status)
    &&& match tail.incomplete_details {
        Some(details) => has(value, "incomplete_details"@) && has_text(
            part(value, "incomplete_details"@),
            "reason"@,
            details.reason,
        ),
        None => has(value, "incomplete_details"@) ==> part(value, "incomplete_details"@) is Null,
    }
    &&& has(value, "usage"@)
    &&& has_number(u, "input_tokens"@, tail.usage.input_tokens)
    &&& counts_in(
        u,
        "input_tokens_details"@,
        "cached_tokens"@,
        tail.usage.input_tokens_details.cached_tokens,
    )
    &&& has_number(u, "output_tokens"@, tail.usage.output_tokens)
    &&& counts_in(
        u,
        "output_tokens_details"@,
        "reasoning_tokens"@,
        tail.usage.output_tokens_details.reasoning_tokens,
    )
}

/// Whether a value writes an event of a response stream.
pub open spec fn writes_response(value: JsonView, e: ResponsesEventView) -> bool {
    let r = part(value, "response"@);
    match e {
        ResponsesEventView::Created { sequence_number, response } => {
            &&& has_text(value, "type"@, "response.created"@)
            &&& has_number(value, "sequence_number"@, sequence_number)
            &&& has(value, "response"@)
            &&& has_text(r, "id"@, response.id)
            &&& may_have_text(r, "model"@, response.model)
        },
        ResponsesEventView::OutputItemAdded { sequence_number, item } => {
            &&& has_text(value, "type"@, "response.output_item.added"@)
            &&& has_number(value, "sequence_number"@, sequence_number)
            &&& has(value, "item"@)
            &&& writes_item(part(value, "item"@), item)
        },
        ResponsesEventView::OutputTextDelta { sequence_number, item_id, delta } => {
            &&& has_text(value, "type"@, "response.output_text.delta"@)
            &&& has_number(value, "sequence_number"@, sequence_number)
            &&& has_text(value, "item_id"@, item_id)
            &&& has_text(value, "delta"@, delta)
        },
        ResponsesEventView::FunctionCallArgumentsDelta { sequence_number, item_id, delta } => {
            &&& has_text(value, "type"@, "response.function_call_arguments.delta"@)
            &&& has_number(value, "sequence_number"@, sequence_number)
            &&& has_text(value, "item_id"@, item_id)
            &&& has_text(value, "delta"@, delta)
        },
        ResponsesEventView::OutputItemDone { sequence_number, item } => {
            &&& has_text(value, "type"@, "response.output_item.done"@)
            &&& has_number(value, "sequence_number"@, sequence_number)
            &&& has(value, "item"@)
            &&& writes_item(part(value, "item"@), item)
        },
        ResponsesEventView::Completed { sequence_number, response } => {
            &&& has_text(value, "type"@, "response.completed"@)
            &&& has_number(value, "sequence_number"@, sequence_number)
            &&& has(value, "response"@)
            &&& writes_tail(r, response)
        },
        ResponsesEventView::Incomplete { sequence_number, response } => {
            &&& has_text(value, "type"@, "response.incomplete"@)
            &&& has_number(value, "sequence_number"@, sequence_number)
            &&& has(value, "response"@)
            &&& writes_tail(r, response)
        },
        ResponsesEventView::Failed { sequence_number, response } => {
            &&& has_text(value, "type"@, "response.failed"@)
            &&& has_number(value, "sequence_number"@, sequence_number)
            &&& has(value, "response"@)
            &&& has(r, "error"@)
            &&& has_text(part(r, "error"@), "code"@, response.error.code)
            &&& has_text(part(r, "error"@), "message"@, response.error.message)
        },
    }
}

/// Whether a value gives the parts of a response event by name.
pub open spec fn names_response_parts(value: JsonView) -> bool {
    let r = part(value, "response"@);
    let u = part(r, "usage"@);
    &&& is_named(value, "response"@)
    &&& is_named(value, "item"@)
    &&& has(value, "response"@) ==> {
        &&& is_named(r, "usage"@)
        &&& is_named(r, "incomplete_details"@)
        &&& is_named(r, "error"@)
        &&& has(r, "usage"@) ==> is_named(u, "input_tokens_details"@) && is_named(
            u,
            "output_tokens_details"@,
        )
    }
}

proof fn response_words_differ()
    ensures
        "response.created"@.len() == 16,
        "response.output_item.added"@.len() == 26,
        "response.output_text.delta"@.len() == 26,
        "response.output_item.added"@[16] == 'i',
        "response.output_text.delta"@[16] == 't',
        "response.function_call_arguments.delta"@.len() == 38,
        "response.output_item.done"@.len() == 25,
        "response.completed"@.len() == 18,
        "response.incomplete"@.len() == 19,
        "response.failed"@.len() == 15,
        "message"@.len() == 7,
        "function_call"@.len() == 13,
{
    reveal_strlit("response.created");
    reveal_strlit("response.output_item.added");
    reveal_strlit("response.output_text.delta");
    reveal_strlit("response.function_call_arguments.delta");
    reveal_strlit("response.output_item.done");
    reveal_strlit("response.completed");
    reveal_strlit("response.incomplete");
    reveal_strlit("response.failed");
    reveal_strlit("message");
    reveal_strlit("function_call");
}

proof fn items_are_written(value: JsonView, item: ResponsesItemView)
    requires
        !(value is Array),
        !(has(value, "type"@) && part(value, "type"@) is Uint),
    ensures
        crate::provider::dialect::output_item(value) == Some(item) <==> writes_item(value, item),
{
    response_words_differ();
}

proof fn tails_are_written(value: JsonView, tail: ResponsesResponseTailView)
    requires
        !(value is Array),
        is_named(value, "usage"@),
        is_named(value, "incomplete_details"@),
        has(value, "usage"@) ==> is_named(part(value, "usage"@), "input_tokens_details"@)
            && is_named(part(value, "usage"@), "output_tokens_details"@),
    ensures
        crate::provider::dialect::response_tail(value) == Some(tail) <==> writes_tail(value, tail),
{
}

/// A value is an event of a response stream exactly where it writes that event. A tag that is none
/// of these is an unknown type; any other value is damage.
#[verifier::spinoff_prover]
#[verifier::rlimit(40)]
pub proof fn responses_are_written(value: JsonView, e: ResponsesEventView)
    requires
        names_response_parts(value),
    ensures
        responses_of(value) == WireParseView::<ResponsesEventView>::Event(e) <==> writes_response(
            value,
            e,
        ),
        responses_of(value) is UnknownType <==> exists|tag: Seq<char>| #[trigger]
            has_text(value, "type"@, tag) && tag != "response.created"@ && tag
                != "response.output_item.added"@ && tag != "response.output_text.delta"@ && tag
                != "response.function_call_arguments.delta"@ && tag != "response.output_item.done"@
                && tag != "response.completed"@ && tag != "response.incomplete"@ && tag
                != "response.failed"@,
        responses_of(value) is UnknownType ==> has_text(
            value,
            "type"@,
            responses_of(value)->UnknownType_0,
        ),
{
    response_words_differ();
    if responses_of(value) is UnknownType {
        assert(has_text(value, "type"@, responses_of(value)->UnknownType_0));
    }
    match e {
        ResponsesEventView::OutputItemAdded { item, .. } => {
            if has(value, "item"@) {
                items_are_written(part(value, "item"@), item);
            }
        },
        ResponsesEventView::OutputItemDone { item, .. } => {
            if has(value, "item"@) {
                items_are_written(part(value, "item"@), item);
            }
        },
        ResponsesEventView::Completed { response, .. } => {
            if has(value, "response"@) {
                tails_are_written(part(value, "response"@), response);
            }
        },
        ResponsesEventView::Incomplete { response, .. } => {
            if has(value, "response"@) {
                tails_are_written(part(value, "response"@), response);
            }
        },
        _ => {},
    }
}

/// A chunk that is not JSON is damage, and one that is, is what its value is.
pub proof fn response_chunks_are_json(chunk: Seq<char>)
    ensures
        json_parse(chunk) is Err ==> responses_chunk(chunk) is Malformed,
        json_parse(chunk) is Ok ==> responses_chunk(chunk) == responses_of(json_parse(chunk)->Ok_0),
{
}

} // verus!
