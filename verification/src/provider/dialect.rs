//! Wire-dialect event shapes of the two dialects, and their decoding.
//!
//! Parsing is in two stages: a chunk that is not JSON, or that has a known type with a wrong
//! shape, is malformed; valid JSON with an unrecognized `type` tag is of an unknown type. The
//! normalizer quarantines the second and fails the stream on the first.
use crate::ids::{debug_form, debug_text};
use crate::json::{
    field, get_field, get_text, get_text_field, get_uint, get_uint_field, is_shaped, json_parse,
    member, parse_json, shaped, text_field, text_member, uint_field, uint_member, Json, JsonView,
};
use crate::text::{opt_view, same};
use vstd::prelude::*;
use vstd::string::*;

verus! {

/// What a chunk parses as.
#[derive(Debug)]
pub enum WireParse<E> {
    Event(E),
    UnknownType(String),
    Malformed(String),
}

/// The view of a `WireParse`.
pub enum WireParseView<V> {
    Event(V),
    UnknownType(Seq<char>),
    Malformed(Seq<char>),
}

impl<E: View> View for WireParse<E> {
    type V = WireParseView<E::V>;

    open spec fn view(&self) -> WireParseView<E::V> {
        match self {
            WireParse::Event(e) => WireParseView::Event(e@),
            WireParse::UnknownType(s) => WireParseView::UnknownType(s@),
            WireParse::Malformed(s) => WireParseView::Malformed(s@),
        }
    }
}

// --- Members -------------------------------------------------------------------------------------

/// The tag of a struct that has one of two: by its name, or by its number.
pub open spec fn tag_field(value: JsonView, first: Seq<char>, second: Seq<char>) -> Option<
    Seq<char>,
> {
    match field(value, 0, "type"@) {
        Some(JsonView::Str(s)) => Some(s),
        Some(JsonView::Uint(n)) => if n == 0 {
            Some(first)
        } else if n == 1 {
            Some(second)
        } else {
            None
        },
        _ => None,
    }
}

/// An optional text: absent and null are no text; any other value is wrong.
pub open spec fn optional_text(value: JsonView, i: int, name: Seq<char>) -> Option<
    Option<Seq<char>>,
> {
    match field(value, i, name) {
        None => Some(None),
        Some(JsonView::Null) => Some(None),
        Some(JsonView::Str(s)) => Some(Some(s)),
        _ => None,
    }
}

/// A count that is 0 where it is absent.
pub open spec fn count_or_zero(value: JsonView, i: int, name: Seq<char>) -> Option<u64> {
    match field(value, i, name) {
        None => Some(0),
        Some(JsonView::Uint(n)) => Some(n),
        _ => None,
    }
}

/// A number of at most 32 bits.
pub open spec fn small_member(value: JsonView, name: Seq<char>) -> Option<u32> {
    match uint_member(value, name) {
        Some(n) => if n <= u32::MAX {
            Some(n as u32)
        } else {
            None
        },
        None => None,
    }
}

/// The view of an optional optional text.
pub open spec fn opt_opt_view(o: Option<Option<String>>) -> Option<Option<Seq<char>>> {
    match o {
        Some(x) => Some(opt_view(x)),
        None => None,
    }
}

fn get_tag_field(value: &Json, first: &str, second: &str) -> (r: Option<String>)
    ensures
        opt_view(r) == tag_field(value@, first@, second@),
{
    match get_field(value, 0, "type") {
        Some(Json::Str(s)) => Some(s.clone()),
        Some(Json::Uint(n)) => if *n == 0 {
            Some(first.to_owned())
        } else if *n == 1 {
            Some(second.to_owned())
        } else {
            None
        },
        _ => None,
    }
}

fn get_optional_text(value: &Json, i: usize, name: &str) -> (r: Option<Option<String>>)
    ensures
        opt_opt_view(r) == optional_text(value@, i as int, name@),
{
    match get_field(value, i, name) {
        None => Some(None),
        Some(Json::Null) => Some(None),
        Some(Json::Str(s)) => Some(Some(s.clone())),
        Some(_) => None,
    }
}

fn get_count(value: &Json, i: usize, name: &str) -> (r: Option<u64>)
    ensures
        r == count_or_zero(value@, i as int, name@),
{
    match get_field(value, i, name) {
        None => Some(0),
        Some(Json::Uint(n)) => Some(*n),
        Some(_) => None,
    }
}

fn get_small(value: &Json, name: &str) -> (r: Option<u32>)
    ensures
        r == small_member(value@, name@),
{
    match get_uint(value, name) {
        Some(n) => if n <= u32::MAX as u64 {
            Some(n as u32)
        } else {
            None
        },
        None => None,
    }
}

// --- Anthropic -----------------------------------------------------------------------------------

/// Input tokens of a message.
#[derive(Debug, PartialEq, Eq)]
pub struct AnthropicInputUsage {
    pub input_tokens: u64,
    pub cache_read_input_tokens: u64,
}

/// The view of a `AnthropicInputUsage`.
pub struct AnthropicInputUsageView {
    pub input_tokens: u64,
    pub cache_read_input_tokens: u64,
}

impl View for AnthropicInputUsage {
    type V = AnthropicInputUsageView;

    open spec fn view(&self) -> AnthropicInputUsageView {
        AnthropicInputUsageView {
            input_tokens: self.input_tokens,
            cache_read_input_tokens: self.cache_read_input_tokens,
        }
    }
}

/// The head of a message.
#[derive(Debug, PartialEq, Eq)]
pub struct AnthropicMessageStart {
    pub id: String,
    pub model: Option<String>,
    pub usage: AnthropicInputUsage,
}

/// The view of a `AnthropicMessageStart`.
pub struct AnthropicMessageStartView {
    pub id: Seq<char>,
    pub model: Option<Seq<char>>,
    pub usage: AnthropicInputUsageView,
}

impl View for AnthropicMessageStart {
    type V = AnthropicMessageStartView;

    open spec fn view(&self) -> AnthropicMessageStartView {
        AnthropicMessageStartView {
            id: self.id@,
            model: opt_view(self.model),
            usage: self.usage@,
        }
    }
}

/// Output tokens of a message, cumulative.
#[derive(Debug, PartialEq, Eq)]
pub struct AnthropicOutputUsage {
    pub output_tokens: u64,
}

/// The view of a `AnthropicOutputUsage`.
pub struct AnthropicOutputUsageView {
    pub output_tokens: u64,
}

impl View for AnthropicOutputUsage {
    type V = AnthropicOutputUsageView;

    open spec fn view(&self) -> AnthropicOutputUsageView {
        AnthropicOutputUsageView {
            output_tokens: self.output_tokens,
        }
    }
}

/// A content block.
#[derive(Debug, PartialEq, Eq)]
pub enum AnthropicContentBlock {
    Text {},
    ToolUse { id: String, name: String },
}

/// The view of a `AnthropicContentBlock`.
pub enum AnthropicContentBlockView {
    Text,
    ToolUse { id: Seq<char>, name: Seq<char> },
}

impl View for AnthropicContentBlock {
    type V = AnthropicContentBlockView;

    open spec fn view(&self) -> AnthropicContentBlockView {
        match self {
            AnthropicContentBlock::Text {} => AnthropicContentBlockView::Text,
            AnthropicContentBlock::ToolUse { id, name } => AnthropicContentBlockView::ToolUse {
                id: id@,
                name: name@,
            },
        }
    }
}

/// A piece of a content block.
#[derive(Debug, PartialEq, Eq)]
pub enum AnthropicDelta {
    TextDelta { text: String },
    InputJsonDelta { partial_json: String },
}

/// The view of a `AnthropicDelta`.
pub enum AnthropicDeltaView {
    TextDelta { text: Seq<char> },
    InputJsonDelta { partial_json: Seq<char> },
}

impl View for AnthropicDelta {
    type V = AnthropicDeltaView;

    open spec fn view(&self) -> AnthropicDeltaView {
        match self {
            AnthropicDelta::TextDelta { text } => AnthropicDeltaView::TextDelta { text: text@ },
            AnthropicDelta::InputJsonDelta { partial_json } => AnthropicDeltaView::InputJsonDelta {
                partial_json: partial_json@,
            },
        }
    }
}

/// A change of the message as a whole.
#[derive(Debug, PartialEq, Eq)]
pub struct AnthropicMessageDeltaBody {
    pub stop_reason: Option<String>,
}

/// The view of a `AnthropicMessageDeltaBody`.
pub struct AnthropicMessageDeltaBodyView {
    pub stop_reason: Option<Seq<char>>,
}

impl View for AnthropicMessageDeltaBody {
    type V = AnthropicMessageDeltaBodyView;

    open spec fn view(&self) -> AnthropicMessageDeltaBodyView {
        AnthropicMessageDeltaBodyView {
            stop_reason: opt_view(self.stop_reason),
        }
    }
}

/// An error that the provider reports.
#[derive(Debug, PartialEq, Eq)]
pub struct AnthropicError {
    pub error_type: String,
    pub message: String,
}

/// The view of a `AnthropicError`.
pub struct AnthropicErrorView {
    pub error_type: Seq<char>,
    pub message: Seq<char>,
}

impl View for AnthropicError {
    type V = AnthropicErrorView;

    open spec fn view(&self) -> AnthropicErrorView {
        AnthropicErrorView {
            error_type: self.error_type@,
            message: self.message@,
        }
    }
}

/// One event of a message stream.
#[derive(Debug, PartialEq, Eq)]
pub enum AnthropicEvent {
    MessageStart { message: AnthropicMessageStart },
    ContentBlockStart { index: u32, content_block: AnthropicContentBlock },
    ContentBlockDelta { index: u32, delta: AnthropicDelta },
    ContentBlockStop { index: u32 },
    MessageDelta { delta: AnthropicMessageDeltaBody, usage: AnthropicOutputUsage },
    MessageStop {},
    Error { error: AnthropicError },
}

/// The view of a `AnthropicEvent`.
pub enum AnthropicEventView {
    MessageStart { message: AnthropicMessageStartView },
    ContentBlockStart { index: u32, content_block: AnthropicContentBlockView },
    ContentBlockDelta { index: u32, delta: AnthropicDeltaView },
    ContentBlockStop { index: u32 },
    MessageDelta { delta: AnthropicMessageDeltaBodyView, usage: AnthropicOutputUsageView },
    MessageStop,
    Error { error: AnthropicErrorView },
}

impl View for AnthropicEvent {
    type V = AnthropicEventView;

    open spec fn view(&self) -> AnthropicEventView {
        match self {
            AnthropicEvent::MessageStart { message } => AnthropicEventView::MessageStart {
                message: message@,
            },
            AnthropicEvent::ContentBlockStart {
                index,
                content_block,
            } => AnthropicEventView::ContentBlockStart {
                index: *index,
                content_block: content_block@,
            },
            AnthropicEvent::ContentBlockDelta {
                index,
                delta,
            } => AnthropicEventView::ContentBlockDelta {
                index: *index,
                delta: delta@,
            },
            AnthropicEvent::ContentBlockStop { index } => AnthropicEventView::ContentBlockStop {
                index: *index,
            },
            AnthropicEvent::MessageDelta { delta, usage } => AnthropicEventView::MessageDelta {
                delta: delta@,
                usage: usage@,
            },
            AnthropicEvent::MessageStop {} => AnthropicEventView::MessageStop,
            AnthropicEvent::Error { error } => AnthropicEventView::Error { error: error@ },
        }
    }
}

/// The input usage of a message head: absent is none at all.
pub open spec fn input_usage(value: JsonView) -> Option<AnthropicInputUsageView> {
    match (
        count_or_zero(value, 0, "input_tokens"@),
        count_or_zero(value, 1, "cache_read_input_tokens"@),
    ) {
        (Some(a), Some(b)) => if shaped(value, 2) {
            Some(AnthropicInputUsageView { input_tokens: a, cache_read_input_tokens: b })
        } else {
            None
        },
        _ => None,
    }
}

fn read_input_usage(value: &Json) -> (r: Option<AnthropicInputUsage>)
    ensures
        (match r {
            Some(x) => Some(x@),
            None => None,
        }) == input_usage(value@),
{
    if !is_shaped(value, 2) {
        return None;
    }
    match (get_count(value, 0, "input_tokens"), get_count(value, 1, "cache_read_input_tokens")) {
        (Some(a), Some(b)) => Some(
            AnthropicInputUsage { input_tokens: a, cache_read_input_tokens: b },
        ),
        _ => None,
    }
}

/// The head of a message.
pub open spec fn message_start(value: JsonView) -> Option<AnthropicMessageStartView> {
    if !shaped(value, 3) {
        None
    } else {
        let usage = match field(value, 2, "usage"@) {
            None => Some(AnthropicInputUsageView { input_tokens: 0, cache_read_input_tokens: 0 }),
            Some(u) => input_usage(u),
        };
        match (text_field(value, 0, "id"@), optional_text(value, 1, "model"@), usage) {
            (Some(id), Some(model), Some(usage)) => Some(
                AnthropicMessageStartView { id, model, usage },
            ),
            _ => None,
        }
    }
}

fn read_message_start(value: &Json) -> (r: Option<AnthropicMessageStart>)
    ensures
        (match r {
            Some(x) => Some(x@),
            None => None,
        }) == message_start(value@),
{
    if !is_shaped(value, 3) {
        return None;
    }
    let usage = match get_field(value, 2, "usage") {
        None => Some(AnthropicInputUsage { input_tokens: 0, cache_read_input_tokens: 0 }),
        Some(u) => read_input_usage(u),
    };
    match (get_text_field(value, 0, "id"), get_optional_text(value, 1, "model"), usage) {
        (Some(id), Some(model), Some(usage)) => Some(AnthropicMessageStart { id, model, usage }),
        _ => None,
    }
}

/// A content block, by its own tag.
pub open spec fn content_block(value: JsonView) -> Option<AnthropicContentBlockView> {
    match tag_field(value, "text"@, "tool_use"@) {
        Some(tag) => if tag == "text"@ && shaped(value, 1) {
            Some(AnthropicContentBlockView::Text)
        } else if tag == "tool_use"@ && shaped(value, 3) {
            match (text_field(value, 1, "id"@), text_field(value, 2, "name"@)) {
                (Some(id), Some(name)) => Some(AnthropicContentBlockView::ToolUse { id, name }),
                _ => None,
            }
        } else {
            None
        },
        None => None,
    }
}

fn read_content_block(value: &Json) -> (r: Option<AnthropicContentBlock>)
    ensures
        (match r {
            Some(x) => Some(x@),
            None => None,
        }) == content_block(value@),
{
    match get_tag_field(value, "text", "tool_use") {
        Some(tag) => {
            if same(&tag, "text") && is_shaped(value, 1) {
                Some(AnthropicContentBlock::Text {  })
            } else if same(&tag, "tool_use") && is_shaped(value, 3) {
                match (get_text_field(value, 1, "id"), get_text_field(value, 2, "name")) {
                    (Some(id), Some(name)) => Some(AnthropicContentBlock::ToolUse { id, name }),
                    _ => None,
                }
            } else {
                None
            }
        },
        None => None,
    }
}

/// A delta, by its own tag.
pub open spec fn block_delta(value: JsonView) -> Option<AnthropicDeltaView> {
    match tag_field(value, "text_delta"@, "input_json_delta"@) {
        Some(tag) => if tag == "text_delta"@ && shaped(value, 2) {
            match text_field(value, 1, "text"@) {
                Some(text) => Some(AnthropicDeltaView::TextDelta { text }),
                None => None,
            }
        } else if tag == "input_json_delta"@ && shaped(value, 2) {
            match text_field(value, 1, "partial_json"@) {
                Some(partial_json) => Some(AnthropicDeltaView::InputJsonDelta { partial_json }),
                None => None,
            }
        } else {
            None
        },
        None => None,
    }
}

fn read_block_delta(value: &Json) -> (r: Option<AnthropicDelta>)
    ensures
        (match r {
            Some(x) => Some(x@),
            None => None,
        }) == block_delta(value@),
{
    match get_tag_field(value, "text_delta", "input_json_delta") {
        Some(tag) => {
            if same(&tag, "text_delta") && is_shaped(value, 2) {
                match get_text_field(value, 1, "text") {
                    Some(text) => Some(AnthropicDelta::TextDelta { text }),
                    None => None,
                }
            } else if same(&tag, "input_json_delta") && is_shaped(value, 2) {
                match get_text_field(value, 1, "partial_json") {
                    Some(partial_json) => Some(AnthropicDelta::InputJsonDelta { partial_json }),
                    None => None,
                }
            } else {
                None
            }
        },
        None => None,
    }
}

/// The event of a known tag, where its members have the right shape.
pub open spec fn anthropic_event(tag: Seq<char>, value: JsonView) -> Option<AnthropicEventView> {
    if tag == "message_start"@ {
        match member(value, "message"@) {
            Some(m) => match message_start(m) {
                Some(message) => Some(AnthropicEventView::MessageStart { message }),
                None => None,
            },
            None => None,
        }
    } else if tag == "content_block_start"@ {
        match (small_member(value, "index"@), member(value, "content_block"@)) {
            (Some(index), Some(b)) => match content_block(b) {
                Some(content_block) => Some(
                    AnthropicEventView::ContentBlockStart { index, content_block },
                ),
                None => None,
            },
            _ => None,
        }
    } else if tag == "content_block_delta"@ {
        match (small_member(value, "index"@), member(value, "delta"@)) {
            (Some(index), Some(d)) => match block_delta(d) {
                Some(delta) => Some(AnthropicEventView::ContentBlockDelta { index, delta }),
                None => None,
            },
            _ => None,
        }
    } else if tag == "content_block_stop"@ {
        match small_member(value, "index"@) {
            Some(index) => Some(AnthropicEventView::ContentBlockStop { index }),
            None => None,
        }
    } else if tag == "message_delta"@ {
        match (member(value, "delta"@), member(value, "usage"@)) {
            (Some(d), Some(u)) => match (
                optional_text(d, 0, "stop_reason"@),
                count_or_zero(u, 0, "output_tokens"@),
            ) {
                (Some(stop_reason), Some(output_tokens)) => if shaped(d, 1) && shaped(u, 1) {
                    Some(
                        AnthropicEventView::MessageDelta {
                            delta: AnthropicMessageDeltaBodyView { stop_reason },
                            usage: AnthropicOutputUsageView { output_tokens },
                        },
                    )
                } else {
                    None
                },
                _ => None,
            },
            _ => None,
        }
    } else if tag == "message_stop"@ {
        Some(AnthropicEventView::MessageStop)
    } else {
        match member(value, "error"@) {
            Some(e) => if !shaped(e, 2) {
                None
            } else {
                match (text_field(e, 0, "type"@), text_field(e, 1, "message"@)) {
                    (Some(error_type), Some(message)) => Some(
                        AnthropicEventView::Error {
                            error: AnthropicErrorView { error_type, message },
                        },
                    ),
                    _ => None,
                }
            },
            None => None,
        }
    }
}

fn read_anthropic_event(tag: &str, value: &Json) -> (r: Option<AnthropicEvent>)
    ensures
        (match r {
            Some(x) => Some(x@),
            None => None,
        }) == anthropic_event(tag@, value@),
{
    if same(tag, "message_start") {
        match value.get("message") {
            Some(m) => match read_message_start(m) {
                Some(message) => Some(AnthropicEvent::MessageStart { message }),
                None => None,
            },
            None => None,
        }
    } else if same(tag, "content_block_start") {
        match (get_small(value, "index"), value.get("content_block")) {
            (Some(index), Some(b)) => match read_content_block(b) {
                Some(content_block) => Some(
                    AnthropicEvent::ContentBlockStart { index, content_block },
                ),
                None => None,
            },
            _ => None,
        }
    } else if same(tag, "content_block_delta") {
        match (get_small(value, "index"), value.get("delta")) {
            (Some(index), Some(d)) => match read_block_delta(d) {
                Some(delta) => Some(AnthropicEvent::ContentBlockDelta { index, delta }),
                None => None,
            },
            _ => None,
        }
    } else if same(tag, "content_block_stop") {
        match get_small(value, "index") {
            Some(index) => Some(AnthropicEvent::ContentBlockStop { index }),
            None => None,
        }
    } else if same(tag, "message_delta") {
        match (value.get("delta"), value.get("usage")) {
            (Some(d), Some(u)) => {
                if !is_shaped(d, 1) || !is_shaped(u, 1) {
                    return None;
                }
                match (get_optional_text(d, 0, "stop_reason"), get_count(u, 0, "output_tokens")) {
                    (Some(stop_reason), Some(output_tokens)) => Some(
                        AnthropicEvent::MessageDelta {
                            delta: AnthropicMessageDeltaBody { stop_reason },
                            usage: AnthropicOutputUsage { output_tokens },
                        },
                    ),
                    _ => None,
                }
            },
            _ => None,
        }
    } else if same(tag, "message_stop") {
        Some(AnthropicEvent::MessageStop {  })
    } else {
        match value.get("error") {
            Some(e) => if !is_shaped(e, 2) {
                None
            } else {
                match (get_text_field(e, 0, "type"), get_text_field(e, 1, "message")) {
                    (Some(error_type), Some(message)) => Some(
                        AnthropicEvent::Error { error: AnthropicError { error_type, message } },
                    ),
                    _ => None,
                }
            },
            None => None,
        }
    }
}

/// Whether a tag is one of the seven event types.
pub open spec fn anthropic_type(tag: Seq<char>) -> bool {
    ||| tag == "message_start"@
    ||| tag == "content_block_start"@
    ||| tag == "content_block_delta"@
    ||| tag == "content_block_stop"@
    ||| tag == "message_delta"@
    ||| tag == "message_stop"@
    ||| tag == "error"@
}

fn is_anthropic_type(tag: &str) -> (r: bool)
    ensures
        r == anthropic_type(tag@),
{
    same(tag, "message_start") || same(tag, "content_block_start") || same(
        tag,
        "content_block_delta",
    ) || same(tag, "content_block_stop") || same(tag, "message_delta") || same(tag, "message_stop")
        || same(tag, "error")
}

/// What a chunk is called when its shape does not fit its type.
pub open spec fn wrong_shape(tag: Seq<char>) -> Seq<char> {
    "known type "@ + debug_form(tag) + " with wrong shape"@
}

fn wrong_shape_text(tag: &str) -> (r: String)
    ensures
        r@ == wrong_shape(tag@),
{
    let mut detail = "known type ".to_owned();
    detail.append(&debug_text(tag));
    detail.append(" with wrong shape");
    detail
}

/// What a JSON value is, as an event of a message stream.
pub open spec fn anthropic_of(value: JsonView) -> WireParseView<AnthropicEventView> {
    match text_member(value, "type"@) {
        None => WireParseView::Malformed("missing string `type` tag"@),
        Some(tag) => if !anthropic_type(tag) {
            WireParseView::UnknownType(tag)
        } else {
            match anthropic_event(tag, value) {
                Some(e) => WireParseView::Event(e),
                None => WireParseView::Malformed(wrong_shape(tag)),
            }
        },
    }
}

/// What a chunk parses as, as an event of a message stream.
pub open spec fn anthropic_chunk(chunk: Seq<char>) -> WireParseView<AnthropicEventView> {
    match json_parse(chunk) {
        Err(e) => WireParseView::Malformed("not JSON: "@ + e),
        Ok(value) => anthropic_of(value),
    }
}

/// Decodes a JSON value as an event of a message stream.
pub fn decode_anthropic(value: &Json) -> (r: WireParse<AnthropicEvent>)
    ensures
        r@ == anthropic_of(value@),
{
    match get_text(value, "type") {
        None => WireParse::Malformed("missing string `type` tag".to_owned()),
        Some(tag) => {
            if !is_anthropic_type(&tag) {
                return WireParse::UnknownType(tag);
            }
            match read_anthropic_event(&tag, value) {
                Some(e) => WireParse::Event(e),
                None => WireParse::Malformed(wrong_shape_text(&tag)),
            }
        },
    }
}

/// Parses a chunk of a message stream.
pub fn parse_anthropic(chunk: &str) -> (r: WireParse<AnthropicEvent>)
    ensures
        r@ == anthropic_chunk(chunk@),
{
    match parse_json(chunk) {
        Ok(value) => decode_anthropic(&value),
        Err(e) => {
            let mut detail = "not JSON: ".to_owned();
            detail.append(&e);
            WireParse::Malformed(detail)
        },
    }
}

// --- Responses -----------------------------------------------------------------------------------

/// The head of a response.
#[derive(Debug, PartialEq, Eq)]
pub struct ResponsesResponseHead {
    pub id: String,
    pub model: Option<String>,
}

/// The view of a `ResponsesResponseHead`.
pub struct ResponsesResponseHeadView {
    pub id: Seq<char>,
    pub model: Option<Seq<char>>,
}

impl View for ResponsesResponseHead {
    type V = ResponsesResponseHeadView;

    open spec fn view(&self) -> ResponsesResponseHeadView {
        ResponsesResponseHeadView {
            id: self.id@,
            model: opt_view(self.model),
        }
    }
}

/// An output item.
#[derive(Debug, PartialEq, Eq)]
pub enum ResponsesItem {
    Message { id: String },
    FunctionCall { id: String, call_id: String, name: String, arguments: Option<String> },
}

/// The view of a `ResponsesItem`.
pub enum ResponsesItemView {
    Message { id: Seq<char> },
    FunctionCall { id: Seq<char>, call_id: Seq<char>, name: Seq<char>, arguments: Option<Seq<char>> },
}

impl View for ResponsesItem {
    type V = ResponsesItemView;

    open spec fn view(&self) -> ResponsesItemView {
        match self {
            ResponsesItem::Message { id } => ResponsesItemView::Message { id: id@ },
            ResponsesItem::FunctionCall {
                id,
                call_id,
                name,
                arguments,
            } => ResponsesItemView::FunctionCall {
                id: id@,
                call_id: call_id@,
                name: name@,
                arguments: opt_view(*arguments),
            },
        }
    }
}

/// Why a response is incomplete.
#[derive(Debug, PartialEq, Eq)]
pub struct ResponsesIncompleteDetails {
    pub reason: String,
}

/// The view of a `ResponsesIncompleteDetails`.
pub struct ResponsesIncompleteDetailsView {
    pub reason: Seq<char>,
}

impl View for ResponsesIncompleteDetails {
    type V = ResponsesIncompleteDetailsView;

    open spec fn view(&self) -> ResponsesIncompleteDetailsView {
        ResponsesIncompleteDetailsView {
            reason: self.reason@,
        }
    }
}

/// Details of the input tokens.
#[derive(Debug, PartialEq, Eq)]
pub struct ResponsesInputDetails {
    pub cached_tokens: u64,
}

/// The view of a `ResponsesInputDetails`.
pub struct ResponsesInputDetailsView {
    pub cached_tokens: u64,
}

impl View for ResponsesInputDetails {
    type V = ResponsesInputDetailsView;

    open spec fn view(&self) -> ResponsesInputDetailsView {
        ResponsesInputDetailsView {
            cached_tokens: self.cached_tokens,
        }
    }
}

/// Details of the output tokens.
#[derive(Debug, PartialEq, Eq)]
pub struct ResponsesOutputDetails {
    pub reasoning_tokens: u64,
}

/// The view of a `ResponsesOutputDetails`.
pub struct ResponsesOutputDetailsView {
    pub reasoning_tokens: u64,
}

impl View for ResponsesOutputDetails {
    type V = ResponsesOutputDetailsView;

    open spec fn view(&self) -> ResponsesOutputDetailsView {
        ResponsesOutputDetailsView {
            reasoning_tokens: self.reasoning_tokens,
        }
    }
}

/// Token accounting of a response.
#[derive(Debug, PartialEq, Eq)]
pub struct ResponsesUsage {
    pub input_tokens: u64,
    pub input_tokens_details: ResponsesInputDetails,
    pub output_tokens: u64,
    pub output_tokens_details: ResponsesOutputDetails,
}

/// The view of a `ResponsesUsage`.
pub struct ResponsesUsageView {
    pub input_tokens: u64,
    pub input_tokens_details: ResponsesInputDetailsView,
    pub output_tokens: u64,
    pub output_tokens_details: ResponsesOutputDetailsView,
}

impl View for ResponsesUsage {
    type V = ResponsesUsageView;

    open spec fn view(&self) -> ResponsesUsageView {
        ResponsesUsageView {
            input_tokens: self.input_tokens,
            input_tokens_details: self.input_tokens_details@,
            output_tokens: self.output_tokens,
            output_tokens_details: self.output_tokens_details@,
        }
    }
}

/// The end of a response.
#[derive(Debug, PartialEq, Eq)]
pub struct ResponsesResponseTail {
    pub status: String,
    pub incomplete_details: Option<ResponsesIncompleteDetails>,
    pub usage: ResponsesUsage,
}

/// The view of a `ResponsesResponseTail`.
pub struct ResponsesResponseTailView {
    pub status: Seq<char>,
    pub incomplete_details: Option<ResponsesIncompleteDetailsView>,
    pub usage: ResponsesUsageView,
}

impl View for ResponsesResponseTail {
    type V = ResponsesResponseTailView;

    open spec fn view(&self) -> ResponsesResponseTailView {
        ResponsesResponseTailView {
            status: self.status@,
            incomplete_details: match self.incomplete_details { Some(x) => Some(x@), None => None },
            usage: self.usage@,
        }
    }
}

/// An error that the provider reports.
#[derive(Debug, PartialEq, Eq)]
pub struct ResponsesError {
    pub code: String,
    pub message: String,
}

/// The view of a `ResponsesError`.
pub struct ResponsesErrorView {
    pub code: Seq<char>,
    pub message: Seq<char>,
}

impl View for ResponsesError {
    type V = ResponsesErrorView;

    open spec fn view(&self) -> ResponsesErrorView {
        ResponsesErrorView {
            code: self.code@,
            message: self.message@,
        }
    }
}

/// The end of a failed response.
#[derive(Debug, PartialEq, Eq)]
pub struct ResponsesFailure {
    pub error: ResponsesError,
}

/// The view of a `ResponsesFailure`.
pub struct ResponsesFailureView {
    pub error: ResponsesErrorView,
}

impl View for ResponsesFailure {
    type V = ResponsesFailureView;

    open spec fn view(&self) -> ResponsesFailureView {
        ResponsesFailureView {
            error: self.error@,
        }
    }
}

/// One event of a response stream.
#[derive(Debug, PartialEq, Eq)]
pub enum ResponsesEvent {
    Created { sequence_number: u64, response: ResponsesResponseHead },
    OutputItemAdded { sequence_number: u64, item: ResponsesItem },
    OutputTextDelta { sequence_number: u64, item_id: String, delta: String },
    FunctionCallArgumentsDelta { sequence_number: u64, item_id: String, delta: String },
    OutputItemDone { sequence_number: u64, item: ResponsesItem },
    Completed { sequence_number: u64, response: ResponsesResponseTail },
    Incomplete { sequence_number: u64, response: ResponsesResponseTail },
    Failed { sequence_number: u64, response: ResponsesFailure },
}

/// The view of a `ResponsesEvent`.
pub enum ResponsesEventView {
    Created { sequence_number: u64, response: ResponsesResponseHeadView },
    OutputItemAdded { sequence_number: u64, item: ResponsesItemView },
    OutputTextDelta { sequence_number: u64, item_id: Seq<char>, delta: Seq<char> },
    FunctionCallArgumentsDelta { sequence_number: u64, item_id: Seq<char>, delta: Seq<char> },
    OutputItemDone { sequence_number: u64, item: ResponsesItemView },
    Completed { sequence_number: u64, response: ResponsesResponseTailView },
    Incomplete { sequence_number: u64, response: ResponsesResponseTailView },
    Failed { sequence_number: u64, response: ResponsesFailureView },
}

impl View for ResponsesEvent {
    type V = ResponsesEventView;

    open spec fn view(&self) -> ResponsesEventView {
        match self {
            ResponsesEvent::Created { sequence_number, response } => ResponsesEventView::Created {
                sequence_number: *sequence_number,
                response: response@,
            },
            ResponsesEvent::OutputItemAdded {
                sequence_number,
                item,
            } => ResponsesEventView::OutputItemAdded {
                sequence_number: *sequence_number,
                item: item@,
            },
            ResponsesEvent::OutputTextDelta {
                sequence_number,
                item_id,
                delta,
            } => ResponsesEventView::OutputTextDelta {
                sequence_number: *sequence_number,
                item_id: item_id@,
                delta: delta@,
            },
            ResponsesEvent::FunctionCallArgumentsDelta {
                sequence_number,
                item_id,
                delta,
            } => ResponsesEventView::FunctionCallArgumentsDelta {
                sequence_number: *sequence_number,
                item_id: item_id@,
                delta: delta@,
            },
            ResponsesEvent::OutputItemDone {
                sequence_number,
                item,
            } => ResponsesEventView::OutputItemDone {
                sequence_number: *sequence_number,
                item: item@,
            },
            ResponsesEvent::Completed {
                sequence_number,
                response,
            } => ResponsesEventView::Completed {
                sequence_number: *sequence_number,
                response: response@,
            },
            ResponsesEvent::Incomplete {
                sequence_number,
                response,
            } => ResponsesEventView::Incomplete {
                sequence_number: *sequence_number,
                response: response@,
            },
            ResponsesEvent::Failed { sequence_number, response } => ResponsesEventView::Failed {
                sequence_number: *sequence_number,
                response: response@,
            },
        }
    }
}

/// The head of a response.
pub open spec fn response_head(value: JsonView) -> Option<ResponsesResponseHeadView> {
    if !shaped(value, 2) {
        None
    } else {
        match (text_field(value, 0, "id"@), optional_text(value, 1, "model"@)) {
            (Some(id), Some(model)) => Some(ResponsesResponseHeadView { id, model }),
            _ => None,
        }
    }
}

fn read_response_head(value: &Json) -> (r: Option<ResponsesResponseHead>)
    ensures
        (match r {
            Some(x) => Some(x@),
            None => None,
        }) == response_head(value@),
{
    if !is_shaped(value, 2) {
        return None;
    }
    match (get_text_field(value, 0, "id"), get_optional_text(value, 1, "model")) {
        (Some(id), Some(model)) => Some(ResponsesResponseHead { id, model }),
        _ => None,
    }
}

/// An output item, by its own tag.
pub open spec fn output_item(value: JsonView) -> Option<ResponsesItemView> {
    match tag_field(value, "message"@, "function_call"@) {
        Some(tag) => if tag == "message"@ && shaped(value, 2) {
            match text_field(value, 1, "id"@) {
                Some(id) => Some(ResponsesItemView::Message { id }),
                None => None,
            }
        } else if tag == "function_call"@ && shaped(value, 5) {
            match (
                text_field(value, 1, "id"@),
                text_field(value, 2, "call_id"@),
                text_field(value, 3, "name"@),
                optional_text(value, 4, "arguments"@),
            ) {
                (Some(id), Some(call_id), Some(name), Some(arguments)) => Some(
                    ResponsesItemView::FunctionCall { id, call_id, name, arguments },
                ),
                _ => None,
            }
        } else {
            None
        },
        None => None,
    }
}

fn read_output_item(value: &Json) -> (r: Option<ResponsesItem>)
    ensures
        (match r {
            Some(x) => Some(x@),
            None => None,
        }) == output_item(value@),
{
    match get_tag_field(value, "message", "function_call") {
        Some(tag) => {
            if same(&tag, "message") && is_shaped(value, 2) {
                match get_text_field(value, 1, "id") {
                    Some(id) => Some(ResponsesItem::Message { id }),
                    None => None,
                }
            } else if same(&tag, "function_call") && is_shaped(value, 5) {
                match (
                    get_text_field(value, 1, "id"),
                    get_text_field(value, 2, "call_id"),
                    get_text_field(value, 3, "name"),
                    get_optional_text(value, 4, "arguments"),
                ) {
                    (Some(id), Some(call_id), Some(name), Some(arguments)) => Some(
                        ResponsesItem::FunctionCall { id, call_id, name, arguments },
                    ),
                    _ => None,
                }
            } else {
                None
            }
        },
        None => None,
    }
}

/// One count of a details object, 0 where the object or the count is absent.
pub open spec fn detail_count(value: JsonView, i: int, name: Seq<char>, count: Seq<char>) -> Option<u64> {
    match field(value, i, name) {
        None => Some(0),
        Some(d) => if shaped(d, 1) {
            count_or_zero(d, 0, count)
        } else {
            None
        },
    }
}

fn get_detail_count(value: &Json, i: usize, name: &str, count: &str) -> (r: Option<u64>)
    ensures
        r == detail_count(value@, i as int, name@, count@),
{
    match get_field(value, i, name) {
        None => Some(0),
        Some(d) => if is_shaped(d, 1) {
            get_count(d, 0, count)
        } else {
            None
        },
    }
}

/// The token accounting of a response.
pub open spec fn response_usage(value: JsonView) -> Option<ResponsesUsageView> {
    if !shaped(value, 4) {
        None
    } else {
        match (
            uint_field(value, 0, "input_tokens"@),
            detail_count(value, 1, "input_tokens_details"@, "cached_tokens"@),
            uint_field(value, 2, "output_tokens"@),
            detail_count(value, 3, "output_tokens_details"@, "reasoning_tokens"@),
        ) {
            (Some(input_tokens), Some(cached_tokens), Some(output_tokens), Some(reasoning_tokens)) =>
                Some(
                ResponsesUsageView {
                    input_tokens,
                    input_tokens_details: ResponsesInputDetailsView { cached_tokens },
                    output_tokens,
                    output_tokens_details: ResponsesOutputDetailsView { reasoning_tokens },
                },
            ),
            _ => None,
        }
    }
}

fn read_response_usage(value: &Json) -> (r: Option<ResponsesUsage>)
    ensures
        (match r {
            Some(x) => Some(x@),
            None => None,
        }) == response_usage(value@),
{
    if !is_shaped(value, 4) {
        return None;
    }
    match (
        get_uint_field(value, 0, "input_tokens"),
        get_detail_count(value, 1, "input_tokens_details", "cached_tokens"),
        get_uint_field(value, 2, "output_tokens"),
        get_detail_count(value, 3, "output_tokens_details", "reasoning_tokens"),
    ) {
        (Some(input_tokens), Some(cached_tokens), Some(output_tokens), Some(reasoning_tokens)) =>
            Some(
            ResponsesUsage {
                input_tokens,
                input_tokens_details: ResponsesInputDetails { cached_tokens },
                output_tokens,
                output_tokens_details: ResponsesOutputDetails { reasoning_tokens },
            },
        ),
        _ => None,
    }
}

/// Why a response is incomplete, where it says so.
pub open spec fn incomplete_details(value: JsonView) -> Option<
    Option<ResponsesIncompleteDetailsView>,
> {
    match field(value, 1, "incomplete_details"@) {
        None => Some(None),
        Some(JsonView::Null) => Some(None),
        Some(d) => if !shaped(d, 1) {
            None
        } else {
            match text_field(d, 0, "reason"@) {
                Some(reason) => Some(Some(ResponsesIncompleteDetailsView { reason })),
                None => None,
            }
        },
    }
}

fn read_incomplete_details(value: &Json) -> (r: Option<Option<ResponsesIncompleteDetails>>)
    ensures
        (match r {
            Some(Some(x)) => Some(Some(x@)),
            Some(None) => Some(None),
            None => None,
        }) == incomplete_details(value@),
{
    match get_field(value, 1, "incomplete_details") {
        None => Some(None),
        Some(Json::Null) => Some(None),
        Some(d) => if !is_shaped(d, 1) {
            None
        } else {
            match get_text_field(d, 0, "reason") {
                Some(reason) => Some(Some(ResponsesIncompleteDetails { reason })),
                None => None,
            }
        },
    }
}

/// The end of a response.
pub open spec fn response_tail(value: JsonView) -> Option<ResponsesResponseTailView> {
    if !shaped(value, 3) {
        None
    } else {
        let usage = match field(value, 2, "usage"@) {
            Some(u) => response_usage(u),
            None => None,
        };
        match (text_field(value, 0, "status"@), incomplete_details(value), usage) {
            (Some(status), Some(incomplete_details), Some(usage)) => Some(
                ResponsesResponseTailView { status, incomplete_details, usage },
            ),
            _ => None,
        }
    }
}

fn read_response_tail(value: &Json) -> (r: Option<ResponsesResponseTail>)
    ensures
        (match r {
            Some(x) => Some(x@),
            None => None,
        }) == response_tail(value@),
{
    if !is_shaped(value, 3) {
        return None;
    }
    let usage = match get_field(value, 2, "usage") {
        Some(u) => read_response_usage(u),
        None => None,
    };
    match (get_text_field(value, 0, "status"), read_incomplete_details(value), usage) {
        (Some(status), Some(incomplete_details), Some(usage)) => Some(
            ResponsesResponseTail { status, incomplete_details, usage },
        ),
        _ => None,
    }
}

/// The end of a failed response.
pub open spec fn response_failure(value: JsonView) -> Option<ResponsesFailureView> {
    match field(value, 0, "error"@) {
        Some(e) => if !shaped(value, 1) || !shaped(e, 2) {
            None
        } else {
            match (text_field(e, 0, "code"@), text_field(e, 1, "message"@)) {
                (Some(code), Some(message)) => Some(
                    ResponsesFailureView { error: ResponsesErrorView { code, message } },
                ),
                _ => None,
            }
        },
        None => None,
    }
}

fn read_response_failure(value: &Json) -> (r: Option<ResponsesFailure>)
    ensures
        (match r {
            Some(x) => Some(x@),
            None => None,
        }) == response_failure(value@),
{
    match get_field(value, 0, "error") {
        Some(e) => if !is_shaped(value, 1) || !is_shaped(e, 2) {
            None
        } else {
            match (get_text_field(e, 0, "code"), get_text_field(e, 1, "message")) {
                (Some(code), Some(message)) => Some(
                    ResponsesFailure { error: ResponsesError { code, message } },
                ),
                _ => None,
            }
        },
        None => None,
    }
}

/// The event of a known tag, where its members have the right shape.
pub open spec fn responses_event(tag: Seq<char>, sequence_number: u64, value: JsonView) -> Option<
    ResponsesEventView,
> {
    if tag == "response.created"@ {
        match member(value, "response"@) {
            Some(x) => match response_head(x) {
                Some(response) => Some(ResponsesEventView::Created { sequence_number, response }),
                None => None,
            },
            None => None,
        }
    } else if tag == "response.output_item.added"@ {
        match member(value, "item"@) {
            Some(x) => match output_item(x) {
                Some(item) => Some(ResponsesEventView::OutputItemAdded { sequence_number, item }),
                None => None,
            },
            None => None,
        }
    } else if tag == "response.output_text.delta"@ {
        match (text_member(value, "item_id"@), text_member(value, "delta"@)) {
            (Some(item_id), Some(delta)) => Some(
                ResponsesEventView::OutputTextDelta { sequence_number, item_id, delta },
            ),
            _ => None,
        }
    } else if tag == "response.function_call_arguments.delta"@ {
        match (text_member(value, "item_id"@), text_member(value, "delta"@)) {
            (Some(item_id), Some(delta)) => Some(
                ResponsesEventView::FunctionCallArgumentsDelta { sequence_number, item_id, delta },
            ),
            _ => None,
        }
    } else if tag == "response.output_item.done"@ {
        match member(value, "item"@) {
            Some(x) => match output_item(x) {
                Some(item) => Some(ResponsesEventView::OutputItemDone { sequence_number, item }),
                None => None,
            },
            None => None,
        }
    } else if tag == "response.completed"@ {
        match member(value, "response"@) {
            Some(x) => match response_tail(x) {
                Some(response) => Some(ResponsesEventView::Completed { sequence_number, response }),
                None => None,
            },
            None => None,
        }
    } else if tag == "response.incomplete"@ {
        match member(value, "response"@) {
            Some(x) => match response_tail(x) {
                Some(response) => Some(ResponsesEventView::Incomplete { sequence_number, response }),
                None => None,
            },
            None => None,
        }
    } else {
        match member(value, "response"@) {
            Some(x) => match response_failure(x) {
                Some(response) => Some(ResponsesEventView::Failed { sequence_number, response }),
                None => None,
            },
            None => None,
        }
    }
}

fn read_responses_event(tag: &str, sequence_number: u64, value: &Json) -> (r: Option<
    ResponsesEvent,
>)
    ensures
        (match r {
            Some(x) => Some(x@),
            None => None,
        }) == responses_event(tag@, sequence_number, value@),
{
    if same(tag, "response.created") {
        match value.get("response") {
            Some(x) => match read_response_head(x) {
                Some(response) => Some(ResponsesEvent::Created { sequence_number, response }),
                None => None,
            },
            None => None,
        }
    } else if same(tag, "response.output_item.added") {
        match value.get("item") {
            Some(x) => match read_output_item(x) {
                Some(item) => Some(ResponsesEvent::OutputItemAdded { sequence_number, item }),
                None => None,
            },
            None => None,
        }
    } else if same(tag, "response.output_text.delta") {
        match (get_text(value, "item_id"), get_text(value, "delta")) {
            (Some(item_id), Some(delta)) => Some(
                ResponsesEvent::OutputTextDelta { sequence_number, item_id, delta },
            ),
            _ => None,
        }
    } else if same(tag, "response.function_call_arguments.delta") {
        match (get_text(value, "item_id"), get_text(value, "delta")) {
            (Some(item_id), Some(delta)) => Some(
                ResponsesEvent::FunctionCallArgumentsDelta { sequence_number, item_id, delta },
            ),
            _ => None,
        }
    } else if same(tag, "response.output_item.done") {
        match value.get("item") {
            Some(x) => match read_output_item(x) {
                Some(item) => Some(ResponsesEvent::OutputItemDone { sequence_number, item }),
                None => None,
            },
            None => None,
        }
    } else if same(tag, "response.completed") {
        match value.get("response") {
            Some(x) => match read_response_tail(x) {
                Some(response) => Some(ResponsesEvent::Completed { sequence_number, response }),
                None => None,
            },
            None => None,
        }
    } else if same(tag, "response.incomplete") {
        match value.get("response") {
            Some(x) => match read_response_tail(x) {
                Some(response) => Some(ResponsesEvent::Incomplete { sequence_number, response }),
                None => None,
            },
            None => None,
        }
    } else {
        match value.get("response") {
            Some(x) => match read_response_failure(x) {
                Some(response) => Some(ResponsesEvent::Failed { sequence_number, response }),
                None => None,
            },
            None => None,
        }
    }
}

/// Whether a tag is one of the eight event types.
pub open spec fn responses_type(tag: Seq<char>) -> bool {
    ||| tag == "response.created"@
    ||| tag == "response.output_item.added"@
    ||| tag == "response.output_text.delta"@
    ||| tag == "response.function_call_arguments.delta"@
    ||| tag == "response.output_item.done"@
    ||| tag == "response.completed"@
    ||| tag == "response.incomplete"@
    ||| tag == "response.failed"@
}

fn is_responses_type(tag: &str) -> (r: bool)
    ensures
        r == responses_type(tag@),
{
    same(tag, "response.created") || same(tag, "response.output_item.added")
        || same(tag, "response.output_text.delta")
        || same(tag, "response.function_call_arguments.delta")
        || same(tag, "response.output_item.done") || same(tag, "response.completed")
        || same(tag, "response.incomplete") || same(
        tag,
        "response.failed",
    )
}

/// What a JSON value is, as an event of a response stream.
pub open spec fn responses_of(value: JsonView) -> WireParseView<ResponsesEventView> {
    match text_member(value, "type"@) {
        None => WireParseView::Malformed("missing string `type` tag"@),
        Some(tag) => if !responses_type(tag) {
            WireParseView::UnknownType(tag)
        } else {
            match uint_member(value, "sequence_number"@) {
                None => WireParseView::Malformed(wrong_shape(tag)),
                Some(n) => match responses_event(tag, n, value) {
                    Some(e) => WireParseView::Event(e),
                    None => WireParseView::Malformed(wrong_shape(tag)),
                },
            }
        },
    }
}

/// What a chunk parses as, as an event of a response stream.
pub open spec fn responses_chunk(chunk: Seq<char>) -> WireParseView<ResponsesEventView> {
    match json_parse(chunk) {
        Err(e) => WireParseView::Malformed("not JSON: "@ + e),
        Ok(value) => responses_of(value),
    }
}

/// Decodes a JSON value as an event of a response stream.
pub fn decode_responses(value: &Json) -> (r: WireParse<ResponsesEvent>)
    ensures
        r@ == responses_of(value@),
{
    match get_text(value, "type") {
        None => WireParse::Malformed("missing string `type` tag".to_owned()),
        Some(tag) => {
            if !is_responses_type(&tag) {
                return WireParse::UnknownType(tag);
            }
            match get_uint(value, "sequence_number") {
                None => WireParse::Malformed(wrong_shape_text(&tag)),
                Some(n) => match read_responses_event(&tag, n, value) {
                    Some(e) => WireParse::Event(e),
                    None => WireParse::Malformed(wrong_shape_text(&tag)),
                },
            }
        },
    }
}

/// Parses a chunk of a response stream.
pub fn parse_responses(chunk: &str) -> (r: WireParse<ResponsesEvent>)
    ensures
        r@ == responses_chunk(chunk@),
{
    match parse_json(chunk) {
        Ok(value) => decode_responses(&value),
        Err(e) => {
            let mut detail = "not JSON: ".to_owned();
            detail.append(&e);
            WireParse::Malformed(detail)
        },
    }
}

} // verus!
