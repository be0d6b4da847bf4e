//! The state machines from dialect events to normalized events.
//!
//! An unrecognized event type is quarantined and the stream goes on. A chunk that is not JSON, a
//! known type with a wrong shape, tool arguments that do not parse, or an unknown member of a
//! closed vocabulary poisons the stream with a typed [`StreamDefect`]; every later chunk is
//! answered with that defect.
use crate::error::ProviderErrorKind;
use crate::ids::{debug_form, debug_text};
use crate::json::{json_parse, parse_json};
use crate::provider::dialect::{
    anthropic_chunk, parse_anthropic, parse_responses, responses_chunk, AnthropicContentBlock,
    AnthropicContentBlockView, AnthropicDelta, AnthropicDeltaView, AnthropicEvent,
    AnthropicEventView, ResponsesEvent, ResponsesEventView, ResponsesItem, ResponsesItemView,
    ResponsesUsage, ResponsesUsageView, WireParse, WireParseView,
};
use crate::provider::{
    no_usage, Dialect, FinishReason, NormalizedEvent, NormalizedEventView, ServedModelEvidence,
    Usage,
};
use crate::table::{lookup, upsert, IdTable, Table};
use crate::text::{before, dec, decimal, opt_view, same, starts_with, text_before};
use vstd::prelude::*;
use vstd::string::*;

verus! {

/// A terminal stream failure: damage of bytes, shape or vocabulary, or an event where the stream
/// grammar forbids it.
#[derive(Debug, PartialEq, Eq)]
pub enum StreamDefect {
    Malformed { detail: String },
    OrderingViolation { detail: String },
}

/// The view of a `StreamDefect`.
pub enum StreamDefectView {
    Malformed { detail: Seq<char> },
    OrderingViolation { detail: Seq<char> },
}

impl View for StreamDefect {
    type V = StreamDefectView;

    open spec fn view(&self) -> StreamDefectView {
        match self {
            StreamDefect::Malformed { detail } => StreamDefectView::Malformed { detail: detail@ },
            StreamDefect::OrderingViolation { detail } => StreamDefectView::OrderingViolation {
                detail: detail@,
            },
        }
    }
}

impl Clone for StreamDefect {
    fn clone(&self) -> (r: Self)
        ensures
            r@ == self@,
    {
        match self {
            StreamDefect::Malformed { detail } => StreamDefect::Malformed {
                detail: detail.clone(),
            },
            StreamDefect::OrderingViolation { detail } => StreamDefect::OrderingViolation {
                detail: detail.clone(),
            },
        }
    }
}

/// What one chunk gives.
#[derive(Debug, PartialEq, Eq)]
pub enum StepOutcome {
    Events(Vec<NormalizedEvent>),
    /// An unknown event type: surfaced and counted, the stream unchanged.
    Quarantined { event_type: String },
    Defect(StreamDefect),
}

/// The view of a `StepOutcome`.
pub enum StepOutcomeView {
    Events(Seq<NormalizedEventView>),
    Quarantined { event_type: Seq<char> },
    Defect(StreamDefectView),
}

/// The views of a list of events.
pub open spec fn event_views(list: Seq<NormalizedEvent>) -> Seq<NormalizedEventView> {
    list.map_values(|e: NormalizedEvent| e@)
}

impl View for StepOutcome {
    type V = StepOutcomeView;

    open spec fn view(&self) -> StepOutcomeView {
        match self {
            StepOutcome::Events(v) => StepOutcomeView::Events(event_views(v@)),
            StepOutcome::Quarantined { event_type } => StepOutcomeView::Quarantined {
                event_type: event_type@,
            },
            StepOutcome::Defect(d) => StepOutcomeView::Defect(d@),
        }
    }
}

/// What a content block holds.
#[derive(Debug)]
pub enum BlockKind {
    Text,
    Tool { id: String, buf: String },
}

/// The view of a `BlockKind`.
pub enum BlockKindView {
    Text,
    Tool { id: Seq<char>, buf: Seq<char> },
}

impl View for BlockKind {
    type V = BlockKindView;

    open spec fn view(&self) -> BlockKindView {
        match self {
            BlockKind::Text => BlockKindView::Text,
            BlockKind::Tool { id, buf } => BlockKindView::Tool { id: id@, buf: buf@ },
        }
    }
}

/// A content block.
#[derive(Debug)]
pub struct Block {
    pub kind: BlockKind,
    pub stopped: bool,
}

/// The view of a `Block`.
pub struct BlockView {
    pub kind: BlockKindView,
    pub stopped: bool,
}

impl View for Block {
    type V = BlockView;

    open spec fn view(&self) -> BlockView {
        BlockView {
            kind: self.kind@,
            stopped: self.stopped,
        }
    }
}

/// What an output item holds.
#[derive(Debug)]
pub enum ItemKind {
    Message,
    Tool { call_id: String, buf: String },
}

/// The view of a `ItemKind`.
pub enum ItemKindView {
    Message,
    Tool { call_id: Seq<char>, buf: Seq<char> },
}

impl View for ItemKind {
    type V = ItemKindView;

    open spec fn view(&self) -> ItemKindView {
        match self {
            ItemKind::Message => ItemKindView::Message,
            ItemKind::Tool { call_id, buf } => ItemKindView::Tool { call_id: call_id@, buf: buf@ },
        }
    }
}

/// An output item.
#[derive(Debug)]
pub struct Item {
    pub kind: ItemKind,
    pub done: bool,
}

/// The view of a `Item`.
pub struct ItemView {
    pub kind: ItemKindView,
    pub done: bool,
}

impl View for Item {
    type V = ItemView;

    open spec fn view(&self) -> ItemView {
        ItemView {
            kind: self.kind@,
            done: self.done,
        }
    }
}

fn find_open_block(blocks: &IdTable<Block>) -> (r: Option<u64>)
    ensures
        r == lowest_open_block(blocks@),
{
    let mut best: Option<u64> = None;
    let mut i: usize = 0;
    proof {
        assert(blocks@.take(0) =~= Seq::<(u64, BlockView)>::empty());
    }
    while i < blocks.len()
        invariant
            i <= blocks@.len(),
            best == lowest_open_block(blocks@.take(i as int)),
        decreases blocks@.len() - i,
    {
        let index: u64 = blocks.key_at(i);
        let row = blocks.row_at(i);
        proof {
            assert(blocks@.take(i + 1).drop_last() =~= blocks@.take(i as int));
            assert(blocks@.take(i + 1).last() == (index, row@));
        }
        if !row.stopped {
            best = match best {
                Some(b) => if b < index {
                    Some(b)
                } else {
                    Some(index)
                },
                None => Some(index),
            };
        }
        i += 1;
    }
    proof {
        assert(blocks@.take(blocks@.len() as int) =~= blocks@);
    }
    best
}

/// The lowest index of an open block.
pub open spec fn lowest_open_block(blocks: Seq<(u64, BlockView)>) -> Option<u64>
    decreases blocks.len(),
{
    if blocks.len() == 0 {
        None
    } else {
        let front = lowest_open_block(blocks.drop_last());
        let last = blocks.last();
        if last.1.stopped {
            front
        } else {
            match front {
                Some(b) => if b < last.0 {
                    Some(b)
                } else {
                    Some(last.0)
                },
                None => Some(last.0),
            }
        }
    }
}

/// The first id, in the order of their bytes, of an open item.
pub open spec fn first_open_item(items: Seq<(Seq<char>, ItemView)>) -> Option<Seq<char>>
    decreases items.len(),
{
    if items.len() == 0 {
        None
    } else {
        let front = first_open_item(items.drop_last());
        let last = items.last();
        if last.1.done {
            front
        } else {
            match front {
                Some(b) => if text_before(b, last.0) {
                    Some(b)
                } else {
                    Some(last.0)
                },
                None => Some(last.0),
            }
        }
    }
}

fn find_open_item(items: &Table<Item>) -> (r: Option<String>)
    ensures
        opt_view(r) == first_open_item(items@),
{
    let mut best: Option<String> = None;
    let mut i: usize = 0;
    proof {
        assert(items@.take(0) =~= Seq::<(Seq<char>, ItemView)>::empty());
    }
    while i < items.len()
        invariant
            i <= items@.len(),
            opt_view(best) == first_open_item(items@.take(i as int)),
        decreases items@.len() - i,
    {
        let key = items.key_at(i);
        let row = items.row_at(i);
        proof {
            assert(items@.take(i + 1).drop_last() =~= items@.take(i as int));
            assert(items@.take(i + 1).last() == (key@, row@));
        }
        if !row.done {
            let better = match &best {
                Some(b) => !before(b, key),
                None => true,
            };
            if better {
                best = Some(key.clone());
            }
        }
        i += 1;
    }
    proof {
        assert(items@.take(items@.len() as int) =~= items@);
    }
    best
}

/// Whether a call id is taken.
pub open spec fn call_taken(items: Seq<(Seq<char>, ItemView)>, call_id: Seq<char>) -> bool {
    exists|k: int|
        0 <= k < items.len() && (#[trigger] items[k]).1.kind is Tool
            && items[k].1.kind->Tool_call_id == call_id
}

fn is_call_taken(items: &Table<Item>, call_id: &str) -> (r: bool)
    ensures
        r == call_taken(items@, call_id@),
{
    let mut i: usize = 0;
    while i < items.len()
        invariant
            i <= items@.len(),
            forall|k: int|
                0 <= k < i ==> !((#[trigger] items@[k]).1.kind is Tool
                    && items@[k].1.kind->Tool_call_id == call_id@),
        decreases items@.len() - i,
    {
        let row = items.row_at(i);
        if let ItemKind::Tool { call_id: c, .. } = &row.kind {
            if same(c, call_id) {
                proof {
                    assert(items@[i as int].1.kind is Tool);
                }
                return true;
            }
        }
        i += 1;
    }
    false
}

/// State of a message stream.
#[derive(Debug)]
pub struct AnthropicState {
    pub started: bool,
    pub blocks: IdTable<Block>,
    pub usage: Usage,
    pub stop_reason: Option<String>,
}

/// The view of an `AnthropicState`.
pub struct AnthropicStateView {
    pub started: bool,
    pub blocks: Seq<(u64, BlockView)>,
    pub usage: Usage,
    pub stop_reason: Option<Seq<char>>,
}

impl View for AnthropicState {
    type V = AnthropicStateView;

    open spec fn view(&self) -> AnthropicStateView {
        AnthropicStateView {
            started: self.started,
            blocks: self.blocks@,
            usage: self.usage,
            stop_reason: opt_view(self.stop_reason),
        }
    }
}

/// State of a response stream.
#[derive(Debug)]
pub struct ResponsesState {
    pub created: bool,
    pub last_seq: Option<u64>,
    pub items: Table<Item>,
    pub saw_tool_item: bool,
}

/// The view of a `ResponsesState`.
pub struct ResponsesStateView {
    pub created: bool,
    pub last_seq: Option<u64>,
    pub items: Seq<(Seq<char>, ItemView)>,
    pub saw_tool_item: bool,
}

impl View for ResponsesState {
    type V = ResponsesStateView;

    open spec fn view(&self) -> ResponsesStateView {
        ResponsesStateView {
            created: self.created,
            last_seq: self.last_seq,
            items: self.items@,
            saw_tool_item: self.saw_tool_item,
        }
    }
}

/// The normalizer of one stream.
#[derive(Debug)]
pub struct Normalizer {
    pub dialect: Dialect,
    pub poisoned: Option<StreamDefect>,
    pub terminal: bool,
    pub quarantined: u64,
    pub anthropic: AnthropicState,
    pub responses: ResponsesState,
}

/// The view of a `Normalizer`.
pub struct NormalizerView {
    pub dialect: Dialect,
    pub poisoned: Option<StreamDefectView>,
    pub terminal: bool,
    pub quarantined: u64,
    pub anthropic: AnthropicStateView,
    pub responses: ResponsesStateView,
}

impl View for Normalizer {
    type V = NormalizerView;

    open spec fn view(&self) -> NormalizerView {
        NormalizerView {
            dialect: self.dialect,
            poisoned: match self.poisoned {
                Some(d) => Some(d@),
                None => None,
            },
            terminal: self.terminal,
            quarantined: self.quarantined,
            anthropic: self.anthropic@,
            responses: self.responses@,
        }
    }
}

/// The normalizer of a stream that has not begun.
pub open spec fn fresh_normalizer(dialect: Dialect) -> NormalizerView {
    NormalizerView {
        dialect,
        poisoned: None,
        terminal: false,
        quarantined: 0,
        anthropic: AnthropicStateView {
            started: false,
            blocks: Seq::empty(),
            usage: no_usage(),
            stop_reason: None,
        },
        responses: ResponsesStateView {
            created: false,
            last_seq: None,
            items: Seq::empty(),
            saw_tool_item: false,
        },
    }
}

/// A grammar fault.
pub open spec fn out_of_order<T>(detail: Seq<char>) -> Result<T, StreamDefectView> {
    Err(StreamDefectView::OrderingViolation { detail })
}

/// Damage.
pub open spec fn damaged<T>(detail: Seq<char>) -> Result<T, StreamDefectView> {
    Err(StreamDefectView::Malformed { detail })
}

/// A grammar fault.
pub fn ordering(detail: &str) -> (r: Result<Vec<NormalizedEvent>, StreamDefect>)
    ensures
        r is Err,
        r->Err_0@ == (StreamDefectView::OrderingViolation { detail: detail@ }),
{
    Err(StreamDefect::OrderingViolation { detail: detail.to_owned() })
}

/// Damage.
pub fn malformed(detail: &str) -> (r: Result<Vec<NormalizedEvent>, StreamDefect>)
    ensures
        r is Err,
        r->Err_0@ == (StreamDefectView::Malformed { detail: detail@ }),
{
    Err(StreamDefect::Malformed { detail: detail.to_owned() })
}

/// The text of a prefix, a number and a suffix.
fn numbered(prefix: &str, n: u64, suffix: &str) -> (r: String)
    ensures
        r@ == prefix@ + dec(n as nat) + suffix@,
{
    let mut s = prefix.to_owned();
    s.append(&decimal(n));
    s.append(suffix);
    s
}

/// The text of a prefix and a number.
fn counted(prefix: &str, n: u64) -> (r: String)
    ensures
        r@ == prefix@ + dec(n as nat),
{
    let mut s = prefix.to_owned();
    s.append(&decimal(n));
    s
}

/// The text of a prefix and a name.
fn labelled(prefix: &str, name: &str) -> (r: String)
    ensures
        r@ == prefix@ + name@,
{
    let mut s = prefix.to_owned();
    s.append(name);
    s
}

/// The text of a prefix, a name and a suffix.
fn called(prefix: &str, name: &str, suffix: &str) -> (r: String)
    ensures
        r@ == prefix@ + name@ + suffix@,
{
    let mut s = prefix.to_owned();
    s.append(name);
    s.append(suffix);
    s
}

/// Where a model identity was read.
pub open spec fn evidence_of(model: Option<Seq<char>>) -> ServedModelEvidence {
    if model is Some {
        ServedModelEvidence::ResponseField
    } else {
        ServedModelEvidence::Absent
    }
}

/// The list of one event.
fn one(e: NormalizedEvent) -> (r: Vec<NormalizedEvent>)
    ensures
        event_views(r@) == seq![e@],
{
    let mut v: Vec<NormalizedEvent> = Vec::new();
    v.push(e);
    proof {
        assert(event_views(v@) =~= seq![e@]);
    }
    v
}

/// The list of no events.
fn none() -> (r: Vec<NormalizedEvent>)
    ensures
        event_views(r@) == Seq::<NormalizedEventView>::empty(),
{
    let v: Vec<NormalizedEvent> = Vec::new();
    proof {
        assert(event_views(v@) =~= Seq::<NormalizedEventView>::empty());
    }
    v
}

/// The list of two events.
fn two(a: NormalizedEvent, b: NormalizedEvent) -> (r: Vec<NormalizedEvent>)
    ensures
        event_views(r@) == seq![a@, b@],
{
    let mut v: Vec<NormalizedEvent> = Vec::new();
    v.push(a);
    v.push(b);
    proof {
        assert(event_views(v@) =~= seq![a@, b@]);
    }
    v
}

/// What opens a stream that fails before its provider opened it: a stream starts with
/// `StreamStart`, whatever comes.
pub open spec fn opened(begun: bool) -> Seq<NormalizedEventView> {
    if begun {
        Seq::empty()
    } else {
        seq![
            NormalizedEventView::StreamStart {
                served_model_id: None,
                served_model_evidence: ServedModelEvidence::Absent,
            },
        ]
    }
}

/// The events of a failure.
fn failure(begun: bool, error_kind: ProviderErrorKind, message: String) -> (r: Vec<NormalizedEvent>)
    ensures
        event_views(r@) == opened(begun) + seq![
            NormalizedEventView::ProviderError { error_kind, message: message@ },
        ],
{
    let error = NormalizedEvent::ProviderError { error_kind, message };
    if begun {
        let r = one(error);
        proof {
            assert(event_views(r@) =~= opened(begun) + seq![error@]);
        }
        r
    } else {
        let start = NormalizedEvent::StreamStart {
            served_model_id: None,
            served_model_evidence: ServedModelEvidence::Absent,
        };
        let r = two(start, error);
        proof {
            assert(event_views(r@) =~= opened(begun) + seq![error@]);
        }
        r
    }
}

// --- Anthropic -----------------------------------------------------------------------------------

/// A normalizer with another message state.
pub open spec fn with_anthropic(n: NormalizerView, st: AnthropicStateView) -> NormalizerView {
    NormalizerView { anthropic: st, ..n }
}

/// The finish reason of a stop reason.
pub open spec fn stop_finish(reason: Seq<char>) -> Option<FinishReason> {
    if reason == "end_turn"@ || reason == "stop_sequence"@ {
        Some(FinishReason::Stop)
    } else if reason == "max_tokens"@ {
        Some(FinishReason::Length)
    } else if reason == "tool_use"@ {
        Some(FinishReason::ToolCall)
    } else if reason == "refusal"@ {
        Some(FinishReason::ContentFilter)
    } else {
        None
    }
}

fn stop_reason_finish(reason: &str) -> (r: Option<FinishReason>)
    ensures
        r == stop_finish(reason@),
{
    if same(reason, "end_turn") || same(reason, "stop_sequence") {
        Some(FinishReason::Stop)
    } else if same(reason, "max_tokens") {
        Some(FinishReason::Length)
    } else if same(reason, "tool_use") {
        Some(FinishReason::ToolCall)
    } else if same(reason, "refusal") {
        Some(FinishReason::ContentFilter)
    } else {
        None
    }
}

/// The class of a reported error. Context exhaustion is an invalid request with a known
/// beginning of its message.
pub open spec fn anthropic_error_kind(error_type: Seq<char>, message: Seq<char>) -> Option<
    ProviderErrorKind,
> {
    if error_type == "rate_limit_error"@ {
        Some(ProviderErrorKind::RateLimit)
    } else if error_type == "overloaded_error"@ || error_type == "api_error"@ {
        Some(ProviderErrorKind::ServerError)
    } else if error_type == "not_supported_error"@ {
        Some(ProviderErrorKind::UnsupportedCapability)
    } else if error_type == "invalid_request_error"@ {
        if "prompt is too long"@.is_prefix_of(message) {
            Some(ProviderErrorKind::ContextLengthExceeded)
        } else {
            Some(ProviderErrorKind::InvalidRequest)
        }
    } else {
        None
    }
}

fn classify_anthropic_error(error_type: &str, message: &str) -> (r: Option<ProviderErrorKind>)
    ensures
        r == anthropic_error_kind(error_type@, message@),
{
    if same(error_type, "rate_limit_error") {
        Some(ProviderErrorKind::RateLimit)
    } else if same(error_type, "overloaded_error") || same(error_type, "api_error") {
        Some(ProviderErrorKind::ServerError)
    } else if same(error_type, "not_supported_error") {
        Some(ProviderErrorKind::UnsupportedCapability)
    } else if same(error_type, "invalid_request_error") {
        if starts_with(message, "prompt is too long") {
            Some(ProviderErrorKind::ContextLengthExceeded)
        } else {
            Some(ProviderErrorKind::InvalidRequest)
        }
    } else {
        None
    }
}

/// The arguments of a call whose fragments are all there: none at all is the empty object.
pub open spec fn arguments_of(buf: Seq<char>) -> Seq<char> {
    if buf.len() == 0 {
        "{}"@
    } else {
        buf
    }
}

/// What an event of a message stream does: the next state and the normalized events, or the
/// defect that ends the stream.
pub open spec fn step_anthropic(n: NormalizerView, event: AnthropicEventView) -> Result<
    (NormalizerView, Seq<NormalizedEventView>),
    StreamDefectView,
> {
    let st = n.anthropic;
    if n.terminal {
        out_of_order("event after terminal"@)
    } else {
        match event {
            AnthropicEventView::MessageStart { message } => if st.started {
                out_of_order("second message_start"@)
            } else {
                Ok(
                    (
                        with_anthropic(
                            n,
                            AnthropicStateView {
                                started: true,
                                usage: Usage {
                                    input_tokens: message.usage.input_tokens,
                                    cached_input_tokens: message.usage.cache_read_input_tokens,
                                    ..st.usage
                                },
                                ..st
                            },
                        ),
                        seq![
                            NormalizedEventView::StreamStart {
                                served_model_id: message.model,
                                served_model_evidence: evidence_of(message.model),
                            },
                        ],
                    ),
                )
            },
            AnthropicEventView::ContentBlockStart { index, content_block } => if !st.started {
                out_of_order("content_block_start before message_start"@)
            } else if lookup(st.blocks, index as u64) is Some {
                out_of_order("content block index "@ + dec(index as nat) + " reused"@)
            } else {
                match content_block {
                    AnthropicContentBlockView::Text => Ok(
                        (
                            with_anthropic(
                                n,
                                AnthropicStateView {
                                    blocks: upsert(
                                        st.blocks,
                                        index as u64,
                                        BlockView { kind: BlockKindView::Text, stopped: false },
                                    ),
                                    ..st
                                },
                            ),
                            Seq::empty(),
                        ),
                    ),
                    AnthropicContentBlockView::ToolUse { id, name } => Ok(
                        (
                            with_anthropic(
                                n,
                                AnthropicStateView {
                                    blocks: upsert(
                                        st.blocks,
                                        index as u64,
                                        BlockView {
                                            kind: BlockKindView::Tool { id, buf: Seq::empty() },
                                            stopped: false,
                                        },
                                    ),
                                    ..st
                                },
                            ),
                            seq![
                                NormalizedEventView::ToolCallStart {
                                    tool_call_id: id,
                                    tool_name: name,
                                },
                            ],
                        ),
                    ),
                }
            },
            AnthropicEventView::ContentBlockDelta { index, delta } => match lookup(
                st.blocks,
                index as u64,
            ) {
                None => out_of_order("delta for unopened block "@ + dec(index as nat)),
                Some(block) => if block.stopped {
                    out_of_order(
                        "delta after content_block_stop for block "@ + dec(index as nat),
                    )
                } else {
                    match (block.kind, delta) {
                        (BlockKindView::Text, AnthropicDeltaView::TextDelta { text }) => Ok(
                            (n, seq![NormalizedEventView::TextDelta { text }]),
                        ),
                        (
                            BlockKindView::Tool { id, buf },
                            AnthropicDeltaView::InputJsonDelta { partial_json },
                        ) => Ok(
                            (
                                with_anthropic(
                                    n,
                                    AnthropicStateView {
                                        blocks: upsert(
                                            st.blocks,
                                            index as u64,
                                            BlockView {
                                                kind: BlockKindView::Tool {
                                                    id,
                                                    buf: buf + partial_json,
                                                },
                                                stopped: false,
                                            },
                                        ),
                                        ..st
                                    },
                                ),
                                seq![
                                    NormalizedEventView::ToolCallArgumentsDelta {
                                        tool_call_id: id,
                                        fragment: partial_json,
                                    },
                                ],
                            ),
                        ),
                        _ => damaged(
                            "delta kind does not match block "@ + dec(index as nat) + " kind"@,
                        ),
                    }
                },
            },
            AnthropicEventView::ContentBlockStop { index } => match lookup(st.blocks, index as u64) {
                None => out_of_order(
                    "content_block_stop for unopened block "@ + dec(index as nat),
                ),
                Some(block) => if block.stopped {
                    out_of_order(
                        "second content_block_stop for block "@ + dec(index as nat),
                    )
                } else {
                    let closed = with_anthropic(
                        n,
                        AnthropicStateView {
                            blocks: upsert(
                                st.blocks,
                                index as u64,
                                BlockView { stopped: true, ..block },
                            ),
                            ..st
                        },
                    );
                    match block.kind {
                        BlockKindView::Text => Ok((closed, Seq::empty())),
                        BlockKindView::Tool { id, buf } => if json_parse(arguments_of(buf))
                            is Err {
                            damaged(
                                "tool call "@ + id + " closed with unparseable arguments"@,
                            )
                        } else {
                            Ok(
                                (
                                    closed,
                                    seq![
                                        NormalizedEventView::ToolCallComplete {
                                            tool_call_id: id,
                                            arguments_json: arguments_of(buf),
                                        },
                                    ],
                                ),
                            )
                        },
                    }
                },
            },
            AnthropicEventView::MessageDelta { delta, usage } => if !st.started {
                out_of_order("message_delta before message_start"@)
            } else {
                Ok(
                    (
                        with_anthropic(
                            n,
                            AnthropicStateView {
                                stop_reason: if delta.stop_reason is Some {
                                    delta.stop_reason
                                } else {
                                    st.stop_reason
                                },
                                usage: Usage {
                                    output_tokens: usage.output_tokens,
                                    ..st.usage
                                },
                                ..st
                            },
                        ),
                        Seq::empty(),
                    ),
                )
            },
            AnthropicEventView::MessageStop => if !st.started {
                out_of_order("message_stop before message_start"@)
            } else {
                match lowest_open_block(st.blocks) {
                    Some(index) => out_of_order(
                        "message_stop with open content block "@ + dec(index as nat),
                    ),
                    None => match st.stop_reason {
                        None => damaged("message_stop without a prior stop_reason"@),
                        Some(reason) => match stop_finish(reason) {
                            None => damaged("unknown stop_reason "@ + debug_form(reason)),
                            Some(finish_reason) => Ok(
                                (
                                    NormalizerView { terminal: true, ..n },
                                    seq![
                                        NormalizedEventView::Usage(st.usage),
                                        NormalizedEventView::Finished { finish_reason },
                                    ],
                                ),
                            ),
                        },
                    },
                }
            },
            AnthropicEventView::Error { error } => match anthropic_error_kind(
                error.error_type,
                error.message,
            ) {
                None => damaged("unknown error type "@ + debug_form(error.error_type)),
                Some(error_kind) => Ok(
                    (
                        NormalizerView { terminal: true, ..n },
                        opened(st.started) + seq![
                            NormalizedEventView::ProviderError {
                                error_kind,
                                message: error.message,
                            },
                        ],
                    ),
                ),
            },
        }
    }
}

// --- Responses -----------------------------------------------------------------------------------

/// A normalizer with another response state.
pub open spec fn with_responses(n: NormalizerView, st: ResponsesStateView) -> NormalizerView {
    NormalizerView { responses: st, ..n }
}

/// The sequence number of an event.
pub open spec fn sequence_of(event: ResponsesEventView) -> u64 {
    match event {
        ResponsesEventView::Created { sequence_number, .. } => sequence_number,
        ResponsesEventView::OutputItemAdded { sequence_number, .. } => sequence_number,
        ResponsesEventView::OutputTextDelta { sequence_number, .. } => sequence_number,
        ResponsesEventView::FunctionCallArgumentsDelta { sequence_number, .. } => sequence_number,
        ResponsesEventView::OutputItemDone { sequence_number, .. } => sequence_number,
        ResponsesEventView::Completed { sequence_number, .. } => sequence_number,
        ResponsesEventView::Incomplete { sequence_number, .. } => sequence_number,
        ResponsesEventView::Failed { sequence_number, .. } => sequence_number,
    }
}

/// The accounting of a response, in kernel field names.
pub open spec fn usage_of(u: ResponsesUsageView) -> Usage {
    Usage {
        input_tokens: u.input_tokens,
        cached_input_tokens: u.input_tokens_details.cached_tokens,
        output_tokens: u.output_tokens,
        reasoning_tokens: u.output_tokens_details.reasoning_tokens,
    }
}

/// The accounting of a response, in kernel field names.
pub fn map_responses_usage(u: &ResponsesUsage) -> (r: Usage)
    ensures
        r == usage_of(u@),
{
    Usage {
        input_tokens: u.input_tokens,
        cached_input_tokens: u.input_tokens_details.cached_tokens,
        output_tokens: u.output_tokens,
        reasoning_tokens: u.output_tokens_details.reasoning_tokens,
    }
}

/// The class of a reported error.
pub open spec fn responses_error_kind(code: Seq<char>) -> Option<ProviderErrorKind> {
    if code == "rate_limit_exceeded"@ {
        Some(ProviderErrorKind::RateLimit)
    } else if code == "invalid_request"@ {
        Some(ProviderErrorKind::InvalidRequest)
    } else if code == "context_length_exceeded"@ {
        Some(ProviderErrorKind::ContextLengthExceeded)
    } else if code == "server_error"@ {
        Some(ProviderErrorKind::ServerError)
    } else if code == "unsupported_parameter"@ {
        Some(ProviderErrorKind::UnsupportedCapability)
    } else {
        None
    }
}

fn classify_responses_error(code: &str) -> (r: Option<ProviderErrorKind>)
    ensures
        r == responses_error_kind(code@),
{
    if same(code, "rate_limit_exceeded") {
        Some(ProviderErrorKind::RateLimit)
    } else if same(code, "invalid_request") {
        Some(ProviderErrorKind::InvalidRequest)
    } else if same(code, "context_length_exceeded") {
        Some(ProviderErrorKind::ContextLengthExceeded)
    } else if same(code, "server_error") {
        Some(ProviderErrorKind::ServerError)
    } else if same(code, "unsupported_parameter") {
        Some(ProviderErrorKind::UnsupportedCapability)
    } else {
        None
    }
}

/// The finish reason of an incomplete response.
pub open spec fn incomplete_finish(reason: Seq<char>) -> Option<FinishReason> {
    if reason == "max_output_tokens"@ {
        Some(FinishReason::Length)
    } else if reason == "content_filter"@ {
        Some(FinishReason::ContentFilter)
    } else {
        None
    }
}

fn incomplete_reason_finish(reason: &str) -> (r: Option<FinishReason>)
    ensures
        r == incomplete_finish(reason@),
{
    if same(reason, "max_output_tokens") {
        Some(FinishReason::Length)
    } else if same(reason, "content_filter") {
        Some(FinishReason::ContentFilter)
    } else {
        None
    }
}

/// What an added item does.
pub open spec fn item_added(n: NormalizerView, item: ResponsesItemView) -> Result<
    (NormalizerView, Seq<NormalizedEventView>),
    StreamDefectView,
> {
    let st = n.responses;
    if !st.created {
        out_of_order("output_item.added before response.created"@)
    } else {
        match item {
            ResponsesItemView::Message { id } => if lookup(st.items, id) is Some {
                out_of_order("item id "@ + id + " reused"@)
            } else {
                Ok(
                    (
                        with_responses(
                            n,
                            ResponsesStateView {
                                items: upsert(
                                    st.items,
                                    id,
                                    ItemView { kind: ItemKindView::Message, done: false },
                                ),
                                ..st
                            },
                        ),
                        Seq::empty(),
                    ),
                )
            },
            ResponsesItemView::FunctionCall { id, call_id, name, arguments } => if lookup(
                st.items,
                id,
            ) is Some {
                out_of_order("item id "@ + id + " reused"@)
            } else if call_taken(st.items, call_id) {
                out_of_order("call_id "@ + call_id + " reused"@)
            } else {
                Ok(
                    (
                        with_responses(
                            n,
                            ResponsesStateView {
                                saw_tool_item: true,
                                items: upsert(
                                    st.items,
                                    id,
                                    ItemView {
                                        kind: ItemKindView::Tool { call_id, buf: Seq::empty() },
                                        done: false,
                                    },
                                ),
                                ..st
                            },
                        ),
                        seq![
                            NormalizedEventView::ToolCallStart {
                                tool_call_id: call_id,
                                tool_name: name,
                            },
                        ],
                    ),
                )
            },
        }
    }
}

/// The arguments of a finished call: the done item's own text, the fragments, or the empty
/// object. `None` where the two disagree.
pub open spec fn final_arguments(arguments: Option<Seq<char>>, buf: Seq<char>) -> Option<
    Seq<char>,
> {
    match arguments {
        Some(args) => if buf.len() > 0 && args != buf {
            None
        } else {
            Some(args)
        },
        None => Some(arguments_of(buf)),
    }
}

/// What a finished item does.
pub open spec fn item_done(n: NormalizerView, item: ResponsesItemView) -> Result<
    (NormalizerView, Seq<NormalizedEventView>),
    StreamDefectView,
> {
    let st = n.responses;
    let id = match item {
        ResponsesItemView::Message { id } => id,
        ResponsesItemView::FunctionCall { id, .. } => id,
    };
    match lookup(st.items, id) {
        None => out_of_order("done for unknown item "@ + id),
        Some(entry) => if entry.done {
            out_of_order("second done for item "@ + id)
        } else {
            let closed = with_responses(
                n,
                ResponsesStateView {
                    items: upsert(st.items, id, ItemView { done: true, ..entry }),
                    ..st
                },
            );
            match (item, entry.kind) {
                (ResponsesItemView::Message { .. }, ItemKindView::Message) => Ok(
                    (closed, Seq::empty()),
                ),
                (ResponsesItemView::Message { .. }, ItemKindView::Tool { .. }) => damaged(
                    "message done for function_call item "@ + id,
                ),
                (ResponsesItemView::FunctionCall { .. }, ItemKindView::Message) => damaged(
                    "function_call done for message item "@ + id,
                ),
                (
                    ResponsesItemView::FunctionCall { arguments, .. },
                    ItemKindView::Tool { call_id, buf },
                ) => match final_arguments(arguments, buf) {
                    None => damaged(
                        "item "@ + id + " done arguments disagree with accumulated fragments"@,
                    ),
                    Some(args) => if json_parse(args) is Err {
                        damaged("tool call "@ + call_id + " closed with unparseable arguments"@)
                    } else {
                        Ok(
                            (
                                closed,
                                seq![
                                    NormalizedEventView::ToolCallComplete {
                                        tool_call_id: call_id,
                                        arguments_json: args,
                                    },
                                ],
                            ),
                        )
                    },
                },
            }
        },
    }
}

/// What an event of a response stream does after its sequence number was accepted.
pub open spec fn respond(n: NormalizerView, event: ResponsesEventView) -> Result<
    (NormalizerView, Seq<NormalizedEventView>),
    StreamDefectView,
> {
    let st = n.responses;
    match event {
        ResponsesEventView::Created { response, .. } => if st.created {
            out_of_order("second response.created"@)
        } else {
            Ok(
                (
                    with_responses(n, ResponsesStateView { created: true, ..st }),
                    seq![
                        NormalizedEventView::StreamStart {
                            served_model_id: response.model,
                            served_model_evidence: evidence_of(response.model),
                        },
                    ],
                ),
            )
        },
        ResponsesEventView::OutputItemAdded { item, .. } => item_added(n, item),
        ResponsesEventView::OutputTextDelta { item_id, delta, .. } => match lookup(
            st.items,
            item_id,
        ) {
            None => out_of_order("text delta for unknown item "@ + item_id),
            Some(item) => if item.done {
                out_of_order("text delta after item "@ + item_id + " done"@)
            } else {
                match item.kind {
                    ItemKindView::Message => Ok(
                        (n, seq![NormalizedEventView::TextDelta { text: delta }]),
                    ),
                    ItemKindView::Tool { .. } => damaged(
                        "text delta into function_call item "@ + item_id,
                    ),
                }
            },
        },
        ResponsesEventView::FunctionCallArgumentsDelta { item_id, delta, .. } => match lookup(
            st.items,
            item_id,
        ) {
            None => out_of_order("arguments delta for unknown item "@ + item_id),
            Some(item) => if item.done {
                out_of_order("arguments delta after item "@ + item_id + " done"@)
            } else {
                match item.kind {
                    ItemKindView::Tool { call_id, buf } => Ok(
                        (
                            with_responses(
                                n,
                                ResponsesStateView {
                                    items: upsert(
                                        st.items,
                                        item_id,
                                        ItemView {
                                            kind: ItemKindView::Tool { call_id, buf: buf + delta },
                                            done: false,
                                        },
                                    ),
                                    ..st
                                },
                            ),
                            seq![
                                NormalizedEventView::ToolCallArgumentsDelta {
                                    tool_call_id: call_id,
                                    fragment: delta,
                                },
                            ],
                        ),
                    ),
                    ItemKindView::Message => damaged(
                        "arguments delta into message item "@ + item_id,
                    ),
                }
            },
        },
        ResponsesEventView::OutputItemDone { item, .. } => item_done(n, item),
        ResponsesEventView::Completed { response, .. } => if !st.created {
            out_of_order("response.completed before response.created"@)
        } else if response.status != "completed"@ {
            damaged("response.completed with status "@ + debug_form(response.status))
        } else {
            match first_open_item(st.items) {
                Some(id) => out_of_order("response.completed with open item "@ + id),
                None => Ok(
                    (
                        NormalizerView { terminal: true, ..n },
                        seq![
                            NormalizedEventView::Usage(usage_of(response.usage)),
                            NormalizedEventView::Finished {
                                finish_reason: if st.saw_tool_item {
                                    FinishReason::ToolCall
                                } else {
                                    FinishReason::Stop
                                },
                            },
                        ],
                    ),
                ),
            }
        },
        ResponsesEventView::Incomplete { response, .. } => if !st.created {
            out_of_order("response.incomplete before response.created"@)
        } else {
            match response.incomplete_details {
                None => damaged("response.incomplete without incomplete_details"@),
                Some(details) => match incomplete_finish(details.reason) {
                    None => damaged("unknown incomplete reason "@ + debug_form(details.reason)),
                    Some(finish_reason) => Ok(
                        (
                            NormalizerView { terminal: true, ..n },
                            seq![
                                NormalizedEventView::Usage(usage_of(response.usage)),
                                NormalizedEventView::Finished { finish_reason },
                            ],
                        ),
                    ),
                },
            }
        },
        ResponsesEventView::Failed { response, .. } => match responses_error_kind(
            response.error.code,
        ) {
            None => damaged("unknown error code "@ + debug_form(response.error.code)),
            Some(error_kind) => Ok(
                (
                    NormalizerView { terminal: true, ..n },
                    opened(st.created) + seq![
                        NormalizedEventView::ProviderError {
                            error_kind,
                            message: response.error.message,
                        },
                    ],
                ),
            ),
        },
    }
}

/// Whether the number of an event passes: it is greater than the last one that passed.
pub open spec fn sequence_passes(n: NormalizerView, event: ResponsesEventView) -> bool {
    n.responses.last_seq is Some ==> n.responses.last_seq->0 < sequence_of(event)
}

/// The normalizer after the number of an event was looked at: one that passes is the number to
/// beat from then on, whatever becomes of the event.
pub open spec fn numbered_by(n: NormalizerView, event: ResponsesEventView) -> NormalizerView {
    if !n.terminal && sequence_passes(n, event) {
        with_responses(n, ResponsesStateView { last_seq: Some(sequence_of(event)), ..n.responses })
    } else {
        n
    }
}

/// What an event of a response stream does. Its sequence number must be greater than the last
/// one; gaps are tolerated, since a quarantined event takes a number too.
pub open spec fn step_responses(n: NormalizerView, event: ResponsesEventView) -> Result<
    (NormalizerView, Seq<NormalizedEventView>),
    StreamDefectView,
> {
    let seq = sequence_of(event);
    if n.terminal {
        out_of_order("event after terminal"@)
    } else if !sequence_passes(n, event) {
        out_of_order(
            "sequence_number "@ + dec(seq as nat) + " not greater than "@ + dec(
                n.responses.last_seq->0 as nat,
            ),
        )
    } else {
        respond(numbered_by(n, event), event)
    }
}

// --- Chunks --------------------------------------------------------------------------------------

/// What a step gives: the next state and the outcome. A defect poisons the stream as it stands
/// then.
pub open spec fn outcome_of(
    n: NormalizerView,
    step: Result<(NormalizerView, Seq<NormalizedEventView>), StreamDefectView>,
) -> (NormalizerView, StepOutcomeView) {
    match step {
        Ok((m, events)) => (m, StepOutcomeView::Events(events)),
        Err(d) => (NormalizerView { poisoned: Some(d), ..n }, StepOutcomeView::Defect(d)),
    }
}

/// What a chunk of an unknown type gives.
pub open spec fn quarantined(n: NormalizerView, event_type: Seq<char>) -> (
    NormalizerView,
    StepOutcomeView,
) {
    (
        NormalizerView { quarantined: (n.quarantined + 1) as u64, ..n },
        StepOutcomeView::Quarantined { event_type },
    )
}

/// What a chunk gives.
pub open spec fn fed(n: NormalizerView, chunk: Seq<char>) -> (NormalizerView, StepOutcomeView) {
    match n.poisoned {
        Some(d) => (n, StepOutcomeView::Defect(d)),
        None => match n.dialect {
            Dialect::AnthropicMessages => match anthropic_chunk(chunk) {
                WireParseView::Malformed(detail) => outcome_of(n, damaged(detail)),
                WireParseView::UnknownType(event_type) => quarantined(n, event_type),
                WireParseView::Event(e) => outcome_of(n, step_anthropic(n, e)),
            },
            Dialect::Responses => match responses_chunk(chunk) {
                WireParseView::Malformed(detail) => outcome_of(n, damaged(detail)),
                WireParseView::UnknownType(event_type) => quarantined(n, event_type),
                WireParseView::Event(e) => outcome_of(numbered_by(n, e), step_responses(n, e)),
            },
        },
    }
}

/// Whether a step did what it should.
pub open spec fn stepped(
    r: Result<Vec<NormalizedEvent>, StreamDefect>,
    before: NormalizerView,
    after: NormalizerView,
    step: Result<(NormalizerView, Seq<NormalizedEventView>), StreamDefectView>,
) -> bool {
    match r {
        Ok(events) => step == Ok::<
            (NormalizerView, Seq<NormalizedEventView>),
            StreamDefectView,
        >((after, event_views(events@))),
        Err(d) => after == before && step == Err::<
            (NormalizerView, Seq<NormalizedEventView>),
            StreamDefectView,
        >(d@),
    }
}

impl Normalizer {
    /// The normalizer of a stream that has not begun.
    pub fn new(dialect: Dialect) -> (r: Self)
        ensures
            r@ == fresh_normalizer(dialect),
    {
        Normalizer {
            dialect,
            poisoned: None,
            terminal: false,
            quarantined: 0,
            anthropic: AnthropicState {
                started: false,
                blocks: IdTable::new(),
                usage: Usage::default(),
                stop_reason: None,
            },
            responses: ResponsesState {
                created: false,
                last_seq: None,
                items: Table::new(),
                saw_tool_item: false,
            },
        }
    }

    /// Whether the stream has seen its one terminal event. A stream that ends without one is
    /// truncated: its outcome is unproven, not a success.
    pub fn is_terminal(&self) -> (r: bool)
        ensures
            r == self@.terminal,
    {
        self.terminal
    }

    /// How many chunks were quarantined.
    pub fn quarantined_count(&self) -> (r: u64)
        ensures
            r == self@.quarantined,
    {
        self.quarantined
    }

    /// Takes one chunk.
    pub fn feed(&mut self, chunk: &str) -> (r: StepOutcome)
        requires
            old(self)@.quarantined < u64::MAX,
        ensures
            (final(self)@, r@) == fed(old(self)@, chunk@),
    {
        if let Some(defect) = &self.poisoned {
            return StepOutcome::Defect(defect.clone());
        }
        let outcome = match self.dialect {
            Dialect::AnthropicMessages => match parse_anthropic(chunk) {
                WireParse::Malformed(detail) => Err(StreamDefect::Malformed { detail }),
                WireParse::UnknownType(event_type) => {
                    return self.quarantine(event_type);
                },
                WireParse::Event(event) => self.feed_anthropic(event),
            },
            Dialect::Responses => match parse_responses(chunk) {
                WireParse::Malformed(detail) => Err(StreamDefect::Malformed { detail }),
                WireParse::UnknownType(event_type) => {
                    return self.quarantine(event_type);
                },
                WireParse::Event(event) => self.feed_responses(event),
            },
        };
        match outcome {
            Ok(events) => StepOutcome::Events(events),
            Err(defect) => {
                self.poisoned = Some(defect.clone());
                StepOutcome::Defect(defect)
            },
        }
    }

    /// Surfaces and counts a chunk of an unknown type.
    pub fn quarantine(&mut self, event_type: String) -> (r: StepOutcome)
        requires
            old(self)@.quarantined < u64::MAX,
        ensures
            (final(self)@, r@) == quarantined(old(self)@, event_type@),
    {
        self.quarantined = self.quarantined + 1;
        StepOutcome::Quarantined { event_type }
    }

    /// Refuses an event after the terminal one.
    pub fn reject_after_terminal(&self) -> (r: Result<(), StreamDefect>)
        ensures
            match r {
                Ok(()) => !self@.terminal,
                Err(d) => self@.terminal && d@ == (StreamDefectView::OrderingViolation {
                    detail: "event after terminal"@,
                }),
            },
    {
        if self.terminal {
            return Err(
                StreamDefect::OrderingViolation { detail: "event after terminal".to_owned() },
            );
        }
        Ok(())
    }

    /// Takes one event of a message stream.
    pub fn feed_anthropic(&mut self, event: AnthropicEvent) -> (r: Result<
        Vec<NormalizedEvent>,
        StreamDefect,
    >)
        ensures
            stepped(r, old(self)@, final(self)@, step_anthropic(old(self)@, event@)),
    {
        if let Err(d) = self.reject_after_terminal() {
            return Err(d);
        }
        match event {
            AnthropicEvent::MessageStart { message } => {
                if self.anthropic.started {
                    return ordering("second message_start");
                }
                self.anthropic.started = true;
                self.anthropic.usage.input_tokens = message.usage.input_tokens;
                self.anthropic.usage.cached_input_tokens = message.usage.cache_read_input_tokens;
                let evidence = if message.model.is_some() {
                    ServedModelEvidence::ResponseField
                } else {
                    ServedModelEvidence::Absent
                };
                Ok(
                    one(
                        NormalizedEvent::StreamStart {
                            served_model_id: message.model,
                            served_model_evidence: evidence,
                        },
                    ),
                )
            },
            AnthropicEvent::ContentBlockStart { index, content_block } => {
                if !self.anthropic.started {
                    return ordering("content_block_start before message_start");
                }
                if self.anthropic.blocks.get(index as u64).is_some() {
                    return ordering(&numbered("content block index ", index as u64, " reused"));
                }
                match content_block {
                    AnthropicContentBlock::Text {  } => {
                        self.anthropic.blocks.set(
                            index as u64,
                            Block { kind: BlockKind::Text, stopped: false },
                        );
                        Ok(none())
                    },
                    AnthropicContentBlock::ToolUse { id, name } => {
                        self.anthropic.blocks.set(
                            index as u64,
                            Block {
                                kind: BlockKind::Tool { id: id.clone(), buf: String::new() },
                                stopped: false,
                            },
                        );
                        Ok(
                            one(
                                NormalizedEvent::ToolCallStart {
                                    tool_call_id: id,
                                    tool_name: name,
                                },
                            ),
                        )
                    },
                }
            },
            AnthropicEvent::ContentBlockDelta { index, delta } => self.block_delta(index, delta),
            AnthropicEvent::ContentBlockStop { index } => self.block_stop(index),
            AnthropicEvent::MessageDelta { delta, usage } => {
                if !self.anthropic.started {
                    return ordering("message_delta before message_start");
                }
                if let Some(reason) = delta.stop_reason {
                    self.anthropic.stop_reason = Some(reason);
                }
                self.anthropic.usage.output_tokens = usage.output_tokens;
                Ok(none())
            },
            AnthropicEvent::MessageStop {  } => {
                if !self.anthropic.started {
                    return ordering("message_stop before message_start");
                }
                if let Some(index) = find_open_block(&self.anthropic.blocks) {
                    return ordering(&counted("message_stop with open content block ", index));
                }
                let reason = match &self.anthropic.stop_reason {
                    None => {
                        return malformed("message_stop without a prior stop_reason");
                    },
                    Some(reason) => match stop_reason_finish(reason) {
                        Some(finish) => finish,
                        None => {
                            return malformed(
                                &labelled("unknown stop_reason ", &debug_text(reason)),
                            );
                        },
                    },
                };
                self.terminal = true;
                Ok(
                    two(
                        NormalizedEvent::Usage(self.anthropic.usage),
                        NormalizedEvent::Finished { finish_reason: reason },
                    ),
                )
            },
            AnthropicEvent::Error { error } => {
                match classify_anthropic_error(&error.error_type, &error.message) {
                    None => malformed(
                        &labelled("unknown error type ", &debug_text(&error.error_type)),
                    ),
                    Some(error_kind) => {
                        self.terminal = true;
                        Ok(failure(self.anthropic.started, error_kind, error.message))
                    },
                }
            },
        }
    }

    fn block_delta(&mut self, index: u32, delta: AnthropicDelta) -> (r: Result<
        Vec<NormalizedEvent>,
        StreamDefect,
    >)
        requires
            !old(self)@.terminal,
        ensures
            stepped(
                r,
                old(self)@,
                final(self)@,
                step_anthropic(
                    old(self)@,
                    AnthropicEventView::ContentBlockDelta { index, delta: delta@ },
                ),
            ),
    {
        let block = match self.anthropic.blocks.get(index as u64) {
            Some(block) => block,
            None => {
                return ordering(&counted("delta for unopened block ", index as u64));
            },
        };
        if block.stopped {
            return ordering(&counted("delta after content_block_stop for block ", index as u64));
        }
        match (&block.kind, delta) {
            (BlockKind::Text, AnthropicDelta::TextDelta { text }) => Ok(
                one(NormalizedEvent::TextDelta { text }),
            ),
            (BlockKind::Tool { id, buf }, AnthropicDelta::InputJsonDelta { partial_json }) => {
                let id = id.clone();
                let mut grown = buf.clone();
                grown.append(&partial_json);
                self.anthropic.blocks.set(
                    index as u64,
                    Block {
                        kind: BlockKind::Tool { id: id.clone(), buf: grown },
                        stopped: false,
                    },
                );
                Ok(
                    one(
                        NormalizedEvent::ToolCallArgumentsDelta {
                            tool_call_id: id,
                            fragment: partial_json,
                        },
                    ),
                )
            },
            _ => malformed(&numbered("delta kind does not match block ", index as u64, " kind")),
        }
    }

    fn block_stop(&mut self, index: u32) -> (r: Result<Vec<NormalizedEvent>, StreamDefect>)
        requires
            !old(self)@.terminal,
        ensures
            stepped(
                r,
                old(self)@,
                final(self)@,
                step_anthropic(old(self)@, AnthropicEventView::ContentBlockStop { index }),
            ),
    {
        let block = match self.anthropic.blocks.get(index as u64) {
            Some(block) => block,
            None => {
                return ordering(&counted("content_block_stop for unopened block ", index as u64));
            },
        };
        if block.stopped {
            return ordering(&counted("second content_block_stop for block ", index as u64));
        }
        match &block.kind {
            BlockKind::Text => {
                self.anthropic.blocks.set(index as u64, Block { kind: BlockKind::Text, stopped: true });
                Ok(none())
            },
            BlockKind::Tool { id, buf } => {
                let id = id.clone();
                let buf = buf.clone();
                let args = if buf.as_str().is_empty() {
                    "{}".to_owned()
                } else {
                    buf.clone()
                };
                if parse_json(&args).is_err() {
                    return malformed(
                        &called("tool call ", &id, " closed with unparseable arguments"),
                    );
                }
                self.anthropic.blocks.set(
                    index as u64,
                    Block { kind: BlockKind::Tool { id: id.clone(), buf }, stopped: true },
                );
                Ok(
                    one(
                        NormalizedEvent::ToolCallComplete {
                            tool_call_id: id,
                            arguments_json: args,
                        },
                    ),
                )
            },
        }
    }

    /// Checks that the sequence number of an event is greater than the last one that passed. A
    /// number that passes becomes the one to beat.
    pub fn check_sequence(&mut self, event: &ResponsesEvent) -> (r: Result<(), StreamDefect>)
        ensures
            ({
                let seq = sequence_of(event@);
                let last = old(self)@.responses.last_seq;
                match r {
                    Ok(()) => sequence_passes(old(self)@, event@) && final(self)@
                        == with_responses(
                        old(self)@,
                        ResponsesStateView { last_seq: Some(seq), ..old(self)@.responses },
                    ),
                    Err(d) => !sequence_passes(old(self)@, event@) && *final(self) == *old(self)
                        && d@ == (StreamDefectView::OrderingViolation {
                        detail: "sequence_number "@ + dec(seq as nat) + " not greater than "@ + dec(
                            last->0 as nat,
                        ),
                    }),
                }
            }),
    {
        let seq: u64 = match event {
            ResponsesEvent::Created { sequence_number, .. } => *sequence_number,
            ResponsesEvent::OutputItemAdded { sequence_number, .. } => *sequence_number,
            ResponsesEvent::OutputTextDelta { sequence_number, .. } => *sequence_number,
            ResponsesEvent::FunctionCallArgumentsDelta { sequence_number, .. } => *sequence_number,
            ResponsesEvent::OutputItemDone { sequence_number, .. } => *sequence_number,
            ResponsesEvent::Completed { sequence_number, .. } => *sequence_number,
            ResponsesEvent::Incomplete { sequence_number, .. } => *sequence_number,
            ResponsesEvent::Failed { sequence_number, .. } => *sequence_number,
        };
        if let Some(last) = self.responses.last_seq {
            if seq <= last {
                let mut detail = "sequence_number ".to_owned();
                detail.append(&decimal(seq));
                detail.append(" not greater than ");
                detail.append(&decimal(last));
                return Err(StreamDefect::OrderingViolation { detail });
            }
        }
        self.responses.last_seq = Some(seq);
        Ok(())
    }

    fn add_item(&mut self, item: ResponsesItem) -> (r: Result<Vec<NormalizedEvent>, StreamDefect>)
        ensures
            stepped(r, old(self)@, final(self)@, item_added(old(self)@, item@)),
    {
        if !self.responses.created {
            return ordering("output_item.added before response.created");
        }
        match item {
            ResponsesItem::Message { id } => {
                if self.responses.items.has(&id) {
                    return ordering(&called("item id ", &id, " reused"));
                }
                self.responses.items.set(&id, Item { kind: ItemKind::Message, done: false });
                Ok(none())
            },
            ResponsesItem::FunctionCall { id, call_id, name, arguments: _ } => {
                if self.responses.items.has(&id) {
                    return ordering(&called("item id ", &id, " reused"));
                }
                if is_call_taken(&self.responses.items, &call_id) {
                    return ordering(&called("call_id ", &call_id, " reused"));
                }
                self.responses.saw_tool_item = true;
                self.responses.items.set(
                    &id,
                    Item {
                        kind: ItemKind::Tool { call_id: call_id.clone(), buf: String::new() },
                        done: false,
                    },
                );
                Ok(
                    one(
                        NormalizedEvent::ToolCallStart { tool_call_id: call_id, tool_name: name },
                    ),
                )
            },
        }
    }

    fn finish_item(&mut self, item: ResponsesItem) -> (r: Result<
        Vec<NormalizedEvent>,
        StreamDefect,
    >)
        ensures
            stepped(r, old(self)@, final(self)@, item_done(old(self)@, item@)),
    {
        match item {
            ResponsesItem::Message { id } => {
                let entry = match self.responses.items.get(&id) {
                    Some(entry) => entry,
                    None => {
                        return ordering(&labelled("done for unknown item ", &id));
                    },
                };
                if entry.done {
                    return ordering(&labelled("second done for item ", &id));
                }
                match &entry.kind {
                    ItemKind::Message => {},
                    ItemKind::Tool { .. } => {
                        return malformed(&labelled("message done for function_call item ", &id));
                    },
                }
                self.responses.items.set(&id, Item { kind: ItemKind::Message, done: true });
                Ok(none())
            },
            ResponsesItem::FunctionCall { id, call_id: _, name: _, arguments } => {
                let entry = match self.responses.items.get(&id) {
                    Some(entry) => entry,
                    None => {
                        return ordering(&labelled("done for unknown item ", &id));
                    },
                };
                if entry.done {
                    return ordering(&labelled("second done for item ", &id));
                }
                let (call_id, buf) = match &entry.kind {
                    ItemKind::Tool { call_id, buf } => (call_id.clone(), buf.clone()),
                    ItemKind::Message => {
                        return malformed(&labelled("function_call done for message item ", &id));
                    },
                };
                let final_args = match arguments {
                    Some(args) => {
                        if !buf.as_str().is_empty() && !same(&args, &buf) {
                            return malformed(
                                &called(
                                    "item ",
                                    &id,
                                    " done arguments disagree with accumulated fragments",
                                ),
                            );
                        }
                        args
                    },
                    None => if buf.as_str().is_empty() {
                        "{}".to_owned()
                    } else {
                        buf.clone()
                    },
                };
                if parse_json(&final_args).is_err() {
                    return malformed(
                        &called("tool call ", &call_id, " closed with unparseable arguments"),
                    );
                }
                self.responses.items.set(
                    &id,
                    Item { kind: ItemKind::Tool { call_id: call_id.clone(), buf }, done: true },
                );
                Ok(
                    one(
                        NormalizedEvent::ToolCallComplete {
                            tool_call_id: call_id,
                            arguments_json: final_args,
                        },
                    ),
                )
            },
        }
    }

    fn respond(&mut self, event: ResponsesEvent) -> (r: Result<Vec<NormalizedEvent>, StreamDefect>)
        ensures
            stepped(r, old(self)@, final(self)@, respond(old(self)@, event@)),
    {
        match event {
            ResponsesEvent::Created { response, .. } => {
                if self.responses.created {
                    return ordering("second response.created");
                }
                self.responses.created = true;
                let evidence = if response.model.is_some() {
                    ServedModelEvidence::ResponseField
                } else {
                    ServedModelEvidence::Absent
                };
                Ok(
                    one(
                        NormalizedEvent::StreamStart {
                            served_model_id: response.model,
                            served_model_evidence: evidence,
                        },
                    ),
                )
            },
            ResponsesEvent::OutputItemAdded { item, .. } => self.add_item(item),
            ResponsesEvent::OutputTextDelta { item_id, delta, .. } => {
                let item = match self.responses.items.get(&item_id) {
                    Some(item) => item,
                    None => {
                        return ordering(&labelled("text delta for unknown item ", &item_id));
                    },
                };
                if item.done {
                    return ordering(&called("text delta after item ", &item_id, " done"));
                }
                match &item.kind {
                    ItemKind::Message => Ok(one(NormalizedEvent::TextDelta { text: delta })),
                    ItemKind::Tool { .. } => malformed(
                        &labelled("text delta into function_call item ", &item_id),
                    ),
                }
            },
            ResponsesEvent::FunctionCallArgumentsDelta { item_id, delta, .. } => {
                let item = match self.responses.items.get(&item_id) {
                    Some(item) => item,
                    None => {
                        return ordering(
                            &labelled("arguments delta for unknown item ", &item_id),
                        );
                    },
                };
                if item.done {
                    return ordering(&called("arguments delta after item ", &item_id, " done"));
                }
                let (call_id, buf) = match &item.kind {
                    ItemKind::Tool { call_id, buf } => (call_id.clone(), buf.clone()),
                    ItemKind::Message => {
                        return malformed(
                            &labelled("arguments delta into message item ", &item_id),
                        );
                    },
                };
                let mut grown = buf;
                grown.append(&delta);
                self.responses.items.set(
                    &item_id,
                    Item {
                        kind: ItemKind::Tool { call_id: call_id.clone(), buf: grown },
                        done: false,
                    },
                );
                Ok(
                    one(
                        NormalizedEvent::ToolCallArgumentsDelta {
                            tool_call_id: call_id,
                            fragment: delta,
                        },
                    ),
                )
            },
            ResponsesEvent::OutputItemDone { item, .. } => self.finish_item(item),
            ResponsesEvent::Completed { response, .. } => {
                if !self.responses.created {
                    return ordering("response.completed before response.created");
                }
                if !same(&response.status, "completed") {
                    return malformed(
                        &labelled("response.completed with status ", &debug_text(&response.status)),
                    );
                }
                if let Some(id) = find_open_item(&self.responses.items) {
                    return ordering(&labelled("response.completed with open item ", &id));
                }
                let reason = if self.responses.saw_tool_item {
                    FinishReason::ToolCall
                } else {
                    FinishReason::Stop
                };
                self.terminal = true;
                Ok(
                    two(
                        NormalizedEvent::Usage(map_responses_usage(&response.usage)),
                        NormalizedEvent::Finished { finish_reason: reason },
                    ),
                )
            },
            ResponsesEvent::Incomplete { response, .. } => {
                if !self.responses.created {
                    return ordering("response.incomplete before response.created");
                }
                let reason = match &response.incomplete_details {
                    None => {
                        return malformed("response.incomplete without incomplete_details");
                    },
                    Some(details) => match incomplete_reason_finish(&details.reason) {
                        Some(finish) => finish,
                        None => {
                            return malformed(
                                &labelled("unknown incomplete reason ", &debug_text(&details.reason)),
                            );
                        },
                    },
                };
                self.terminal = true;
                Ok(
                    two(
                        NormalizedEvent::Usage(map_responses_usage(&response.usage)),
                        NormalizedEvent::Finished { finish_reason: reason },
                    ),
                )
            },
            ResponsesEvent::Failed { response, .. } => {
                match classify_responses_error(&response.error.code) {
                    None => malformed(
                        &labelled("unknown error code ", &debug_text(&response.error.code)),
                    ),
                    Some(error_kind) => {
                        self.terminal = true;
                        Ok(failure(self.responses.created, error_kind, response.error.message))
                    },
                }
            },
        }
    }

    /// Takes one event of a response stream.
    pub fn feed_responses(&mut self, event: ResponsesEvent) -> (r: Result<
        Vec<NormalizedEvent>,
        StreamDefect,
    >)
        ensures
            stepped(
                r,
                numbered_by(old(self)@, event@),
                final(self)@,
                step_responses(old(self)@, event@),
            ),
    {
        if let Err(d) = self.reject_after_terminal() {
            return Err(d);
        }
        if let Err(d) = self.check_sequence(&event) {
            return Err(d);
        }
        self.respond(event)
    }
}

// --- Laws ----------------------------------------------------------------------------------------

/// Whether an event is a terminal one.
pub open spec fn is_last(e: NormalizedEventView) -> bool {
    e is Finished || e is ProviderError
}

/// Whether a step keeps the stream grammar: it is terminal after the step exactly when the last
/// event is a terminal one, and no other event is.
pub open spec fn grammatical(m: NormalizerView, events: Seq<NormalizedEventView>) -> bool {
    &&& m.terminal == (events.len() > 0 && is_last(events.last()))
    &&& forall|i: int| 0 <= i < events.len() - 1 ==> !is_last(#[trigger] events[i])
}

/// A stream has at most one terminal event, and nothing follows it: a step that emits one ends
/// the stream, and after it every further event is a grammar fault.
pub proof fn terminal_events_end_the_stream(
    n: NormalizerView,
    a: AnthropicEventView,
    e: ResponsesEventView,
)
    ensures
        step_anthropic(n, a) is Ok ==> grammatical(
            step_anthropic(n, a)->Ok_0.0,
            step_anthropic(n, a)->Ok_0.1,
        ),
        step_responses(n, e) is Ok ==> grammatical(
            step_responses(n, e)->Ok_0.0,
            step_responses(n, e)->Ok_0.1,
        ),
        n.terminal ==> step_anthropic(n, a) is Err && step_responses(n, e) is Err,
{
}

/// A poisoned stream answers every chunk with its defect and never changes again.
pub proof fn poison_sticks(n: NormalizerView, chunk: Seq<char>)
    requires
        n.poisoned is Some,
    ensures
        fed(n, chunk) == (n, StepOutcomeView::Defect(n.poisoned->0)),
{
}

/// A defect poisons the stream with itself.
pub proof fn defects_poison(n: NormalizerView, chunk: Seq<char>)
    requires
        fed(n, chunk).1 is Defect,
    ensures
        fed(n, chunk).0.poisoned == Some(fed(n, chunk).1->Defect_0),
{
}

/// A quarantined chunk leaves the stream as it was, but for the count.
pub proof fn quarantine_leaves_the_stream(n: NormalizerView, chunk: Seq<char>)
    requires
        fed(n, chunk).1 is Quarantined,
    ensures
        fed(n, chunk).0 == (NormalizerView {
            quarantined: (n.quarantined + 1) as u64,
            ..n
        }),
{
}

/// A number that passed does not pass again, whatever became of its event.
pub proof fn numbers_pass_once(
    n: NormalizerView,
    event: ResponsesEventView,
    again: ResponsesEventView,
)
    requires
        !n.terminal,
        sequence_passes(n, event),
        sequence_of(again) <= sequence_of(event),
    ensures
        !sequence_passes(numbered_by(n, event), again),
        step_responses(numbered_by(n, event), again) is Err,
{
}

/// Sequence numbers ascend strictly along a response stream.
pub proof fn sequence_numbers_ascend(n: NormalizerView, event: ResponsesEventView)
    requires
        step_responses(n, event) is Ok,
    ensures
        step_responses(n, event)->Ok_0.0.responses.last_seq == Some(sequence_of(event)),
        n.responses.last_seq is Some ==> n.responses.last_seq->0 < sequence_of(event),
{
}

/// The arguments of every completed tool call parse as JSON, in either dialect.
pub proof fn completed_arguments_parse(
    n: NormalizerView,
    a: AnthropicEventView,
    e: ResponsesEventView,
    i: int,
)
    ensures
        step_anthropic(n, a) is Ok && 0 <= i < step_anthropic(n, a)->Ok_0.1.len()
            && step_anthropic(n, a)->Ok_0.1[i] is ToolCallComplete ==> json_parse(
            step_anthropic(n, a)->Ok_0.1[i]->ToolCallComplete_arguments_json,
        ) is Ok,
        step_responses(n, e) is Ok && 0 <= i < step_responses(n, e)->Ok_0.1.len()
            && step_responses(n, e)->Ok_0.1[i] is ToolCallComplete ==> json_parse(
            step_responses(n, e)->Ok_0.1[i]->ToolCallComplete_arguments_json,
        ) is Ok,
{
}

/// A finished stream has begun and has no open block or item.
pub proof fn finished_streams_are_closed(
    n: NormalizerView,
    a: AnthropicEventView,
    e: ResponsesEventView,
)
    ensures
        a is MessageStop && step_anthropic(n, a) is Ok ==> n.anthropic.started
            && lowest_open_block(n.anthropic.blocks) is None,
        e is Completed && step_responses(n, e) is Ok ==> n.responses.created && first_open_item(
            n.responses.items,
        ) is None,
{
}

// --- Whole streams -------------------------------------------------------------------------------

/// A normalizer after some chunks, and every event that they gave, in order.
pub open spec fn stream_of(dialect: Dialect, chunks: Seq<Seq<char>>) -> (
    NormalizerView,
    Seq<NormalizedEventView>,
)
    decreases chunks.len(),
{
    if chunks.len() == 0 {
        (fresh_normalizer(dialect), Seq::empty())
    } else {
        let (n, events) = stream_of(dialect, chunks.drop_last());
        let (m, outcome) = fed(n, chunks.last());
        match outcome {
            StepOutcomeView::Events(more) => (m, events + more),
            _ => (m, events),
        }
    }
}

/// The grammar of a stream: `StreamStart` first and only there, and at most one terminal, which
/// is last.
pub open spec fn in_grammar(events: Seq<NormalizedEventView>) -> bool {
    &&& events.len() > 0 ==> events[0] is StreamStart
    &&& forall|i: int| 0 < i < events.len() ==> !(#[trigger] events[i] is StreamStart)
    &&& forall|i: int| 0 <= i < events.len() - 1 ==> !is_last(#[trigger] events[i])
}

spec fn begun(n: NormalizerView) -> bool {
    match n.dialect {
        Dialect::AnthropicMessages => n.anthropic.started,
        Dialect::Responses => n.responses.created,
    }
}

spec fn in_step(n: NormalizerView, events: Seq<NormalizedEventView>) -> bool {
    &&& in_grammar(events)
    &&& events.len() > 0 <==> begun(n) || n.terminal
    &&& n.terminal <==> events.len() > 0 && is_last(events.last())
    &&& !begun(n) ==> n.anthropic.blocks.len() == 0 && n.responses.items.len() == 0
}

spec fn goes_on(
    n: NormalizerView,
    m: NormalizerView,
    more: Seq<NormalizedEventView>,
) -> bool {
    &&& m.dialect == n.dialect
    &&& !n.terminal
    &&& grammatical(m, more)
    &&& begun(n) ==> begun(m) && forall|i: int|
        0 <= i < more.len() ==> !(#[trigger] more[i] is StreamStart)
    &&& !begun(n) ==> {
        &&& more.len() > 0
        &&& more[0] is StreamStart
        &&& forall|i: int| 0 < i < more.len() ==> !(#[trigger] more[i] is StreamStart)
        &&& begun(m) || m.terminal
        &&& !begun(m) ==> m.anthropic.blocks.len() == 0 && m.responses.items.len() == 0
    }
}

#[verifier::spinoff_prover]
proof fn anthropic_goes_on(n: NormalizerView, e: AnthropicEventView)
    requires
        n.dialect == Dialect::AnthropicMessages,
        !begun(n) ==> n.anthropic.blocks.len() == 0 && n.responses.items.len() == 0,
        step_anthropic(n, e) is Ok,
    ensures
        goes_on(n, step_anthropic(n, e)->Ok_0.0, step_anthropic(n, e)->Ok_0.1),
{
}

#[verifier::spinoff_prover]
proof fn responses_go_on(n: NormalizerView, e: ResponsesEventView)
    requires
        n.dialect == Dialect::Responses,
        !begun(n) ==> n.anthropic.blocks.len() == 0 && n.responses.items.len() == 0,
        step_responses(n, e) is Ok,
    ensures
        goes_on(n, step_responses(n, e)->Ok_0.0, step_responses(n, e)->Ok_0.1),
{
}

proof fn steps_join(
    n: NormalizerView,
    events: Seq<NormalizedEventView>,
    m: NormalizerView,
    more: Seq<NormalizedEventView>,
)
    requires
        in_step(n, events),
        goes_on(n, m, more),
    ensures
        in_step(m, events + more),
{
    let all = events + more;
    assert forall|i: int| 0 < i < all.len() implies !(#[trigger] all[i] is StreamStart) by {
        if i >= events.len() {
            assert(all[i] == more[i - events.len()]);
        } else {
            assert(all[i] == events[i]);
        }
    }
    assert forall|i: int| 0 <= i < all.len() - 1 implies !is_last(#[trigger] all[i]) by {
        if i >= events.len() {
            assert(all[i] == more[i - events.len()]);
        } else {
            assert(all[i] == events[i]);
            if i == events.len() - 1 {
                assert(!is_last(events.last()));
            }
        }
    }
    if events.len() > 0 {
        assert(all[0] == events[0]);
    } else if more.len() > 0 {
        assert(all[0] == more[0]);
    }
    if more.len() > 0 {
        assert(all.last() == more.last());
    } else {
        assert(all =~= events);
    }
}

proof fn streams_keep_step(dialect: Dialect, chunks: Seq<Seq<char>>)
    ensures
        in_step(stream_of(dialect, chunks).0, stream_of(dialect, chunks).1),
        stream_of(dialect, chunks).0.dialect == dialect,
    decreases chunks.len(),
{
    if chunks.len() > 0 {
        streams_keep_step(dialect, chunks.drop_last());
        let (n, events) = stream_of(dialect, chunks.drop_last());
        let chunk = chunks.last();
        let (m, outcome) = fed(n, chunk);
        if let StepOutcomeView::Events(more) = outcome {
            match dialect {
                Dialect::AnthropicMessages => {
                    if let WireParseView::Event(e) = anthropic_chunk(chunk) {
                        anthropic_goes_on(n, e);
                        steps_join(n, events, m, more);
                    }
                },
                Dialect::Responses => {
                    if let WireParseView::Event(e) = responses_chunk(chunk) {
                        responses_go_on(n, e);
                        steps_join(n, events, m, more);
                    }
                },
            }
        }
    }
}

/// Whatever chunks a stream is made of, its events keep the grammar; the stream is terminal
/// exactly when its last event is a terminal one; and after that a chunk of a known type is a
/// grammar fault, in a stream that no defect has poisoned.
pub proof fn streams_keep_the_grammar(
    dialect: Dialect,
    chunks: Seq<Seq<char>>,
    chunk: Seq<char>,
)
    ensures
        ({
            let (n, events) = stream_of(dialect, chunks);
            &&& in_grammar(events)
            &&& n.terminal <==> events.len() > 0 && is_last(events.last())
            &&& n.terminal && n.poisoned is None && (match dialect {
                Dialect::AnthropicMessages => anthropic_chunk(chunk) is Event,
                Dialect::Responses => responses_chunk(chunk) is Event,
            }) ==> fed(n, chunk).1 is Defect && fed(n, chunk).1->Defect_0 is OrderingViolation
        }),
{
    streams_keep_step(dialect, chunks);
}

} // verus!
