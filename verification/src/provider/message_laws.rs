//! What a message stream is answered with, told by what was heard of it: the events of its wire, in
//! order, and nothing of how they are kept.
use crate::error::ProviderErrorKind;
use crate::json::json_parse;
use crate::provider::dialect::{
    anthropic_chunk, AnthropicContentBlockView, AnthropicDeltaView, AnthropicEventView,
    AnthropicMessageStartView, WireParseView,
};
use crate::provider::normalize::{
    fed, lowest_open_block, step_anthropic, stream_of, BlockKindView, BlockView, NormalizerView,
    StepOutcomeView,
};
use crate::provider::{
    Dialect, FinishReason, NormalizedEventView, ServedModelEvidence, Usage,
};
use crate::table::{lookup, lookup_at, place, place_from_rule, read_after_write, unique, upsert};
use vstd::prelude::*;
use vstd::string::*;

verus! {

// --- What was heard ------------------------------------------------------------------------------

/// The events that were heard in some chunks, in order.
pub open spec fn heard(chunks: Seq<Seq<char>>) -> Seq<AnthropicEventView>
    decreases chunks.len(),
{
    if chunks.len() == 0 {
        Seq::empty()
    } else {
        match anthropic_chunk(chunks.last()) {
            WireParseView::Event(e) => heard(chunks.drop_last()).push(e),
            _ => heard(chunks.drop_last()),
        }
    }
}

/// The head of the message.
pub open spec fn head_of(w: Seq<AnthropicEventView>) -> Option<AnthropicMessageStartView>
    decreases w.len(),
{
    if w.len() == 0 {
        None
    } else {
        match w.last() {
            AnthropicEventView::MessageStart { message } => Some(message),
            _ => head_of(w.drop_last()),
        }
    }
}

/// The block that was opened at an index.
pub open spec fn block_of(w: Seq<AnthropicEventView>, at: u32) -> Option<AnthropicContentBlockView>
    decreases w.len(),
{
    if w.len() == 0 {
        None
    } else {
        match w.last() {
            AnthropicEventView::ContentBlockStart { index, content_block } => if index == at {
                Some(content_block)
            } else {
                block_of(w.drop_last(), at)
            },
            _ => block_of(w.drop_last(), at),
        }
    }
}

/// Whether the block at an index was closed.
pub open spec fn is_closed(w: Seq<AnthropicEventView>, at: u32) -> bool
    decreases w.len(),
{
    w.len() > 0 && (w.last() == (AnthropicEventView::ContentBlockStop { index: at }) || is_closed(
        w.drop_last(),
        at,
    ))
}

/// The pieces of argument text for a block, joined in the order in which they came.
pub open spec fn pieces_of(w: Seq<AnthropicEventView>, at: u32) -> Seq<char>
    decreases w.len(),
{
    if w.len() == 0 {
        Seq::empty()
    } else {
        match w.last() {
            AnthropicEventView::ContentBlockDelta {
                index,
                delta: AnthropicDeltaView::InputJsonDelta { partial_json },
            } => if index == at {
                pieces_of(w.drop_last(), at) + partial_json
            } else {
                pieces_of(w.drop_last(), at)
            },
            _ => pieces_of(w.drop_last(), at),
        }
    }
}

/// The output tokens that were reported last.
pub open spec fn output_of(w: Seq<AnthropicEventView>) -> u64
    decreases w.len(),
{
    if w.len() == 0 {
        0
    } else {
        match w.last() {
            AnthropicEventView::MessageDelta { usage, .. } => usage.output_tokens,
            _ => output_of(w.drop_last()),
        }
    }
}

/// The stop reason that was reported last.
pub open spec fn reason_of(w: Seq<AnthropicEventView>) -> Option<Seq<char>>
    decreases w.len(),
{
    if w.len() == 0 {
        None
    } else {
        match w.last() {
            AnthropicEventView::MessageDelta { delta, .. } => if delta.stop_reason is Some {
                delta.stop_reason
            } else {
                reason_of(w.drop_last())
            },
            _ => reason_of(w.drop_last()),
        }
    }
}

/// Whether the message ended, or an error was reported.
pub open spec fn is_over(w: Seq<AnthropicEventView>) -> bool
    decreases w.len(),
{
    w.len() > 0 && (w.last() is MessageStop || w.last() is Error || is_over(w.drop_last()))
}

// --- What is said --------------------------------------------------------------------------------

/// What a reason to stop means.
pub open spec fn means_finish(reason: Seq<char>, finish: FinishReason) -> bool {
    ||| reason == "end_turn"@ && finish == FinishReason::Stop
    ||| reason == "stop_sequence"@ && finish == FinishReason::Stop
    ||| reason == "max_tokens"@ && finish == FinishReason::Length
    ||| reason == "tool_use"@ && finish == FinishReason::ToolCall
    ||| reason == "refusal"@ && finish == FinishReason::ContentFilter
}

/// What a reported error means.
pub open spec fn means_error(kind: Seq<char>, message: Seq<char>, class: ProviderErrorKind) -> bool {
    ||| kind == "rate_limit_error"@ && class == ProviderErrorKind::RateLimit
    ||| kind == "overloaded_error"@ && class == ProviderErrorKind::ServerError
    ||| kind == "api_error"@ && class == ProviderErrorKind::ServerError
    ||| kind == "not_supported_error"@ && class == ProviderErrorKind::UnsupportedCapability
    ||| kind == "invalid_request_error"@ && "prompt is too long"@.is_prefix_of(message) && class
        == ProviderErrorKind::ContextLengthExceeded
    ||| kind == "invalid_request_error"@ && !"prompt is too long"@.is_prefix_of(message) && class
        == ProviderErrorKind::InvalidRequest
}

/// The arguments that the pieces of a call make: what they join to, or the empty object where there
/// is nothing.
pub open spec fn whole(pieces: Seq<char>) -> Seq<char> {
    if pieces.len() > 0 {
        pieces
    } else {
        "{}"@
    }
}

/// Whether an event may come where the grammar of the stream stands.
pub open spec fn is_timely(w: Seq<AnthropicEventView>, e: AnthropicEventView) -> bool {
    &&& !is_over(w)
    &&& match e {
        AnthropicEventView::MessageStart { .. } => head_of(w) is None,
        AnthropicEventView::ContentBlockStart { index, .. } => head_of(w) is Some && block_of(
            w,
            index,
        ) is None,
        AnthropicEventView::ContentBlockDelta { index, .. } => block_of(w, index) is Some
            && !is_closed(w, index),
        AnthropicEventView::ContentBlockStop { index } => block_of(w, index) is Some && !is_closed(
            w,
            index,
        ),
        AnthropicEventView::MessageDelta { .. } => head_of(w) is Some,
        AnthropicEventView::MessageStop => head_of(w) is Some && forall|i: u32| #[trigger]
            block_of(w, i) is Some ==> is_closed(w, i),
        AnthropicEventView::Error { .. } => true,
    }
}

/// Whether what an event carries is sound: a piece fits its block, the arguments of a call that
/// closes are JSON, and a reason to stop and a class of error are known ones.
pub open spec fn is_sound(w: Seq<AnthropicEventView>, e: AnthropicEventView) -> bool {
    match e {
        AnthropicEventView::ContentBlockDelta { index, delta } => block_of(w, index)->0 is ToolUse
            <==> delta is InputJsonDelta,
        AnthropicEventView::ContentBlockStop { index } => block_of(w, index)->0 is ToolUse
            ==> json_parse(whole(pieces_of(w, index))) is Ok,
        AnthropicEventView::MessageStop => reason_of(w) is Some && exists|x: FinishReason| #[trigger]
            means_finish(reason_of(w)->0, x),
        AnthropicEventView::Error { error } => exists|x: ProviderErrorKind| #[trigger]
            means_error(error.error_type, error.message, x),
        _ => true,
    }
}

/// Whether these are the events that an event is answered with.
pub open spec fn is_said(
    w: Seq<AnthropicEventView>,
    e: AnthropicEventView,
    said: Seq<NormalizedEventView>,
) -> bool {
    match e {
        AnthropicEventView::MessageStart { message } => said == seq![
            NormalizedEventView::StreamStart {
                served_model_id: message.model,
                served_model_evidence: if message.model is Some {
                    ServedModelEvidence::ResponseField
                } else {
                    ServedModelEvidence::Absent
                },
            },
        ],
        AnthropicEventView::ContentBlockStart { content_block, .. } => match content_block {
            AnthropicContentBlockView::Text => said.len() == 0,
            AnthropicContentBlockView::ToolUse { id, name } => said == seq![
                NormalizedEventView::ToolCallStart { tool_call_id: id, tool_name: name },
            ],
        },
        AnthropicEventView::ContentBlockDelta { index, delta } => match delta {
            AnthropicDeltaView::TextDelta { text } => said == seq![
                NormalizedEventView::TextDelta { text },
            ],
            AnthropicDeltaView::InputJsonDelta { partial_json } => said == seq![
                NormalizedEventView::ToolCallArgumentsDelta {
                    tool_call_id: block_of(w, index)->0->ToolUse_id,
                    fragment: partial_json,
                },
            ],
        },
        AnthropicEventView::ContentBlockStop { index } => if block_of(w, index)->0 is ToolUse {
            said == seq![
                NormalizedEventView::ToolCallComplete {
                    tool_call_id: block_of(w, index)->0->ToolUse_id,
                    arguments_json: whole(pieces_of(w, index)),
                },
            ]
        } else {
            said.len() == 0
        },
        AnthropicEventView::MessageDelta { .. } => said.len() == 0,
        AnthropicEventView::MessageStop => {
            &&& said.len() == 2
            &&& said[0] == NormalizedEventView::Usage(
                Usage {
                    input_tokens: head_of(w)->0.usage.input_tokens,
                    cached_input_tokens: head_of(w)->0.usage.cache_read_input_tokens,
                    output_tokens: output_of(w),
                    reasoning_tokens: 0,
                },
            )
            &&& said[1] is Finished
            &&& means_finish(reason_of(w)->0, said[1]->Finished_finish_reason)
        },
        AnthropicEventView::Error { error } => {
            &&& said.len() == if head_of(w) is Some {
                1int
            } else {
                2
            }
            &&& head_of(w) is None ==> said[0] == (NormalizedEventView::StreamStart {
                served_model_id: None,
                served_model_evidence: ServedModelEvidence::Absent,
            })
            &&& said.last() is ProviderError
            &&& said.last()->ProviderError_message == error.message
            &&& means_error(
                error.error_type,
                error.message,
                said.last()->ProviderError_error_kind,
            )
        },
    }
}

// --- Why -----------------------------------------------------------------------------------------

spec fn kept_block(w: Seq<AnthropicEventView>, at: u32) -> Option<BlockView> {
    match block_of(w, at) {
        None => None,
        Some(AnthropicContentBlockView::Text) => Some(
            BlockView { kind: BlockKindView::Text, stopped: is_closed(w, at) },
        ),
        Some(AnthropicContentBlockView::ToolUse { id, .. }) => Some(
            BlockView {
                kind: BlockKindView::Tool { id, buf: pieces_of(w, at) },
                stopped: is_closed(w, at),
            },
        ),
    }
}

spec fn keeps(n: NormalizerView, w: Seq<AnthropicEventView>) -> bool {
    let st = n.anthropic;
    &&& n.dialect == Dialect::AnthropicMessages
    &&& n.terminal == is_over(w)
    &&& st.started == (head_of(w) is Some)
    &&& unique(st.blocks)
    &&& forall|k: int| 0 <= k < st.blocks.len() ==> (#[trigger] st.blocks[k]).0 <= u32::MAX
    &&& forall|i: u32| lookup(st.blocks, i as u64) == #[trigger] kept_block(w, i)
    &&& forall|i: u32| #[trigger]
        block_of(w, i) is None ==> pieces_of(w, i) == Seq::<char>::empty() && !is_closed(w, i)
    &&& st.usage == (Usage {
        input_tokens: if head_of(w) is Some {
            head_of(w)->0.usage.input_tokens
        } else {
            0
        },
        cached_input_tokens: if head_of(w) is Some {
            head_of(w)->0.usage.cache_read_input_tokens
        } else {
            0
        },
        output_tokens: output_of(w),
        reasoning_tokens: 0,
    })
    &&& st.stop_reason == reason_of(w)
}

proof fn open_blocks_show(blocks: Seq<(u64, BlockView)>)
    ensures
        lowest_open_block(blocks) is None <==> forall|k: int|
            0 <= k < blocks.len() ==> (#[trigger] blocks[k]).1.stopped,
    decreases blocks.len(),
{
    if blocks.len() > 0 {
        let front = blocks.drop_last();
        open_blocks_show(front);
        assert(blocks[blocks.len() - 1] == blocks.last());
        if forall|k: int| 0 <= k < blocks.len() ==> (#[trigger] blocks[k]).1.stopped {
            assert forall|k: int| 0 <= k < front.len() implies (#[trigger] front[k]).1.stopped by {
                assert(front[k] == blocks[k]);
            }
        }
        if lowest_open_block(blocks) is None {
            assert forall|k: int| 0 <= k < blocks.len() implies (#[trigger] blocks[k]).1.stopped by {
                if k < front.len() {
                    assert(front[k] == blocks[k]);
                }
            }
        }
    }
}

proof fn closed_blocks_show(n: NormalizerView, w: Seq<AnthropicEventView>)
    requires
        keeps(n, w),
    ensures
        lowest_open_block(n.anthropic.blocks) is None <==> forall|i: u32| #[trigger]
            block_of(w, i) is Some ==> is_closed(w, i),
{
    let blocks = n.anthropic.blocks;
    open_blocks_show(blocks);
    if forall|k: int| 0 <= k < blocks.len() ==> (#[trigger] blocks[k]).1.stopped {
        assert forall|i: u32| #[trigger] block_of(w, i) is Some implies is_closed(w, i) by {
            assert(lookup(blocks, i as u64) == kept_block(w, i));
            place_from_rule(blocks, i as u64, 0);
            assert(blocks[place(blocks, i as u64)].1.stopped);
        }
    }
    if forall|i: u32| #[trigger] block_of(w, i) is Some ==> is_closed(w, i) {
        assert forall|k: int| 0 <= k < blocks.len() implies (#[trigger] blocks[k]).1.stopped by {
            lookup_at(blocks, k);
            let i = blocks[k].0 as u32;
            assert(lookup(blocks, i as u64) == kept_block(w, i));
            assert(block_of(w, i) is Some);
        }
    }
}

proof fn block_is_kept(
    n: NormalizerView,
    w: Seq<AnthropicEventView>,
    e: AnthropicEventView,
    at: u32,
    row: BlockView,
)
    requires
        keeps(n, w),
        kept_block(w.push(e), at) == Some(row),
        forall|i: u32| i != at ==> #[trigger] kept_block(w.push(e), i) == kept_block(w, i),
    ensures
        forall|i: u32|
            lookup(upsert(n.anthropic.blocks, at as u64, row), i as u64) == #[trigger] kept_block(
                w.push(e),
                i,
            ),
        unique(upsert(n.anthropic.blocks, at as u64, row)),
        forall|k: int|
            0 <= k < upsert(n.anthropic.blocks, at as u64, row).len() ==> (#[trigger] upsert(
                n.anthropic.blocks,
                at as u64,
                row,
            )[k]).0 <= u32::MAX,
{
    let blocks = n.anthropic.blocks;
    assert forall|i: u32|
        lookup(upsert(blocks, at as u64, row), i as u64) == #[trigger] kept_block(w.push(e), i) by {
        read_after_write(blocks, at as u64, row, i as u64);
        assert(lookup(blocks, i as u64) == kept_block(w, i));
    }
    read_after_write(blocks, at as u64, row, at as u64);
    place_from_rule(blocks, at as u64, 0);
    let new = upsert(blocks, at as u64, row);
    assert forall|k: int| 0 <= k < new.len() implies (#[trigger] new[k]).0 <= u32::MAX by {
        if k < blocks.len() && k != place(blocks, at as u64) {
            assert(new[k] == blocks[k]);
        }
    }
}

#[verifier::spinoff_prover]
#[verifier::rlimit(60)]
proof fn steps_are_heard(n: NormalizerView, w: Seq<AnthropicEventView>, e: AnthropicEventView)
    requires
        keeps(n, w),
    ensures
        step_anthropic(n, e) is Ok <==> is_timely(w, e) && is_sound(w, e),
        step_anthropic(n, e) is Ok ==> is_said(w, e, step_anthropic(n, e)->Ok_0.1) && keeps(
            step_anthropic(n, e)->Ok_0.0,
            w.push(e),
        ),
        step_anthropic(n, e) is Err ==> (step_anthropic(n, e)->Err_0 is OrderingViolation
            <==> !is_timely(w, e)),
{
    let v = w.push(e);
    assert(v.drop_last() =~= w);
    assert(v.last() == e);
    let blocks = n.anthropic.blocks;
    let m = step_anthropic(n, e)->Ok_0.0;
    match e {
        AnthropicEventView::MessageStart { message } => {
            assert forall|i: u32| #[trigger] kept_block(v, i) == kept_block(w, i) by {}
            assert forall|i: u32| #[trigger] block_of(v, i) is None implies pieces_of(v, i)
                == Seq::<char>::empty() && !is_closed(v, i) by {
                assert(block_of(w, i) is None);
            }
            if step_anthropic(n, e) is Ok {
                assert(head_of(v) == Some(message));
                assert(output_of(v) == output_of(w));
                assert(is_said(w, e, step_anthropic(n, e)->Ok_0.1));
                assert(m.anthropic.usage.output_tokens == output_of(v));
                assert(keeps(m, v));
            }
        },
        AnthropicEventView::ContentBlockStart { index, content_block } => {
            assert(lookup(blocks, index as u64) == kept_block(w, index));
            assert(block_of(w, index) is None ==> pieces_of(w, index) == Seq::<char>::empty());
            if step_anthropic(n, e) is Ok {
                block_is_kept(n, w, e, index, kept_block(v, index)->0);
            }
            if step_anthropic(n, e) is Ok {
                assert(is_said(w, e, step_anthropic(n, e)->Ok_0.1));
                assert forall|i: u32| #[trigger] block_of(v, i) is None implies pieces_of(v, i)
                    == Seq::<char>::empty() && !is_closed(v, i) by {
                    assert(block_of(w, i) is None);
                    assert(is_closed(v, i) == is_closed(w, i));
                }
                assert(keeps(m, v));
            }
        },
        AnthropicEventView::ContentBlockDelta { index, delta } => {
            assert(lookup(blocks, index as u64) == kept_block(w, index));
            if step_anthropic(n, e) is Ok {
                if delta is InputJsonDelta {
                    block_is_kept(n, w, e, index, kept_block(v, index)->0);
                } else {
                    assert forall|i: u32| #[trigger] kept_block(v, i) == kept_block(w, i) by {}
                }
            }
            if step_anthropic(n, e) is Ok {
                assert(is_said(w, e, step_anthropic(n, e)->Ok_0.1));
                assert forall|i: u32| #[trigger] block_of(v, i) is None implies pieces_of(v, i)
                    == Seq::<char>::empty() && !is_closed(v, i) by {
                    assert(block_of(w, i) is None);
                    assert(is_closed(v, i) == is_closed(w, i));
                }
                assert(keeps(m, v));
            }
        },
        AnthropicEventView::ContentBlockStop { index } => {
            assert(lookup(blocks, index as u64) == kept_block(w, index));
            if step_anthropic(n, e) is Ok {
                assert forall|i: u32| i != index implies is_closed(v, i) == #[trigger] is_closed(
                    w,
                    i,
                ) by {}
                assert forall|i: u32| i != index implies #[trigger] kept_block(v, i) == kept_block(
                    w,
                    i,
                ) by {
                    assert(is_closed(v, i) == is_closed(w, i));
                }
                block_is_kept(n, w, e, index, kept_block(v, index)->0);
            }
            if step_anthropic(n, e) is Ok {
                assert(is_said(w, e, step_anthropic(n, e)->Ok_0.1));
                assert forall|i: u32| #[trigger] block_of(v, i) is None implies pieces_of(v, i)
                    == Seq::<char>::empty() && !is_closed(v, i) by {
                    assert(block_of(w, i) is None);
                    assert(is_closed(v, i) == is_closed(w, i));
                }
                assert(keeps(m, v));
            }
        },
        AnthropicEventView::MessageDelta { delta, usage } => {
            assert forall|i: u32| #[trigger] kept_block(v, i) == kept_block(w, i) by {}
            if step_anthropic(n, e) is Ok {
                assert(is_said(w, e, step_anthropic(n, e)->Ok_0.1));
                assert forall|i: u32| #[trigger] block_of(v, i) is None implies pieces_of(v, i)
                    == Seq::<char>::empty() && !is_closed(v, i) by {
                    assert(block_of(w, i) is None);
                    assert(is_closed(v, i) == is_closed(w, i));
                }
                assert(keeps(m, v));
            }
        },
        AnthropicEventView::MessageStop => {
            closed_blocks_show(n, w);
            assert forall|i: u32| #[trigger] kept_block(v, i) == kept_block(w, i) by {}
            assert forall|r: Seq<char>, x: FinishReason| #[trigger] means_finish(r, x) implies
                crate::provider::normalize::stop_finish(r) == Some(x) by {
                stop_words_differ();
            }
            if n.anthropic.stop_reason is Some {
                let r = n.anthropic.stop_reason->0;
                let f = crate::provider::normalize::stop_finish(r);
                assert(f is Some ==> means_finish(r, f->0));
            }
            if step_anthropic(n, e) is Ok {
                assert(is_said(w, e, step_anthropic(n, e)->Ok_0.1));
                assert forall|i: u32| #[trigger] block_of(v, i) is None implies pieces_of(v, i)
                    == Seq::<char>::empty() && !is_closed(v, i) by {
                    assert(block_of(w, i) is None);
                    assert(is_closed(v, i) == is_closed(w, i));
                }
                assert(keeps(m, v));
            }
        },
        AnthropicEventView::Error { error } => {
            assert forall|i: u32| #[trigger] kept_block(v, i) == kept_block(w, i) by {}
            let k = crate::provider::normalize::anthropic_error_kind(
                error.error_type,
                error.message,
            );
            assert(k is Some ==> means_error(error.error_type, error.message, k->0));
            assert forall|x: ProviderErrorKind| #[trigger]
                means_error(error.error_type, error.message, x) implies k == Some(x) by {
                error_words_differ();
            }
            if step_anthropic(n, e) is Ok {
                assert(is_said(w, e, step_anthropic(n, e)->Ok_0.1));
                assert forall|i: u32| #[trigger] block_of(v, i) is None implies pieces_of(v, i)
                    == Seq::<char>::empty() && !is_closed(v, i) by {
                    assert(block_of(w, i) is None);
                    assert(is_closed(v, i) == is_closed(w, i));
                }
                assert(keeps(m, v));
            }
        },
    }
}

proof fn stop_words_differ()
    ensures
        "end_turn"@.len() == 8,
        "stop_sequence"@.len() == 13,
        "max_tokens"@.len() == 10,
        "tool_use"@.len() == 8,
        "tool_use"@[0] != "end_turn"@[0],
        "refusal"@.len() == 7,
{
    reveal_strlit("end_turn");
    reveal_strlit("stop_sequence");
    reveal_strlit("max_tokens");
    reveal_strlit("tool_use");
    reveal_strlit("refusal");
}

proof fn error_words_differ()
    ensures
        "rate_limit_error"@.len() == 16,
        "overloaded_error"@.len() == 16,
        "rate_limit_error"@[0] != "overloaded_error"@[0],
        "api_error"@.len() == 9,
        "not_supported_error"@.len() == 19,
        "invalid_request_error"@.len() == 21,
{
    reveal_strlit("rate_limit_error");
    reveal_strlit("overloaded_error");
    reveal_strlit("api_error");
    reveal_strlit("not_supported_error");
    reveal_strlit("invalid_request_error");
}

proof fn streams_are_kept(chunks: Seq<Seq<char>>)
    requires
        stream_of(Dialect::AnthropicMessages, chunks).0.poisoned is None,
    ensures
        keeps(stream_of(Dialect::AnthropicMessages, chunks).0, heard(chunks)),
    decreases chunks.len(),
{
    if chunks.len() > 0 {
        let (n, events) = stream_of(Dialect::AnthropicMessages, chunks.drop_last());
        let chunk = chunks.last();
        assert(n.poisoned is None);
        streams_are_kept(chunks.drop_last());
        let w = heard(chunks.drop_last());
        match anthropic_chunk(chunk) {
            WireParseView::Event(e) => {
                steps_are_heard(n, w, e);
            },
            _ => {},
        }
    } else {
        let w = heard(chunks);
        assert forall|i: u32| #[trigger] kept_block(w, i) is None by {}
    }
}

/// What the next event of a message stream is answered with, told by the events heard before it:
/// it is accepted exactly where the grammar of the stream has a place for it and what it carries is
/// sound, and then answered with just these events. So the text of a delta is handed on as it
/// is, a call completes with the pieces of its block joined in order, the accounting is that of the
/// head of the message and of the last delta, and the stream finishes by the last reason to stop.
pub proof fn messages_are_answered(chunks: Seq<Seq<char>>, chunk: Seq<char>)
    requires
        stream_of(Dialect::AnthropicMessages, chunks).0.poisoned is None,
        anthropic_chunk(chunk) is Event,
    ensures
        ({
            let w = heard(chunks);
            let e = anthropic_chunk(chunk)->Event_0;
            let outcome = fed(stream_of(Dialect::AnthropicMessages, chunks).0, chunk).1;
            &&& outcome is Events <==> is_timely(w, e) && is_sound(w, e)
            &&& outcome is Events ==> is_said(w, e, outcome->Events_0)
            &&& outcome is Events || outcome is Defect
            &&& outcome is Defect ==> (outcome->Defect_0 is OrderingViolation <==> !is_timely(w, e))
        }),
{
    streams_are_kept(chunks);
    steps_are_heard(
        stream_of(Dialect::AnthropicMessages, chunks).0,
        heard(chunks),
        anthropic_chunk(chunk)->Event_0,
    );
}

/// A chunk that is no event of a message stream: of an unknown type it is set aside, counted and
/// changes nothing else; any other is damage.
pub proof fn other_chunks_are_no_events(chunks: Seq<Seq<char>>, chunk: Seq<char>)
    requires
        stream_of(Dialect::AnthropicMessages, chunks).0.poisoned is None,
        !(anthropic_chunk(chunk) is Event),
    ensures
        ({
            let n = stream_of(Dialect::AnthropicMessages, chunks).0;
            let (m, outcome) = fed(n, chunk);
            &&& anthropic_chunk(chunk) is UnknownType ==> outcome == (StepOutcomeView::Quarantined {
                event_type: anthropic_chunk(chunk)->UnknownType_0,
            }) && m == (NormalizerView { quarantined: (n.quarantined + 1) as u64, ..n })
            &&& anthropic_chunk(chunk) is Malformed ==> outcome is Defect && outcome->Defect_0
                is Malformed && m.poisoned is Some
        }),
{
    streams_are_kept(chunks);
}

} // verus!
