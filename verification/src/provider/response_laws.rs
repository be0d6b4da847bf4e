//! What a response stream is answered with, told by what was heard of it: the events of its wire,
//! in order, and nothing of how they are kept.
use crate::error::ProviderErrorKind;
use crate::json::json_parse;
use crate::provider::dialect::{
    responses_chunk, ResponsesEventView, ResponsesItemView, ResponsesResponseHeadView,
    WireParseView,
};
use crate::provider::message_laws::whole;
use crate::provider::normalize::{
    call_taken, fed, first_open_item, step_responses, stream_of, ItemKindView, ItemView,
    NormalizerView, StepOutcomeView,
};
use crate::provider::{Dialect, FinishReason, NormalizedEventView, ServedModelEvidence, Usage};
use crate::table::{lookup, lookup_at, place, place_from_rule, read_after_write, unique, upsert};
use vstd::prelude::*;
use vstd::string::*;

verus! {

// --- What was heard ------------------------------------------------------------------------------

/// The events that were heard in some chunks, in order.
pub open spec fn heard(chunks: Seq<Seq<char>>) -> Seq<ResponsesEventView>
    decreases chunks.len(),
{
    if chunks.len() == 0 {
        Seq::empty()
    } else {
        match responses_chunk(chunks.last()) {
            WireParseView::Event(e) => heard(chunks.drop_last()).push(e),
            _ => heard(chunks.drop_last()),
        }
    }
}

/// The number of an event.
pub open spec fn number_of(e: ResponsesEventView) -> u64 {
    match e {
        ResponsesEventView::Created { sequence_number, .. } => sequence_number,
        ResponsesEventView::OutputItemAdded { sequence_number, .. } => sequence_number,
        ResponsesEventView::OutputTextDelta { sequence_number, .. } => sequence_number,
        ResponsesEventView::FunctionCallArgumentsDelta { sequence_number, .. } => sequence_number,
        ResponsesEventView::OutputItemDone { sequence_number, .. } => sequence_number,
        ResponsesEventView::Completed { sequence_number, .. } => sequence_number,
        ResponsesEventView::Incomplete { sequence_number, .. } => sequence_number,
        ResponsesEventView::Failed { sequence_number, .. } => sequence_number,
    }
}

/// The id of an item.
pub open spec fn id_of(item: ResponsesItemView) -> Seq<char> {
    match item {
        ResponsesItemView::Message { id } => id,
        ResponsesItemView::FunctionCall { id, .. } => id,
    }
}

/// The head of the response.
pub open spec fn head_of(w: Seq<ResponsesEventView>) -> Option<ResponsesResponseHeadView>
    decreases w.len(),
{
    if w.len() == 0 {
        None
    } else {
        match w.last() {
            ResponsesEventView::Created { response, .. } => Some(response),
            _ => head_of(w.drop_last()),
        }
    }
}

/// The item that was added under an id.
pub open spec fn item_of(w: Seq<ResponsesEventView>, id: Seq<char>) -> Option<ResponsesItemView>
    decreases w.len(),
{
    if w.len() == 0 {
        None
    } else {
        match w.last() {
            ResponsesEventView::OutputItemAdded { item, .. } => if id_of(item) == id {
                Some(item)
            } else {
                item_of(w.drop_last(), id)
            },
            _ => item_of(w.drop_last(), id),
        }
    }
}

/// Whether the item under an id was reported as done.
pub open spec fn is_done(w: Seq<ResponsesEventView>, id: Seq<char>) -> bool
    decreases w.len(),
{
    w.len() > 0 && (match w.last() {
        ResponsesEventView::OutputItemDone { item, .. } => id_of(item) == id,
        _ => false,
    } || is_done(w.drop_last(), id))
}

/// The pieces of argument text for an item, joined in the order in which they came.
pub open spec fn pieces_of(w: Seq<ResponsesEventView>, id: Seq<char>) -> Seq<char>
    decreases w.len(),
{
    if w.len() == 0 {
        Seq::empty()
    } else {
        match w.last() {
            ResponsesEventView::FunctionCallArgumentsDelta { item_id, delta, .. } => if item_id
                == id {
                pieces_of(w.drop_last(), id) + delta
            } else {
                pieces_of(w.drop_last(), id)
            },
            _ => pieces_of(w.drop_last(), id),
        }
    }
}

/// Whether a tool call was added under an id.
pub open spec fn is_call(w: Seq<ResponsesEventView>, id: Seq<char>) -> bool {
    item_of(w, id) is Some && item_of(w, id)->0 is FunctionCall
}

/// Whether the response ended or failed.
pub open spec fn is_over(w: Seq<ResponsesEventView>) -> bool
    decreases w.len(),
{
    w.len() > 0 && (w.last() is Completed || w.last() is Incomplete || w.last() is Failed
        || is_over(w.drop_last()))
}

// --- What is said --------------------------------------------------------------------------------

/// What it means that a response is incomplete for a reason.
pub open spec fn means_finish(reason: Seq<char>, finish: FinishReason) -> bool {
    ||| reason == "max_output_tokens"@ && finish == FinishReason::Length
    ||| reason == "content_filter"@ && finish == FinishReason::ContentFilter
}

/// What a reported error means.
pub open spec fn means_error(code: Seq<char>, class: ProviderErrorKind) -> bool {
    ||| code == "rate_limit_exceeded"@ && class == ProviderErrorKind::RateLimit
    ||| code == "invalid_request"@ && class == ProviderErrorKind::InvalidRequest
    ||| code == "context_length_exceeded"@ && class == ProviderErrorKind::ContextLengthExceeded
    ||| code == "server_error"@ && class == ProviderErrorKind::ServerError
    ||| code == "unsupported_parameter"@ && class == ProviderErrorKind::UnsupportedCapability
}

/// The arguments of a call that is done: the text that the done item gives, or else what the pieces
/// join to.
pub open spec fn arguments_at_end(given: Option<Seq<char>>, pieces: Seq<char>) -> Seq<char> {
    match given {
        Some(text) => text,
        None => whole(pieces),
    }
}

/// Whether an event may come where the grammar of the stream stands. A completed response whose
/// status says otherwise is damage, whatever is open.
pub open spec fn is_timely(w: Seq<ResponsesEventView>, e: ResponsesEventView) -> bool {
    &&& !is_over(w)
    &&& w.len() > 0 ==> number_of(w.last()) < number_of(e)
    &&& match e {
        ResponsesEventView::Created { .. } => head_of(w) is None,
        ResponsesEventView::OutputItemAdded { item, .. } => {
            &&& head_of(w) is Some
            &&& item_of(w, id_of(item)) is None
            &&& item is FunctionCall ==> forall|id: Seq<char>| #[trigger]
                is_call(w, id) ==> item_of(w, id)->0->FunctionCall_call_id
                    != item->FunctionCall_call_id
        },
        ResponsesEventView::OutputTextDelta { item_id, .. } => item_of(w, item_id) is Some
            && !is_done(w, item_id),
        ResponsesEventView::FunctionCallArgumentsDelta { item_id, .. } => item_of(w, item_id)
            is Some && !is_done(w, item_id),
        ResponsesEventView::OutputItemDone { item, .. } => item_of(w, id_of(item)) is Some
            && !is_done(w, id_of(item)),
        ResponsesEventView::Completed { response, .. } => head_of(w) is Some && (response.status
            == "completed"@ ==> forall|id: Seq<char>| #[trigger]
            item_of(w, id) is Some ==> is_done(w, id)),
        ResponsesEventView::Incomplete { .. } => head_of(w) is Some,
        ResponsesEventView::Failed { .. } => true,
    }
}

/// Whether what an event carries is sound: a piece and the end of an item fit the item, the
/// arguments of a call that ends are JSON and those that the pieces made, and a status, a reason and
/// a code are known ones.
pub open spec fn is_sound(w: Seq<ResponsesEventView>, e: ResponsesEventView) -> bool {
    match e {
        ResponsesEventView::OutputTextDelta { item_id, .. } => item_of(w, item_id)->0 is Message,
        ResponsesEventView::FunctionCallArgumentsDelta { item_id, .. } => item_of(w, item_id)->0
            is FunctionCall,
        ResponsesEventView::OutputItemDone { item, .. } => {
            let pieces = pieces_of(w, id_of(item));
            let given = item->FunctionCall_arguments;
            &&& item is FunctionCall <==> item_of(w, id_of(item))->0 is FunctionCall
            &&& item is FunctionCall ==> {
                &&& given is Some && pieces.len() > 0 ==> given->0 == pieces
                &&& json_parse(arguments_at_end(given, pieces)) is Ok
            }
        },
        ResponsesEventView::Completed { response, .. } => response.status == "completed"@,
        ResponsesEventView::Incomplete { response, .. } => response.incomplete_details is Some
            && exists|x: FinishReason| #[trigger]
            means_finish(response.incomplete_details->0.reason, x),
        ResponsesEventView::Failed { response, .. } => exists|x: ProviderErrorKind| #[trigger]
            means_error(response.error.code, x),
        _ => true,
    }
}

/// Whether these are the events that an event is answered with.
pub open spec fn is_said(
    w: Seq<ResponsesEventView>,
    e: ResponsesEventView,
    said: Seq<NormalizedEventView>,
) -> bool {
    match e {
        ResponsesEventView::Created { response, .. } => said == seq![
            NormalizedEventView::StreamStart {
                served_model_id: response.model,
                served_model_evidence: if response.model is Some {
                    ServedModelEvidence::ResponseField
                } else {
                    ServedModelEvidence::Absent
                },
            },
        ],
        ResponsesEventView::OutputItemAdded { item, .. } => match item {
            ResponsesItemView::Message { .. } => said.len() == 0,
            ResponsesItemView::FunctionCall { call_id, name, .. } => said == seq![
                NormalizedEventView::ToolCallStart { tool_call_id: call_id, tool_name: name },
            ],
        },
        ResponsesEventView::OutputTextDelta { delta, .. } => said == seq![
            NormalizedEventView::TextDelta { text: delta },
        ],
        ResponsesEventView::FunctionCallArgumentsDelta { item_id, delta, .. } => said == seq![
            NormalizedEventView::ToolCallArgumentsDelta {
                tool_call_id: item_of(w, item_id)->0->FunctionCall_call_id,
                fragment: delta,
            },
        ],
        ResponsesEventView::OutputItemDone { item, .. } => if item is FunctionCall {
            said == seq![
                NormalizedEventView::ToolCallComplete {
                    tool_call_id: item_of(w, id_of(item))->0->FunctionCall_call_id,
                    arguments_json: arguments_at_end(
                        item->FunctionCall_arguments,
                        pieces_of(w, id_of(item)),
                    ),
                },
            ]
        } else {
            said.len() == 0
        },
        ResponsesEventView::Completed { response, .. } => {
            &&& said.len() == 2
            &&& said[0] == NormalizedEventView::Usage(
                Usage {
                    input_tokens: response.usage.input_tokens,
                    cached_input_tokens: response.usage.input_tokens_details.cached_tokens,
                    output_tokens: response.usage.output_tokens,
                    reasoning_tokens: response.usage.output_tokens_details.reasoning_tokens,
                },
            )
            &&& said[1] == (NormalizedEventView::Finished {
                finish_reason: if exists|id: Seq<char>| #[trigger] is_call(w, id) {
                    FinishReason::ToolCall
                } else {
                    FinishReason::Stop
                },
            })
        },
        ResponsesEventView::Incomplete { response, .. } => {
            &&& said.len() == 2
            &&& said[0] == NormalizedEventView::Usage(
                Usage {
                    input_tokens: response.usage.input_tokens,
                    cached_input_tokens: response.usage.input_tokens_details.cached_tokens,
                    output_tokens: response.usage.output_tokens,
                    reasoning_tokens: response.usage.output_tokens_details.reasoning_tokens,
                },
            )
            &&& said[1] is Finished
            &&& means_finish(
                response.incomplete_details->0.reason,
                said[1]->Finished_finish_reason,
            )
        },
        ResponsesEventView::Failed { response, .. } => {
            &&& said.len() == if head_of(w) is Some {
                1int
            } else {
                2
            }
            &&& head_of(w) is None ==> said[0] == (NormalizedEventView::StreamStart {
                served_model_id: None,
                served_model_evidence: ServedModelEvidence::Absent,
            })
            &&& said.last() is ProviderError
            &&& said.last()->ProviderError_message == response.error.message
            &&& means_error(response.error.code, said.last()->ProviderError_error_kind)
        },
    }
}

// --- Why -----------------------------------------------------------------------------------------

spec fn kept_item(w: Seq<ResponsesEventView>, id: Seq<char>) -> Option<ItemView> {
    match item_of(w, id) {
        None => None,
        Some(ResponsesItemView::Message { .. }) => Some(
            ItemView { kind: ItemKindView::Message, done: is_done(w, id) },
        ),
        Some(ResponsesItemView::FunctionCall { call_id, .. }) => Some(
            ItemView {
                kind: ItemKindView::Tool { call_id, buf: pieces_of(w, id) },
                done: is_done(w, id),
            },
        ),
    }
}

spec fn keeps(n: NormalizerView, w: Seq<ResponsesEventView>) -> bool {
    let st = n.responses;
    &&& n.dialect == Dialect::Responses
    &&& n.terminal == is_over(w)
    &&& st.created == (head_of(w) is Some)
    &&& st.last_seq == if w.len() > 0 {
        Some(number_of(w.last()))
    } else {
        None
    }
    &&& unique(st.items)
    &&& forall|id: Seq<char>| lookup(st.items, id) == #[trigger] kept_item(w, id)
    &&& forall|id: Seq<char>| #[trigger]
        item_of(w, id) is None ==> pieces_of(w, id) == Seq::<char>::empty() && !is_done(w, id)
    &&& st.saw_tool_item == exists|id: Seq<char>| #[trigger] is_call(w, id)
}

proof fn open_items_show(items: Seq<(Seq<char>, ItemView)>)
    ensures
        first_open_item(items) is None <==> forall|k: int|
            0 <= k < items.len() ==> (#[trigger] items[k]).1.done,
    decreases items.len(),
{
    if items.len() > 0 {
        let front = items.drop_last();
        open_items_show(front);
        assert(items[items.len() - 1] == items.last());
        if forall|k: int| 0 <= k < items.len() ==> (#[trigger] items[k]).1.done {
            assert forall|k: int| 0 <= k < front.len() implies (#[trigger] front[k]).1.done by {
                assert(front[k] == items[k]);
            }
        }
        if first_open_item(items) is None {
            assert forall|k: int| 0 <= k < items.len() implies (#[trigger] items[k]).1.done by {
                if k < front.len() {
                    assert(front[k] == items[k]);
                }
            }
        }
    }
}

proof fn done_items_show(n: NormalizerView, w: Seq<ResponsesEventView>)
    requires
        keeps(n, w),
    ensures
        first_open_item(n.responses.items) is None <==> forall|id: Seq<char>| #[trigger]
            item_of(w, id) is Some ==> is_done(w, id),
{
    let items = n.responses.items;
    open_items_show(items);
    if forall|k: int| 0 <= k < items.len() ==> (#[trigger] items[k]).1.done {
        assert forall|id: Seq<char>| #[trigger] item_of(w, id) is Some implies is_done(w, id) by {
            assert(lookup(items, id) == kept_item(w, id));
            place_from_rule(items, id, 0);
            assert(items[place(items, id)].1.done);
        }
    }
    if forall|id: Seq<char>| #[trigger] item_of(w, id) is Some ==> is_done(w, id) {
        assert forall|k: int| 0 <= k < items.len() implies (#[trigger] items[k]).1.done by {
            lookup_at(items, k);
            let id = items[k].0;
            assert(lookup(items, id) == kept_item(w, id));
            assert(item_of(w, id) is Some);
        }
    }
}

proof fn taken_calls_show(n: NormalizerView, w: Seq<ResponsesEventView>, call_id: Seq<char>)
    requires
        keeps(n, w),
    ensures
        call_taken(n.responses.items, call_id) <==> exists|id: Seq<char>| #[trigger]
            is_call(w, id) && item_of(w, id)->0->FunctionCall_call_id == call_id,
{
    let items = n.responses.items;
    if call_taken(items, call_id) {
        let k = choose|k: int|
            0 <= k < items.len() && (#[trigger] items[k]).1.kind is Tool
                && items[k].1.kind->Tool_call_id == call_id;
        lookup_at(items, k);
        let id = items[k].0;
        assert(lookup(items, id) == kept_item(w, id));
        assert(is_call(w, id));
    }
    if exists|id: Seq<char>| #[trigger]
        is_call(w, id) && item_of(w, id)->0->FunctionCall_call_id == call_id {
        let id = choose|id: Seq<char>| #[trigger]
            is_call(w, id) && item_of(w, id)->0->FunctionCall_call_id == call_id;
        assert(lookup(items, id) == kept_item(w, id));
        place_from_rule(items, id, 0);
        let k = place(items, id);
        assert(items[k].1.kind is Tool);
    }
}

proof fn item_is_kept(
    n: NormalizerView,
    w: Seq<ResponsesEventView>,
    e: ResponsesEventView,
    at: Seq<char>,
    row: ItemView,
)
    requires
        keeps(n, w),
        kept_item(w.push(e), at) == Some(row),
        forall|id: Seq<char>| id != at ==> #[trigger] kept_item(w.push(e), id) == kept_item(w, id),
    ensures
        forall|id: Seq<char>|
            lookup(upsert(n.responses.items, at, row), id) == #[trigger] kept_item(w.push(e), id),
        unique(upsert(n.responses.items, at, row)),
{
    let items = n.responses.items;
    assert forall|id: Seq<char>|
        lookup(upsert(items, at, row), id) == #[trigger] kept_item(w.push(e), id) by {
        read_after_write(items, at, row, id);
        assert(lookup(items, id) == kept_item(w, id));
    }
    read_after_write(items, at, row, at);
}

/// An event that adds no item leaves the calls as they were.
proof fn calls_stay(w: Seq<ResponsesEventView>, e: ResponsesEventView)
    requires
        !(e is OutputItemAdded),
    ensures
        forall|id: Seq<char>| #[trigger] item_of(w.push(e), id) == item_of(w, id),
        (exists|id: Seq<char>| #[trigger] is_call(w.push(e), id)) <==> (exists|id: Seq<char>|
            #[trigger] is_call(w, id)),
{
    let v = w.push(e);
    assert(v.drop_last() =~= w);
    assert forall|id: Seq<char>| #[trigger] item_of(v, id) == item_of(w, id) by {}
    if exists|id: Seq<char>| #[trigger] is_call(w, id) {
        let id = choose|id: Seq<char>| #[trigger] is_call(w, id);
        assert(is_call(v, id));
    }
    if exists|id: Seq<char>| #[trigger] is_call(v, id) {
        let id = choose|id: Seq<char>| #[trigger] is_call(v, id);
        assert(item_of(v, id) == item_of(w, id));
        assert(is_call(w, id));
    }
}

/// The items that an event leaves as they are.
spec fn leaves_items(w: Seq<ResponsesEventView>, e: ResponsesEventView) -> bool {
    !(e is OutputItemAdded || e is OutputItemDone || e is FunctionCallArgumentsDelta)
}

proof fn items_stay(n: NormalizerView, w: Seq<ResponsesEventView>, e: ResponsesEventView)
    requires
        keeps(n, w),
        leaves_items(w, e),
    ensures
        forall|id: Seq<char>| lookup(n.responses.items, id) == #[trigger] kept_item(w.push(e), id),
        forall|id: Seq<char>| #[trigger]
            item_of(w.push(e), id) is None ==> pieces_of(w.push(e), id) == Seq::<char>::empty()
                && !is_done(w.push(e), id),
        n.responses.saw_tool_item == exists|id: Seq<char>| #[trigger] is_call(w.push(e), id),
{
    let v = w.push(e);
    assert(v.drop_last() =~= w);
    calls_stay(w, e);
    assert forall|id: Seq<char>| lookup(n.responses.items, id) == #[trigger] kept_item(v, id) by {
        assert(lookup(n.responses.items, id) == kept_item(w, id));
    }
    assert forall|id: Seq<char>| #[trigger] item_of(v, id) is None implies pieces_of(v, id)
        == Seq::<char>::empty() && !is_done(v, id) by {
        assert(item_of(w, id) is None);
    }
}

proof fn words_differ()
    ensures
        "max_output_tokens"@.len() == 17,
        "content_filter"@.len() == 14,
        "rate_limit_exceeded"@.len() == 19,
        "invalid_request"@.len() == 15,
        "context_length_exceeded"@.len() == 23,
        "server_error"@.len() == 12,
        "unsupported_parameter"@.len() == 21,
{
    reveal_strlit("max_output_tokens");
    reveal_strlit("content_filter");
    reveal_strlit("rate_limit_exceeded");
    reveal_strlit("invalid_request");
    reveal_strlit("context_length_exceeded");
    reveal_strlit("server_error");
    reveal_strlit("unsupported_parameter");
}

#[verifier::spinoff_prover]
#[verifier::rlimit(60)]
proof fn additions_are_heard(n: NormalizerView, w: Seq<ResponsesEventView>, e: ResponsesEventView)
    requires
        keeps(n, w),
        e is OutputItemAdded,
    ensures
        step_responses(n, e) is Ok <==> is_timely(w, e) && is_sound(w, e),
        step_responses(n, e) is Ok ==> is_said(w, e, step_responses(n, e)->Ok_0.1) && keeps(
            step_responses(n, e)->Ok_0.0,
            w.push(e),
        ),
        step_responses(n, e) is Err ==> (step_responses(n, e)->Err_0 is OrderingViolation
            <==> !is_timely(w, e)),
{
    let v = w.push(e);
    assert(v.drop_last() =~= w);
    assert(v.last() == e);
    let item = e->OutputItemAdded_item;
    let at = id_of(item);
    assert(lookup(n.responses.items, at) == kept_item(w, at));
    if item is FunctionCall {
        taken_calls_show(n, w, item->FunctionCall_call_id);
    }
    if step_responses(n, e) is Ok {
        assert(item_of(w, at) is None);
        item_is_kept(n, w, e, at, kept_item(v, at)->0);
        assert forall|id: Seq<char>| #[trigger] item_of(v, id) is None implies pieces_of(v, id)
            == Seq::<char>::empty() && !is_done(v, id) by {
            assert(item_of(w, id) is None);
        }
        assert(item_of(v, at) == Some(item));
        if item is FunctionCall {
            assert(is_call(v, at));
        } else {
            if exists|id: Seq<char>| #[trigger] is_call(w, id) {
                let id = choose|id: Seq<char>| #[trigger] is_call(w, id);
                assert(is_call(v, id));
            }
            if exists|id: Seq<char>| #[trigger] is_call(v, id) {
                let id = choose|id: Seq<char>| #[trigger] is_call(v, id);
                assert(id != at);
                assert(is_call(w, id));
            }
        }
        assert(keeps(step_responses(n, e)->Ok_0.0, v));
    }
}

#[verifier::spinoff_prover]
#[verifier::rlimit(60)]
proof fn steps_are_heard(n: NormalizerView, w: Seq<ResponsesEventView>, e: ResponsesEventView)
    requires
        keeps(n, w),
    ensures
        step_responses(n, e) is Ok <==> is_timely(w, e) && is_sound(w, e),
        step_responses(n, e) is Ok ==> is_said(w, e, step_responses(n, e)->Ok_0.1) && keeps(
            step_responses(n, e)->Ok_0.0,
            w.push(e),
        ),
        step_responses(n, e) is Err ==> (step_responses(n, e)->Err_0 is OrderingViolation
            <==> !is_timely(w, e)),
{
    let v = w.push(e);
    assert(v.drop_last() =~= w);
    assert(v.last() == e);
    let items = n.responses.items;
    let m = step_responses(n, e)->Ok_0.0;
    if leaves_items(w, e) {
        items_stay(n, w, e);
    } else if !(e is OutputItemAdded) {
        calls_stay(w, e);
    }
    match e {
        ResponsesEventView::Created { .. } => {
            if step_responses(n, e) is Ok {
                assert(is_said(w, e, step_responses(n, e)->Ok_0.1));
                assert(keeps(m, v));
            }
        },
        ResponsesEventView::OutputItemAdded { item, .. } => {
            additions_are_heard(n, w, e);
        },
        ResponsesEventView::OutputTextDelta { item_id, .. } => {
            assert(lookup(items, item_id) == kept_item(w, item_id));
            if step_responses(n, e) is Ok {
                assert(is_said(w, e, step_responses(n, e)->Ok_0.1));
                assert(keeps(m, v));
            }
        },
        ResponsesEventView::FunctionCallArgumentsDelta { item_id, .. } => {
            assert(lookup(items, item_id) == kept_item(w, item_id));
            if step_responses(n, e) is Ok {
                item_is_kept(n, w, e, item_id, kept_item(v, item_id)->0);
                assert forall|id: Seq<char>| #[trigger] item_of(v, id) is None implies pieces_of(
                    v,
                    id,
                ) == Seq::<char>::empty() && !is_done(v, id) by {
                    assert(item_of(w, id) is None);
                }
                assert(is_said(w, e, step_responses(n, e)->Ok_0.1));
                assert(keeps(m, v));
            }
        },
        ResponsesEventView::OutputItemDone { item, .. } => {
            let at = id_of(item);
            assert(lookup(items, at) == kept_item(w, at));
            if step_responses(n, e) is Ok {
                assert forall|id: Seq<char>| id != at implies #[trigger] kept_item(v, id)
                    == kept_item(w, id) by {
                    assert(is_done(v, id) == is_done(w, id));
                }
                item_is_kept(n, w, e, at, kept_item(v, at)->0);
                assert forall|id: Seq<char>| #[trigger] item_of(v, id) is None implies pieces_of(
                    v,
                    id,
                ) == Seq::<char>::empty() && !is_done(v, id) by {
                    assert(item_of(w, id) is None);
                    assert(is_done(v, id) == is_done(w, id));
                }
                assert(is_said(w, e, step_responses(n, e)->Ok_0.1));
                assert(keeps(m, v));
            }
        },
        ResponsesEventView::Completed { .. } => {
            done_items_show(n, w);
            if step_responses(n, e) is Ok {
                assert(is_said(w, e, step_responses(n, e)->Ok_0.1));
                assert(keeps(m, v));
            }
        },
        ResponsesEventView::Incomplete { response, .. } => {
            words_differ();
            if response.incomplete_details is Some {
                let reason = response.incomplete_details->0.reason;
                let f = crate::provider::normalize::incomplete_finish(reason);
                assert(f is Some ==> means_finish(reason, f->0));
                assert forall|x: FinishReason| #[trigger] means_finish(reason, x) implies f == Some(
                    x,
                ) by {}
            }
            if step_responses(n, e) is Ok {
                assert(is_said(w, e, step_responses(n, e)->Ok_0.1));
                assert(keeps(m, v));
            }
        },
        ResponsesEventView::Failed { response, .. } => {
            words_differ();
            let code = response.error.code;
            let k = crate::provider::normalize::responses_error_kind(code);
            assert(k is Some ==> means_error(code, k->0));
            assert forall|x: ProviderErrorKind| #[trigger] means_error(code, x) implies k == Some(
                x,
            ) by {}
            if step_responses(n, e) is Ok {
                assert(is_said(w, e, step_responses(n, e)->Ok_0.1));
                assert(keeps(m, v));
            }
        },
    }
}

proof fn streams_are_kept(chunks: Seq<Seq<char>>)
    requires
        stream_of(Dialect::Responses, chunks).0.poisoned is None,
    ensures
        keeps(stream_of(Dialect::Responses, chunks).0, heard(chunks)),
    decreases chunks.len(),
{
    if chunks.len() > 0 {
        let (n, events) = stream_of(Dialect::Responses, chunks.drop_last());
        let chunk = chunks.last();
        assert(n.poisoned is None);
        streams_are_kept(chunks.drop_last());
        let w = heard(chunks.drop_last());
        match responses_chunk(chunk) {
            WireParseView::Event(e) => {
                steps_are_heard(n, w, e);
            },
            _ => {},
        }
    } else {
        let w = heard(chunks);
        assert forall|id: Seq<char>| #[trigger] kept_item(w, id) is None by {}
    }
}

/// What the next event of a response stream is answered with, told by the events heard before it: it
/// is accepted exactly where the grammar of the stream has a place for it, its number is greater
/// than the last one, and what it carries is sound, and then answered with just these events. So
/// the text of a delta is handed on as it is, a call completes with the pieces of its item joined
/// in order, or with the text of the done item where there were none, and the stream finishes with
/// a tool call exactly where one was added.
pub proof fn responses_are_answered(chunks: Seq<Seq<char>>, chunk: Seq<char>)
    requires
        stream_of(Dialect::Responses, chunks).0.poisoned is None,
        responses_chunk(chunk) is Event,
    ensures
        ({
            let w = heard(chunks);
            let e = responses_chunk(chunk)->Event_0;
            let outcome = fed(stream_of(Dialect::Responses, chunks).0, chunk).1;
            &&& outcome is Events <==> is_timely(w, e) && is_sound(w, e)
            &&& outcome is Events ==> is_said(w, e, outcome->Events_0)
            &&& outcome is Events || outcome is Defect
            &&& outcome is Defect ==> (outcome->Defect_0 is OrderingViolation <==> !is_timely(w, e))
        }),
{
    streams_are_kept(chunks);
    steps_are_heard(
        stream_of(Dialect::Responses, chunks).0,
        heard(chunks),
        responses_chunk(chunk)->Event_0,
    );
}

/// A chunk that is no event of a response stream: of an unknown type it is set aside, counted and
/// changes nothing else; any other is damage.
pub proof fn other_chunks_are_no_events(chunks: Seq<Seq<char>>, chunk: Seq<char>)
    requires
        stream_of(Dialect::Responses, chunks).0.poisoned is None,
        !(responses_chunk(chunk) is Event),
    ensures
        ({
            let n = stream_of(Dialect::Responses, chunks).0;
            let (m, outcome) = fed(n, chunk);
            &&& responses_chunk(chunk) is UnknownType ==> outcome == (StepOutcomeView::Quarantined {
                event_type: responses_chunk(chunk)->UnknownType_0,
            }) && m == (NormalizerView { quarantined: (n.quarantined + 1) as u64, ..n })
            &&& responses_chunk(chunk) is Malformed ==> outcome is Defect && outcome->Defect_0
                is Malformed && m.poisoned is Some
        }),
{
    streams_are_kept(chunks);
}

} // verus!
