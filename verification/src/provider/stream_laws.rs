//! What holds of the tool calls of a whole stream, in either dialect: every completed call was
//! started, completes once, and with the fragments that were emitted for it.
use crate::provider::dialect::{
    anthropic_chunk, responses_chunk, AnthropicContentBlockView, AnthropicEventView,
    ResponsesEventView, ResponsesItemView, WireParseView,
};
use crate::provider::normalize::{
    fed, step_anthropic, step_responses, stream_of, BlockKindView, BlockView, ItemKindView,
    ItemView, NormalizerView, StepOutcomeView,
};
use crate::provider::{Dialect, NormalizedEventView};
use crate::table::{place, place_from_rule};
use vstd::prelude::*;
use vstd::string::*;

verus! {

/// The fragments that were emitted for a tool call, joined in order.
pub open spec fn fragments(events: Seq<NormalizedEventView>, id: Seq<char>) -> Seq<char>
    decreases events.len(),
{
    if events.len() == 0 {
        Seq::empty()
    } else {
        match events.last() {
            NormalizedEventView::ToolCallArgumentsDelta { tool_call_id, fragment } =>
                if tool_call_id == id {
                    fragments(events.drop_last(), id) + fragment
                } else {
                    fragments(events.drop_last(), id)
                },
            _ => fragments(events.drop_last(), id),
        }
    }
}

/// Whether a tool call was started.
pub open spec fn is_started(events: Seq<NormalizedEventView>, id: Seq<char>) -> bool {
    exists|i: int|
        0 <= i < events.len() && (#[trigger] events[i]) is ToolCallStart
            && events[i]->ToolCallStart_tool_call_id == id
}

/// Whether no two tool calls were started under one id.
pub open spec fn starts_differ(events: Seq<NormalizedEventView>) -> bool {
    forall|i: int, j: int|
        0 <= i < j < events.len() && (#[trigger] events[i]) is ToolCallStart && (
        #[trigger] events[j]) is ToolCallStart ==> events[i]->ToolCallStart_tool_call_id
            != events[j]->ToolCallStart_tool_call_id
}

/// A tool call that is kept: its id, its fragments so far, and whether it is closed.
type Call = (Seq<char>, Seq<char>, bool);

spec fn block_call(b: BlockView) -> Option<Call> {
    match b.kind {
        BlockKindView::Text => None,
        BlockKindView::Tool { id, buf } => Some((id, buf, b.stopped)),
    }
}

spec fn item_call(b: ItemView) -> Option<Call> {
    match b.kind {
        ItemKindView::Message => None,
        ItemKindView::Tool { call_id, buf } => Some((call_id, buf, b.done)),
    }
}

spec fn calls(n: NormalizerView) -> Seq<Option<Call>> {
    match n.dialect {
        Dialect::AnthropicMessages => n.anthropic.blocks.map_values(
            |p: (u64, BlockView)| block_call(p.1),
        ),
        Dialect::Responses => n.responses.items.map_values(
            |p: (Seq<char>, ItemView)| item_call(p.1),
        ),
    }
}

spec fn is_of_call(e: NormalizedEventView) -> bool {
    e is ToolCallStart || e is ToolCallArgumentsDelta || e is ToolCallComplete
}

spec fn is_quiet(more: Seq<NormalizedEventView>) -> bool {
    forall|i: int| 0 <= i < more.len() ==> !is_of_call(#[trigger] more[i])
}

spec fn opens(
    t: Seq<Option<Call>>,
    u: Seq<Option<Call>>,
    more: Seq<NormalizedEventView>,
    own: bool,
) -> bool {
    &&& more.len() == 1
    &&& more[0] is ToolCallStart
    &&& u == t.push(Some((more[0]->ToolCallStart_tool_call_id, Seq::empty(), false)))
    &&& own ==> forall|k: int|
        0 <= k < t.len() && (#[trigger] t[k]) is Some ==> (t[k]->0).0
            != more[0]->ToolCallStart_tool_call_id
}

spec fn grows(
    t: Seq<Option<Call>>,
    u: Seq<Option<Call>>,
    more: Seq<NormalizedEventView>,
    k: int,
) -> bool {
    &&& 0 <= k < t.len()
    &&& more.len() == 1
    &&& more[0] is ToolCallArgumentsDelta
    &&& t[k] is Some
    &&& (t[k]->0).0 == more[0]->ToolCallArgumentsDelta_tool_call_id
    &&& !(t[k]->0).2
    &&& u == t.update(
        k,
        Some(((t[k]->0).0, (t[k]->0).1 + more[0]->ToolCallArgumentsDelta_fragment, false)),
    )
}

spec fn closes(
    t: Seq<Option<Call>>,
    u: Seq<Option<Call>>,
    more: Seq<NormalizedEventView>,
    dialect: Dialect,
    k: int,
) -> bool {
    &&& 0 <= k < t.len()
    &&& more.len() == 1
    &&& more[0] is ToolCallComplete
    &&& t[k] is Some
    &&& (t[k]->0).0 == more[0]->ToolCallComplete_tool_call_id
    &&& !(t[k]->0).2
    &&& u == t.update(k, Some(((t[k]->0).0, (t[k]->0).1, true)))
    &&& is_made_of(more[0]->ToolCallComplete_arguments_json, (t[k]->0).1, dialect)
}

/// Whether the arguments of a completed call are what its fragments make: the fragments joined. Where
/// there are none, they are the empty object in a message stream; a response may give them whole.
pub open spec fn is_made_of(arguments: Seq<char>, joined: Seq<char>, dialect: Dialect) -> bool {
    &&& joined.len() > 0 ==> arguments == joined
    &&& joined.len() == 0 && dialect == Dialect::AnthropicMessages ==> arguments == "{}"@
}

spec fn moves(
    t: Seq<Option<Call>>,
    u: Seq<Option<Call>>,
    more: Seq<NormalizedEventView>,
    dialect: Dialect,
) -> bool {
    ||| is_quiet(more) && (u == t || u == t.push(None))
    ||| opens(t, u, more, dialect == Dialect::Responses)
    ||| exists|k: int| #[trigger] grows(t, u, more, k)
    ||| exists|k: int| #[trigger] closes(t, u, more, dialect, k)
}

#[verifier::spinoff_prover]
proof fn messages_move(n: NormalizerView, e: AnthropicEventView)
    requires
        n.dialect == Dialect::AnthropicMessages,
        step_anthropic(n, e) is Ok,
    ensures
        moves(
            calls(n),
            calls(step_anthropic(n, e)->Ok_0.0),
            step_anthropic(n, e)->Ok_0.1,
            n.dialect,
        ),
        step_anthropic(n, e)->Ok_0.0.dialect == n.dialect,
{
    let t = calls(n);
    let (m, more) = step_anthropic(n, e)->Ok_0;
    let u = calls(m);
    let blocks = n.anthropic.blocks;
    match e {
        AnthropicEventView::ContentBlockStart { index, content_block } => {
            place_from_rule(blocks, index as u64, 0);
            match content_block {
                AnthropicContentBlockView::Text => {
                    assert(u =~= t.push(None));
                },
                AnthropicContentBlockView::ToolUse { id, name } => {
                    assert(u =~= t.push(Some((id, Seq::empty(), false))));
                    assert(opens(t, u, more, false));
                },
            }
        },
        AnthropicEventView::ContentBlockDelta { index, delta } => {
            place_from_rule(blocks, index as u64, 0);
            let k = place(blocks, index as u64);
            if blocks[k].1.kind is Tool {
                assert(t[k] == block_call(blocks[k].1));
                assert(u =~= t.update(
                    k,
                    Some(
                        (
                            (t[k]->0).0,
                            (t[k]->0).1 + more[0]->ToolCallArgumentsDelta_fragment,
                            false,
                        ),
                    ),
                ));
                assert(grows(t, u, more, k));
            }
        },
        AnthropicEventView::ContentBlockStop { index } => {
            place_from_rule(blocks, index as u64, 0);
            let k = place(blocks, index as u64);
            assert(t[k] == block_call(blocks[k].1));
            if blocks[k].1.kind is Tool {
                assert(u =~= t.update(k, Some(((t[k]->0).0, (t[k]->0).1, true))));
                assert(closes(t, u, more, n.dialect, k));
            } else {
                assert(u =~= t);
            }
        },
        _ => {
            assert(u =~= t);
        },
    }
}

#[verifier::spinoff_prover]
proof fn responses_move(n: NormalizerView, e: ResponsesEventView)
    requires
        n.dialect == Dialect::Responses,
        step_responses(n, e) is Ok,
    ensures
        moves(
            calls(n),
            calls(step_responses(n, e)->Ok_0.0),
            step_responses(n, e)->Ok_0.1,
            n.dialect,
        ),
        step_responses(n, e)->Ok_0.0.dialect == n.dialect,
{
    let t = calls(n);
    let (m, more) = step_responses(n, e)->Ok_0;
    let u = calls(m);
    let items = n.responses.items;
    match e {
        ResponsesEventView::OutputItemAdded { item, .. } => {
            match item {
                ResponsesItemView::Message { id } => {
                    place_from_rule(items, id, 0);
                    assert(u =~= t.push(None));
                },
                ResponsesItemView::FunctionCall { id, call_id, .. } => {
                    place_from_rule(items, id, 0);
                    assert(u =~= t.push(Some((call_id, Seq::empty(), false))));
                    assert forall|k: int| 0 <= k < t.len() && (#[trigger] t[k]) is Some implies (
                    t[k]->0).0 != call_id by {
                        assert(items[k].1.kind is Tool);
                    }
                    assert(opens(t, u, more, true));
                },
            }
        },
        ResponsesEventView::FunctionCallArgumentsDelta { item_id, delta, .. } => {
            place_from_rule(items, item_id, 0);
            let k = place(items, item_id);
            assert(t[k] == item_call(items[k].1));
            assert(u =~= t.update(k, Some(((t[k]->0).0, (t[k]->0).1 + delta, false))));
            assert(grows(t, u, more, k));
        },
        ResponsesEventView::OutputItemDone { item, .. } => {
            let id = match item {
                ResponsesItemView::Message { id } => id,
                ResponsesItemView::FunctionCall { id, .. } => id,
            };
            place_from_rule(items, id, 0);
            let k = place(items, id);
            assert(t[k] == item_call(items[k].1));
            if items[k].1.kind is Tool {
                assert(u =~= t.update(k, Some(((t[k]->0).0, (t[k]->0).1, true))));
                assert(closes(t, u, more, n.dialect, k));
            } else {
                assert(u =~= t);
            }
        },
        _ => {
            assert(u =~= t);
        },
    }
}

/// Whether the completed call at a place of a stream is what its fragments make, all of which came
/// before it.
pub open spec fn completes_well(
    events: Seq<NormalizedEventView>,
    dialect: Dialect,
    i: int,
) -> bool {
    let id = events[i]->ToolCallComplete_tool_call_id;
    let joined = fragments(events, id);
    &&& is_made_of(events[i]->ToolCallComplete_arguments_json, joined, dialect)
    &&& fragments(events.take(i), id) == joined
    &&& is_started(events.take(i), id)
    &&& forall|j: int|
        0 <= j < i && (#[trigger] events[j]) is ToolCallComplete
            ==> events[j]->ToolCallComplete_tool_call_id != id
}

spec fn has_call(t: Seq<Option<Call>>, id: Seq<char>) -> bool {
    exists|k: int| 0 <= k < t.len() && (#[trigger] t[k]) is Some && (t[k]->0).0 == id
}

/// Calls that keep their ids at their places are still had.
proof fn calls_are_kept(t: Seq<Option<Call>>, u: Seq<Option<Call>>, id: Seq<char>)
    requires
        t.len() <= u.len(),
        forall|k: int|
            0 <= k < t.len() && (#[trigger] t[k]) is Some ==> u[k] is Some && (u[k]->0).0 == (
            t[k]->0).0,
        has_call(t, id),
    ensures
        has_call(u, id),
{
    let k = choose|k: int| 0 <= k < t.len() && (#[trigger] t[k]) is Some && (t[k]->0).0 == id;
    assert(u[k] is Some);
}

spec fn follows(t: Seq<Option<Call>>, events: Seq<NormalizedEventView>, dialect: Dialect) -> bool {
    &&& forall|k: int|
        0 <= k < t.len() && (#[trigger] t[k]) is Some ==> (t[k]->0).1 == fragments(
            events,
            (t[k]->0).0,
        ) && is_started(events, (t[k]->0).0)
    &&& forall|k: int, l: int|
        0 <= k < l < t.len() && (#[trigger] t[k]) is Some && (#[trigger] t[l]) is Some ==> (
        t[k]->0).0 != (t[l]->0).0
    &&& forall|id: Seq<char>| (#[trigger] fragments(events, id)).len() > 0 ==> has_call(t, id)
    &&& forall|i: int|
        0 <= i < events.len() && (#[trigger] events[i]) is ToolCallComplete ==> {
            &&& completes_well(events, dialect, i)
            &&& exists|k: int|
                0 <= k < t.len() && (#[trigger] t[k]) is Some && (t[k]->0).0
                    == events[i]->ToolCallComplete_tool_call_id && (t[k]->0).2
        }
}

proof fn fragments_join(
    events: Seq<NormalizedEventView>,
    more: Seq<NormalizedEventView>,
    id: Seq<char>,
)
    requires
        is_quiet(more),
    ensures
        fragments(events + more, id) == fragments(events, id),
    decreases more.len(),
{
    if more.len() > 0 {
        let all = events + more;
        assert(all.drop_last() =~= events + more.drop_last());
        assert(all.last() == more[more.len() - 1]);
        assert(!is_of_call(more[more.len() - 1]));
        assert forall|i: int| 0 <= i < more.drop_last().len() implies !is_of_call(
            #[trigger] more.drop_last()[i],
        ) by {
            assert(more.drop_last()[i] == more[i]);
        }
        fragments_join(events, more.drop_last(), id);
    } else {
        assert(events + more =~= events);
    }
}

proof fn starts_stay(
    events: Seq<NormalizedEventView>,
    more: Seq<NormalizedEventView>,
    id: Seq<char>,
)
    ensures
        is_started(events, id) ==> is_started(events + more, id),
        is_quiet(more) ==> (is_started(events + more, id) ==> is_started(events, id)),
        more.len() == 1 && !(more[0] is ToolCallStart && more[0]->ToolCallStart_tool_call_id == id)
            ==> (is_started(events + more, id) ==> is_started(events, id)),
{
    let all = events + more;
    if is_started(events, id) {
        let i = choose|i: int|
            0 <= i < events.len() && (#[trigger] events[i]) is ToolCallStart
                && events[i]->ToolCallStart_tool_call_id == id;
        assert(all[i] == events[i]);
    }
    if is_started(all, id) {
        let i = choose|i: int|
            0 <= i < all.len() && (#[trigger] all[i]) is ToolCallStart
                && all[i]->ToolCallStart_tool_call_id == id;
        if i < events.len() {
            assert(all[i] == events[i]);
        } else {
            assert(all[i] == more[i - events.len()]);
        }
    }
}

/// What holds of a completed call goes on to hold while no fragment of it comes.
proof fn completions_stay(
    events: Seq<NormalizedEventView>,
    more: Seq<NormalizedEventView>,
    dialect: Dialect,
    i: int,
)
    requires
        0 <= i < events.len(),
        completes_well(events, dialect, i),
        fragments(events + more, events[i]->ToolCallComplete_tool_call_id) == fragments(
            events,
            events[i]->ToolCallComplete_tool_call_id,
        ),
    ensures
        completes_well(events + more, dialect, i),
{
    let all = events + more;
    assert(all.take(i) =~= events.take(i));
    assert(all[i] == events[i]);
    assert forall|j: int| 0 <= j < i && (#[trigger] all[j]) is ToolCallComplete implies
        all[j]->ToolCallComplete_tool_call_id != all[i]->ToolCallComplete_tool_call_id by {
        assert(all[j] == events[j]);
    }
}

#[verifier::spinoff_prover]
#[verifier::rlimit(60)]
proof fn quiet_steps_follow(
    t: Seq<Option<Call>>,
    u: Seq<Option<Call>>,
    events: Seq<NormalizedEventView>,
    more: Seq<NormalizedEventView>,
    dialect: Dialect,
)
    requires
        follows(t, events, dialect),
        is_quiet(more),
        u == t || u == t.push(None),
    ensures
        follows(u, events + more, dialect),
{
    let all = events + more;
    assert forall|id: Seq<char>| #[trigger] fragments(all, id) == fragments(events, id) by {
        fragments_join(events, more, id);
    }
    assert forall|id: Seq<char>| #[trigger] is_started(all, id) == is_started(events, id) by {
        starts_stay(events, more, id);
    }
    assert(forall|k: int| 0 <= k < u.len() && (#[trigger] u[k]) is Some ==> k < t.len() && t[k]
        == u[k]);
    assert forall|id: Seq<char>| (#[trigger] fragments(all, id)).len() > 0 implies has_call(
        u,
        id,
    ) by {
        calls_are_kept(t, u, id);
    }
    assert forall|i: int| 0 <= i < all.len() && (#[trigger] all[i]) is ToolCallComplete implies {
        &&& completes_well(all, dialect, i)
        &&& exists|k: int|
            0 <= k < u.len() && (#[trigger] u[k]) is Some && (u[k]->0).0
                == all[i]->ToolCallComplete_tool_call_id && (u[k]->0).2
    } by {
        if i >= events.len() {
            assert(is_of_call(more[i - events.len()]));
        } else {
            assert(all[i] == events[i]);
            completions_stay(events, more, dialect, i);
            let k = choose|k: int|
                0 <= k < t.len() && (#[trigger] t[k]) is Some && (t[k]->0).0
                    == events[i]->ToolCallComplete_tool_call_id && (t[k]->0).2;
            assert(u[k] == t[k]);
        }
    }
}

#[verifier::spinoff_prover]
#[verifier::rlimit(60)]
proof fn opening_steps_follow(
    t: Seq<Option<Call>>,
    u: Seq<Option<Call>>,
    events: Seq<NormalizedEventView>,
    more: Seq<NormalizedEventView>,
    dialect: Dialect,
)
    requires
        follows(t, events, dialect),
        opens(t, u, more, dialect == Dialect::Responses),
        dialect == Dialect::AnthropicMessages ==> starts_differ(events + more),
    ensures
        follows(u, events + more, dialect),
{
    let all = events + more;
    let new = more[0]->ToolCallStart_tool_call_id;
    let n = events.len() as int;
    assert(all.drop_last() =~= events);
    assert(all.last() == more[0]);
    assert(all[n] == more[0]);
    assert forall|id: Seq<char>| #[trigger] fragments(all, id) == fragments(events, id) by {}
    assert forall|id: Seq<char>| is_started(events, id) implies #[trigger] is_started(all, id) by {
        starts_stay(events, more, id);
    }
    assert forall|id: Seq<char>| #[trigger] is_started(all, id) && id != new implies is_started(
        events,
        id,
    ) by {
        starts_stay(events, more, id);
    }
    assert(is_started(all, new));
    assert forall|k: int| 0 <= k < t.len() && (#[trigger] t[k]) is Some implies (t[k]->0).0
        != new by {
        if dialect == Dialect::AnthropicMessages && (t[k]->0).0 == new {
            let i = choose|i: int|
                0 <= i < events.len() && (#[trigger] events[i]) is ToolCallStart
                    && events[i]->ToolCallStart_tool_call_id == new;
            assert(all[i] == events[i]);
            assert(all[i] is ToolCallStart && all[n] is ToolCallStart);
        }
    }
    assert(forall|k: int| 0 <= k < t.len() ==> #[trigger] u[k] == t[k]);
    assert(u[t.len() as int] == Some((new, Seq::<char>::empty(), false)));
    assert forall|i: int| 0 <= i < all.len() && (#[trigger] all[i]) is ToolCallComplete implies {
        &&& completes_well(all, dialect, i)
        &&& exists|k: int|
            0 <= k < u.len() && (#[trigger] u[k]) is Some && (u[k]->0).0
                == all[i]->ToolCallComplete_tool_call_id && (u[k]->0).2
    } by {
        assert(i < n);
        assert(all[i] == events[i]);
        completions_stay(events, more, dialect, i);
        let k = choose|k: int|
            0 <= k < t.len() && (#[trigger] t[k]) is Some && (t[k]->0).0
                == events[i]->ToolCallComplete_tool_call_id && (t[k]->0).2;
        assert(u[k] == t[k]);
    }
    assert(!has_call(t, new));
    assert(fragments(all, new) =~= Seq::<char>::empty());
    assert forall|id: Seq<char>| (#[trigger] fragments(all, id)).len() > 0 implies has_call(
        u,
        id,
    ) by {
        calls_are_kept(t, u, id);
    }
}

#[verifier::spinoff_prover]
#[verifier::rlimit(60)]
proof fn growing_steps_follow(
    t: Seq<Option<Call>>,
    u: Seq<Option<Call>>,
    events: Seq<NormalizedEventView>,
    more: Seq<NormalizedEventView>,
    dialect: Dialect,
    at: int,
)
    requires
        follows(t, events, dialect),
        grows(t, u, more, at),
    ensures
        follows(u, events + more, dialect),
{
    let all = events + more;
    let own = more[0]->ToolCallArgumentsDelta_tool_call_id;
    let n = events.len() as int;
    assert(all.drop_last() =~= events);
    assert(all.last() == more[0]);
    assert(all[n] == more[0]);
    assert forall|id: Seq<char>| id != own implies #[trigger] fragments(all, id) == fragments(
        events,
        id,
    ) by {}
    assert(fragments(all, own) == fragments(events, own)
        + more[0]->ToolCallArgumentsDelta_fragment);
    assert forall|id: Seq<char>| is_started(events, id) implies #[trigger] is_started(all, id) by {
        starts_stay(events, more, id);
    }
    assert forall|id: Seq<char>| (#[trigger] fragments(all, id)).len() > 0 implies has_call(
        u,
        id,
    ) by {
        if id != own {
            calls_are_kept(t, u, id);
        } else {
            assert(u[at] is Some);
        }
    }
    assert forall|k: int| 0 <= k < u.len() && (#[trigger] u[k]) is Some implies (u[k]->0).1
        == fragments(all, (u[k]->0).0) && is_started(all, (u[k]->0).0) by {
        assert(t[k] is Some);
        if k != at {
            assert(u[k] == t[k]);
            if k < at {
                assert(t[k] is Some && t[at] is Some);
            }
        }
    }
    assert forall|k: int, l: int|
        0 <= k < l < u.len() && (#[trigger] u[k]) is Some && (#[trigger] u[l]) is Some implies (
    u[k]->0).0 != (u[l]->0).0 by {
        assert(t[k] is Some && t[l] is Some);
    }
    assert forall|i: int| 0 <= i < all.len() && (#[trigger] all[i]) is ToolCallComplete implies {
        &&& completes_well(all, dialect, i)
        &&& exists|k: int|
            0 <= k < u.len() && (#[trigger] u[k]) is Some && (u[k]->0).0
                == all[i]->ToolCallComplete_tool_call_id && (u[k]->0).2
    } by {
        assert(i < n);
        assert(all[i] == events[i]);
        let k = choose|k: int|
            0 <= k < t.len() && (#[trigger] t[k]) is Some && (t[k]->0).0
                == events[i]->ToolCallComplete_tool_call_id && (t[k]->0).2;
        assert(k != at);
        assert(u[k] == t[k]);
        assert((t[k]->0).0 != own) by {
            assert(t[k] is Some && t[at] is Some);
        }
        completions_stay(events, more, dialect, i);
    }
}

#[verifier::spinoff_prover]
#[verifier::rlimit(60)]
proof fn closing_steps_follow(
    t: Seq<Option<Call>>,
    u: Seq<Option<Call>>,
    events: Seq<NormalizedEventView>,
    more: Seq<NormalizedEventView>,
    dialect: Dialect,
    at: int,
)
    requires
        follows(t, events, dialect),
        closes(t, u, more, dialect, at),
    ensures
        follows(u, events + more, dialect),
{
    let all = events + more;
    let own = more[0]->ToolCallComplete_tool_call_id;
    let n = events.len() as int;
    assert(all.drop_last() =~= events);
    assert(all.take(n) =~= events);
    assert(all.last() == more[0]);
    assert(all[n] == more[0]);
    assert forall|id: Seq<char>| #[trigger] fragments(all, id) == fragments(events, id) by {}
    assert forall|id: Seq<char>| is_started(events, id) implies #[trigger] is_started(all, id) by {
        starts_stay(events, more, id);
    }
    assert forall|id: Seq<char>| (#[trigger] fragments(all, id)).len() > 0 implies has_call(
        u,
        id,
    ) by {
        calls_are_kept(t, u, id);
    }
    assert forall|k: int| 0 <= k < u.len() && (#[trigger] u[k]) is Some implies (u[k]->0).1
        == fragments(all, (u[k]->0).0) && is_started(all, (u[k]->0).0) by {
        assert(t[k] is Some);
    }
    assert forall|k: int, l: int|
        0 <= k < l < u.len() && (#[trigger] u[k]) is Some && (#[trigger] u[l]) is Some implies (
    u[k]->0).0 != (u[l]->0).0 by {
        assert(t[k] is Some && t[l] is Some);
    }
    assert forall|i: int| 0 <= i < all.len() && (#[trigger] all[i]) is ToolCallComplete implies {
        &&& completes_well(all, dialect, i)
        &&& exists|k: int|
            0 <= k < u.len() && (#[trigger] u[k]) is Some && (u[k]->0).0
                == all[i]->ToolCallComplete_tool_call_id && (u[k]->0).2
    } by {
        if i < n {
            assert(all[i] == events[i]);
            let k = choose|k: int|
                0 <= k < t.len() && (#[trigger] t[k]) is Some && (t[k]->0).0
                    == events[i]->ToolCallComplete_tool_call_id && (t[k]->0).2;
            assert(k != at);
            assert(u[k] == t[k]);
            completions_stay(events, more, dialect, i);
        } else {
            assert(u[at] is Some && (u[at]->0).2);
            assert forall|j: int| 0 <= j < i && (#[trigger] all[j]) is ToolCallComplete implies
                all[j]->ToolCallComplete_tool_call_id != own by {
                assert(all[j] == events[j]);
                let k = choose|k: int|
                    0 <= k < t.len() && (#[trigger] t[k]) is Some && (t[k]->0).0
                        == events[j]->ToolCallComplete_tool_call_id && (t[k]->0).2;
                assert(k != at);
                assert(t[k] is Some && t[at] is Some);
            }
            assert(t[at] is Some);
            assert(completes_well(all, dialect, i));
        }
    }
}

proof fn steps_follow(
    t: Seq<Option<Call>>,
    u: Seq<Option<Call>>,
    events: Seq<NormalizedEventView>,
    more: Seq<NormalizedEventView>,
    dialect: Dialect,
)
    requires
        follows(t, events, dialect),
        moves(t, u, more, dialect),
        dialect == Dialect::AnthropicMessages ==> starts_differ(events + more),
    ensures
        follows(u, events + more, dialect),
{
    if is_quiet(more) && (u == t || u == t.push(None)) {
        quiet_steps_follow(t, u, events, more, dialect);
    } else if opens(t, u, more, dialect == Dialect::Responses) {
        opening_steps_follow(t, u, events, more, dialect);
    } else if exists|k: int| #[trigger] grows(t, u, more, k) {
        let k = choose|k: int| #[trigger] grows(t, u, more, k);
        growing_steps_follow(t, u, events, more, dialect, k);
    } else {
        let k = choose|k: int| #[trigger] closes(t, u, more, dialect, k);
        closing_steps_follow(t, u, events, more, dialect, k);
    }
}

proof fn streams_follow(dialect: Dialect, chunks: Seq<Seq<char>>)
    requires
        dialect == Dialect::AnthropicMessages ==> starts_differ(stream_of(dialect, chunks).1),
    ensures
        follows(calls(stream_of(dialect, chunks).0), stream_of(dialect, chunks).1, dialect),
        stream_of(dialect, chunks).0.dialect == dialect,
    decreases chunks.len(),
{
    if chunks.len() > 0 {
        let (n, events) = stream_of(dialect, chunks.drop_last());
        let chunk = chunks.last();
        let (m, outcome) = fed(n, chunk);
        let all = stream_of(dialect, chunks).1;
        if dialect == Dialect::AnthropicMessages {
            assert(starts_differ(events)) by {
                assert forall|i: int, j: int|
                    0 <= i < j < events.len() && (#[trigger] events[i]) is ToolCallStart && (
                    #[trigger] events[j]) is ToolCallStart implies events[i]->ToolCallStart_tool_call_id
                    != events[j]->ToolCallStart_tool_call_id by {
                    assert(all[i] == events[i] && all[j] == events[j]);
                }
            }
        }
        streams_follow(dialect, chunks.drop_last());
        if let StepOutcomeView::Events(more) = outcome {
            match dialect {
                Dialect::AnthropicMessages => {
                    if let WireParseView::Event(e) = anthropic_chunk(chunk) {
                        messages_move(n, e);
                    }
                },
                Dialect::Responses => {
                    if let WireParseView::Event(e) = responses_chunk(chunk) {
                        responses_move(n, e);
                    }
                },
            }
            steps_follow(calls(n), calls(m), events, more, dialect);
        } else {
            assert(calls(m) =~= calls(n));
        }
    } else {
        assert forall|id: Seq<char>| (#[trigger] fragments(stream_of(dialect, chunks).1, id)).len()
            == 0 by {}
    }
}

/// In any stream, the arguments of a completed tool call are the fragments that were emitted for
/// it, joined in order, or the empty object where there were none; all of them were emitted before,
/// the call was started before, and it completes once. In a message stream this needs that no two
/// calls were started under one id, which a response stream sees to itself; and a response may give
/// the arguments of a call without fragments whole.
pub proof fn completed_arguments_are_the_fragments(
    dialect: Dialect,
    chunks: Seq<Seq<char>>,
    i: int,
)
    requires
        dialect == Dialect::AnthropicMessages ==> starts_differ(stream_of(dialect, chunks).1),
        0 <= i < stream_of(dialect, chunks).1.len(),
        stream_of(dialect, chunks).1[i] is ToolCallComplete,
    ensures
        ({
            let events = stream_of(dialect, chunks).1;
            let id = events[i]->ToolCallComplete_tool_call_id;
            let arguments = events[i]->ToolCallComplete_arguments_json;
            let joined = fragments(events, id);
            &&& joined.len() > 0 ==> arguments == joined
            &&& joined.len() == 0 && dialect == Dialect::AnthropicMessages ==> arguments == "{}"@
            &&& fragments(events.take(i), id) == joined
            &&& is_started(events.take(i), id)
            &&& forall|j: int|
                0 <= j < events.len() && j != i && (#[trigger] events[j]) is ToolCallComplete
                    ==> events[j]->ToolCallComplete_tool_call_id != id
        }),
{
    streams_follow(dialect, chunks);
    let events = stream_of(dialect, chunks).1;
    assert(completes_well(events, dialect, i));
    assert forall|j: int|
        0 <= j < events.len() && j != i && (#[trigger] events[j]) is ToolCallComplete implies
        events[j]->ToolCallComplete_tool_call_id != events[i]->ToolCallComplete_tool_call_id by {
        assert(completes_well(events, dialect, j));
    }
}

} // verus!
