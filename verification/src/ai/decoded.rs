//! What is told of a reply is what the provider sent of it, and the message at its end
//! is what was told.
use crate::ai::types::StopReason;
use crate::indexed;
use vstd::prelude::*;

verus! {

// --------------------------------------------------------------- told and known
/// What was told last of the call with this index; nothing where none was told.
pub open spec fn last_told(
    told: Seq<crate::ai::types::StreamView>,
    index: usize,
) -> crate::ai::sse::CallView
    decreases told.len(),
{
    if told.len() == 0 {
        crate::ai::sse::CallView { id: seq![], name: seq![], arguments: seq![] }
    } else if told.last() is ToolCallDelta && told.last()->ToolCallDelta_index == index {
        crate::ai::sse::CallView {
            id: told.last()->ToolCallDelta_id,
            name: told.last()->ToolCallDelta_name,
            arguments: told.last()->ToolCallDelta_arguments,
        }
    } else {
        last_told(told.drop_last(), index)
    }
}

/// Whether anything was told of the call with this index.
pub open spec fn was_told(told: Seq<crate::ai::types::StreamView>, index: usize) -> bool {
    exists|i: int|
        0 <= i < told.len() && #[trigger] told[i] is ToolCallDelta
            && told[i]->ToolCallDelta_index == index
}

/// Whether there is a call with this index.
pub open spec fn has_call(
    calls: Seq<(usize, crate::ai::sse::CallView)>,
    index: usize,
) -> bool {
    exists|k: int| 0 <= k < calls.len() && (#[trigger] calls[k]).0 == index
}

/// Whether every call is what was told last of it, and every call that was told is
/// there.
pub open spec fn agree(
    calls: Seq<(usize, crate::ai::sse::CallView)>,
    told: Seq<crate::ai::types::StreamView>,
) -> bool {
    &&& forall|k: int| 0 <= k < calls.len() ==> (#[trigger] calls[k]).1 == last_told(told, calls[k].0)
    &&& forall|index: usize| was_told(told, index) ==> #[trigger] has_call(calls, index)
}

/// Whether a parser that has handed out `handed` knows its calls as they were told.
pub open spec fn calls_in_step(
    p: crate::ai::sse::ParserView,
    handed: Seq<crate::ai::types::StreamView>,
) -> bool {
    p.finished || agree(p.state.tool_calls, handed + p.queue)
}

proof fn lemma_nothing_told(told: Seq<crate::ai::types::StreamView>, index: usize)
    requires
        !was_told(told, index),
    ensures
        last_told(told, index) == (crate::ai::sse::CallView {
            id: seq![],
            name: seq![],
            arguments: seq![],
        }),
    decreases told.len(),
{
    if told.len() > 0 {
        assert(told[told.len() - 1] == told.last());
        let init = told.drop_last();
        if was_told(init, index) {
            let i = choose|i: int|
                0 <= i < init.len() && #[trigger] init[i] is ToolCallDelta
                    && init[i]->ToolCallDelta_index == index;
            assert(told[i] is ToolCallDelta);
        }
        lemma_nothing_told(init, index);
    }
}

proof fn lemma_told_one_more(
    told: Seq<crate::ai::types::StreamView>,
    event: crate::ai::types::StreamView,
    index: usize,
)
    ensures
        was_told(told.push(event), index) <==> was_told(told, index) || (event is ToolCallDelta
            && event->ToolCallDelta_index == index),
        !(event is ToolCallDelta && event->ToolCallDelta_index == index) ==> last_told(
            told.push(event),
            index,
        ) == last_told(told, index),
{
    let more = told.push(event);
    assert(more.drop_last() =~= told);
    assert(more[told.len() as int] == event);
    if was_told(told, index) {
        let i = choose|i: int|
            0 <= i < told.len() && #[trigger] told[i] is ToolCallDelta
                && told[i]->ToolCallDelta_index == index;
        assert(more[i] is ToolCallDelta);
    }
    if was_told(more, index) {
        let i = choose|i: int|
            0 <= i < more.len() && #[trigger] more[i] is ToolCallDelta
                && more[i]->ToolCallDelta_index == index;
        if i < told.len() {
            assert(told[i] is ToolCallDelta);
        }
    }
}

proof fn lemma_agree_after_other(
    calls: Seq<(usize, crate::ai::sse::CallView)>,
    told: Seq<crate::ai::types::StreamView>,
    event: crate::ai::types::StreamView,
)
    requires
        agree(calls, told),
        !(event is ToolCallDelta),
    ensures
        agree(calls, told.push(event)),
{
    assert forall|k: int| 0 <= k < calls.len() implies (#[trigger] calls[k]).1 == last_told(
        told.push(event),
        calls[k].0,
    ) by {
        lemma_told_one_more(told, event, calls[k].0);
    }
    assert forall|index: usize| was_told(told.push(event), index) implies #[trigger] has_call(
        calls,
        index,
    ) by {
        lemma_told_one_more(told, event, index);
    }
}

/// Where nothing is told nothing is known.
pub proof fn law_no_calls_at_first(model: Seq<char>)
    ensures
        calls_in_step(crate::ai::sse::ParserView::fresh(model), seq![]),
{
    let told = Seq::<crate::ai::types::StreamView>::empty()
        + crate::ai::sse::ParserView::fresh(model).queue;
    assert(told.len() == 0);
}

proof fn lemma_started(
    p: crate::ai::sse::ParserView,
    handed: Seq<crate::ai::types::StreamView>,
)
    requires
        calls_in_step(p, handed),
    ensures
        calls_in_step(p.start(), handed),
{
    if !p.finished && !p.state.started {
        assert(handed + p.start().queue =~= (handed + p.queue).push(
            crate::ai::types::StreamView::Start,
        ));
        lemma_agree_after_other(
            p.state.tool_calls,
            handed + p.queue,
            crate::ai::types::StreamView::Start,
        );
    }
}

// ------------------------------------------------------------------ Messages API
/// Whether the calls are numbered by their positions.
pub open spec fn numbered(calls: Seq<(usize, crate::ai::sse::CallView)>) -> bool {
    forall|i: int| 0 <= i < calls.len() ==> (#[trigger] calls[i]).0 == i
}

proof fn lemma_grown(
    calls: Seq<(usize, crate::ai::sse::CallView)>,
    told: Seq<crate::ai::types::StreamView>,
    index: usize,
)
    requires
        agree(calls, told),
        numbered(calls),
        index < usize::MAX,
    ensures
        agree(crate::ai::anthropic::grown(calls, index), told),
        numbered(crate::ai::anthropic::grown(calls, index)),
        crate::ai::anthropic::grown(calls, index).len() > index,
        crate::ai::anthropic::grown(calls, index).len() >= calls.len(),
        forall|i: int|
            0 <= i < calls.len() ==> #[trigger] crate::ai::anthropic::grown(calls, index)[i]
                == calls[i],
    decreases index + 1 - calls.len(),
{
    if calls.len() <= index {
        let n = calls.len() as usize;
        let more = calls.push((n, crate::ai::sse::CallView::empty()));
        assert(!has_call(calls, n)) by {
            if has_call(calls, n) {
                let k = choose|k: int| 0 <= k < calls.len() && (#[trigger] calls[k]).0 == n;
                assert(calls[k].0 == k);
            }
        }
        lemma_nothing_told(told, n);
        assert forall|k: int| 0 <= k < more.len() implies (#[trigger] more[k]).1 == last_told(
            told,
            more[k].0,
        ) by {
            if k < calls.len() {
                assert(more[k] == calls[k]);
            }
        }
        assert forall|i: usize| was_told(told, i) implies #[trigger] has_call(more, i) by {
            assert(has_call(calls, i));
            let k = choose|k: int| 0 <= k < calls.len() && (#[trigger] calls[k]).0 == i;
            assert(more[k].0 == i);
        }
        lemma_grown(more, told, index);
        assert forall|i: int| 0 <= i < calls.len() implies #[trigger] crate::ai::anthropic::grown(
            calls,
            index,
        )[i] == calls[i] by {
            assert(crate::ai::anthropic::grown(more, index)[i] == more[i]);
        }
    }
}

proof fn lemma_call_changed(
    p: crate::ai::sse::ParserView,
    handed: Seq<crate::ai::types::StreamView>,
    index: usize,
    call: crate::ai::sse::CallView,
)
    requires
        !p.finished,
        calls_in_step(p, handed),
        numbered(p.state.tool_calls),
        index < usize::MAX,
    ensures
        ({
            let q = crate::ai::anthropic::call_changed(p, index, call);
            &&& calls_in_step(q, handed)
            &&& numbered(q.state.tool_calls)
            &&& !q.finished
            &&& q.state.tool_calls.len() > index
            &&& q.state.tool_calls[index as int].1 == call
            &&& last_told(handed + q.queue, index) == call
            &&& forall|i: int|
                0 <= i < p.state.tool_calls.len() && i != index ==> #[trigger] q.state.tool_calls[i]
                    == p.state.tool_calls[i]
        }),
{
    let told = handed + p.queue;
    lemma_grown(p.state.tool_calls, told, index);
    let calls = crate::ai::anthropic::grown(p.state.tool_calls, index);
    let q = crate::ai::anthropic::call_changed(p, index, call);
    let event = crate::ai::types::StreamView::ToolCallDelta {
        index,
        id: call.id,
        name: call.name,
        arguments: call.arguments,
    };
    assert(handed + q.queue =~= told.push(event));
    assert(told.push(event).drop_last() =~= told);
    let now = q.state.tool_calls;
    assert forall|k: int| 0 <= k < now.len() implies (#[trigger] now[k]).1 == last_told(
        told.push(event),
        now[k].0,
    ) by {
        if k != index {
            assert(now[k] == calls[k]);
            lemma_told_one_more(told, event, now[k].0);
        }
    }
    assert forall|i: usize| was_told(told.push(event), i) implies #[trigger] has_call(now, i) by {
        lemma_told_one_more(told, event, i);
        if i == index {
            assert(now[index as int].0 == index);
        } else {
            assert(has_call(calls, i));
            let k = choose|k: int| 0 <= k < calls.len() && (#[trigger] calls[k]).0 == i;
            assert(now[k] == calls[k]);
        }
    }
}

/// Whatever event is read, the calls stay as they are told.
pub proof fn law_events_tell_the_calls_as_they_are(
    p: crate::ai::sse::ParserView,
    handed: Seq<crate::ai::types::StreamView>,
    event: crate::ai::anthropic::EventView,
)
    requires
        calls_in_step(p, handed),
        numbered(p.state.tool_calls),
        event.index matches Some(i) ==> i < usize::MAX,
        event.index is None ==> p.state.tool_calls.len() < usize::MAX,
    ensures
        calls_in_step(crate::ai::anthropic::event_applied(p, event), handed),
        numbered(crate::ai::anthropic::event_applied(p, event).state.tool_calls),
{
    if !p.finished {
        let q = p.start();
        lemma_started(p, handed);
        let told = handed + q.queue;
        if event.event_type == "message_start"@ {
        } else if event.event_type == "content_block_start"@ {
            if let Some(block) = event.content_block {
                if block.block_type == "tool_use"@ {
                    let at = match event.index {
                        Some(i) => i,
                        None => q.state.tool_calls.len() as usize,
                    };
                    lemma_call_changed(
                        q,
                        handed,
                        at,
                        crate::ai::anthropic::opened_call(
                            crate::ai::anthropic::grown(q.state.tool_calls, at)[at as int].1,
                            block,
                        ),
                    );
                }
            }
        } else if event.event_type == "content_block_delta"@ {
            if let Some(delta) = event.delta {
                lemma_delta_applied(q, handed, event.index, delta);
            }
        }
    }
}

proof fn lemma_delta_applied(
    p: crate::ai::sse::ParserView,
    handed: Seq<crate::ai::types::StreamView>,
    index: Option<usize>,
    delta: crate::ai::anthropic::WireDeltaView,
)
    requires
        !p.finished,
        calls_in_step(p, handed),
        numbered(p.state.tool_calls),
        index matches Some(i) ==> i < usize::MAX,
    ensures
        calls_in_step(crate::ai::anthropic::delta_applied(p, index, delta), handed),
        numbered(crate::ai::anthropic::delta_applied(p, index, delta).state.tool_calls),
{
    let q = crate::ai::anthropic::delta_applied(p, index, delta);
    let told = handed + p.queue;
    if delta.delta_type == "text_delta"@ {
        if let Some(t) = delta.text {
            let event = crate::ai::types::StreamView::TextDelta { delta: t };
            assert(handed + q.queue =~= told.push(event));
            lemma_agree_after_other(p.state.tool_calls, told, event);
        }
    } else if delta.delta_type == "thinking_delta"@ {
        if let Some(t) = delta.thinking {
            let event = crate::ai::types::StreamView::ThinkingDelta { delta: t };
            assert(handed + q.queue =~= told.push(event));
            lemma_agree_after_other(p.state.tool_calls, told, event);
        }
    } else if delta.delta_type == "input_json_delta"@ {
        if let Some(partial) = delta.partial_json {
            let at = match index {
                Some(i) => i,
                None => 0,
            };
            let call = crate::ai::anthropic::grown(p.state.tool_calls, at)[at as int].1;
            lemma_call_changed(
                p,
                handed,
                at,
                crate::ai::sse::CallView { arguments: call.arguments + partial, ..call },
            );
        }
    }
}

/// A parser after events.
pub open spec fn read_events(
    p: crate::ai::sse::ParserView,
    events: Seq<crate::ai::anthropic::EventView>,
) -> crate::ai::sse::ParserView
    decreases events.len(),
{
    if events.len() == 0 {
        p
    } else {
        crate::ai::anthropic::event_applied(read_events(p, events.drop_last()), events.last())
    }
}

/// Whether an event ends the reply.
pub open spec fn ends_reply(event: crate::ai::anthropic::EventView) -> bool {
    event.event_type == "message_stop"@ || event.event_type == "error"@
}

/// Whether an event opens the call with this index.
pub open spec fn opens_call(event: crate::ai::anthropic::EventView, at: usize) -> bool {
    event.event_type == "content_block_start"@ && event.content_block is Some
        && event.content_block->0.block_type == "tool_use"@ && (event.index is None || event.index
        == Some(at))
}

/// Whether an event is an addition of this kind.
pub open spec fn adds(event: crate::ai::anthropic::EventView, kind: Seq<char>) -> bool {
    event.event_type == "content_block_delta"@ && event.delta is Some
        && event.delta->0.delta_type == kind
}

/// The partial JSON that an event brings for the call with this index.
pub open spec fn partial_for(event: crate::ai::anthropic::EventView, at: usize) -> Seq<char> {
    if adds(event, "input_json_delta"@) && event.delta->0.partial_json is Some && (event.index
        == Some(at) || (event.index is None && at == 0)) {
        event.delta->0.partial_json->0
    } else {
        seq![]
    }
}

/// The text that an event brings.
pub open spec fn text_sent(event: crate::ai::anthropic::EventView) -> Seq<char> {
    if adds(event, "text_delta"@) && event.delta->0.text is Some {
        event.delta->0.text->0
    } else {
        seq![]
    }
}

/// The reasoning that an event brings.
pub open spec fn thinking_sent(event: crate::ai::anthropic::EventView) -> Seq<char> {
    if adds(event, "thinking_delta"@) && event.delta->0.thinking is Some {
        event.delta->0.thinking->0
    } else {
        seq![]
    }
}

proof fn lemma_kinds_differ()
    ensures
        "message_start"@ != "content_block_start"@,
        "message_start"@ != "content_block_delta"@,
        "message_start"@ != "message_delta"@,
        "content_block_start"@ != "content_block_delta"@,
        "content_block_start"@ != "message_delta"@,
        "content_block_delta"@ != "message_delta"@,
        "message_stop"@ != "message_start"@,
        "message_stop"@ != "content_block_start"@,
        "message_stop"@ != "content_block_delta"@,
        "message_stop"@ != "message_delta"@,
        "message_stop"@ != "error"@,
        "error"@ != "message_start"@,
        "error"@ != "content_block_start"@,
        "error"@ != "content_block_delta"@,
        "error"@ != "message_delta"@,
        "text_delta"@ != "thinking_delta"@,
        "text_delta"@ != "input_json_delta"@,
        "thinking_delta"@ != "input_json_delta"@,
{
    reveal_strlit("message_start");
    reveal_strlit("content_block_start");
    reveal_strlit("content_block_delta");
    reveal_strlit("message_delta");
    reveal_strlit("message_stop");
    reveal_strlit("error");
    reveal_strlit("text_delta");
    reveal_strlit("thinking_delta");
    reveal_strlit("input_json_delta");
    assert("message_start"@[8] != "message_delta"@[8]);
    assert("content_block_start"@[14] != "content_block_delta"@[14]);
    assert("message_start"@.len() == 13);
    assert("content_block_start"@.len() == 19);
    assert("content_block_delta"@.len() == 19);
    assert("message_delta"@.len() == 13);
    assert("message_stop"@.len() == 12);
    assert("error"@.len() == 5);
    assert("text_delta"@.len() == 10);
    assert("thinking_delta"@.len() == 14);
    assert("input_json_delta"@.len() == 16);
}

/// An event that neither opens the call with this index nor ends the reply adds its
/// partial JSON to the arguments of that call, and changes nothing else of it.
proof fn lemma_event_and_call(
    p: crate::ai::sse::ParserView,
    handed: Seq<crate::ai::types::StreamView>,
    event: crate::ai::anthropic::EventView,
    at: usize,
)
    requires
        !p.finished,
        calls_in_step(p, handed),
        numbered(p.state.tool_calls),
        at < p.state.tool_calls.len(),
        event.index matches Some(i) && i < usize::MAX,
        !opens_call(event, at),
        !ends_reply(event),
    ensures
        ({
            let q = crate::ai::anthropic::event_applied(p, event);
            let before = p.state.tool_calls[at as int].1;
            &&& !q.finished
            &&& calls_in_step(q, handed)
            &&& numbered(q.state.tool_calls)
            &&& at < q.state.tool_calls.len()
            &&& q.state.tool_calls[at as int].1 == (crate::ai::sse::CallView {
                arguments: before.arguments + partial_for(event, at),
                ..before
            })
        }),
{
    lemma_kinds_differ();
    law_events_tell_the_calls_as_they_are(p, handed, event);
    let s = p.start();
    lemma_started(p, handed);
    let before = p.state.tool_calls[at as int].1;
    assert(before.arguments + Seq::<char>::empty() =~= before.arguments);
    let i = event.index->0;
    lemma_grown(s.state.tool_calls, handed + s.queue, i);
    let grown = crate::ai::anthropic::grown(s.state.tool_calls, i);
    if event.event_type == "content_block_start"@ && event.content_block is Some {
        let block = event.content_block->0;
        if block.block_type == "tool_use"@ {
            lemma_call_changed(
                s,
                handed,
                i,
                crate::ai::anthropic::opened_call(grown[i as int].1, block),
            );
        }
    } else if adds(event, "input_json_delta"@) && event.delta->0.partial_json is Some {
        let call = grown[i as int].1;
        let partial = event.delta->0.partial_json->0;
        lemma_call_changed(
            s,
            handed,
            i,
            crate::ai::sse::CallView { arguments: call.arguments + partial, ..call },
        );
    }
}

/// The text of the input with which a block is opened, where it has any.
pub open spec fn input_sent(opening: crate::ai::anthropic::EventView) -> Seq<char> {
    if opening.content_block->0.input is Some {
        crate::json::json_text(opening.content_block->0.input->0)
    } else {
        seq![]
    }
}

/// A call is told with the id and the name with which its block was opened, and with
/// the input of the block and the partial JSON that was received for it, one piece
/// after the other; whatever else is received in between.
pub proof fn law_calls_are_told_as_they_were_opened(
    p: crate::ai::sse::ParserView,
    handed: Seq<crate::ai::types::StreamView>,
    opening: crate::ai::anthropic::EventView,
    at: usize,
    events: Seq<crate::ai::anthropic::EventView>,
)
    requires
        !p.finished,
        calls_in_step(p, handed),
        numbered(p.state.tool_calls),
        !was_told(handed + p.queue, at),
        at < usize::MAX,
        opens_call(opening, at),
        opening.index == Some(at),
        opening.content_block->0.id is Some,
        opening.content_block->0.name is Some,
        forall|i: int|
            0 <= i < events.len() ==> !opens_call(#[trigger] events[i], at) && !ends_reply(
                events[i],
            ) && events[i].index is Some && events[i].index->0 < usize::MAX,
    ensures
        ({
            let q = read_events(crate::ai::anthropic::event_applied(p, opening), events);
            let call = crate::ai::sse::CallView {
                id: opening.content_block->0.id->0,
                name: opening.content_block->0.name->0,
                arguments: input_sent(opening) + events.map_values(
                    |e: crate::ai::anthropic::EventView| partial_for(e, at),
                ).flatten(),
            };
            &&& !q.finished
            &&& calls_in_step(q, handed)
            &&& numbered(q.state.tool_calls)
            &&& at < q.state.tool_calls.len()
            &&& q.state.tool_calls[at as int].1 == call
            &&& last_told(handed + q.queue, at) == call
        }),
    decreases events.len(),
{
    broadcast use Seq::lemma_flatten_push;

    lemma_kinds_differ();
    let f = |e: crate::ai::anthropic::EventView| partial_for(e, at);
    let q = read_events(crate::ai::anthropic::event_applied(p, opening), events);
    if events.len() == 0 {
        let s = p.start();
        lemma_started(p, handed);
        lemma_grown(s.state.tool_calls, handed + s.queue, at);
        let grown = crate::ai::anthropic::grown(s.state.tool_calls, at);
        assert(!was_told(handed + s.queue, at)) by {
            if !p.state.started {
                assert(handed + s.queue =~= (handed + p.queue).push(
                    crate::ai::types::StreamView::Start,
                ));
                lemma_told_one_more(
                    handed + p.queue,
                    crate::ai::types::StreamView::Start,
                    at,
                );
            }
        }
        lemma_nothing_told(handed + s.queue, at);
        assert(grown[at as int].1 == last_told(handed + s.queue, grown[at as int].0));
        lemma_call_changed(
            s,
            handed,
            at,
            crate::ai::anthropic::opened_call(grown[at as int].1, opening.content_block->0),
        );
        assert(events.map_values(f) =~= seq![]);
        assert(input_sent(opening) + Seq::<char>::empty() =~= input_sent(opening));
    } else {
        let init = events.drop_last();
        assert forall|i: int| 0 <= i < init.len() implies !opens_call(#[trigger] init[i], at)
            && !ends_reply(init[i]) && init[i].index is Some && init[i].index->0 < usize::MAX by {
            assert(init[i] == events[i]);
        }
        law_calls_are_told_as_they_were_opened(p, handed, opening, at, init);
        let before = read_events(crate::ai::anthropic::event_applied(p, opening), init);
        assert(events.last() == events[events.len() - 1]);
        lemma_event_and_call(before, handed, events.last(), at);
        let last = partial_for(events.last(), at);
        assert(events.map_values(f) =~= init.map_values(f).push(last));
        assert(input_sent(opening) + (init.map_values(f).flatten() + last) =~= input_sent(opening)
            + init.map_values(f).flatten() + last);
        assert(q.state.tool_calls[at as int].0 == at);
    }
}

proof fn lemma_event_and_text(
    p: crate::ai::sse::ParserView,
    event: crate::ai::anthropic::EventView,
)
    requires
        !p.finished,
        !ends_reply(event),
    ensures
        ({
            let q = crate::ai::anthropic::event_applied(p, event);
            &&& !q.finished
            &&& crate::ai::order::spoken(q.queue) == crate::ai::order::spoken(p.queue) + text_sent(
                event,
            )
            &&& crate::ai::order::thought(q.queue) == crate::ai::order::thought(p.queue)
                + thinking_sent(event)
            &&& q.state.text == p.state.text + text_sent(event)
            &&& q.state.thinking == p.state.thinking + thinking_sent(event)
        }),
{
    lemma_kinds_differ();
    let s = p.start();
    let q = crate::ai::anthropic::event_applied(p, event);
    let none = Seq::<char>::empty();
    assert(p.state.text + none =~= p.state.text);
    assert(p.state.thinking + none =~= p.state.thinking);
    let said = crate::ai::order::spoken(p.queue);
    let thought = crate::ai::order::thought(p.queue);
    assert(said + none =~= said);
    assert(thought + none =~= thought);
    if !p.state.started {
        assert(s.queue.drop_last() =~= p.queue);
    }
    assert(crate::ai::order::spoken(s.queue) == said);
    assert(crate::ai::order::thought(s.queue) == thought);
    if q.queue != s.queue {
        assert(q.queue.drop_last() =~= s.queue);
    }
}

/// All text that is sent is told, one piece after the other, and all reasoning likewise.
pub proof fn law_text_is_told_as_it_was_sent(
    p: crate::ai::sse::ParserView,
    events: Seq<crate::ai::anthropic::EventView>,
)
    requires
        !p.finished,
        forall|i: int| 0 <= i < events.len() ==> !ends_reply(#[trigger] events[i]),
    ensures
        ({
            let q = read_events(p, events);
            let said = events.map_values(
                |e: crate::ai::anthropic::EventView| text_sent(e),
            ).flatten();
            let thought = events.map_values(
                |e: crate::ai::anthropic::EventView| thinking_sent(e),
            ).flatten();
            &&& !q.finished
            &&& crate::ai::order::spoken(q.queue) == crate::ai::order::spoken(p.queue) + said
            &&& crate::ai::order::thought(q.queue) == crate::ai::order::thought(p.queue) + thought
            &&& q.state.text == p.state.text + said
            &&& q.state.thinking == p.state.thinking + thought
        }),
    decreases events.len(),
{
    broadcast use Seq::lemma_flatten_push;

    let f = |e: crate::ai::anthropic::EventView| text_sent(e);
    let g = |e: crate::ai::anthropic::EventView| thinking_sent(e);
    let said = crate::ai::order::spoken(p.queue);
    let thought = crate::ai::order::thought(p.queue);
    if events.len() == 0 {
        assert(events.map_values(f) =~= seq![]);
        assert(events.map_values(g) =~= seq![]);
        let none = Seq::<char>::empty();
        assert(said + none =~= said);
        assert(thought + none =~= thought);
        assert(p.state.text + none =~= p.state.text);
        assert(p.state.thinking + none =~= p.state.thinking);
    } else {
        let init = events.drop_last();
        let last = events.last();
        assert(last == events[events.len() - 1]);
        assert forall|i: int| 0 <= i < init.len() implies !ends_reply(#[trigger] init[i]) by {
            assert(init[i] == events[i]);
        }
        law_text_is_told_as_it_was_sent(p, init);
        lemma_event_and_text(read_events(p, init), last);
        assert(events.map_values(f) =~= init.map_values(f).push(text_sent(last)));
        assert(events.map_values(g) =~= init.map_values(g).push(thinking_sent(last)));
        let a = init.map_values(f).flatten();
        let b = init.map_values(g).flatten();
        assert(said + (a + text_sent(last)) =~= said + a + text_sent(last));
        assert(thought + (b + thinking_sent(last)) =~= thought + b + thinking_sent(last));
        assert(p.state.text + (a + text_sent(last)) =~= p.state.text + a + text_sent(last));
        assert(p.state.thinking + (b + thinking_sent(last)) =~= p.state.thinking + b
            + thinking_sent(last));
    }
}

// ---------------------------------------------------------- chat completions
/// The index of the call that an addition is for.
pub open spec fn index_of(delta: crate::ai::openai::CallDeltaView) -> usize {
    if delta.index is Some {
        delta.index->0
    } else {
        0
    }
}

/// The piece of the name that an addition brings.
pub open spec fn name_sent(delta: crate::ai::openai::CallDeltaView) -> Seq<char> {
    if delta.function is Some && delta.function->0.name is Some {
        delta.function->0.name->0
    } else {
        seq![]
    }
}

/// The piece of the arguments that an addition brings.
pub open spec fn arguments_sent(delta: crate::ai::openai::CallDeltaView) -> Seq<char> {
    if delta.function is Some && delta.function->0.arguments is Some {
        delta.function->0.arguments->0
    } else {
        seq![]
    }
}

/// An addition to a call is told: the id that it brings, or the one that was told, and
/// the name and the arguments with the pieces that it brings behind what was told. No
/// other call changes, and the calls stay as they are told.
pub proof fn law_additions_are_told_behind_what_was_told(
    p: crate::ai::sse::ParserView,
    handed: Seq<crate::ai::types::StreamView>,
    delta: crate::ai::openai::CallDeltaView,
)
    requires
        !p.finished,
        calls_in_step(p, handed),
        indexed::sorted(p.state.tool_calls),
    ensures
        ({
            let q = crate::ai::openai::call_added(p, delta);
            let index = index_of(delta);
            let before = last_told(handed + p.queue, index);
            let now = last_told(handed + q.queue, index);
            &&& calls_in_step(q, handed)
            &&& indexed::sorted(q.state.tool_calls)
            &&& !q.finished
            &&& now.id == if delta.id is Some {
                delta.id->0
            } else {
                before.id
            }
            &&& now.name == before.name + name_sent(delta)
            &&& now.arguments == before.arguments + arguments_sent(delta)
            &&& forall|i: usize|
                i != index ==> #[trigger] last_told(handed + q.queue, i) == last_told(
                    handed + p.queue,
                    i,
                )
            &&& has_call(q.state.tool_calls, index)
        }),
{
    let calls = p.state.tool_calls;
    let told = handed + p.queue;
    let index = index_of(delta);
    let slot = indexed::slot_from(calls, index, 0);
    indexed::lemma_slot(calls, index, 0);
    let entered = crate::ai::openai::entered(calls, index);
    let q = crate::ai::openai::call_added(p, delta);
    let call = crate::ai::openai::added_to(entered[slot].1, delta);
    let event = crate::ai::types::StreamView::ToolCallDelta {
        index,
        id: call.id,
        name: call.name,
        arguments: call.arguments,
    };
    let known = slot < calls.len() && calls[slot].0 == index;
    assert(handed + q.queue =~= told.push(event));
    assert(told.push(event).drop_last() =~= told);
    let before = entered[slot].1;
    if !known {
        assert(!has_call(calls, index)) by {
            if has_call(calls, index) {
                let k = choose|k: int| 0 <= k < calls.len() && (#[trigger] calls[k]).0 == index;
                if k > slot {
                    assert(calls[slot].0 < calls[k].0);
                }
            }
        }
        lemma_nothing_told(told, index);
    }
    assert(before == last_told(told, index));
    assert(before.name + Seq::<char>::empty() =~= before.name);
    assert(before.arguments + Seq::<char>::empty() =~= before.arguments);
    assert forall|i: usize| i != index implies #[trigger] last_told(handed + q.queue, i)
        == last_told(handed + p.queue, i) by {
        lemma_told_one_more(told, event, i);
    }
    let now = q.state.tool_calls;
    assert(now[slot] == (index, call));
    assert forall|k: int| 0 <= k < now.len() implies (#[trigger] now[k]).1 == last_told(
        told.push(event),
        now[k].0,
    ) by {
        if k != slot {
            let from = if known || k < slot {
                k
            } else {
                k - 1
            };
            assert(now[k] == calls[from]);
            assert(calls[from].0 != index);
        }
    }
    assert forall|i: usize| was_told(told.push(event), i) implies #[trigger] has_call(now, i) by {
        lemma_told_one_more(told, event, i);
        if i == index {
            assert(now[slot].0 == index);
        } else {
            assert(has_call(calls, i));
            let k = choose|k: int| 0 <= k < calls.len() && (#[trigger] calls[k]).0 == i;
            assert(now[if known || k < slot { k } else { k + 1 }] == calls[k]);
        }
    }
}

/// The text that a choice brings.
pub open spec fn content_of(choice: crate::ai::openai::ChoiceView) -> Seq<char> {
    if choice.content is Some {
        choice.content->0
    } else {
        seq![]
    }
}

/// The reasoning that a choice brings.
pub open spec fn reasoning_of(choice: crate::ai::openai::ChoiceView) -> Seq<char> {
    if choice.reasoning_content is Some {
        choice.reasoning_content->0
    } else {
        seq![]
    }
}

/// Whether `q` tells and knows what `p` does with this text and this reasoning behind
/// it.
pub open spec fn tells_more(
    q: crate::ai::sse::ParserView,
    p: crate::ai::sse::ParserView,
    said: Seq<char>,
    thought: Seq<char>,
) -> bool {
    &&& q.finished == p.finished
    &&& crate::ai::order::spoken(q.queue) == crate::ai::order::spoken(p.queue) + said
    &&& crate::ai::order::thought(q.queue) == crate::ai::order::thought(p.queue) + thought
    &&& q.state.text == p.state.text + said
    &&& q.state.thinking == p.state.thinking + thought
}

proof fn lemma_tells_nothing_more(
    q: crate::ai::sse::ParserView,
    p: crate::ai::sse::ParserView,
)
    requires
        q.finished == p.finished,
        q.state.text == p.state.text,
        q.state.thinking == p.state.thinking,
        q.queue == p.queue || (q.queue.len() == p.queue.len() + 1 && q.queue.drop_last() == p.queue
            && !(q.queue.last() is TextDelta) && !(q.queue.last() is ThinkingDelta)),
    ensures
        tells_more(q, p, seq![], seq![]),
{
    let none = Seq::<char>::empty();
    assert(p.state.text + none =~= p.state.text);
    assert(p.state.thinking + none =~= p.state.thinking);
    assert(crate::ai::order::spoken(p.queue) + none =~= crate::ai::order::spoken(p.queue));
    assert(crate::ai::order::thought(p.queue) + none =~= crate::ai::order::thought(p.queue));
}

proof fn lemma_tells_more_of_more(
    r: crate::ai::sse::ParserView,
    q: crate::ai::sse::ParserView,
    p: crate::ai::sse::ParserView,
    said: Seq<char>,
    thought: Seq<char>,
    more_said: Seq<char>,
    more_thought: Seq<char>,
)
    requires
        tells_more(q, p, said, thought),
        tells_more(r, q, more_said, more_thought),
    ensures
        tells_more(r, p, said + more_said, thought + more_thought),
{
    assert(r.state.text =~= p.state.text + (said + more_said));
    assert(r.state.thinking =~= p.state.thinking + (thought + more_thought));
    assert(crate::ai::order::spoken(r.queue) =~= crate::ai::order::spoken(p.queue) + (said
        + more_said));
    assert(crate::ai::order::thought(r.queue) =~= crate::ai::order::thought(p.queue) + (thought
        + more_thought));
}

proof fn lemma_calls_tell_no_text(
    p: crate::ai::sse::ParserView,
    deltas: Seq<crate::ai::openai::CallDeltaView>,
)
    ensures
        tells_more(crate::ai::openai::calls_added(p, deltas), p, seq![], seq![]),
    decreases deltas.len(),
{
    if deltas.len() == 0 {
        lemma_tells_nothing_more(p, p);
    } else {
        lemma_calls_tell_no_text(p, deltas.drop_last());
        let q = crate::ai::openai::calls_added(p, deltas.drop_last());
        let r = crate::ai::openai::calls_added(p, deltas);
        assert(r.queue.drop_last() =~= q.queue);
        lemma_tells_nothing_more(r, q);
        lemma_tells_more_of_more(r, q, p, seq![], seq![], seq![], seq![]);
        assert(Seq::<char>::empty() + Seq::<char>::empty() =~= seq![]);
    }
}

proof fn lemma_choice_tells(
    p: crate::ai::sse::ParserView,
    choice: crate::ai::openai::ChoiceView,
)
    ensures
        tells_more(
            crate::ai::openai::choice_applied(p, choice),
            p,
            content_of(choice),
            reasoning_of(choice),
        ),
{
    let none = Seq::<char>::empty();
    let q = crate::ai::openai::content_applied(p, choice.content);
    if content_of(choice).len() > 0 {
        assert(q.queue.drop_last() =~= p.queue);
        assert(crate::ai::order::thought(p.queue) + none =~= crate::ai::order::thought(p.queue));
        assert(p.state.thinking + none =~= p.state.thinking);
    } else {
        lemma_tells_nothing_more(q, p);
        assert(content_of(choice) =~= none);
    }
    assert(tells_more(q, p, content_of(choice), none));
    let r = crate::ai::openai::reasoning_applied(q, choice.reasoning_content);
    if reasoning_of(choice).len() > 0 {
        assert(r.queue.drop_last() =~= q.queue);
        assert(crate::ai::order::spoken(q.queue) + none =~= crate::ai::order::spoken(q.queue));
        assert(q.state.text + none =~= q.state.text);
    } else {
        lemma_tells_nothing_more(r, q);
        assert(reasoning_of(choice) =~= none);
    }
    assert(tells_more(r, q, none, reasoning_of(choice)));
    lemma_tells_more_of_more(r, q, p, content_of(choice), none, none, reasoning_of(choice));
    let s = crate::ai::openai::calls_added(r, choice.tool_calls);
    lemma_calls_tell_no_text(r, choice.tool_calls);
    lemma_tells_more_of_more(
        s,
        r,
        p,
        content_of(choice) + none,
        none + reasoning_of(choice),
        none,
        none,
    );
    let t = crate::ai::openai::choice_applied(p, choice);
    lemma_tells_nothing_more(t, s);
    assert(content_of(choice) + none + none =~= content_of(choice));
    assert(none + reasoning_of(choice) + none =~= reasoning_of(choice));
}

/// All text in the choices of a chunk is told, one piece after the other, and all
/// reasoning likewise; a chunk that comes behind the end of the reply changes nothing.
pub proof fn law_chunks_are_told_as_they_were_sent(
    p: crate::ai::sse::ParserView,
    chunk: crate::ai::openai::ChunkView,
)
    ensures
        p.finished ==> crate::ai::openai::chunk_applied(p, chunk) == p,
        !p.finished ==> tells_more(
            crate::ai::openai::chunk_applied(p, chunk),
            p,
            chunk.choices.map_values(
                |c: crate::ai::openai::ChoiceView| content_of(c),
            ).flatten(),
            chunk.choices.map_values(
                |c: crate::ai::openai::ChoiceView| reasoning_of(c),
            ).flatten(),
        ),
        !p.finished && chunk.usage is Some ==> {
            let u = crate::ai::openai::chunk_applied(p, chunk).state.usage;
            u is Some && u->0.input_tokens == chunk.usage->0.prompt_tokens && u->0.output_tokens
                == chunk.usage->0.completion_tokens && u->0.total_tokens
                == chunk.usage->0.total_tokens
        },
        !p.finished && chunk.usage is None ==> crate::ai::openai::chunk_applied(
            p,
            chunk,
        ).state.usage == p.state.usage,
{
    if !p.finished {
        let counted = match chunk.usage {
            Some(u) => p.with_state(
                crate::ai::sse::DeltaView { usage: Some(u.spec_usage()), ..p.state },
            ),
            None => p,
        };
        let s = counted.start();
        if !p.state.started {
            assert(s.queue.drop_last() =~= p.queue);
        }
        lemma_tells_nothing_more(s, p);
        lemma_choices_tell(s, chunk.choices);
        let said = chunk.choices.map_values(
            |c: crate::ai::openai::ChoiceView| content_of(c),
        ).flatten();
        let thought = chunk.choices.map_values(
            |c: crate::ai::openai::ChoiceView| reasoning_of(c),
        ).flatten();
        lemma_tells_more_of_more(
            crate::ai::openai::chunk_applied(p, chunk),
            s,
            p,
            seq![],
            seq![],
            said,
            thought,
        );
        assert(Seq::<char>::empty() + said =~= said);
        assert(Seq::<char>::empty() + thought =~= thought);
    }
}

proof fn lemma_choices_tell(
    p: crate::ai::sse::ParserView,
    choices: Seq<crate::ai::openai::ChoiceView>,
)
    ensures
        tells_more(
            crate::ai::openai::choices_applied(p, choices),
            p,
            choices.map_values(|c: crate::ai::openai::ChoiceView| content_of(c)).flatten(),
            choices.map_values(|c: crate::ai::openai::ChoiceView| reasoning_of(c)).flatten(),
        ),
        crate::ai::openai::choices_applied(p, choices).state.usage == p.state.usage,
    decreases choices.len(),
{
    broadcast use Seq::lemma_flatten_push;

    let f = |c: crate::ai::openai::ChoiceView| content_of(c);
    let g = |c: crate::ai::openai::ChoiceView| reasoning_of(c);
    if choices.len() == 0 {
        assert(choices.map_values(f) =~= seq![]);
        assert(choices.map_values(g) =~= seq![]);
        lemma_tells_nothing_more(p, p);
    } else {
        let init = choices.drop_last();
        let last = choices.last();
        lemma_choices_tell(p, init);
        let q = crate::ai::openai::choices_applied(p, init);
        lemma_choice_tells(q, last);
        lemma_calls_keep_the_counts(
            crate::ai::openai::reasoning_applied(
                crate::ai::openai::content_applied(q, last.content),
                last.reasoning_content,
            ),
            last.tool_calls,
        );
        assert(choices.map_values(f) =~= init.map_values(f).push(content_of(last)));
        assert(choices.map_values(g) =~= init.map_values(g).push(reasoning_of(last)));
        lemma_tells_more_of_more(
            crate::ai::openai::choices_applied(p, choices),
            q,
            p,
            init.map_values(f).flatten(),
            init.map_values(g).flatten(),
            content_of(last),
            reasoning_of(last),
        );
    }
}

proof fn lemma_calls_keep_the_counts(
    p: crate::ai::sse::ParserView,
    deltas: Seq<crate::ai::openai::CallDeltaView>,
)
    ensures
        crate::ai::openai::calls_added(p, deltas).state.usage == p.state.usage,
    decreases deltas.len(),
{
    if deltas.len() > 0 {
        lemma_calls_keep_the_counts(p, deltas.drop_last());
    }
}

/// The piece of the arguments that an addition brings to the call with this index.
pub open spec fn arguments_for(
    delta: crate::ai::openai::CallDeltaView,
    at: usize,
) -> Seq<char> {
    if index_of(delta) == at {
        arguments_sent(delta)
    } else {
        seq![]
    }
}

/// The arguments that a choice brings to the call with this index.
pub open spec fn arguments_in(choice: crate::ai::openai::ChoiceView, at: usize) -> Seq<char> {
    choice.tool_calls.map_values(
        |d: crate::ai::openai::CallDeltaView| arguments_for(d, at),
    ).flatten()
}

/// Whether `q` knows the calls as it tells them, and has told these arguments behind
/// those that `p` told of the call with this index.
pub open spec fn tells_arguments(
    q: crate::ai::sse::ParserView,
    p: crate::ai::sse::ParserView,
    handed: Seq<crate::ai::types::StreamView>,
    at: usize,
    arguments: Seq<char>,
) -> bool {
    &&& !q.finished
    &&& calls_in_step(q, handed)
    &&& indexed::sorted(q.state.tool_calls)
    &&& last_told(handed + q.queue, at).arguments == last_told(handed + p.queue, at).arguments
        + arguments
}

proof fn lemma_additions_add_up(
    p: crate::ai::sse::ParserView,
    handed: Seq<crate::ai::types::StreamView>,
    deltas: Seq<crate::ai::openai::CallDeltaView>,
    at: usize,
)
    requires
        !p.finished,
        calls_in_step(p, handed),
        indexed::sorted(p.state.tool_calls),
    ensures
        tells_arguments(
            crate::ai::openai::calls_added(p, deltas),
            p,
            handed,
            at,
            deltas.map_values(
                |d: crate::ai::openai::CallDeltaView| arguments_for(d, at),
            ).flatten(),
        ),
    decreases deltas.len(),
{
    broadcast use Seq::lemma_flatten_push;

    let f = |d: crate::ai::openai::CallDeltaView| arguments_for(d, at);
    let before = last_told(handed + p.queue, at).arguments;
    let none = Seq::<char>::empty();
    if deltas.len() == 0 {
        assert(deltas.map_values(f) =~= seq![]);
        assert(before + none =~= before);
    } else {
        let init = deltas.drop_last();
        let last = deltas.last();
        lemma_additions_add_up(p, handed, init, at);
        let q = crate::ai::openai::calls_added(p, init);
        law_additions_are_told_behind_what_was_told(q, handed, last);
        assert(deltas.map_values(f) =~= init.map_values(f).push(arguments_for(last, at)));
        let then = last_told(handed + q.queue, at).arguments;
        assert(then + none =~= then);
        let sum = init.map_values(f).flatten();
        assert(before + (sum + arguments_for(last, at)) =~= before + sum + arguments_for(last, at));
    }
}

proof fn lemma_other_events_keep_the_calls(
    q: crate::ai::sse::ParserView,
    p: crate::ai::sse::ParserView,
    handed: Seq<crate::ai::types::StreamView>,
    at: usize,
)
    requires
        !p.finished,
        calls_in_step(p, handed),
        indexed::sorted(p.state.tool_calls),
        q.finished == p.finished,
        q.state.tool_calls == p.state.tool_calls,
        q.queue == p.queue || (q.queue.len() == p.queue.len() + 1 && q.queue.drop_last() == p.queue
            && !(q.queue.last() is ToolCallDelta)),
    ensures
        tells_arguments(q, p, handed, at, seq![]),
{
    let before = last_told(handed + p.queue, at).arguments;
    assert(before + Seq::<char>::empty() =~= before);
    if q.queue != p.queue {
        let event = q.queue.last();
        assert(handed + q.queue =~= (handed + p.queue).push(event));
        lemma_agree_after_other(p.state.tool_calls, handed + p.queue, event);
        lemma_told_one_more(handed + p.queue, event, at);
    }
}

proof fn lemma_choice_and_calls(
    p: crate::ai::sse::ParserView,
    handed: Seq<crate::ai::types::StreamView>,
    choice: crate::ai::openai::ChoiceView,
    at: usize,
)
    requires
        !p.finished,
        calls_in_step(p, handed),
        indexed::sorted(p.state.tool_calls),
    ensures
        tells_arguments(
            crate::ai::openai::choice_applied(p, choice),
            p,
            handed,
            at,
            arguments_in(choice, at),
        ),
{
    let q = crate::ai::openai::content_applied(p, choice.content);
    if q.queue != p.queue {
        assert(q.queue.drop_last() =~= p.queue);
    }
    lemma_other_events_keep_the_calls(q, p, handed, at);
    let r = crate::ai::openai::reasoning_applied(q, choice.reasoning_content);
    if r.queue != q.queue {
        assert(r.queue.drop_last() =~= q.queue);
    }
    lemma_other_events_keep_the_calls(r, q, handed, at);
    lemma_additions_add_up(r, handed, choice.tool_calls, at);
    let s = crate::ai::openai::calls_added(r, choice.tool_calls);
    let t = crate::ai::openai::choice_applied(p, choice);
    lemma_other_events_keep_the_calls(t, s, handed, at);
    let before = last_told(handed + p.queue, at).arguments;
    let none = Seq::<char>::empty();
    let sum = arguments_in(choice, at);
    assert(before + none + none + sum + none =~= before + sum);
}

proof fn lemma_choices_and_calls(
    p: crate::ai::sse::ParserView,
    handed: Seq<crate::ai::types::StreamView>,
    choices: Seq<crate::ai::openai::ChoiceView>,
    at: usize,
)
    requires
        !p.finished,
        calls_in_step(p, handed),
        indexed::sorted(p.state.tool_calls),
    ensures
        tells_arguments(
            crate::ai::openai::choices_applied(p, choices),
            p,
            handed,
            at,
            choices.map_values(|c: crate::ai::openai::ChoiceView| arguments_in(c, at)).flatten(),
        ),
    decreases choices.len(),
{
    broadcast use Seq::lemma_flatten_push;

    let f = |c: crate::ai::openai::ChoiceView| arguments_in(c, at);
    let before = last_told(handed + p.queue, at).arguments;
    if choices.len() == 0 {
        assert(choices.map_values(f) =~= seq![]);
        assert(before + Seq::<char>::empty() =~= before);
    } else {
        let init = choices.drop_last();
        let last = choices.last();
        lemma_choices_and_calls(p, handed, init, at);
        lemma_choice_and_calls(crate::ai::openai::choices_applied(p, init), handed, last, at);
        assert(choices.map_values(f) =~= init.map_values(f).push(arguments_in(last, at)));
        let sum = init.map_values(f).flatten();
        assert(before + (sum + arguments_in(last, at)) =~= before + sum + arguments_in(last, at));
    }
}

/// Whatever a chunk brings to a call is told, one piece after the other, behind what was
/// told of it; and the calls stay as they are told.
pub proof fn law_chunks_tell_the_calls_as_they_were_sent(
    p: crate::ai::sse::ParserView,
    handed: Seq<crate::ai::types::StreamView>,
    chunk: crate::ai::openai::ChunkView,
    at: usize,
)
    requires
        !p.finished,
        calls_in_step(p, handed),
        indexed::sorted(p.state.tool_calls),
    ensures
        tells_arguments(
            crate::ai::openai::chunk_applied(p, chunk),
            p,
            handed,
            at,
            chunk.choices.map_values(
                |c: crate::ai::openai::ChoiceView| arguments_in(c, at),
            ).flatten(),
        ),
{
    let counted = match chunk.usage {
        Some(u) => p.with_state(
            crate::ai::sse::DeltaView { usage: Some(u.spec_usage()), ..p.state },
        ),
        None => p,
    };
    let s = counted.start();
    if s.queue != p.queue {
        assert(s.queue.drop_last() =~= p.queue);
    }
    lemma_other_events_keep_the_calls(s, p, handed, at);
    lemma_choices_and_calls(s, handed, chunk.choices, at);
    let before = last_told(handed + p.queue, at).arguments;
    assert(before + Seq::<char>::empty() =~= before);
}

// ------------------------------------------------------------------- the end
/// The message at the end of a reply is what was told: its text, its reasoning, and its
/// calls as they were told last, with the document that their arguments write. It bears
/// the model and the token counts.
pub proof fn law_the_end_is_what_was_told(
    p: crate::ai::sse::ParserView,
    handed: Seq<crate::ai::types::StreamView>,
)
    requires
        !p.finished,
        crate::ai::order::in_step(p, handed),
        calls_in_step(p, handed),
    ensures
        ({
            let told = handed + p.queue;
            let end = crate::ai::sse::done_once(p).queue.last();
            let message = end->Done_message;
            let parts = message.content;
            let said = crate::ai::order::spoken(told);
            let thought = crate::ai::order::thought(told);
            let first = crate::agent::laws::parts_before_calls(said, thought);
            let calls = p.state.tool_calls;
            &&& end is Done
            &&& message.model == p.model
            &&& message.usage == p.state.usage
            &&& message.error_message is None
            &&& p.state.stop_reason is Some ==> message.stop_reason == p.state.stop_reason->0
            &&& p.state.stop_reason is None ==> message.stop_reason == if calls.len() > 0 {
                StopReason::ToolUse
            } else {
                StopReason::Stop
            }
            &&& parts.len() == first + calls.len()
            &&& said.len() > 0 ==> parts[0] == (crate::ai::types::ContentView::Text { text: said })
            &&& thought.len() > 0 ==> parts[first - 1]
                == (crate::ai::types::ContentView::Thinking { thinking: thought })
            &&& forall|k: int|
                0 <= k < calls.len() ==> call_is_part(
                    last_told(told, calls[k].0),
                    #[trigger] parts[first + k],
                )
            &&& forall|index: usize| was_told(told, index) ==> #[trigger] has_call(calls, index)
        }),
{
    let told = handed + p.queue;
    let calls = p.state.tool_calls;
    let parts = crate::ai::sse::done_content(p.state);
    let first = crate::agent::laws::parts_before_calls(p.state.text, p.state.thinking);
    assert forall|k: int| 0 <= k < calls.len() implies call_is_part(
        last_told(told, calls[k].0),
        #[trigger] parts[first + k],
    ) by {
        assert(parts[first + k] == crate::ai::sse::call_part(calls[k].1));
    }
}

/// Whether a part of a message is this call.
pub open spec fn call_is_part(
    call: crate::ai::sse::CallView,
    part: crate::ai::types::ContentView,
) -> bool {
    &&& part is ToolCall
    &&& part->ToolCall_id == call.id
    &&& part->ToolCall_name == call.name
    &&& crate::json::parsed_json(call.arguments) matches Ok(j) ==> part->ToolCall_arguments == j
    &&& crate::json::parsed_json(call.arguments) is Err ==> part->ToolCall_arguments
        == crate::json::JsonView::Str(call.arguments)
}

/// The token counts of a reply are those of its beginning, but for what was written,
/// which is counted at its end.
pub proof fn law_counts_of_a_reply_are_merged(
    p: crate::ai::sse::ParserView,
    start: crate::ai::anthropic::EventView,
    end: crate::ai::anthropic::EventView,
    counted: crate::ai::anthropic::WireUsage,
    written: crate::ai::anthropic::WireUsage,
)
    requires
        !p.finished,
        start.event_type == "message_start"@,
        start.message == Some(Some(counted)),
        end.event_type == "message_delta"@,
        end.message == Some(Some(written)),
        counted.input_tokens + counted.cache_read_input_tokens + counted.cache_creation_input_tokens
            + written.output_tokens <= u64::MAX,
    ensures
        ({
            let q = crate::ai::anthropic::event_applied(
                crate::ai::anthropic::event_applied(p, start),
                end,
            );
            let u = q.state.usage->0;
            &&& q.state.usage is Some
            &&& u.input_tokens == counted.input_tokens
            &&& u.cache_read_tokens == counted.cache_read_input_tokens
            &&& u.cache_creation_tokens == counted.cache_creation_input_tokens
            &&& u.output_tokens == written.output_tokens
            &&& u.total_tokens == counted.input_tokens + counted.cache_read_input_tokens
                + counted.cache_creation_input_tokens + written.output_tokens
        }),
{
    lemma_kinds_differ();
}

// ---------------------------------------------------------------------- lines
proof fn lemma_newline(line: Seq<u8>, rest: Seq<u8>, from: int)
    requires
        0 <= from <= line.len(),
        forall|i: int| 0 <= i < line.len() ==> #[trigger] line[i] != 10u8,
    ensures
        crate::ai::sse::newline_from(line.push(10u8) + rest, from) == Some(line.len() as int),
    decreases line.len() - from,
{
    let all = line.push(10u8) + rest;
    if from < line.len() {
        assert(all[from] == line[from]);
        lemma_newline(line, rest, from + 1);
    } else {
        assert(all[from] == 10u8);
    }
}

proof fn lemma_no_newline(line: Seq<u8>, from: int)
    requires
        0 <= from <= line.len(),
        forall|i: int| 0 <= i < line.len() ==> #[trigger] line[i] != 10u8,
    ensures
        crate::ai::sse::newline_from(line, from) is None,
    decreases line.len() - from,
{
    if from < line.len() {
        lemma_no_newline(line, from + 1);
    }
}

/// Lines are read one by one, however they came in: the first that holds data is handed
/// out and the rest is kept, one without data is passed over, and one that is not
/// complete waits.
pub proof fn law_lines_are_read_one_by_one(
    p: crate::ai::sse::ParserView,
    line: Seq<u8>,
    rest: Seq<u8>,
)
    requires
        !p.finished,
        forall|i: int| 0 <= i < line.len() ==> #[trigger] line[i] != 10u8,
    ensures
        ({
            let all = crate::ai::sse::ParserView { buffer: line.push(10u8) + rest, ..p };
            let left = crate::ai::sse::ParserView { buffer: rest, ..p };
            &&& crate::ai::sse::line_of(line) matches crate::ai::sse::LineView::Data(data)
                ==> crate::ai::sse::drained(all) == (left, Some(data))
            &&& crate::ai::sse::line_of(line) is Skip ==> crate::ai::sse::drained(all)
                == crate::ai::sse::drained(left)
            &&& crate::ai::sse::line_of(line) is Done ==> crate::ai::sse::drained(all)
                == crate::ai::sse::drained(crate::ai::sse::done_once(left))
        }),
        crate::ai::sse::drained(crate::ai::sse::ParserView { buffer: line, ..p }) == (
            crate::ai::sse::ParserView { buffer: line, draining: false, ..p },
            None::<Seq<char>>,
        ),
{
    let all = line.push(10u8) + rest;
    lemma_newline(line, rest, 0);
    lemma_no_newline(line, 0);
    assert(all.take(line.len() as int) =~= line);
    assert(all.skip(1 + line.len() as int) =~= rest);
}

/// A line that says `data:` holds what follows it, without the spaces around it, but
/// for the word that ends a reply; any other line holds nothing.
pub proof fn law_data_follows_its_word(line: Seq<u8>, shown: Seq<char>, data: Seq<char>)
    ensures
        crate::ai::sse::lossy_text(line) == shown && data.len() > 0 && !crate::text::is_white(
            data[0],
        ) && !crate::text::is_white(data.last()) && shown == "data: "@ + data
            ==> crate::ai::sse::line_of(line) == if data == "[DONE]"@ {
            crate::ai::sse::LineView::Done
        } else {
            crate::ai::sse::LineView::Data(data)
        },
        crate::ai::sse::lossy_text(line) == shown && (shown.len() == 0 || shown == "event: "@ + data
            || shown == ":"@ + data) ==> crate::ai::sse::line_of(line) is Skip,
{
    reveal_strlit("data: ");
    reveal_strlit("data:");
    reveal_strlit("event: ");
    reveal_strlit(":");
    let whole = shown;
    let s = "data: "@ + data;
    if data.len() > 0 && !crate::text::is_white(data[0]) && !crate::text::is_white(data.last())
        && whole == s {
        assert(s[0] == 'd');
        assert(s.last() == data.last());
        assert(crate::text::spec_trim(s) == s);
        assert(s.take(5) =~= "data:"@);
        let rest = s.skip(5);
        assert(rest[0] == ' ');
        assert(rest.skip(1) =~= data);
        assert(crate::text::spec_trim_start(data) == data);
        assert(crate::text::spec_trim_start(rest) == data);
        assert(crate::text::spec_trim(rest) == data);
    }
    if whole.len() == 0 {
        assert(crate::text::spec_trim(whole).len() == 0);
    }
    let t = crate::text::spec_trim_start(whole);
    lemma_trim_end_keeps_the_beginning(t);
    let u = crate::text::spec_trim(whole);
    if crate::text::begins(u, "data:"@) {
        assert(u.subrange(0, 5)[0] == "data:"@[0]);
        assert(u[0] == t[0]);
        assert(t[0] == 'd');
    }
    if whole == "event: "@ + data {
        assert(whole[0] == 'e');
        assert(t == whole);
    }
    if whole == ":"@ + data {
        assert(whole[0] == ':');
        assert(t == whole);
    }
}

proof fn lemma_trim_end_keeps_the_beginning(s: Seq<char>)
    ensures
        crate::text::spec_trim_end(s).len() <= s.len(),
        forall|i: int|
            0 <= i < crate::text::spec_trim_end(s).len() ==> #[trigger] crate::text::spec_trim_end(
                s,
            )[i] == s[i],
    decreases s.len(),
{
    if s.len() > 0 && crate::text::is_white(s.last()) {
        lemma_trim_end_keeps_the_beginning(s.drop_last());
    }
}

/// The counts of a reply are taken over, each as what it is: what was read, what was
/// written, and what the cache served and took in.
pub proof fn law_counts_are_taken_over(usage: crate::ai::anthropic::WireUsage)
    requires
        usage.input_tokens + usage.output_tokens <= u64::MAX,
    ensures
        ({
            let u = usage.spec_usage();
            &&& u.input_tokens == usage.input_tokens
            &&& u.output_tokens == usage.output_tokens
            &&& u.cache_read_tokens == usage.cache_read_input_tokens
            &&& u.cache_creation_tokens == usage.cache_creation_input_tokens
            &&& u.total_tokens == u.input_tokens + u.output_tokens
        }),
{
}

/// The counts of a chat reply are taken over, the hits by whichever of its two counts
/// tells of more.
pub proof fn law_chat_counts_are_taken_over(usage: crate::ai::openai::WireUsage)
    ensures
        ({
            let u = usage.spec_usage();
            &&& u.input_tokens == usage.prompt_tokens
            &&& u.output_tokens == usage.completion_tokens
            &&& u.cache_creation_tokens == usage.prompt_cache_miss_tokens
            &&& u.total_tokens == usage.total_tokens
            &&& u.cache_read_tokens >= usage.prompt_cache_hit_tokens && u.cache_read_tokens
                >= usage.cached_tokens
            &&& u.cache_read_tokens == usage.prompt_cache_hit_tokens || u.cache_read_tokens
                == usage.cached_tokens
        }),
{
}

/// A reply ends as its reason says; a reason that is not known is a tool call exactly
/// where there is one.
pub proof fn law_reasons_say_how_a_reply_ends(called: bool, unknown: Seq<char>)
    requires
        unknown.len() == 0,
    ensures
        crate::ai::anthropic::stop_reason_of("end_turn"@, called) is Stop,
        crate::ai::anthropic::stop_reason_of("max_tokens"@, called) is Length,
        crate::ai::anthropic::stop_reason_of("tool_use"@, called) is ToolUse,
        crate::ai::anthropic::stop_reason_of(unknown, called) is ToolUse == called,
        crate::ai::openai::stop_reason_of("stop"@, called) is Stop,
        crate::ai::openai::stop_reason_of("length"@, called) is Length,
        crate::ai::openai::stop_reason_of("tool_calls"@, called) is ToolUse,
        crate::ai::openai::stop_reason_of(unknown, called) is ToolUse == called,
{
    reveal_strlit("end_turn");
    reveal_strlit("stop_sequence");
    reveal_strlit("max_tokens");
    reveal_strlit("tool_use");
    reveal_strlit("stop");
    reveal_strlit("length");
    reveal_strlit("tool_calls");
    reveal_strlit("function_call");
    assert("end_turn"@.len() == 8 && "tool_use"@.len() == 8);
    assert("end_turn"@[0] != "tool_use"@[0]);
    assert("max_tokens"@.len() == 10 && "stop_sequence"@.len() == 13);
    assert("stop"@.len() == 4 && "length"@.len() == 6 && "tool_calls"@.len() == 10);
    assert("function_call"@.len() == 13);
}

/// An effort is sent where the model takes one and the variant asks for one; nothing
/// else of the request changes.
pub proof fn law_efforts_are_sent(fields: Map<Seq<char>, crate::json::JsonView>, key: Seq<char>)
    requires
        key != "reasoning_effort"@,
    ensures
        ({
            let body = crate::json::JsonView::Object(fields);
            &&& crate::ai::openai::with_effort(body, false, Some("low"@)) == body
            &&& crate::ai::sent::holds_text(
                crate::ai::openai::with_effort(body, true, Some("low"@)),
                "reasoning_effort"@,
                "low"@,
            )
            &&& crate::ai::sent::holds_text(
                crate::ai::openai::with_effort(body, true, Some("high"@)),
                "reasoning_effort"@,
                "high"@,
            )
            &&& crate::ai::sent::holds_text(
                crate::ai::openai::with_effort(body, true, Some("max"@)),
                "reasoning_effort"@,
                "high"@,
            )
            &&& crate::ai::openai::with_effort(body, true, None).field("reasoning_effort"@) is None
            &&& crate::ai::openai::with_effort(body, true, Some("low"@)).field(key) == body.field(
                key,
            )
            &&& crate::ai::openai::with_effort(body, true, None).field(key) == body.field(key)
        }),
{
    reveal_strlit("low");
    reveal_strlit("high");
    reveal_strlit("max");
    assert("low"@[0] != "max"@[0]);
    assert("low"@.len() == 3 && "high"@.len() == 4 && "max"@.len() == 3);
}

/// An event stands for what it bears: text for text, and of a call its place, its id,
/// its name and its arguments, each for itself.
pub proof fn law_events_stand_for_what_they_bear(event: crate::ai::types::StreamEvent)
    ensures
        event matches crate::ai::types::StreamEvent::TextDelta { delta } ==> (
        event.deep_view() matches crate::ai::types::StreamView::TextDelta { delta: d } && d
            == delta@),
        event matches crate::ai::types::StreamEvent::ThinkingDelta { delta } ==> (
        event.deep_view() matches crate::ai::types::StreamView::ThinkingDelta { delta: d } && d
            == delta@),
        event matches crate::ai::types::StreamEvent::ToolCallDelta { index, id, name, arguments }
            ==> (event.deep_view() matches crate::ai::types::StreamView::ToolCallDelta {
            index: n,
            id: i,
            name: m,
            arguments: a,
        } && n == index && i == id@ && m == name@ && a == arguments@),
        event matches crate::ai::types::StreamEvent::Error { message } ==> (
        event.deep_view() matches crate::ai::types::StreamView::Error { message: m } && m
            == message@),
{
}

/// A message stands for what it bears: who says it, what is said, and of a result the
/// call that it answers.
pub proof fn law_messages_stand_for_what_they_bear(
    message: crate::agent::message::SessionMessage,
    sent: crate::ai::types::LlmMessage,
    part: crate::ai::types::ContentPart,
    call: crate::agent::call::ToolCallInfo,
)
    ensures
        message matches crate::agent::message::SessionMessage::User { content, .. } ==> (
        message.deep_view() matches crate::agent::message::SessionView::User { content: c, .. } && c
            == content@),
        message matches crate::agent::message::SessionMessage::ToolResult {
            tool_call_id,
            name,
            content,
            is_error,
        } ==> (message.deep_view() matches crate::agent::message::SessionView::ToolResult {
            tool_call_id: i,
            name: n,
            content: c,
            is_error: e,
        } && i == tool_call_id@ && n == name@ && c == content@ && e == is_error),
        sent matches crate::ai::types::LlmMessage::Tool { tool_call_id, name, content } ==> (
        sent.deep_view() matches crate::ai::types::MessageView::Tool {
            tool_call_id: i,
            name: n,
            content: c,
        } && i == tool_call_id@ && n == name@ && c == content@),
        part matches crate::ai::types::ContentPart::ToolCall { id, name, arguments } ==> (
        part.deep_view() matches crate::ai::types::ContentView::ToolCall {
            id: i,
            name: n,
            arguments: a,
        } && i == id@ && n == name@ && a == arguments.deep_view()),
        part matches crate::ai::types::ContentPart::Text { text } ==> (
        part.deep_view() matches crate::ai::types::ContentView::Text { text: t } && t == text@),
        call.deep_view().tool_call_id == call.tool_call_id@,
        call.deep_view().name == call.name@,
        call.deep_view().arguments == call.arguments.deep_view(),
{
}

} // verus!
