//! The order in which a reply is told: it begins once, before anything is added
//! to it, and ends once, completed with all that was added or failed.
use vstd::prelude::*;

verus! {

/// Whether an event adds to the reply.
pub open spec fn is_delta(event: crate::ai::types::StreamView) -> bool {
    event is TextDelta || event is ThinkingDelta || event is ToolCallDelta
}

/// Whether the beginning of the reply was told.
pub open spec fn begun(told: Seq<crate::ai::types::StreamView>) -> bool {
    exists|i: int| 0 <= i < told.len() && #[trigger] told[i] is Start
}

/// Whether an event ends the reply.
pub open spec fn is_terminal(event: crate::ai::types::StreamView) -> bool {
    event is Done || event is Error
}

/// Whether the end of the reply was told.
pub open spec fn ended(told: Seq<crate::ai::types::StreamView>) -> bool {
    exists|i: int| 0 <= i < told.len() && is_terminal(#[trigger] told[i])
}

/// Whether an event may follow those that were told.
pub open spec fn may_follow(
    told: Seq<crate::ai::types::StreamView>,
    event: crate::ai::types::StreamView,
) -> bool {
    &&& !ended(told)
    &&& event is Start ==> !begun(told)
    &&& is_delta(event) ==> begun(told)
}

/// Each event may follow those before it: the reply begins once, nothing is added
/// before that, and nothing follows its end.
pub open spec fn orderly(told: Seq<crate::ai::types::StreamView>) -> bool {
    forall|i: int| 0 <= i < told.len() ==> may_follow(told.take(i), #[trigger] told[i])
}

/// The text that was added.
pub open spec fn spoken(told: Seq<crate::ai::types::StreamView>) -> Seq<char>
    decreases told.len(),
{
    if told.len() == 0 {
        seq![]
    } else {
        spoken(told.drop_last()) + match told.last() {
            crate::ai::types::StreamView::TextDelta { delta } => delta,
            _ => seq![],
        }
    }
}

/// The reasoning that was added.
pub open spec fn thought(told: Seq<crate::ai::types::StreamView>) -> Seq<char>
    decreases told.len(),
{
    if told.len() == 0 {
        seq![]
    } else {
        thought(told.drop_last()) + match told.last() {
            crate::ai::types::StreamView::ThinkingDelta { delta } => delta,
            _ => seq![],
        }
    }
}

/// A parser that has handed out `handed` tells its reply in order, and knows
/// what it has told.
pub open spec fn in_step(
    p: crate::ai::sse::ParserView,
    handed: Seq<crate::ai::types::StreamView>,
) -> bool {
    let told = handed + p.queue;
    &&& orderly(told)
    &&& begun(told) == p.state.started
    &&& ended(told) == p.finished
    &&& !p.finished ==> p.state.text == spoken(told) && p.state.thinking == thought(
        told,
    )
}

proof fn lemma_next(
    told: Seq<crate::ai::types::StreamView>,
    event: crate::ai::types::StreamView,
)
    requires
        orderly(told),
        may_follow(told, event),
    ensures
        orderly(told.push(event)),
        begun(told.push(event)) == (begun(told) || event is Start),
        ended(told.push(event)) == (ended(told) || is_terminal(event)),
{
    let more = told.push(event);
    assert forall|i: int| 0 <= i < more.len() implies may_follow(
        more.take(i),
        #[trigger] more[i],
    ) by {
        if i < told.len() {
            assert(more.take(i) =~= told.take(i));
            assert(may_follow(told.take(i), told[i]));
        } else {
            assert(more.take(i) =~= told);
        }
    }
    assert(more[told.len() as int] == event);
    assert forall|i: int| 0 <= i < told.len() implies #[trigger] more[i] == told[i] by {}
    if begun(told) {
        let i = choose|i: int| 0 <= i < told.len() && #[trigger] told[i] is Start;
        assert(more[i] is Start);
    }
    if ended(told) {
        let i = choose|i: int| 0 <= i < told.len() && is_terminal(#[trigger] told[i]);
        assert(is_terminal(more[i]));
    }
}

/// Pushing an event that may follow keeps a parser in step, as long as its state
/// says what was told.
proof fn lemma_pushed(
    p: crate::ai::sse::ParserView,
    q: crate::ai::sse::ParserView,
    event: crate::ai::types::StreamView,
    handed: Seq<crate::ai::types::StreamView>,
)
    requires
        in_step(p, handed),
        q.queue == p.queue.push(event),
        may_follow(handed + p.queue, event),
        q.state.started == (p.state.started || event is Start),
        q.finished == (p.finished || is_terminal(event)),
        !q.finished ==> q.state.text == p.state.text + match event {
            crate::ai::types::StreamView::TextDelta { delta } => delta,
            _ => seq![],
        },
        !q.finished ==> q.state.thinking == p.state.thinking + match event {
            crate::ai::types::StreamView::ThinkingDelta { delta } => delta,
            _ => seq![],
        },
    ensures
        in_step(q, handed),
{
    let told = handed + p.queue;
    assert(handed + q.queue =~= told.push(event));
    assert(told.push(event).drop_last() =~= told);
    lemma_next(told, event);
}

proof fn lemma_started(
    p: crate::ai::sse::ParserView,
    handed: Seq<crate::ai::types::StreamView>,
)
    requires
        in_step(p, handed),
        !p.finished,
    ensures
        in_step(p.start(), handed),
        p.start().state.started,
        !p.start().finished,
{
    if !p.state.started {
        lemma_pushed(p, p.start(), crate::ai::types::StreamView::Start, handed);
    }
}

/// A parser at the beginning of a stream has told nothing.
pub proof fn law_nothing_is_told_at_first(model: Seq<char>)
    ensures
        in_step(crate::ai::sse::ParserView::fresh(model), seq![]),
{
    let p = crate::ai::sse::ParserView::fresh(model);
    assert(Seq::<crate::ai::types::StreamView>::empty() + p.queue =~= seq![]);
}

/// What has been told in order begins before anything is added, does not begin
/// twice, and has at most one event that ends it, which is the last.
pub proof fn law_replies_are_in_order(told: Seq<crate::ai::types::StreamView>)
    requires
        orderly(told),
    ensures
        forall|i: int|
            0 <= i < told.len() && is_delta(#[trigger] told[i]) ==> exists|j: int|
                0 <= j < i && #[trigger] told[j] is Start,
        forall|i: int, j: int|
            0 <= i < j < told.len() && #[trigger] told[i] is Start ==> !(#[trigger] told[j] is Start),
        forall|i: int|
            0 <= i < told.len() && is_terminal(#[trigger] told[i]) ==> i == told.len() - 1,
{
    assert forall|i: int| 0 <= i < told.len() && is_delta(#[trigger] told[i]) implies exists|j: int|
        0 <= j < i && #[trigger] told[j] is Start by {
        assert(may_follow(told.take(i), told[i]));
        let j = choose|j: int| 0 <= j < told.take(i).len() && #[trigger] told.take(i)[j] is Start;
        assert(told[j] is Start);
    }
    assert forall|i: int, j: int|
        0 <= i < j < told.len() && #[trigger] told[i] is Start implies !(
    #[trigger] told[j] is Start) by {
        assert(may_follow(told.take(j), told[j]));
        assert(told.take(j)[i] is Start);
    }
    assert forall|i: int| 0 <= i < told.len() && is_terminal(#[trigger] told[i]) implies i
        == told.len() - 1 by {
        if i < told.len() - 1 {
            let last = told.len() - 1;
            assert(may_follow(told.take(last), told[last]));
            assert(is_terminal(told.take(last)[i]));
        }
    }
}

/// A reply that is over has exactly one event that ends it, `Done` or `Error`, and
/// that is its last.
pub proof fn law_replies_end_once(
    p: crate::ai::sse::ParserView,
    handed: Seq<crate::ai::types::StreamView>,
)
    requires
        in_step(p, handed),
        crate::ai::sse::advanced(p).1 is End,
    ensures
        handed.len() > 0,
        is_terminal(handed.last()),
        forall|i: int| 0 <= i < handed.len() - 1 ==> !is_terminal(#[trigger] handed[i]),
{
    law_handing_out_keeps_the_order(p, handed);
    let q = crate::ai::sse::advanced(p).0;
    assert(q.finished && q.queue.len() == 0);
    assert(handed + q.queue =~= handed);
    law_replies_are_in_order(handed);
}

/// A reply that has not ended is completed with the text and the reasoning that were
/// added to it; one that has ended stays as it is.
pub proof fn law_end_is_told_once(
    p: crate::ai::sse::ParserView,
    handed: Seq<crate::ai::types::StreamView>,
)
    requires
        in_step(p, handed),
    ensures
        in_step(crate::ai::sse::done_once(p), handed),
        crate::ai::sse::done_once(p).finished,
        !p.finished ==> crate::ai::sse::done_once(p).queue.last() == (
        crate::ai::types::StreamView::Done {
            message: crate::ai::sse::done_message(
                crate::ai::sse::DeltaView {
                    text: spoken(handed + p.queue),
                    thinking: thought(handed + p.queue),
                    ..p.state
                },
                p.model,
            ),
        }),
        p.finished ==> crate::ai::sse::done_once(p) == p,
{
    if !p.finished {
        let event = crate::ai::types::StreamView::Done {
            message: crate::ai::sse::done_message(p.state, p.model),
        };
        lemma_pushed(p, crate::ai::sse::done_once(p), event, handed);
    }
}

/// Reading lines keeps the order.
pub proof fn law_lines_keep_the_order(
    p: crate::ai::sse::ParserView,
    handed: Seq<crate::ai::types::StreamView>,
)
    requires
        in_step(p, handed),
    ensures
        in_step(crate::ai::sse::drained(p).0, handed),
    decreases p.buffer.len(),
{
    match crate::ai::sse::newline_from(p.buffer, 0) {
        None => {},
        Some(i) => {
            let rest = crate::ai::sse::ParserView { buffer: p.buffer.skip(i + 1), ..p };
            if 0 <= i < p.buffer.len() {
                match crate::ai::sse::line_of(p.buffer.take(i)) {
                    crate::ai::sse::LineView::Skip => law_lines_keep_the_order(rest, handed),
                    crate::ai::sse::LineView::Done => {
                        law_end_is_told_once(rest, handed);
                        law_lines_keep_the_order(crate::ai::sse::done_once(rest), handed);
                    },
                    crate::ai::sse::LineView::Data(_) => {},
                }
            }
        },
    }
}

proof fn lemma_handed_out(
    p: crate::ai::sse::ParserView,
    handed: Seq<crate::ai::types::StreamView>,
)
    requires
        in_step(p, handed),
    ensures
        match crate::ai::sse::handed_out(p) {
            Some((q, crate::ai::sse::NextView::Event(e))) => in_step(q, handed.push(e)),
            Some((q, _)) => in_step(q, handed),
            None => true,
        },
{
    if p.queue.len() > 0 {
        assert(handed.push(p.queue[0]) + p.queue.skip(1) =~= handed + p.queue);
    }
}

/// Handing out what comes next keeps the order.
pub proof fn law_handing_out_keeps_the_order(
    p: crate::ai::sse::ParserView,
    handed: Seq<crate::ai::types::StreamView>,
)
    requires
        in_step(p, handed),
    ensures
        match crate::ai::sse::advanced(p) {
            (q, crate::ai::sse::NextView::Event(e)) => in_step(q, handed.push(e)),
            (q, _) => in_step(q, handed),
        },
{
    let ended = if p.ending {
        crate::ai::sse::done_once(crate::ai::sse::ParserView { ending: false, ..p })
    } else {
        p
    };
    law_end_is_told_once(crate::ai::sse::ParserView { ending: false, ..p }, handed);
    lemma_handed_out(ended, handed);
    let reading = crate::ai::sse::ParserView { draining: true, ..ended };
    law_lines_keep_the_order(reading, handed);
    lemma_handed_out(crate::ai::sse::drained(reading).0, handed);
}

/// A failure of the stream or of its data keeps the order.
pub proof fn law_errors_keep_the_order(
    p: crate::ai::sse::ParserView,
    message: Seq<char>,
    handed: Seq<crate::ai::types::StreamView>,
)
    requires
        in_step(p, handed),
    ensures
        in_step(crate::ai::sse::failed(p, message), handed),
        crate::ai::sse::failed(p, message).finished,
{
    if !p.finished {
        let event = crate::ai::types::StreamView::Error { message };
        lemma_pushed(p, crate::ai::sse::failed(p, message), event, handed);
    }
}

/// An addition to a tool call keeps the order.
proof fn lemma_call_changed(
    p: crate::ai::sse::ParserView,
    index: usize,
    call: crate::ai::sse::CallView,
    handed: Seq<crate::ai::types::StreamView>,
)
    requires
        in_step(p, handed),
        p.state.started,
        !p.finished,
    ensures
        in_step(crate::ai::anthropic::call_changed(p, index, call), handed),
{
    let q = crate::ai::anthropic::call_changed(p, index, call);
    assert(p.state.text + Seq::<char>::empty() =~= p.state.text);
    assert(p.state.thinking + Seq::<char>::empty() =~= p.state.thinking);
    lemma_pushed(p, q, q.queue.last(), handed);
}

proof fn lemma_delta_applied(
    p: crate::ai::sse::ParserView,
    index: Option<usize>,
    delta: crate::ai::anthropic::WireDeltaView,
    handed: Seq<crate::ai::types::StreamView>,
)
    requires
        in_step(p, handed),
        p.state.started,
        !p.finished,
    ensures
        in_step(crate::ai::anthropic::delta_applied(p, index, delta), handed),
{
    let q = crate::ai::anthropic::delta_applied(p, index, delta);
    assert(p.state.text + Seq::<char>::empty() =~= p.state.text);
    assert(p.state.thinking + Seq::<char>::empty() =~= p.state.thinking);
    if delta.delta_type == "text_delta"@ {
        if delta.text is Some {
            lemma_pushed(p, q, q.queue.last(), handed);
        }
    } else if delta.delta_type == "thinking_delta"@ {
        if delta.thinking is Some {
            lemma_pushed(p, q, q.queue.last(), handed);
        }
    } else if delta.delta_type == "input_json_delta"@ {
        if let Some(partial) = delta.partial_json {
            let at = match index {
                Some(i) => i,
                None => 0,
            };
            let call = crate::ai::anthropic::grown(p.state.tool_calls, at)[at as int].1;
            lemma_call_changed(
                p,
                at,
                crate::ai::sse::CallView { arguments: call.arguments + partial, ..call },
                handed,
            );
        }
    }
}

/// Events of the Anthropic stream keep the order.
pub proof fn law_events_keep_the_order(
    p: crate::ai::sse::ParserView,
    event: crate::ai::anthropic::EventView,
    handed: Seq<crate::ai::types::StreamView>,
)
    requires
        in_step(p, handed),
    ensures
        in_step(crate::ai::anthropic::event_applied(p, event), handed),
{
    let s = p.start();
    if p.finished {
    } else {
        lemma_started(p, handed);
        lemma_event_taken(s, event, handed);
    }
}

proof fn lemma_event_taken(
    s: crate::ai::sse::ParserView,
    event: crate::ai::anthropic::EventView,
    handed: Seq<crate::ai::types::StreamView>,
)
    requires
        in_step(s, handed),
        s.state.started,
        !s.finished,
    ensures
        in_step(crate::ai::anthropic::event_taken(s, event), handed),
{
    if event.event_type == "message_start"@ {
    } else if event.event_type == "content_block_start"@ {
        if let Some(block) = event.content_block {
            let at = match event.index {
                Some(i) => i,
                None => s.state.tool_calls.len() as usize,
            };
            let call = crate::ai::anthropic::grown(s.state.tool_calls, at)[at as int].1;
            lemma_call_changed(s, at, crate::ai::anthropic::opened_call(call, block), handed);
        }
    } else if event.event_type == "content_block_delta"@ {
        if let Some(delta) = event.delta {
            lemma_delta_applied(s, event.index, delta, handed);
        }
    } else if event.event_type == "message_delta"@ {
    } else if event.event_type == "message_stop"@ {
        law_end_is_told_once(s, handed);
    } else if event.event_type == "error"@ {
        let message = match event.error {
            Some(m) => m,
            None => "unknown Anthropic error"@,
        };
        law_errors_keep_the_order(s, message, handed);
    }
}

proof fn lemma_calls_added(
    p: crate::ai::sse::ParserView,
    deltas: Seq<crate::ai::openai::CallDeltaView>,
    handed: Seq<crate::ai::types::StreamView>,
)
    requires
        in_step(p, handed),
        p.state.started,
        !p.finished,
    ensures
        in_step(crate::ai::openai::calls_added(p, deltas), handed),
        crate::ai::openai::calls_added(p, deltas).state.started,
        !crate::ai::openai::calls_added(p, deltas).finished,
    decreases deltas.len(),
{
    if deltas.len() > 0 {
        let before = crate::ai::openai::calls_added(p, deltas.drop_last());
        let after = crate::ai::openai::calls_added(p, deltas);
        lemma_calls_added(p, deltas.drop_last(), handed);
        assert(before.state.text + Seq::<char>::empty() =~= before.state.text);
        assert(before.state.thinking + Seq::<char>::empty() =~= before.state.thinking);
        lemma_pushed(before, after, after.queue.last(), handed);
    }
}

proof fn lemma_choice_applied(
    p: crate::ai::sse::ParserView,
    choice: crate::ai::openai::ChoiceView,
    handed: Seq<crate::ai::types::StreamView>,
)
    requires
        in_step(p, handed),
        p.state.started,
        !p.finished,
    ensures
        in_step(crate::ai::openai::choice_applied(p, choice), handed),
        crate::ai::openai::choice_applied(p, choice).state.started,
        !crate::ai::openai::choice_applied(p, choice).finished,
{
    let said = crate::ai::openai::content_applied(p, choice.content);
    assert(p.state.thinking + Seq::<char>::empty() =~= p.state.thinking);
    if said != p {
        lemma_pushed(p, said, said.queue.last(), handed);
    }
    let reasoned = crate::ai::openai::reasoning_applied(said, choice.reasoning_content);
    assert(said.state.text + Seq::<char>::empty() =~= said.state.text);
    if reasoned != said {
        lemma_pushed(said, reasoned, reasoned.queue.last(), handed);
    }
    lemma_calls_added(reasoned, choice.tool_calls, handed);
}

proof fn lemma_choices_applied(
    p: crate::ai::sse::ParserView,
    choices: Seq<crate::ai::openai::ChoiceView>,
    handed: Seq<crate::ai::types::StreamView>,
)
    requires
        in_step(p, handed),
        p.state.started,
        !p.finished,
    ensures
        in_step(crate::ai::openai::choices_applied(p, choices), handed),
        crate::ai::openai::choices_applied(p, choices).state.started,
        !crate::ai::openai::choices_applied(p, choices).finished,
    decreases choices.len(),
{
    if choices.len() > 0 {
        lemma_choices_applied(p, choices.drop_last(), handed);
        lemma_choice_applied(
            crate::ai::openai::choices_applied(p, choices.drop_last()),
            choices.last(),
            handed,
        );
    }
}

/// Chunks of the OpenAI-compatible stream keep the order.
pub proof fn law_chunks_keep_the_order(
    p: crate::ai::sse::ParserView,
    chunk: crate::ai::openai::ChunkView,
    handed: Seq<crate::ai::types::StreamView>,
)
    requires
        in_step(p, handed),
    ensures
        in_step(crate::ai::openai::chunk_applied(p, chunk), handed),
{
    let used = match chunk.usage {
        Some(u) => p.with_state(
            crate::ai::sse::DeltaView { usage: Some(u.spec_usage()), ..p.state },
        ),
        None => p,
    };
    if !p.finished {
        lemma_started(used, handed);
        lemma_choices_applied(used.start(), chunk.choices, handed);
    }
}

} // verus!
