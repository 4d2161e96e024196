//! What holds of a conversation: what a reply leaves in it, what the tools leave, and
//! what of it is put to the model.
use crate::agent::session::Mode;
use crate::ai::types::StopReason;
use crate::indexed;
use crate::json;
use vstd::prelude::*;

verus! {

// ------------------------------------------------------------------ a reply
/// The text that an event brings.
pub open spec fn said_in(event: crate::ai::types::StreamView) -> Seq<char> {
    if event is TextDelta {
        event->TextDelta_delta
    } else {
        seq![]
    }
}

/// The reasoning that an event brings.
pub open spec fn thought_in(event: crate::ai::types::StreamView) -> Seq<char> {
    if event is ThinkingDelta {
        event->ThinkingDelta_delta
    } else {
        seq![]
    }
}

/// All text that events bring, one piece after the other.
pub open spec fn all_said(events: Seq<crate::ai::types::StreamView>) -> Seq<char> {
    events.map_values(|e: crate::ai::types::StreamView| said_in(e)).flatten()
}

/// All reasoning that events bring, one piece after the other.
pub open spec fn all_thought(events: Seq<crate::ai::types::StreamView>) -> Seq<char> {
    events.map_values(|e: crate::ai::types::StreamView| thought_in(e)).flatten()
}

/// An agent after the events of a reply.
pub open spec fn after_events(
    a: crate::agent::session::AgentView,
    events: Seq<crate::ai::types::StreamView>,
) -> crate::agent::session::AgentView
    decreases events.len(),
{
    if events.len() == 0 {
        a
    } else {
        crate::agent::session::streamed(
            after_events(a, events.drop_last()),
            crate::agent::session::IncomingView::Event(events.last()),
        ).agent
    }
}

/// One more event brings its text and its reasoning behind those before it.
pub proof fn lemma_all_said_of_one_more(events: Seq<crate::ai::types::StreamView>)
    requires
        events.len() > 0,
    ensures
        all_said(events) == all_said(events.drop_last()) + said_in(events.last()),
        all_thought(events) == all_thought(events.drop_last()) + thought_in(events.last()),
{
    broadcast use Seq::lemma_flatten_push;

    let said = |e: crate::ai::types::StreamView| said_in(e);
    let thought = |e: crate::ai::types::StreamView| thought_in(e);
    let init = events.drop_last();
    assert(events.map_values(said) =~= init.map_values(said).push(said_in(events.last())));
    assert(events.map_values(thought) =~= init.map_values(thought).push(
        thought_in(events.last()),
    ));
}

/// A reply is all that was streamed of it: its text is the pieces of text one after
/// the other, and its reasoning likewise. Nothing is kept before the reply ends.
pub proof fn law_reply_is_all_that_was_streamed(
    a: crate::agent::session::AgentView,
    events: Seq<crate::ai::types::StreamView>,
)
    ensures
        ({
            let b = after_events(crate::agent::session::opened(a, None).agent, events);
            &&& b.reply.text == all_said(events)
            &&& b.reply.thinking == all_thought(events)
            &&& b.messages == a.messages
            &&& b.options == a.options
            &&& b.turn == a.turn
        }),
    decreases events.len(),
{
    if events.len() == 0 {
        let none = Seq::<Seq<char>>::empty();
        assert(events.map_values(|e: crate::ai::types::StreamView| said_in(e)) =~= none);
        assert(events.map_values(|e: crate::ai::types::StreamView| thought_in(e)) =~= none);
    } else {
        law_reply_is_all_that_was_streamed(a, events.drop_last());
        lemma_all_said_of_one_more(events);
        let before = after_events(
            crate::agent::session::opened(a, None).agent,
            events.drop_last(),
        ).reply;
        assert(before.text + Seq::<char>::empty() =~= before.text);
        assert(before.thinking + Seq::<char>::empty() =~= before.thinking);
    }
}

/// Each piece of text or reasoning is published as it came.
pub proof fn law_pieces_are_published(
    a: crate::agent::session::AgentView,
    delta: Seq<char>,
)
    ensures
        crate::agent::session::streamed(
            a,
            crate::agent::session::IncomingView::Event(
                crate::ai::types::StreamView::TextDelta { delta },
            ),
        ).events == seq![
            crate::agent::session::EventView::MessageUpdate {
                delta: crate::ai::types::StreamView::TextDelta { delta },
            },
        ],
        crate::agent::session::streamed(
            a,
            crate::agent::session::IncomingView::Event(
                crate::ai::types::StreamView::ThinkingDelta { delta },
            ),
        ).events == seq![
            crate::agent::session::EventView::MessageUpdate {
                delta: crate::ai::types::StreamView::ThinkingDelta { delta },
            },
        ],
{
}

/// How a reply ends is what its last event says: an error, or the reason and the token
/// counts of the message.
pub proof fn law_reply_ends_as_told(
    a: crate::agent::session::AgentView,
    failure: Seq<char>,
    message: crate::ai::types::AssistantView,
)
    ensures
        ({
            let b = crate::agent::session::streamed(
                a,
                crate::agent::session::IncomingView::Event(
                    crate::ai::types::StreamView::Error { message: failure },
                ),
            ).agent.reply;
            b.error == Some(failure) && b.stop_reason == StopReason::Error && b.text
                == a.reply.text && b.tool_calls == a.reply.tool_calls
        }),
        ({
            let b = crate::agent::session::streamed(
                a,
                crate::agent::session::IncomingView::Event(
                    crate::ai::types::StreamView::Done { message },
                ),
            ).agent.reply;
            &&& b.usage == message.usage
            &&& message.error_message is None ==> b.stop_reason == message.stop_reason && b.error
                == a.reply.error
            &&& message.error_message is Some ==> b.stop_reason == StopReason::Error && b.error
                == message.error_message
            &&& b.text == a.reply.text && b.thinking == a.reply.thinking && b.tool_calls
                == a.reply.tool_calls
        }),
{
}

/// How many of the first parts of a message are text or reasoning.
pub open spec fn parts_before_calls(said: Seq<char>, thought: Seq<char>) -> int {
    (if said.len() > 0 {
        1int
    } else {
        0
    }) + (if thought.len() > 0 {
        1int
    } else {
        0
    })
}

/// The message that is kept of a reply holds its text without the trust block, its
/// reasoning and its calls, each call with its id, name and arguments, in this order;
/// it bears the model, and what the trust block says. Then its first call is made, or
/// the run is over where it has none.
pub proof fn law_kept_message_is_the_reply(
    a: crate::agent::session::AgentView,
    events: Seq<crate::ai::types::StreamView>,
)
    requires
        after_events(
            crate::agent::session::opened(a, None).agent,
            events,
        ).reply.stop_reason != StopReason::Aborted,
    ensures
        ({
            let b = after_events(crate::agent::session::opened(a, None).agent, events);
            let end = crate::agent::session::streamed(
                b,
                crate::agent::session::IncomingView::End,
            );
            let kept = end.agent.messages.last();
            let parts = kept->Assistant_content;
            let said = all_said(events);
            let thought = all_thought(events);
            let first = parts_before_calls(said, thought);
            let calls = b.reply.tool_calls;
            &&& end.agent.messages.len() == a.messages.len() + 1
            &&& end.agent.messages.drop_last() == a.messages
            &&& kept is Assistant
            &&& kept->Assistant_model == a.options.model
            &&& kept->Assistant_usage == b.reply.usage
            &&& kept->Assistant_stop_reason == b.reply.stop_reason
            &&& parts.len() == first + calls.len()
            &&& said.len() > 0 ==> parts[0] == (crate::ai::types::ContentView::Text {
                text: crate::ai::trust::trust_extracted(said).1,
            }) && kept->Assistant_trust == crate::ai::trust::trust_extracted(said).0
            &&& thought.len() > 0 ==> parts[first - 1]
                == (crate::ai::types::ContentView::Thinking { thinking: thought })
            &&& forall|k: int|
                0 <= k < calls.len() ==> #[trigger] parts[first + k]
                    == (crate::ai::types::ContentView::ToolCall {
                    id: calls[k].1.tool_call_id,
                    name: calls[k].1.name,
                    arguments: calls[k].1.arguments,
                })
            &&& calls.len() > 0 ==> end.action == crate::agent::session::ActionView::RunTool(
                calls[0].1,
            ) && end.agent.pending.len() == calls.len() && forall|k: int|
                0 <= k < calls.len() ==> #[trigger] end.agent.pending[k] == calls[k].1
            &&& calls.len() == 0 ==> end.action is Finished
        }),
{
    law_reply_is_all_that_was_streamed(a, events);
    let b = after_events(crate::agent::session::opened(a, None).agent, events);
    let whole = crate::agent::session::reply_parts(b.reply);
    lemma_last_text(b.reply);
    let end = crate::agent::session::streamed(b, crate::agent::session::IncomingView::End);
    assert(end.agent.messages.drop_last() =~= a.messages);
}

proof fn lemma_no_text_among(parts: Seq<crate::ai::types::ContentView>)
    requires
        forall|i: int| 0 <= i < parts.len() ==> !(#[trigger] parts[i] is Text),
    ensures
        crate::agent::session::last_text(parts) is None,
    decreases parts.len(),
{
    if parts.len() > 0 {
        assert(!(parts[parts.len() - 1] is Text));
        assert forall|i: int| 0 <= i < parts.drop_last().len() implies !(
        #[trigger] parts.drop_last()[i] is Text) by {
            assert(!(parts[i] is Text));
        }
        lemma_no_text_among(parts.drop_last());
    }
}

proof fn lemma_first_is_last_text(parts: Seq<crate::ai::types::ContentView>)
    requires
        parts.len() > 0,
        parts[0] is Text,
        forall|i: int| 0 < i < parts.len() ==> !(#[trigger] parts[i] is Text),
    ensures
        crate::agent::session::last_text(parts) == Some(0int),
    decreases parts.len(),
{
    if parts.len() > 1 {
        assert(!(parts[parts.len() - 1] is Text));
        assert forall|i: int| 0 < i < parts.drop_last().len() implies !(
        #[trigger] parts.drop_last()[i] is Text) by {
            assert(!(parts[i] is Text));
        }
        lemma_first_is_last_text(parts.drop_last());
    }
}

/// The text of a reply, where it has any, is its first part and its only text.
proof fn lemma_last_text(reply: crate::agent::session::ReplyView)
    ensures
        crate::agent::session::last_text(crate::agent::session::reply_parts(reply)) == (
        if reply.text.len() > 0 {
            Some(0int)
        } else {
            None
        }),
{
    let parts = crate::agent::session::reply_parts(reply);
    if reply.text.len() > 0 {
        assert forall|i: int| 0 < i < parts.len() implies !(#[trigger] parts[i] is Text) by {}
        lemma_first_is_last_text(parts);
    } else {
        assert forall|i: int| 0 <= i < parts.len() implies !(#[trigger] parts[i] is Text) by {}
        lemma_no_text_among(parts);
    }
}

/// The call of an index is changed by what is received of it, and no other is. An id
/// or a name that is empty changes nothing; the arguments are the document that was
/// received, or its text where it is none. What is published says the same.
pub proof fn law_a_call_takes_what_is_received_of_it(
    reply: crate::agent::session::ReplyView,
    index: usize,
    id: Seq<char>,
    name: Seq<char>,
    arguments: Seq<char>,
)
    requires
        indexed::sorted(reply.tool_calls),
    ensures
        ({
            let (after, events) = crate::agent::session::reply_after(
                reply,
                crate::ai::types::StreamView::ToolCallDelta { index, id, name, arguments },
            );
            let calls = after.tool_calls;
            &&& indexed::sorted(calls)
            &&& after.text == reply.text && after.thinking == reply.thinking
            &&& forall|c: (usize, crate::agent::call::CallInfoView)|
                c.0 != index ==> (#[trigger] calls.contains(c) <==> reply.tool_calls.contains(c))
            &&& exists|i: int|
                0 <= i < calls.len() && (#[trigger] calls[i]).0 == index && (id.len() > 0
                    ==> calls[i].1.tool_call_id == id) && (name.len() > 0 ==> calls[i].1.name
                    == name) && (json::parsed_json(arguments) matches Ok(j)
                    ==> calls[i].1.arguments == j) && (json::parsed_json(arguments) is Err
                    ==> calls[i].1.arguments == json::JsonView::Str(arguments)) && (forall|k: int|
                    0 <= k < reply.tool_calls.len() && (#[trigger] reply.tool_calls[k]).0 == index
                        ==> (id.len() == 0 ==> calls[i].1.tool_call_id
                        == reply.tool_calls[k].1.tool_call_id) && (name.len() == 0
                        ==> calls[i].1.name == reply.tool_calls[k].1.name)) && events == seq![
                    crate::agent::session::EventView::MessageUpdate {
                        delta: crate::ai::types::StreamView::ToolCallDelta {
                            index,
                            id: calls[i].1.tool_call_id,
                            name: calls[i].1.name,
                            arguments: json::json_text(calls[i].1.arguments),
                        },
                    },
                ]
        }),
{
    let before = reply.tool_calls;
    let (after, events) = crate::agent::session::reply_after(
        reply,
        crate::ai::types::StreamView::ToolCallDelta { index, id, name, arguments },
    );
    let calls = after.tool_calls;
    let slot = indexed::slot_from(before, index, 0);
    indexed::lemma_slot(before, index, 0);
    let known = slot < before.len() && before[slot].0 == index;
    assert(calls[slot].0 == index);
    if known {
        assert forall|c: (usize, crate::agent::call::CallInfoView)| c.0 != index implies (
        #[trigger] calls.contains(c) <==> before.contains(c)) by {
            if before.contains(c) {
                let k = choose|k: int| 0 <= k < before.len() && before[k] == c;
                assert(calls[k] == c);
            }
            if calls.contains(c) {
                let k = choose|k: int| 0 <= k < calls.len() && calls[k] == c;
                assert(before[k] == c);
            }
        }
    } else {
        assert forall|c: (usize, crate::agent::call::CallInfoView)| c.0 != index implies (
        #[trigger] calls.contains(c) <==> before.contains(c)) by {
            if before.contains(c) {
                let k = choose|k: int| 0 <= k < before.len() && before[k] == c;
                assert(calls[if k < slot { k } else { k + 1 }] == c);
            }
            if calls.contains(c) {
                let k = choose|k: int| 0 <= k < calls.len() && calls[k] == c;
                assert(before[if k < slot { k } else { k - 1 }] == c);
            }
        }
    }
}

// -------------------------------------------------------------------- tools
/// An agent after the results of its calls.
pub open spec fn after_results(
    a: crate::agent::session::AgentView,
    outcomes: Seq<crate::agent::call::OutcomeView>,
) -> crate::agent::session::StepView
    decreases outcomes.len(),
{
    if outcomes.len() <= 1 {
        crate::agent::session::tool_finished(a, outcomes[0])
    } else {
        crate::agent::session::tool_finished(
            after_results(a, outcomes.drop_last()).agent,
            outcomes.last(),
        )
    }
}

/// The calls of a turn are made one after the other, in their order. Each result is
/// kept behind what was said, in the same order, with the id and the name of its call
/// and with what the tool gave.
pub proof fn law_results_follow_their_calls(
    a: crate::agent::session::AgentView,
    outcomes: Seq<crate::agent::call::OutcomeView>,
)
    requires
        0 < outcomes.len() <= a.pending.len(),
    ensures
        ({
            let step = after_results(a, outcomes);
            let n = outcomes.len() as int;
            &&& step.agent.messages.len() == a.messages.len() + n
            &&& step.agent.messages.take(a.messages.len() as int) == a.messages
            &&& forall|i: int|
                0 <= i < n ==> #[trigger] step.agent.messages[a.messages.len() + i] == (
                crate::agent::message::SessionView::ToolResult {
                    tool_call_id: a.pending[i].tool_call_id,
                    name: a.pending[i].name,
                    content: outcomes[i].content,
                    is_error: outcomes[i].is_error,
                })
            &&& step.agent.pending == a.pending.skip(n)
            &&& n < a.pending.len() ==> step.action == crate::agent::session::ActionView::RunTool(
                a.pending[n],
            )
            &&& n == a.pending.len() ==> !(step.action is RunTool)
        }),
    decreases outcomes.len(),
{
    let step = after_results(a, outcomes);
    if outcomes.len() > 1 {
        let before = after_results(a, outcomes.drop_last()).agent;
        law_results_follow_their_calls(a, outcomes.drop_last());
        assert forall|i: int| 0 <= i < outcomes.len() implies #[trigger] step.agent.messages[
        a.messages.len() + i] == (crate::agent::message::SessionView::ToolResult {
            tool_call_id: a.pending[i].tool_call_id,
            name: a.pending[i].name,
            content: outcomes[i].content,
            is_error: outcomes[i].is_error,
        }) by {
            if i < outcomes.len() - 1 {
                assert(step.agent.messages[a.messages.len() + i] == before.messages[
                a.messages.len() + i]);
                assert(outcomes.drop_last()[i] == outcomes[i]);
            }
        }
        assert(step.agent.messages.take(a.messages.len() as int) =~= before.messages.take(
            a.messages.len() as int,
        ));
    } else {
        assert(step.agent.messages.take(a.messages.len() as int) =~= a.messages);
    }
    assert(step.agent.pending =~= a.pending.skip(outcomes.len() as int));
}

/// What is published of a tool bears the id of its call.
pub proof fn law_tools_are_published_by_their_calls(
    a: crate::agent::session::AgentView,
    outcome: crate::agent::call::OutcomeView,
)
    requires
        a.pending.len() > 0,
    ensures
        ({
            let step = crate::agent::session::tool_finished(a, outcome);
            &&& step.events.len() > 0
            &&& step.events[0] == (crate::agent::session::EventView::ToolExecutionEnd {
                tool_call_id: a.pending[0].tool_call_id,
                outcome,
            })
            &&& step.action matches crate::agent::session::ActionView::RunTool(call)
                ==> step.events.last() == (crate::agent::session::EventView::ToolExecutionStart {
                tool_call_id: call.tool_call_id,
                name: call.name,
                arguments: call.arguments,
            })
        }),
{
}

/// A tool that is run is the first of the tools with the name that was called. In build
/// mode every tool that there is is run when it is called and not denied.
pub proof fn law_the_called_tool_is_run(
    options: crate::agent::session::OptionsView,
    name: Seq<char>,
    at: int,
)
    requires
        name != "delegate"@,
    ensures
        crate::agent::session::call_verdict(options, name, None)
            matches crate::agent::session::VerdictView::Execute(i) ==> 0 <= i < options.tools.len()
            && options.tools[i].name == name && forall|k: int|
            0 <= k < i ==> (#[trigger] options.tools[k]).name != name,
        options.mode == Mode::Build && 0 <= at < options.tools.len() && options.tools[at].name
            == name ==> crate::agent::session::call_verdict(options, name, None) is Execute,
        options.mode == Mode::Plan && 0 <= at < options.tools.len() && options.tools[at].name
            == name && crate::agent::session::is_plan_tool(name)
            ==> crate::agent::session::call_verdict(options, name, None) is Execute,
        (forall|k: int| 0 <= k < options.tools.len() ==> (#[trigger] options.tools[k]).name != name)
            ==> (crate::agent::session::call_verdict(options, name, None)
            matches crate::agent::session::VerdictView::Outcome(o) && o.is_error),
{
    lemma_tool_from(options.tools, name, 0);
}

proof fn lemma_tool_from(tools: Seq<crate::ai::types::ToolView>, name: Seq<char>, from: int)
    requires
        0 <= from <= tools.len(),
    ensures
        match crate::agent::session::tool_from(tools, name, from) {
            Some(i) => from <= i < tools.len() && tools[i].name == name && forall|k: int|
                from <= k < i ==> (#[trigger] tools[k]).name != name,
            None => forall|k: int|
                from <= k < tools.len() ==> (#[trigger] tools[k]).name != name,
        },
    decreases tools.len() - from,
{
    if from < tools.len() && tools[from].name != name {
        lemma_tool_from(tools, name, from + 1);
    }
}

/// The model is told of exactly the tools that it may call: in build mode of all and of
/// `delegate`, in plan mode of those that only read.
pub proof fn law_the_model_is_told_of_its_tools(
    options: crate::agent::session::OptionsView,
    tool: crate::ai::types::ToolView,
)
    ensures
        options.mode == Mode::Build ==> crate::agent::session::specs_view(options).drop_last()
            == options.tools && crate::agent::session::specs_view(options).last().name
            == "delegate"@,
        options.mode == Mode::Plan ==> (crate::agent::session::specs_view(options).contains(tool)
            <==> options.tools.contains(tool) && crate::agent::session::is_plan_tool(tool.name)),
{
    lemma_active(options.tools, options.mode, tool);
    if options.mode == Mode::Build {
        assert(crate::agent::session::specs_view(options).drop_last() =~= options.tools);
    }
}

proof fn lemma_active(
    tools: Seq<crate::ai::types::ToolView>,
    mode: Mode,
    tool: crate::ai::types::ToolView,
)
    ensures
        mode == Mode::Build ==> crate::agent::session::active_view(tools, mode) == tools,
        mode == Mode::Plan ==> (crate::agent::session::active_view(tools, mode).contains(tool)
            <==> tools.contains(tool) && crate::agent::session::is_plan_tool(tool.name)),
    decreases tools.len(),
{
    if tools.len() > 0 {
        let before = crate::agent::session::active_view(tools.drop_last(), mode);
        lemma_active(tools.drop_last(), mode, tool);
        assert(tools =~= tools.drop_last().push(tools.last()));
        crate::sorted::lemma_push_contains(tools.drop_last(), tools.last(), tool);
        crate::sorted::lemma_push_contains(before, tools.last(), tool);
    } else {
        assert(crate::agent::session::active_view(tools, mode) =~= tools);
    }
}

// ------------------------------------------------------------------ requests
/// Whether a request puts the whole conversation to the model, message by message, with
/// the tools and the model of the agent.
pub open spec fn asks_with_everything(
    request: crate::ai::types::RequestView,
    a: crate::agent::session::AgentView,
) -> bool {
    &&& request.model == a.options.model
    &&& request.variant == a.options.variant
    &&& request.tools == a.tool_specs
    &&& request.temperature is None
    &&& a.options.system_prompt.is_prefix_of(request.system)
    &&& request.messages.len() == a.messages.len()
    &&& forall|i: int| 0 <= i < a.messages.len() ==> says(#[trigger] request.messages[i], a.messages[i])
}

/// Whether a message to the model says what a message of the conversation says.
pub open spec fn says(
    sent: crate::ai::types::MessageView,
    kept: crate::agent::message::SessionView,
) -> bool {
    &&& kept is User ==> sent is User && sent->User_content == kept->User_content
        && sent->User_images == kept->User_images
    &&& kept is Assistant ==> sent is Assistant && sent->Assistant_content
        == kept->Assistant_content
    &&& kept is ToolResult ==> sent is Tool && sent->Tool_tool_call_id
        == kept->ToolResult_tool_call_id && sent->Tool_name == kept->ToolResult_name
        && sent->Tool_content == kept->ToolResult_content
    &&& kept is Summary ==> sent is User && kept->Summary_text.is_suffix_of(sent->User_content)
        && sent->User_images.len() == 0
}

/// Whatever is put to the model in a turn holds the whole conversation up to there:
/// what the user says, after an answer to go on, and after the results of tools.
pub proof fn law_requests_hold_the_conversation(
    a: crate::agent::session::AgentView,
    content: Seq<char>,
    images: Seq<Seq<char>>,
    answer: Option<Seq<char>>,
    outcome: crate::agent::call::OutcomeView,
)
    ensures
        ({
            let step = crate::agent::session::prompted(a, content, images);
            &&& step.agent.messages.len() == a.messages.len() + 1
            &&& step.agent.messages.last() == (crate::agent::message::SessionView::User {
                content,
                images,
            })
            &&& step.action matches crate::agent::session::ActionView::Stream(request)
                ==> asks_with_everything(request, step.agent)
        }),
        ({
            let step = crate::agent::session::answered(a, answer);
            step.action matches crate::agent::session::ActionView::Stream(request)
                ==> asks_with_everything(request, step.agent)
        }),
        ({
            let step = crate::agent::session::tool_finished(a, outcome);
            step.action matches crate::agent::session::ActionView::Stream(request)
                ==> asks_with_everything(request, step.agent)
        }),
{
    let x = crate::agent::session::prompted(a, content, images).agent;
    let y = crate::agent::session::answered(a, answer).agent;
    let z = crate::agent::session::tool_finished(a, outcome).agent;
    lemma_turn_request(x);
    lemma_turn_request(y);
    lemma_turn_request(z);
}

proof fn lemma_turn_request(a: crate::agent::session::AgentView)
    ensures
        asks_with_everything(crate::agent::session::turn_request(a), a),
{
    let request = crate::agent::session::turn_request(a);
    assert(a.options.system_prompt =~= request.system.subrange(
        0,
        a.options.system_prompt.len() as int,
    ));
    assert forall|i: int| 0 <= i < a.messages.len() implies says(
        #[trigger] request.messages[i],
        a.messages[i],
    ) by {
        lemma_says(a.messages[i]);
    }
}

/// A message of the conversation is put to the model as it is.
pub proof fn lemma_says(kept: crate::agent::message::SessionView)
    ensures
        says(kept.to_llm(), kept),
{
    if let crate::agent::message::SessionView::Summary { text } = kept {
        let sent = kept.to_llm()->User_content;
        assert(text =~= sent.subrange(sent.len() - text.len(), sent.len() as int));
    }
}

/// The system prompt holds the fixed part, the block of plan mode in that mode and only
/// there, what was learned, and at its end what is said of the trust block.
pub proof fn law_system_prompt_holds_its_parts(options: crate::agent::session::OptionsView)
    ensures
        ({
            let prompt = crate::agent::session::system_prompt_view(options);
            let learned = if options.harness_block is Some {
                options.harness_block->0
            } else {
                seq![]
            };
            &&& options.mode == Mode::Build ==> prompt == options.system_prompt + learned
                + crate::agent::session::TRUST_BLOCK@
            &&& options.mode == Mode::Plan ==> prompt == options.system_prompt
                + crate::agent::session::PLAN_MODE_BLOCK@ + learned
                + crate::agent::session::TRUST_BLOCK@
        }),
{
    let prompt = crate::agent::session::system_prompt_view(options);
    if options.harness_block is None {
        assert(prompt =~= (match options.mode {
            Mode::Build => options.system_prompt,
            Mode::Plan => options.system_prompt + crate::agent::session::PLAN_MODE_BLOCK@,
        }) + Seq::<char>::empty() + crate::agent::session::TRUST_BLOCK@);
    }
}

/// A turn begins right away where turns are left. Without any, the user is asked where
/// there is anybody to ask, and the run is over otherwise; a yes allows twenty more.
pub proof fn law_turns_go_on_while_there_are_any(
    a: crate::agent::session::AgentView,
    content: Seq<char>,
    images: Seq<Seq<char>>,
    answer: Option<Seq<char>>,
)
    requires
        a.options.max_turns + 20 <= usize::MAX,
        a.turn < usize::MAX,
    ensures
        ({
            let step = crate::agent::session::prompted(a, content, images);
            &&& a.options.max_turns > 0 ==> step.action is Stream && step.agent.turn == 1
            &&& a.options.max_turns == 0 && a.options.can_ask ==> step.action is Ask
            &&& a.options.max_turns == 0 && !a.options.can_ask ==> step.action is Finished
        }),
        ({
            let step = crate::agent::session::answered(a, answer);
            let yes = answer is Some && crate::agent::session::is_yes(answer->0);
            &&& yes ==> step.action is Stream && step.agent.turn == a.turn + 1
                && step.agent.options.max_turns == a.options.max_turns + 20
            &&& !yes ==> step.action is Finished && step.agent == a
        }),
{
}

// ---------------------------------------------------------------- delegation
/// A sub-agent has the tools that are named, or all where none are, but for
/// `delegate`; in their order, and each as it was.
pub proof fn law_sub_agents_have_their_tools(
    tools: Seq<crate::ai::types::ToolView>,
    names: Option<Seq<json::JsonView>>,
    tool: crate::ai::types::ToolView,
)
    ensures
        crate::agent::session::delegated_tools(tools, names).contains(tool) <==> tools.contains(
            tool,
        ) && tool.name != "delegate"@ && (names is Some ==> names->0.contains(
            json::JsonView::Str(tool.name),
        )),
    decreases tools.len(),
{
    if tools.len() > 0 {
        let last = tools.last();
        let before = crate::agent::session::delegated_tools(tools.drop_last(), names);
        law_sub_agents_have_their_tools(tools.drop_last(), names, tool);
        assert(tools =~= tools.drop_last().push(last));
        crate::sorted::lemma_push_contains(tools.drop_last(), last, tool);
        crate::sorted::lemma_push_contains(before, last, tool);
        if let Some(list) = names {
            if crate::agent::session::names_tool(list, last.name) {
                let i = choose|i: int|
                    0 <= i < list.len() && #[trigger] list[i] == json::JsonView::Str(last.name);
                assert(list.contains(list[i]));
            } else if list.contains(json::JsonView::Str(last.name)) {
                let i = choose|i: int|
                    0 <= i < list.len() && list[i] == json::JsonView::Str(last.name);
                assert(list[i] == json::JsonView::Str(last.name));
            }
        }
    }
}

/// A sub-agent gets the turns that are asked for, but at least one and at most sixteen,
/// and four where none are asked for.
pub proof fn law_sub_agents_have_their_turns(arguments: json::JsonView, n: u64)
    ensures
        1 <= crate::agent::session::delegated_turns(arguments) <= 16,
        arguments.field("max_turns"@) is None ==> crate::agent::session::delegated_turns(arguments)
            == 4,
        1 <= n <= 16 && arguments.field("max_turns"@) == Some(
            json::JsonView::Number(json::NumberView::Unsigned(n)),
        ) ==> crate::agent::session::delegated_turns(arguments) == n,
{
}

/// A call that a sub-agent took is answered with what the model said last, whatever was
/// said before it and whatever came behind it.
pub proof fn law_delegates_answer_with_what_was_said_last(
    before: Seq<crate::agent::message::SessionView>,
    said: Seq<char>,
    message: crate::agent::message::SessionView,
    behind: Seq<crate::agent::message::SessionView>,
)
    requires
        message is Assistant,
        message->Assistant_content == seq![crate::ai::types::ContentView::Text { text: said }],
        crate::text::spec_trim(said + "\n"@).len() > 0,
        forall|i: int| 0 <= i < behind.len() ==> !(#[trigger] behind[i] is Assistant),
    ensures
        crate::agent::session::delegate_view(before.push(message) + behind)
            == (crate::agent::call::OutcomeView {
            content: crate::text::spec_trim(said + "\n"@),
            is_error: false,
        }),
    decreases behind.len(),
{
    let all = before.push(message) + behind;
    if behind.len() > 0 {
        assert(all.drop_last() =~= before.push(message) + behind.drop_last());
        assert(all.last() == behind[behind.len() - 1]);
        assert forall|i: int| 0 <= i < behind.drop_last().len() implies !(
        #[trigger] behind.drop_last()[i] is Assistant) by {
            assert(!(behind[i] is Assistant));
        }
        law_delegates_answer_with_what_was_said_last(before, said, message, behind.drop_last());
    } else {
        assert(all =~= before.push(message));
        let parts = message->Assistant_content;
        assert(parts.drop_last() =~= seq![]);
        assert(crate::agent::session::text_lines(parts.drop_last()) =~= seq![]);
        assert(crate::agent::session::text_lines(parts) =~= said + "\n"@);
    }
}

} // verus!
