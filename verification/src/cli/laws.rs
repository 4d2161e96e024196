//! What holds of the front ends: questions and answers, tickets, channels and clients.
use crate::flow::record::StepStatus;
use vstd::prelude::*;

verus! {

/// Whether `part` stands somewhere in `whole`.
pub open spec fn within(part: Seq<char>, whole: Seq<char>) -> bool {
    exists|i: int| #[trigger] crate::text::matches_at(whole, part, i)
}

proof fn lemma_within(before: Seq<char>, part: Seq<char>, after: Seq<char>, whole: Seq<char>)
    requires
        whole == before + part + after,
    ensures
        within(part, whole),
{
    let i = before.len() as int;
    assert(whole.subrange(i, i + part.len()) =~= part);
    assert(crate::text::matches_at(whole, part, i));
}

/// The process for a ticket is told the ticket, its repository and the rest behind
/// their options, and gets every pair, in order, behind an option of its own.
pub proof fn law_processes_are_told_everything(
    config: crate::cli::supervisor::ConfigView,
    key: Seq<char>,
    repo: Seq<char>,
    i: int,
)
    requires
        0 <= i < config.flow_context.len(),
    ensures
        ({
            let args = crate::cli::supervisor::run_args(config, key, repo);
            let n = if config.yes {
                12int
            } else {
                11int
            };
            &&& args.len() == n + 2 * config.flow_context.len()
            &&& args[0] == "ticket-run"@
            &&& args[1] == "--ticket"@ && args[2] == key
            &&& args[3] == "--repo"@ && args[4] == repo
            &&& args[5] == "--flow"@ && args[6] == config.flow_path
            &&& args[7] == "--transition-id"@ && args[8] == config.transition_id
            &&& args[9] == "--agent-dir"@ && args[10] == config.agent_dir
            &&& config.yes ==> args[11] == "--yes"@
            &&& args[n + 2 * i] == "--flow-context"@
            &&& args[n + 2 * i + 1] == config.flow_context[i]
        }),
{
    lemma_context_args(config.flow_context, i);
}

proof fn lemma_context_args(pairs: Seq<Seq<char>>, i: int)
    requires
        0 <= i < pairs.len(),
    ensures
        crate::cli::supervisor::context_args(pairs).len() == 2 * pairs.len(),
        crate::cli::supervisor::context_args(pairs)[2 * i] == "--flow-context"@,
        crate::cli::supervisor::context_args(pairs)[2 * i + 1] == pairs[i],
    decreases pairs.len(),
{
    let init = pairs.drop_last();
    if init.len() > 0 {
        if i < init.len() {
            lemma_context_args(init, i);
        } else {
            lemma_context_args(init, 0);
        }
    } else {
        assert(crate::cli::supervisor::context_args(init).len() == 0);
    }
}

/// A ticket that is started is the one that was picked, for its own repository, and it
/// is worked on from there on; a pick that failed starts nothing and says why.
pub proof fn law_the_picked_ticket_is_started(
    s: crate::cli::supervisor::SupervisorView,
    t: crate::cli::pickup::PickedView,
    config: crate::cli::supervisor::ConfigView,
    error: Seq<char>,
)
    ensures
        !s.in_flight.contains(t.key) ==> {
            let (after, next) = crate::cli::supervisor::dispatched(s, Ok(t), config);
            &&& next matches crate::cli::supervisor::DispatchView::Start { key, args } && key
                == t.key && args.len() > 4 && args[2] == t.key && args[4] == t.repo
            &&& after.in_flight.contains(t.key)
            &&& after.in_flight.drop_last() == s.in_flight
        },
        ({
            let (after, next) = crate::cli::supervisor::dispatched(s, Err(error), config);
            &&& after == s
            &&& next matches crate::cli::supervisor::DispatchView::Wait(said) && said.len() > 0
                && within(error, said[0])
        }),
{
    let all = s.in_flight.push(t.key);
    assert(all[all.len() - 1] == t.key);
    assert(all.drop_last() =~= s.in_flight);
    let said = "pickup failed: "@ + error;
    assert(said =~= "pickup failed: "@ + error + Seq::<char>::empty());
    lemma_within("pickup failed: "@, error, Seq::empty(), said);
}

/// An answer on a channel is the id and all the words behind it.
pub proof fn law_answers_are_the_words_behind_the_id(
    message: Seq<char>,
    id: Seq<char>,
    answer: Seq<char>,
)
    requires
        crate::cli::slack::answer_in(message) == Some((id, answer)),
    ensures
        crate::text::spec_words(message).len() >= 2,
        "ask-"@.is_prefix_of(id),
        crate::text::spec_words(message)[0] == id,
        crate::text::spec_join(crate::text::spec_words(message), " "@) == id + " "@ + answer,
{
    let words = crate::text::spec_words(message);
    assert(id.subrange(0, "ask-"@.len() as int) =~= "ask-"@);
    lemma_join_front(words, " "@);
}

proof fn lemma_join_front(parts: Seq<Seq<char>>, sep: Seq<char>)
    requires
        parts.len() >= 2,
    ensures
        crate::text::spec_join(parts, sep) == parts[0] + sep + crate::text::spec_join(
            parts.skip(1),
            sep,
        ),
    decreases parts.len(),
{
    let rest = parts.skip(1);
    if parts.len() == 2 {
        let init = parts.drop_last();
        assert(init.len() == 1 && init[0] == parts[0]);
        assert(rest.len() == 1 && rest[0] == parts[1]);
        assert(crate::text::spec_join(init, sep) == parts[0]);
    } else {
        lemma_join_front(parts.drop_last(), sep);
        assert(parts.drop_last().skip(1) =~= rest.drop_last());
        assert(rest.last() == parts.last());
        assert(crate::text::spec_join(parts, sep) =~= parts[0] + sep + crate::text::spec_join(
            rest,
            sep,
        ));
    }
}

/// What is posted for a message goes to the channel from which it came, and so does
/// what comes of work that it starts. An answer reaches the question whose id it bears.
pub proof fn law_replies_go_where_the_message_came_from(
    message: crate::cli::slack::InboundView,
    pending: Seq<Seq<char>>,
    triggers: bool,
)
    ensures
        ({
            let step = crate::cli::slack::inbound_of(message, pending, triggers);
            &&& step.post matches Some((channel, said)) ==> channel == message.channel
            &&& step.pickup matches Some((ticket, channel)) ==> channel == message.channel && triggers
            &&& step.answered matches Some((id, answer)) ==> {
                &&& pending.contains(id)
                &&& crate::cli::slack::answer_in(message.text) == Some((id, answer))
                &&& !crate::cli::slack::pending_after(pending, message.text).contains(id)
                &&& step.post matches Some((channel, said)) && within(id, said) && within(
                    answer,
                    said,
                )
            }
            &&& step.answered is None ==> (step.post matches Some((channel, said)) ==> within(
                message.text,
                said,
            ))
            &&& crate::cli::slack::answer_in(message.text) is None && step.pickup is None
                ==> step.post is Some
        }),
{
    let none = Seq::<char>::empty();
    if let Some((id, answer)) = crate::cli::slack::answer_in(message.text) {
        lemma_without_id(pending, id);
        let said = "✅ answered `"@ + id + "`: "@ + answer;
        assert(said =~= "✅ answered `"@ + id + ("`: "@ + answer));
        lemma_within("✅ answered `"@, id, "`: "@ + answer, said);
        assert(said =~= ("✅ answered `"@ + id + "`: "@) + answer + none);
        lemma_within("✅ answered `"@ + id + "`: "@, answer, none, said);
    }
    let echo = "agent-m online. You said: "@ + message.text;
    assert(echo =~= "agent-m online. You said: "@ + message.text + none);
    lemma_within("agent-m online. You said: "@, message.text, none, echo);
}

proof fn lemma_without_id(pending: Seq<Seq<char>>, id: Seq<char>)
    ensures
        !crate::cli::human::without_id(pending, id).contains(id),
    decreases pending.len(),
{
    if pending.len() > 0 {
        lemma_without_id(pending.drop_last(), id);
        crate::sorted::lemma_push_contains(
            crate::cli::human::without_id(pending.drop_last(), id),
            pending.last(),
            id,
        );
    }
}

/// The message in an event has the channel, the user, the text and the time that the
/// event names.
pub proof fn law_messages_are_read_as_they_were_sent(
    value: crate::json::JsonView,
    payload: crate::json::JsonView,
    event: crate::json::JsonView,
    channel: Seq<char>,
    user: Seq<char>,
    text: Seq<char>,
    ts: Seq<char>,
)
    requires
        value.field("payload"@) == Some(payload),
        payload.field("event"@) == Some(event),
        crate::ai::sent::holds_text(event, "channel"@, channel),
        crate::ai::sent::holds_text(event, "user"@, user),
        crate::ai::sent::holds_text(event, "text"@, text),
        crate::ai::sent::holds_text(event, "ts"@, ts),
    ensures
        crate::ai::sent::holds_text(event, "type"@, "message"@) ==> (crate::cli::slack::message_in(
            value,
        ) matches Some(m) && m.channel == channel && m.user == user && m.text == text && m.ts
            == ts),
        crate::cli::slack::message_in(value) is Some ==> crate::ai::sent::holds_text(
            event,
            "type"@,
            "message"@,
        ),
{
}

/// A summary has a line for every step, in order, with its name and its error; it
/// begins with the ticket and the flow, and says that it failed exactly where a step
/// did.
pub proof fn law_summaries_tell_of_every_step(
    ticket: Seq<char>,
    run: crate::flow::executor::RunView,
    i: int,
)
    requires
        0 <= i < run.steps.len(),
    ensures
        ({
            let lines = crate::cli::slack::summary_lines(ticket, run);
            let first = if run.fix_rounds > 0 {
                2int
            } else {
                1int
            };
            &&& lines.len() >= first + run.steps.len()
            &&& within(run.steps[i].name, lines[first + i])
            &&& run.steps[i].error is Some ==> run.steps[i].error->0.is_suffix_of(lines[first + i])
            &&& within(ticket, lines[0])
            &&& within(run.flow_name, lines[0])
            &&& run.steps[i].status is Failed ==> "FAILED"@.is_suffix_of(lines[0])
            &&& (forall|k: int|
                0 <= k < run.steps.len() ==> !((#[trigger] run.steps[k]).status is Failed))
                ==> "OK"@.is_suffix_of(lines[0])
        }),
{
    let lines = crate::cli::slack::summary_lines(ticket, run);
    let first = if run.fix_rounds > 0 {
        2int
    } else {
        1int
    };
    let step = run.steps[i];
    let line = crate::cli::slack::step_line(step);
    assert(lines[first + i] == line);
    let mark = match step.status {
        StepStatus::Succeeded => "✓"@,
        StepStatus::Failed => "✗"@,
        StepStatus::Skipped => "⏸"@,
        _ => "·"@,
    };
    let tail = match step.error {
        Some(e) => " — "@ + e,
        None => Seq::empty(),
    };
    assert(line =~= mark + " "@ + step.name + tail);
    lemma_within(mark + " "@, step.name, tail, line);
    if let Some(e) = step.error {
        assert(e =~= line.subrange(line.len() - e.len(), line.len() as int));
    }
    let failed = crate::cli::slack::any_failed(run.steps);
    let icon = if failed {
        "❌"@
    } else {
        "✅"@
    };
    let word = if failed {
        "FAILED"@
    } else {
        "OK"@
    };
    let head = lines[0];
    assert(head =~= icon + " "@ + ticket + (" — "@ + run.flow_name + " "@ + word));
    lemma_within(icon + " "@, ticket, " — "@ + run.flow_name + " "@ + word, head);
    assert(head =~= (icon + " "@ + ticket + " — "@) + run.flow_name + (" "@ + word));
    lemma_within(icon + " "@ + ticket + " — "@, run.flow_name, " "@ + word, head);
    assert(word =~= head.subrange(head.len() - word.len(), head.len() as int));
    if step.status is Failed {
        assert(run.steps[i].status == StepStatus::Failed);
    }
}

/// The question whether a call may be made shows its tool, its arguments and what may
/// come of it, on a channel as at the terminal.
pub proof fn law_gates_show_the_call(
    call: crate::agent::call::CallInfoView,
    risk: Option<Seq<char>>,
    consequence: Seq<char>,
)
    ensures
        ({
            let asked = crate::cli::slack::permission_question(call, risk, consequence);
            &&& within(call.name, asked)
            &&& within(crate::json::json_text(call.arguments), asked)
            &&& within(consequence, asked)
            &&& risk is Some ==> within(risk->0, asked)
        }),
        ({
            let asked = crate::cli::ask::approval_of(call, risk, consequence);
            &&& within(call.name, asked)
            &&& within(crate::json::json_text(call.arguments), asked)
            &&& within(consequence, asked)
            &&& risk is Some ==> within(risk->0, asked)
        }),
{
    let args = crate::json::json_text(call.arguments);
    let level = match risk {
        Some(r) => r,
        None => "High"@,
    };
    lemma_gate(
        "⚠️  [Security Gate] Tool Execution Requested:\n    Tool: "@,
        call.name,
        args,
        level,
        consequence,
        Seq::empty(),
        crate::cli::slack::permission_question(call, risk, consequence),
    );
    lemma_gate(
        "\n⚠️  [Security Gate] Tool Execution Requested:\n    Tool: "@,
        call.name,
        args,
        level,
        consequence,
        "\n\n[y] Approve  [n] Deny > "@,
        crate::cli::ask::approval_of(call, risk, consequence),
    );
}

proof fn lemma_gate(
    head: Seq<char>,
    name: Seq<char>,
    args: Seq<char>,
    level: Seq<char>,
    consequence: Seq<char>,
    tail: Seq<char>,
    whole: Seq<char>,
)
    requires
        whole =~= head + name + "\n    Args: "@ + args + "\n    Risk Level: "@ + level
            + "\n    Consequence: "@ + consequence + tail,
    ensures
        within(name, whole),
        within(args, whole),
        within(level, whole),
        within(consequence, whole),
{
    let a = head;
    let b = a + name + "\n    Args: "@;
    let c = b + args + "\n    Risk Level: "@;
    let d = c + level + "\n    Consequence: "@;
    assert(whole =~= d + consequence + tail);
    lemma_within(d, consequence, tail, whole);
    assert(whole =~= c + level + ("\n    Consequence: "@ + consequence + tail));
    lemma_within(c, level, "\n    Consequence: "@ + consequence + tail, whole);
    let e = "\n    Risk Level: "@ + level + "\n    Consequence: "@ + consequence + tail;
    assert(whole =~= b + args + e);
    lemma_within(b, args, e, whole);
    assert(whole =~= a + name + ("\n    Args: "@ + args + e));
    lemma_within(a, name, "\n    Args: "@ + args + e, whole);
}

/// A question as it is posted shows the question, every option under its number, and
/// the id with which to reply.
pub proof fn law_questions_show_their_options(
    id: Seq<char>,
    question: Seq<char>,
    options: Seq<Seq<char>>,
    i: int,
)
    requires
        0 <= i < options.len(),
    ensures
        ({
            let posted = crate::cli::human::posted_question(id, question, Some(options));
            &&& within(question, posted)
            &&& within(id, posted)
            &&& within(
                crate::text::spec_decimal((i + 1) as nat) + ". "@ + options[i],
                posted,
            )
        }),
        within(question, crate::cli::human::posted_question(id, question, None)),
        within(id, crate::cli::human::posted_question(id, question, None)),
{
    let all = crate::cli::human::numbered(options, options.len() as int);
    let posted = crate::cli::human::posted_question(id, question, Some(options));
    let end = "\nreply with: "@ + id + " <answer>"@;
    assert(posted =~= "❓ "@ + question + (all + end));
    lemma_within("❓ "@, question, all + end, posted);
    let front = "❓ "@ + question + all + "\nreply with: "@;
    assert(posted =~= front + id + " <answer>"@);
    lemma_within(front, id, " <answer>"@, posted);
    let line = crate::text::spec_decimal((i + 1) as nat) + ". "@ + options[i];
    let (before, after) = lemma_numbered(options, options.len() as int, i);
    assert(posted =~= ("❓ "@ + question + before) + line + (after + end));
    lemma_within("❓ "@ + question + before, line, after + end, posted);
    let bare = crate::cli::human::posted_question(id, question, None);
    assert(bare =~= "❓ "@ + question + end);
    lemma_within("❓ "@, question, end, bare);
    assert(bare =~= ("❓ "@ + question + "\nreply with: "@) + id + " <answer>"@);
    lemma_within("❓ "@ + question + "\nreply with: "@, id, " <answer>"@, bare);
}

proof fn lemma_numbered(options: Seq<Seq<char>>, upto: int, i: int) -> (r: (Seq<char>, Seq<char>))
    requires
        0 <= i < upto <= options.len(),
    ensures
        crate::cli::human::numbered(options, upto) == r.0 + (crate::text::spec_decimal(
            (i + 1) as nat,
        ) + ". "@ + options[i]) + r.1,
    decreases upto,
{
    let line = crate::text::spec_decimal((i + 1) as nat) + ". "@ + options[i];
    let whole = crate::cli::human::numbered(options, upto);
    let init = crate::cli::human::numbered(options, upto - 1);
    if i == upto - 1 {
        assert(whole =~= (init + "\n  "@) + line + Seq::empty());
        (init + "\n  "@, Seq::empty())
    } else {
        let (a, b) = lemma_numbered(options, upto - 1, i);
        let more = "\n  "@ + crate::text::spec_decimal(upto as nat) + ". "@ + options[upto - 1];
        assert(whole =~= a + line + (b + more));
        (a, b + more)
    }
}

/// Who types the number of an option chooses that option, counted from one; who types
/// anything that names none gives it as the answer.
pub proof fn law_numbers_choose_their_option(
    line: Seq<char>,
    options: Seq<Seq<char>>,
    n: nat,
)
    requires
        crate::text::spec_trim(line) == crate::text::spec_decimal(n),
        1 <= n <= options.len() <= usize::MAX,
    ensures
        crate::cli::ask::answer_of(Some(line), Some(options), false) == Ok::<Seq<char>, Seq<char>>(
            options[n - 1],
        ),
        crate::cli::ask::answer_of(Some(line), None, false) == Ok::<Seq<char>, Seq<char>>(
            crate::text::spec_decimal(n),
        ),
{
    crate::texts::law_decimals_are_read_back(n);
}

/// Where several options can be chosen, the answer is those that the numbers name, in
/// the order in which they were typed.
pub proof fn law_choices_are_added_up(
    options: Seq<Seq<char>>,
    tokens: Seq<Seq<char>>,
    n: nat,
)
    requires
        options.len() <= usize::MAX,
        n <= usize::MAX,
    ensures
        1 <= n <= options.len() ==> crate::cli::ask::options_at(
            options,
            tokens.push(crate::text::spec_decimal(n)),
        ) == crate::cli::ask::options_at(options, tokens).push(options[n - 1]),
        !(1 <= n <= options.len()) ==> crate::cli::ask::options_at(
            options,
            tokens.push(crate::text::spec_decimal(n)),
        ) == crate::cli::ask::options_at(options, tokens),
        crate::cli::ask::options_at(options, seq![]).len() == 0,
{
    crate::texts::law_decimals_are_read_back(n);
    let all = tokens.push(crate::text::spec_decimal(n));
    assert(all.drop_last() =~= tokens);
    assert(all.last() == crate::text::spec_decimal(n));
}

/// A client that is let in and asks with `prompt` has the agent asked what stands
/// behind the word.
pub proof fn law_prompts_reach_the_agent(token: Seq<char>, prompt: Seq<char>, line: Seq<char>)
    requires
        crate::text::spec_trim(line) == "prompt "@ + prompt,
    ensures
        ({
            let c = crate::cli::daemon::ClientView {
                token,
                state: crate::cli::daemon::ClientState::Open,
            };
            let (after, next) = crate::cli::daemon::client_step(c, Some(line));
            next == crate::cli::daemon::ClientActionView::Prompt(prompt) && after == c
        }),
{
    reveal_strlit("prompt ");
    reveal_strlit("QUIT");
    let message = "prompt "@ + prompt;
    let n = "prompt "@.len() as int;
    assert(message.subrange(0, n) =~= "prompt "@);
    assert(message.skip(n) =~= prompt);
    assert(message[0] == 'p');
    assert("QUIT"@[0] == 'Q');
}

/// What a session's file gets is what the events say: each message as it ended, and
/// each result under the id of its call with what the tool gave.
pub proof fn law_sessions_record_what_ended(
    names: Map<Seq<char>, Seq<char>>,
    message: crate::agent::message::SessionView,
    id: Seq<char>,
    outcome: crate::agent::call::OutcomeView,
)
    ensures
        crate::cli::daemon::appended(
            names,
            crate::agent::session::EventView::MessageEnd { message },
        ) == Some(message),
        crate::cli::daemon::appended(
            names,
            crate::agent::session::EventView::ToolExecutionEnd { tool_call_id: id, outcome },
        ) matches Some(result) ==> (result matches crate::agent::message::SessionView::ToolResult {
            tool_call_id,
            name,
            content,
            is_error,
        } && tool_call_id == id && names.contains_key(id) && name == names[id] && content
            == outcome.content && is_error == outcome.is_error),
{
}

/// A prompt that a client sends by message carries the text of its parameters, and its
/// reply the id with which it was asked.
pub proof fn law_prompts_carry_their_text(
    message: crate::json::JsonView,
    id: crate::json::JsonView,
    params: crate::json::JsonView,
    prompt: Seq<char>,
)
    requires
        message.field("id"@) == Some(id),
        !(id is Null),
        crate::ai::sent::holds_text(message, "method"@, "prompt"@),
        message.field("params"@) == Some(params),
        crate::ai::sent::holds_text(params, "text"@, prompt),
    ensures
        crate::cli::serve::asked_by(message) == Some(
            crate::cli::serve::ServeView::Prompt { id, text: prompt },
        ),
{
}

/// The reply to a prompt bears the id of its request, and says whether the prompt went
/// well and otherwise why not.
pub proof fn law_prompts_are_answered(id: crate::json::JsonView, error: Seq<char>)
    ensures
        ({
            let well = crate::cli::serve::prompted_of(id, None);
            let badly = crate::cli::serve::prompted_of(id, Some(error));
            &&& well.field("id"@) == Some(id) && badly.field("id"@) == Some(id)
            &&& well.field("result"@) is Some && badly.field("result"@) is Some
            &&& well.field("result"@)->0.field("ok"@) == Some(crate::json::JsonView::Bool(true))
            &&& well.field("result"@)->0.field("error"@) == Some(crate::json::JsonView::Null)
            &&& badly.field("result"@)->0.field("ok"@) == Some(crate::json::JsonView::Bool(false))
            &&& crate::ai::sent::holds_text(badly.field("result"@)->0, "error"@, error)
        }),
{
    reveal_strlit("jsonrpc");
    reveal_strlit("id");
    reveal_strlit("result");
    reveal_strlit("ok");
    reveal_strlit("error");
    assert("jsonrpc"@.len() == 7);
    assert("id"@.len() == 2);
    assert("result"@.len() == 6);
    assert("ok"@.len() == 2);
    assert("error"@.len() == 5);
}

/// The report of a flow tells of every step, in order: its status and its name, what
/// it gave and what went wrong.
pub proof fn law_reports_tell_of_every_step(
    name: Seq<char>,
    steps: Seq<crate::flow::record::RecordView>,
    step: crate::flow::record::RecordView,
)
    ensures
        crate::cli::flow_mode::report_of(name, steps.push(step)).drop_last()
            == crate::cli::flow_mode::report_of(name, steps).drop_last()
            + crate::cli::flow_mode::report_of(name, seq![step]).drop_last(),
        ({
            let lines = crate::cli::flow_mode::report_of(name, seq![step]).drop_last();
            &&& lines.len() > 0
            &&& step.name.is_suffix_of(lines[0])
            &&& within(step.status.word(), lines[0])
            &&& step.error matches Some(e) ==> lines.len() > 1 && e.is_suffix_of(lines.last())
            &&& step.output is Some && step.output->0.text_field("content"@) is Some ==> lines.len()
                > 1 && step.output->0.text_field("content"@)->0.is_suffix_of(lines[1])
        }),
        within(name, crate::cli::flow_mode::report_of(name, steps).last()),
        step.status is Failed ==> "FAILED"@.is_suffix_of(
            crate::cli::flow_mode::report_of(name, steps.push(step)).last(),
        ),
{
    let one = seq![step];
    let all = steps.push(step);
    assert(one.drop_last() =~= Seq::empty());
    assert(crate::cli::flow_mode::steps_lines(one.drop_last()).len() == 0);
    assert(one.last() == step);
    assert(crate::cli::flow_mode::steps_lines(one) =~= crate::cli::flow_mode::step_lines(step));
    assert(all.drop_last() =~= steps);
    assert(all.last() == step);
    assert(crate::cli::flow_mode::report_of(name, one).drop_last()
        =~= crate::cli::flow_mode::steps_lines(one));
    assert(crate::cli::flow_mode::report_of(name, all).drop_last()
        =~= crate::cli::flow_mode::steps_lines(all));
    assert(crate::cli::flow_mode::report_of(name, steps).drop_last()
        =~= crate::cli::flow_mode::steps_lines(steps));
    let head = "["@ + step.status.word() + "] "@ + step.name;
    assert(step.name =~= head.subrange(head.len() - step.name.len(), head.len() as int));
    assert(head =~= "["@ + step.status.word() + ("] "@ + step.name));
    lemma_within("["@, step.status.word(), "] "@ + step.name, head);
    let lines = crate::cli::flow_mode::step_lines(step);
    assert(lines[0] == head);
    if let Some(e) = step.error {
        let said = "    error: "@ + e;
        assert(lines.last() == said);
        assert(e =~= said.subrange(said.len() - e.len(), said.len() as int));
    }
    if step.output is Some && step.output->0.text_field("content"@) is Some {
        let c = step.output->0.text_field("content"@)->0;
        let said = "    "@ + c;
        assert(lines[1] == said);
        assert(c =~= said.subrange(said.len() - c.len(), said.len() as int));
    }
    let word = if crate::cli::slack::any_failed(steps) {
        "FAILED"@
    } else {
        "OK"@
    };
    let last = crate::cli::flow_mode::report_of(name, steps).last();
    assert(last =~= "flow "@ + name + (": "@ + word));
    lemma_within("flow "@, name, ": "@ + word, last);
    if step.status is Failed {
        assert(all[all.len() - 1].status == StepStatus::Failed);
        assert(crate::cli::slack::any_failed(all));
        let end = crate::cli::flow_mode::report_of(name, all).last();
        assert("FAILED"@ =~= end.subrange(end.len() - "FAILED"@.len(), end.len() as int));
    }
}

/// The project of a ticket is what stands before its first dash, and the ticket is
/// worked on in the repository of that project.
pub proof fn law_projects_have_their_repository(
    project: Seq<char>,
    number: Seq<char>,
    repos: Map<Seq<char>, Seq<char>>,
)
    requires
        !project.contains('-'),
    ensures
        ({
            let ticket = project + seq!['-'] + number;
            &&& crate::cli::pickup::project_of(ticket) == project
            &&& repos.contains_key(project) ==> crate::cli::pickup::repo_for(ticket, repos, None)
                == Ok::<Seq<char>, Seq<char>>(repos[project])
            &&& !repos.contains_key(project) ==> crate::cli::pickup::repo_for(ticket, repos, None)
                is Err
        }),
{
    reveal_strlit("-");
    let ticket = project + seq!['-'] + number;
    let dash = "-"@;
    let n = project.len() as int;
    crate::text::law_find_is_first(ticket, dash);
    assert(ticket.subrange(n, n + 1) =~= dash);
    assert(crate::text::matches_at(ticket, dash, n));
    assert forall|j: int| 0 <= j < n implies !#[trigger] crate::text::matches_at(ticket, dash, j) by {
        if crate::text::matches_at(ticket, dash, j) {
            assert(ticket.subrange(j, j + 1)[0] == '-');
            assert(project[j] == '-');
        }
    }
    assert(ticket.take(n) =~= project);
}

/// A ticket that is named is picked as it is, whatever a search would find; without
/// one the search is made with the address, the token and the query that are given.
pub proof fn law_named_tickets_are_picked(
    ticket: Seq<char>,
    repo: Option<Seq<char>>,
    jql: Seq<char>,
    url: Seq<char>,
    token: Seq<char>,
    repos: Map<Seq<char>, Seq<char>>,
)
    ensures
        ticket.len() > 0 && crate::cli::pickup::repo_for(ticket, repos, repo) is Ok ==> (
        crate::cli::pickup::pick_of(
            Some(ticket),
            repo,
            Some(jql),
            Some(url),
            Some(token),
            repos,
        ) matches crate::cli::pickup::PickView::Picked(p) && p.key == ticket && p.repo
            == crate::cli::pickup::repo_for(ticket, repos, repo)->Ok_0),
        jql.len() > 0 ==> (crate::cli::pickup::pick_of(
            None,
            repo,
            Some(jql),
            Some(url),
            Some(token),
            repos,
        ) matches crate::cli::pickup::PickView::Query { base, token: t, jql: q } && base == url && t
            == token && q == jql),
{
}

/// What a search found is worked on: its first ticket, with that ticket's own summary.
pub proof fn law_the_first_ticket_is_picked(
    body: crate::json::JsonView,
    issues: Seq<crate::json::JsonView>,
    fields: crate::json::JsonView,
    key: Seq<char>,
    summary: Seq<char>,
    jql: Seq<char>,
    repos: Map<Seq<char>, Seq<char>>,
    repo: Seq<char>,
    status: Seq<char>,
)
    requires
        body.field("issues"@) == Some(crate::json::JsonView::Array(issues)),
        issues.len() > 0,
        crate::ai::sent::holds_text(issues[0], "key"@, key),
        issues[0].field("fields"@) == Some(fields),
        crate::ai::sent::holds_text(fields, "summary"@, summary),
        repo.len() > 0,
    ensures
        crate::cli::pickup::search_of(true, status, body) matches Ok(found) && (
        crate::cli::pickup::found_of(
            found,
            jql,
            repos,
            Some(repo),
        ) matches crate::cli::pickup::PickView::Picked(p) && p.key == key && p.summary == summary
            && p.repo == repo),
        crate::cli::pickup::search_of(false, status, body) is Err,
{
}

/// The report of how a flow ended bears the time, the outcome and the rounds.
pub proof fn law_verdicts_say_how_it_ended(
    ts: Seq<char>,
    run: crate::flow::executor::RunView,
    i: int,
)
    ensures
        ({
            let verdict = crate::cli::ticket_log::verdict_of(ts, run);
            &&& crate::ai::sent::holds_text(verdict, "ts"@, ts)
            &&& crate::ai::sent::holds_text(verdict, "kind"@, "verdict"@)
            &&& verdict.field("fix_rounds"@) == Some(
                crate::json::JsonView::Number(
                    crate::json::NumberView::Unsigned(run.fix_rounds as u64),
                ),
            )
            &&& 0 <= i < run.steps.len() && run.steps[i].status is Failed
                ==> crate::ai::sent::holds_text(verdict, "status"@, "FAILED"@)
            &&& (forall|k: int|
                0 <= k < run.steps.len() ==> !((#[trigger] run.steps[k]).status is Failed))
                ==> crate::ai::sent::holds_text(verdict, "status"@, "OK"@)
        }),
{
    reveal_strlit("ts");
    reveal_strlit("kind");
    reveal_strlit("status");
    reveal_strlit("fix_rounds");
    reveal_strlit("pr");
    assert("ts"@[0] != "pr"@[0]);
    assert("ts"@.len() == 2);
    assert("pr"@.len() == 2);
    assert("kind"@.len() == 4);
    assert("status"@.len() == 6);
    assert("fix_rounds"@.len() == 10);
    if 0 <= i < run.steps.len() && run.steps[i].status is Failed {
        assert(run.steps[i].status == StepStatus::Failed);
    }
}

/// What a user types while attached is sent on as one line, without the white space
/// around it; a blank line is not, and the words to leave end the session.
pub proof fn law_attached_lines_are_sent_on(session: Seq<char>, line: Seq<char>)
    ensures
        ({
            let words = crate::text::spec_trim(line);
            let step = crate::cli::attach::attach_step(session, Some(line));
            &&& words.len() == 0 ==> step is Again
            &&& words == "/detach"@ || words == "/exit"@ ==> step is Detach
            &&& words.len() > 0 && words != "/detach"@ && words != "/exit"@ ==> (
            step matches crate::cli::attach::AttachView::Send(sent) && sent == words + seq!['\n'])
        }),
{
    reveal_strlit("\n");
    reveal_strlit("/detach");
    reveal_strlit("/exit");
    assert("\n"@ =~= seq!['\n']);
    assert("/detach"@.len() == 7);
    assert("/exit"@.len() == 5);
}

} // verus!
