//! What holds of what is said to users, channels and servers, and of what they say.
use crate::agent::session::Mode;
use crate::flow::record::StepStatus;
use vstd::prelude::*;

verus! {

proof fn lemma_ends_with(front: Seq<char>, part: Seq<char>, whole: Seq<char>)
    requires
        whole == front + part,
    ensures
        part.is_suffix_of(whole),
{
    assert(part =~= whole.subrange(whole.len() - part.len(), whole.len() as int));
}

proof fn lemma_stands_in(front: Seq<char>, part: Seq<char>, back: Seq<char>, whole: Seq<char>)
    requires
        whole == front + part + back,
    ensures
        crate::cli::laws::within(part, whole),
{
    let i = front.len() as int;
    assert(whole.subrange(i, i + part.len()) =~= part);
    assert(crate::text::matches_at(whole, part, i));
}

/// A risky call that would be allowed is denied with its risk where nobody can be
/// asked; of one that is not risky, or is denied already, the decision stays.
pub proof fn law_risk_only_takes_away(
    risk: Seq<char>,
    permission: crate::agent::tool::PermissionView,
)
    ensures
        crate::agent::tool::hardened(None, permission) == permission,
        permission is Denied ==> crate::agent::tool::hardened(Some(risk), permission) == permission,
        permission is Allowed ==> (crate::agent::tool::hardened(
            Some(risk),
            permission,
        ) matches crate::agent::tool::PermissionView::Denied(why) && risk.is_suffix_of(why)),
{
    let front = "destructive command requires explicit approval: "@;
    lemma_ends_with(front, risk, front + risk);
}

/// The tools that are kept are those that are named, or all where none is, without
/// those that are excluded; each stays the tool that it was.
pub proof fn law_kept_tools_are_the_same<V>(
    tools: Map<Seq<char>, V>,
    allow: Seq<Seq<char>>,
    exclude: Seq<Seq<char>>,
    name: Seq<char>,
)
    ensures
        ({
            let kept = crate::agent::tool::kept_tools(tools, allow, exclude);
            &&& kept.contains_key(name) <==> tools.contains_key(name) && !exclude.contains(name) && (
            allow.len() == 0 || allow.contains(name))
            &&& kept.contains_key(name) ==> kept[name] == tools[name]
        }),
{
}

/// A worktree is listed by each line that names one, in order, and other lines are
/// passed over.
pub proof fn law_worktrees_are_listed(lines: Seq<Seq<char>>, path: Seq<char>, other: Seq<char>)
    requires
        !crate::text::begins(path, "worktree "@),
        !crate::text::begins(other, "worktree "@),
    ensures
        crate::agent::worktree::worktree_paths(lines.push("worktree "@ + path))
            == crate::agent::worktree::worktree_paths(lines).push(path),
        crate::agent::worktree::worktree_paths(lines.push(other))
            == crate::agent::worktree::worktree_paths(lines),
{
    reveal_strlit("worktree ");
    let word = "worktree "@;
    let line = word + path;
    assert(line.subrange(0, word.len() as int) =~= word);
    assert(line.skip(word.len() as int) =~= path);
    assert(crate::agent::worktree::after_word(path) == path);
    assert(crate::agent::worktree::after_word(line) == path);
    assert(lines.push(line).drop_last() =~= lines);
    assert(lines.push(other).drop_last() =~= lines);
}

/// An agent that has not spoken has no messages, no turns and nothing counted, and
/// works with the options that it was given.
pub proof fn law_fresh_agents_are_empty(options: crate::agent::session::OptionsView)
    ensures
        ({
            let a = crate::agent::session::fresh_agent(options);
            &&& a.options == options
            &&& a.messages.len() == 0
            &&& a.turn == 0
            &&& a.pending.len() == 0
            &&& a.cache_stats.requests == 0 && a.cache_stats.hit_tokens == 0
                && a.cache_stats.miss_tokens == 0
        }),
{
}

/// A chat request is sent only with a key, and with images only to a model that takes
/// them; the error names the provider or the model.
pub proof fn law_requests_that_cannot_be_met_are_refused(
    id: Seq<char>,
    models: Seq<crate::ai::models::ModelView>,
    request: crate::ai::types::RequestView,
    i: int,
    k: int,
)
    requires
        crate::ai::models::model_from(models, request.model, 0) == Some(k),
    ensures
        crate::ai::openai::chat_body(
            id,
            false,
            models,
            request,
        ) matches Err(crate::ai::provider::AiErrorView::MissingApiKey { provider, .. }) && provider
            == id,
        models[k].supports_images ==> crate::ai::openai::chat_body(id, true, models, request) is Ok,
        !models[k].supports_images && 0 <= i < request.messages.len() && (
        request.messages[i] matches crate::ai::types::MessageView::User { images, .. }
            && images.len() > 0) ==> crate::ai::openai::chat_body(id, true, models, request) is Err,
        (forall|j: int|
            0 <= j < request.messages.len() ==> !((
            #[trigger] request.messages[j]) matches crate::ai::types::MessageView::User {
                images,
                ..
            } && images.len() > 0)) ==> crate::ai::openai::chat_body(id, true, models, request)
            is Ok,
{
    if 0 <= i < request.messages.len() && (
    request.messages[i] matches crate::ai::types::MessageView::User { images, .. } && images.len()
        > 0) {
        assert(crate::ai::openai::has_image(request.messages[i]));
    }
}

/// A confidence below a half is low, one from three quarters on is high, and the tiers
/// rise with it.
pub proof fn law_tiers_rise(value: u8)
    ensures
        value < 50 <==> crate::ai::trust::tier_name(value) == "low"@,
        value >= 75 <==> crate::ai::trust::tier_name(value) == "high"@,
        50 <= value < 75 <==> crate::ai::trust::tier_name(value) == "medium"@,
{
    reveal_strlit("low");
    reveal_strlit("medium");
    reveal_strlit("high");
    assert("low"@.len() == 3 && "medium"@.len() == 6 && "high"@.len() == 4);
}

/// A question at the terminal shows the question, and every option under its number.
pub proof fn law_terminal_questions_show_their_options(
    question: Seq<char>,
    options: Seq<Seq<char>>,
    multi_select: bool,
    i: int,
)
    requires
        0 <= i < options.len(),
    ensures
        ({
            let asked = crate::cli::ask::question_of(question, Some(options), multi_select);
            &&& crate::cli::laws::within(question, asked)
            &&& crate::cli::laws::within(
                crate::text::spec_decimal((i + 1) as nat) + ". "@ + options[i] + "\n"@,
                asked,
            )
        }),
        crate::cli::laws::within(
            question,
            crate::cli::ask::question_of(question, None, multi_select),
        ),
{
    let open = "\n\x1b[36m❓ "@;
    let close = "\x1b[0m\n"@;
    let n = options.len() as int;
    let all = crate::cli::ask::option_lines(options, multi_select, n);
    let end = if multi_select {
        "  Enter numbers separated by spaces (blank = cancel):\n"@
    } else {
        "  Enter number or type your answer (blank = cancel):\n"@
    };
    let asked = crate::cli::ask::question_of(question, Some(options), multi_select);
    assert(asked =~= open + question + (close + all + end));
    lemma_stands_in(open, question, close + all + end, asked);
    let line = crate::text::spec_decimal((i + 1) as nat) + ". "@ + options[i] + "\n"@;
    let (before, after) = lemma_option_lines(options, multi_select, n, i);
    assert(asked =~= (open + question + close + before) + line + (after + end));
    lemma_stands_in(open + question + close + before, line, after + end, asked);
    let bare = crate::cli::ask::question_of(question, None, multi_select);
    assert(bare =~= open + question + (close + "  > "@));
    lemma_stands_in(open, question, close + "  > "@, bare);
}

proof fn lemma_option_lines(
    options: Seq<Seq<char>>,
    multi_select: bool,
    upto: int,
    i: int,
) -> (r: (Seq<char>, Seq<char>))
    requires
        0 <= i < upto <= options.len(),
    ensures
        crate::cli::ask::option_lines(options, multi_select, upto) == r.0 + (
        crate::text::spec_decimal((i + 1) as nat) + ". "@ + options[i] + "\n"@) + r.1,
    decreases upto,
{
    let line = crate::text::spec_decimal((i + 1) as nat) + ". "@ + options[i] + "\n"@;
    let whole = crate::cli::ask::option_lines(options, multi_select, upto);
    let init = crate::cli::ask::option_lines(options, multi_select, upto - 1);
    let mark = if multi_select {
        "  [ ] "@
    } else {
        "  "@
    };
    if i == upto - 1 {
        assert(whole =~= (init + mark) + line + Seq::empty());
        (init + mark, Seq::empty())
    } else {
        let (a, b) = lemma_option_lines(options, multi_select, upto - 1, i);
        let more = mark + crate::text::spec_decimal(upto as nat) + ". "@ + options[upto - 1]
            + "\n"@;
        assert(whole =~= a + line + (b + more));
        (a, b + more)
    }
}

/// What a daemon answers to the token decides whether a client is connected; an answer
/// that refuses is told.
pub proof fn law_greetings_are_told(session: Seq<char>, rest: Seq<char>, refusal: Seq<char>)
    ensures
        crate::cli::attach::greeting_of(session, "OK:"@ + rest) matches Ok(said)
            && crate::cli::laws::within(session, said),
        !crate::text::begins(refusal, "OK:"@) ==> (crate::cli::attach::greeting_of(
            session,
            refusal,
        ) matches Err(said) && crate::text::spec_trim(refusal).is_suffix_of(said)),
{
    let answer = "OK:"@ + rest;
    assert(answer.subrange(0, "OK:"@.len() as int) =~= "OK:"@);
    let said = "Connected to daemon `"@ + session + "`."@;
    lemma_stands_in("Connected to daemon `"@, session, "`."@, said);
    let why = crate::text::spec_trim(refusal);
    lemma_ends_with("Authentication failed: "@, why, "Authentication failed: "@ + why);
}

/// A flow that ran to its end is reported and fails exactly where a step did; one that
/// was aborted is told with its error.
pub proof fn law_flows_end_as_their_steps(
    name: Seq<char>,
    run: crate::flow::executor::RunView,
    error: Seq<char>,
    i: int,
)
    ensures
        crate::cli::flow_mode::mode_result(name, Ok(run)) matches Ok((lines, failed)) && {
            &&& 0 <= i < run.steps.len() && run.steps[i].status is Failed ==> failed
            &&& (forall|k: int|
                0 <= k < run.steps.len() ==> !((#[trigger] run.steps[k]).status is Failed))
                ==> !failed
            &&& lines == crate::cli::flow_mode::report_of(name, run.steps)
        },
        crate::cli::flow_mode::mode_result(name, Err(error)) matches Err(said)
            && error.is_suffix_of(said),
{
    lemma_ends_with("flow failed: "@, error, "flow failed: "@ + error);
    if 0 <= i < run.steps.len() && run.steps[i].status is Failed {
        assert(run.steps[i].status == StepStatus::Failed);
    }
}

/// The commands that are offered for what was typed are those that begin with it, in
/// order, and the hint is what is left of the first.
pub proof fn law_completions_begin_as_typed(names: Seq<Seq<char>>, typed: Seq<char>, i: int)
    ensures
        crate::cli::repl::beginning_with(names, typed) == names.filter(
            |n: Seq<char>| crate::text::begins(n, typed),
        ),
        0 <= i < names.len() && crate::text::begins(names[i], typed) && (forall|k: int|
            0 <= k < i ==> !crate::text::begins(#[trigger] names[k], typed)) ==> (
        crate::cli::repl::hint_from(names, typed, 0) matches Some(hint) && typed + hint
            == names[i]),
{
    lemma_beginning_with(names, typed);
    if 0 <= i < names.len() && crate::text::begins(names[i], typed) {
        lemma_hint(names, typed, i, 0);
        let n = typed.len() as int;
        assert(names[i].subrange(0, n) + names[i].skip(n) =~= names[i]);
    }
}

proof fn lemma_beginning_with(names: Seq<Seq<char>>, typed: Seq<char>)
    ensures
        crate::cli::repl::beginning_with(names, typed) == names.filter(
            |n: Seq<char>| crate::text::begins(n, typed),
        ),
    decreases names.len(),
{
    reveal(Seq::filter);
    let f = |n: Seq<char>| crate::text::begins(n, typed);
    if names.len() == 0 {
        assert(crate::cli::repl::beginning_with(names, typed) =~= names.filter(f));
    } else {
        lemma_beginning_with(names.drop_last(), typed);
        assert(f(names.last()) == crate::text::begins(names.last(), typed));
    }
}

proof fn lemma_hint(names: Seq<Seq<char>>, typed: Seq<char>, i: int, from: int)
    requires
        0 <= from <= i < names.len(),
        crate::text::begins(names[i], typed),
    ensures
        (forall|k: int| from <= k < i ==> !crate::text::begins(#[trigger] names[k], typed))
            ==> crate::cli::repl::hint_from(names, typed, from) == Some(
            names[i].skip(typed.len() as int),
        ),
    decreases i - from,
{
    if from < i {
        lemma_hint(names, typed, i, from + 1);
    }
}

/// A line that begins with a slash is a command, another that is not blank a prompt,
/// each without the white space around it; the end of the input stops.
pub proof fn law_lines_are_commands_or_prompts(line: String)
    ensures
        ({
            let words = crate::text::spec_trim(line@);
            let intent = crate::cli::repl::intent_of(crate::cli::repl::Input::Line(line));
            &&& words.len() == 0 ==> intent is Skip
            &&& words.len() > 0 && words[0] == '/' ==> intent
                == crate::cli::repl::IntentView::Command(words)
            &&& words.len() > 0 && words[0] != '/' ==> intent
                == crate::cli::repl::IntentView::Prompt(words)
        }),
        crate::cli::repl::intent_of(crate::cli::repl::Input::Eof) is Stop,
        crate::cli::repl::intent_of(crate::cli::repl::Input::Interrupted) is Stop,
{
    reveal_strlit("/");
    let words = crate::text::spec_trim(line@);
    if words.len() > 0 {
        assert(words.subrange(0, 1)[0] == words[0]);
        assert("/"@ =~= seq!['/']);
        assert(words[0] == '/' ==> words.subrange(0, 1) =~= "/"@);
    }
}

/// The prompt in front of a line shows the mode and the model.
pub proof fn law_prompts_show_mode_and_model(
    a: crate::cli::ansi::AnsiView,
    mode: Mode,
    model: Seq<char>,
)
    requires
        !a.on,
    ensures
        crate::cli::repl::prompt_of(a, mode, model) == "agent-m ("@ + (if mode is Plan {
            "plan"@
        } else {
            "build"@
        }) + " · "@ + model + ") > "@,
{
}

/// An event of the socket is acknowledged under its own envelope, and the message in
/// it is handed on; what is no event is neither.
pub proof fn law_events_are_acknowledged(
    message: Seq<char>,
    value: crate::json::JsonView,
    envelope: Seq<char>,
)
    requires
        crate::ai::sent::holds_text(value, "envelope_id"@, envelope),
    ensures
        crate::json::parsed_json(message) == Ok::<crate::json::JsonView, Seq<char>>(value)
            && crate::ai::sent::holds_text(value, "type"@, "events_api"@) ==> {
            let (ack, inbound) = crate::cli::slack::socket_of(message);
            &&& inbound == crate::cli::slack::message_in(value)
            &&& exists|j: crate::json::JsonView|
                ack == Some(#[trigger] crate::json::json_text(j)) && crate::ai::sent::holds_text(
                    j,
                    "envelope_id"@,
                    envelope,
                ) && crate::ai::sent::holds_text(j, "type"@, "ack"@)
        },
        crate::json::parsed_json(message) == Ok::<crate::json::JsonView, Seq<char>>(value)
            && value.text_field("type"@) != Some("events_api"@) ==> crate::cli::slack::socket_of(
            message,
        ) == (None::<Seq<char>>, None::<crate::cli::slack::InboundView>),
        crate::json::parsed_json(message) is Err ==> crate::cli::slack::socket_of(message) == (
            None::<Seq<char>>,
            None::<crate::cli::slack::InboundView>,
        ),
{
    reveal_strlit("type");
    reveal_strlit("envelope_id");
    assert("type"@.len() == 4 && "envelope_id"@.len() == 11);
    let j = crate::ai::wire::jo(
        map![
            "type"@ => crate::ai::wire::js("ack"@),
            "envelope_id"@ => crate::ai::wire::js(envelope),
        ],
    );
    assert(crate::cli::slack::ack_of(value) == crate::json::json_text(j));
    assert(crate::ai::sent::holds_text(j, "envelope_id"@, envelope));
    assert(crate::ai::sent::holds_text(j, "type"@, "ack"@));
}

/// The address of the socket is the one in a reply that went through; one that did not
/// gives its error.
pub proof fn law_sockets_are_where_the_reply_says(
    reply: crate::json::JsonView,
    url: Seq<char>,
    error: Seq<char>,
)
    ensures
        reply.field("ok"@) == Some(crate::json::JsonView::Bool(true))
            && crate::ai::sent::holds_text(reply, "url"@, url) ==> crate::cli::slack::socket_url_of(
            reply,
        ) == Ok::<Seq<char>, Seq<char>>(url),
        reply.field("ok"@) != Some(crate::json::JsonView::Bool(true))
            && crate::ai::sent::holds_text(reply, "error"@, error) ==> (
        crate::cli::slack::socket_url_of(reply) matches Err(said) && error.is_suffix_of(said)),
{
    lemma_ends_with("slack error: "@, error, "slack error: "@ + error);
}

/// A call is permitted by a word of approval alone, in capitals or not: an answer of
/// another length is none, and one that differs in its capitals alone counts the same.
pub proof fn law_only_approval_permits(answer: Seq<char>, other: Seq<char>)
    ensures
        crate::cli::slack::permits("approve"@),
        crate::cli::slack::permits("allow"@),
        crate::cli::slack::permits("1"@),
        answer.len() != 7 && answer.len() != 5 && answer.len() != 1 ==> !crate::cli::slack::permits(
            answer,
        ),
        crate::text::ascii_lowered(answer) == crate::text::ascii_lowered(other)
            ==> crate::cli::slack::permits(answer) == crate::cli::slack::permits(other),
{
    reveal_strlit("approve");
    reveal_strlit("allow");
    reveal_strlit("1");
    assert(crate::text::ascii_lowered("approve"@).len() == 7);
    assert(crate::text::ascii_lowered("allow"@).len() == 5);
    assert(crate::text::ascii_lowered("1"@).len() == 1);
    assert(crate::text::ascii_lowered(answer).len() == answer.len());
}

/// What is posted of a tool names the tool, what is posted of a notice is its message,
/// and the progress of a step bears its number from one and its name.
pub proof fn law_posts_say_what_happened(
    id: Seq<char>,
    name: Seq<char>,
    arguments: crate::json::JsonView,
    message: Seq<char>,
    p: crate::flow::executor::ProgressView,
)
    ensures
        crate::cli::slack::event_text(
            crate::agent::session::EventView::ToolExecutionStart {
                tool_call_id: id,
                name,
                arguments,
            },
        ) matches Some(said) && crate::cli::laws::within(name, said),
        crate::cli::slack::event_text(
            crate::agent::session::EventView::Notice { message },
        ) matches Some(said) && message.is_suffix_of(said),
        crate::cli::laws::within(
            crate::text::spec_decimal((p.step_index + 1) as nat),
            crate::cli::slack::progress_text(p),
        ),
        crate::cli::laws::within(p.step_name, crate::cli::slack::progress_text(p)),
{
    lemma_stands_in("🔧 `"@, name, "`…"@, "🔧 `"@ + name + "`…"@);
    lemma_ends_with("⚠️ "@, message, "⚠️ "@ + message);
    let icon = match p.status {
        StepStatus::Running => "🔄"@,
        StepStatus::Succeeded => "✅"@,
        StepStatus::Failed => "❌"@,
        _ => "⏸️"@,
    };
    let number = crate::text::spec_decimal((p.step_index + 1) as nat);
    let whole = crate::cli::slack::progress_text(p);
    assert(whole =~= (icon + " step "@) + number + (" `"@ + p.step_name + "`"@));
    lemma_stands_in(icon + " step "@, number, " `"@ + p.step_name + "`"@, whole);
    assert(whole =~= (icon + " step "@ + number + " `"@) + p.step_name + "`"@);
    lemma_stands_in(icon + " step "@ + number + " `"@, p.step_name, "`"@, whole);
}

/// The level of autonomy is the one that is given, else that of the settings; below
/// three every tool is asked about, and from there on those of which nothing is known.
pub proof fn law_levels_decide_what_is_asked(
    given: u8,
    level: u64,
    settings: crate::json::JsonView,
    all: Seq<Seq<char>>,
    opaque: Seq<Seq<char>>,
)
    ensures
        crate::cli::startup::level_of(Some(given), settings) == given,
        level < 256 && settings.field("level"@) == Some(
            crate::json::JsonView::Number(crate::json::NumberView::Unsigned(level)),
        ) ==> crate::cli::startup::level_of(None, settings) == level,
        settings.field("level"@) is None ==> crate::cli::startup::level_of(None, settings) == 3,
        given <= 2 ==> crate::cli::startup::asked_tools(given, all, opaque) == all,
        given > 2 ==> crate::cli::startup::asked_tools(given, all, opaque) == opaque,
{
}

/// The process for a ticket that ended badly is told of with its ticket and its status;
/// one that ended well is not.
pub proof fn law_bad_ends_are_told(key: Seq<char>, status: Seq<char>)
    ensures
        crate::cli::supervisor::exit_text(key, crate::cli::supervisor::ExitView::Success) is None,
        crate::cli::supervisor::exit_text(
            key,
            crate::cli::supervisor::ExitView::Status(status),
        ) matches Some(said) && crate::cli::laws::within(key, said) && status.is_suffix_of(said),
        crate::cli::supervisor::exit_text(
            key,
            crate::cli::supervisor::ExitView::NotStarted(status),
        ) matches Some(said) && crate::cli::laws::within(key, said) && status.is_suffix_of(said),
{
    let a = "ticket-run for "@ + key + " exited with "@;
    lemma_ends_with(a, status, a + status);
    assert(a + status =~= "ticket-run for "@ + key + (" exited with "@ + status));
    lemma_stands_in("ticket-run for "@, key, " exited with "@ + status, a + status);
    let b = "ticket-run for "@ + key + " failed to start: "@;
    lemma_ends_with(b, status, b + status);
    assert(b + status =~= "ticket-run for "@ + key + (" failed to start: "@ + status));
    lemma_stands_in("ticket-run for "@, key, " failed to start: "@ + status, b + status);
}

/// Work on tickets goes on after a wait exactly where an interval is set; without one
/// it ends as the work did.
pub proof fn law_polling_goes_on(end: crate::cli::supervisor::PickupEnd, interval: u64)
    requires
        !(end is DryRun),
    ensures
        interval > 0 ==> crate::cli::supervisor::after_pickup(end, interval).1 is Again,
        interval == 0 ==> !(crate::cli::supervisor::after_pickup(end, interval).1 is Again),
        interval == 0 && end is Failed ==> crate::cli::supervisor::after_pickup(end, interval).1
            is Fail,
        end matches crate::cli::supervisor::PickupEnd::Ran { failed, .. } ==> (interval == 0 ==> (
        crate::cli::supervisor::after_pickup(end, interval).1 is Exit) == failed),
        interval > 0 ==> crate::text::spec_decimal(interval as nat).len() > 0
            && crate::cli::supervisor::after_pickup(end, interval).0.len() > 0
            && crate::cli::laws::within(
            crate::text::spec_decimal(interval as nat),
            crate::cli::supervisor::after_pickup(end, interval).0.last(),
        ),
{
    let n = crate::text::spec_decimal(interval as nat);
    crate::texts::law_decimals_are_read_back(interval as nat);
    lemma_stands_in(
        "pickup: sleeping "@,
        n,
        "s before next pick (Ctrl-C to stop)"@,
        crate::cli::supervisor::sleeping(interval),
    );
}

/// A line of a ticket's log is told in words with its time and its subject; one that is
/// no report stays as it is.
pub proof fn law_log_lines_are_told(
    line: Seq<char>,
    j: crate::json::JsonView,
    ts: Seq<char>,
    subject: Seq<char>,
)
    requires
        crate::ai::sent::holds_text(j, "ts"@, ts),
    ensures
        crate::json::parsed_json(line) is Err ==> crate::cli::ticket_log::line_text(line) == line,
        crate::json::parsed_json(line) == Ok::<crate::json::JsonView, Seq<char>>(j)
            && crate::ai::sent::holds_text(j, "kind"@, "step"@) && crate::ai::sent::holds_text(
            j,
            "step"@,
            subject,
        ) ==> ts.is_prefix_of(crate::cli::ticket_log::line_text(line)) && subject.is_suffix_of(
            crate::cli::ticket_log::line_text(line),
        ),
        crate::json::parsed_json(line) == Ok::<crate::json::JsonView, Seq<char>>(j)
            && crate::ai::sent::holds_text(j, "kind"@, "pickup"@) && crate::ai::sent::holds_text(
            j,
            "ticket"@,
            subject,
        ) ==> ts.is_prefix_of(crate::cli::ticket_log::line_text(line)) && crate::cli::laws::within(
            subject,
            crate::cli::ticket_log::line_text(line),
        ),
{
    reveal_strlit("step");
    reveal_strlit("pickup");
    reveal_strlit("verdict");
    assert("step"@.len() == 4 && "pickup"@.len() == 6 && "verdict"@.len() == 7);
    let status = crate::cli::ticket_log::text_or(j, "status"@, ""@);
    let summary = crate::cli::ticket_log::text_or(j, "summary"@, ""@);
    let a = ts + " ["@ + status + "] "@ + subject;
    assert(ts =~= a.subrange(0, ts.len() as int));
    assert(a =~= (ts + " ["@ + status + "] "@) + subject);
    lemma_ends_with(ts + " ["@ + status + "] "@, subject, a);
    let b = ts + " pickup "@ + subject + " — "@ + summary;
    assert(ts =~= b.subrange(0, ts.len() as int));
    assert(b =~= (ts + " pickup "@) + subject + (" — "@ + summary));
    lemma_stands_in(ts + " pickup "@, subject, " — "@ + summary, b);
}

/// A tool of a server that failed is told as an error with what went wrong, and one
/// that did not with what it gave.
pub proof fn law_outcomes_are_what_the_server_said(content: Seq<char>, error: Seq<char>)
    ensures
        ({
            let well = crate::mcp::tools::outcome_of(Ok(content));
            let badly = crate::mcp::tools::outcome_of(Err(error));
            &&& well.content == content && !well.is_error
            &&& error.is_suffix_of(badly.content) && badly.is_error
        }),
{
    lemma_ends_with("MCP tool failed: "@, error, "MCP tool failed: "@ + error);
}

/// An installed plugin is brought up to date from the source that its manifest names,
/// and only where it is the one that is wanted, or all are.
pub proof fn law_wanted_plugins_are_updated(
    name: Seq<char>,
    other: Seq<char>,
    manifest: Seq<char>,
    m: crate::json::JsonView,
    source: Seq<char>,
)
    requires
        crate::ai::sent::holds_text(m, "source"@, source),
        other != name,
    ensures
        crate::cli::plugins::update_of(Some(other), name, manifest) is Skip,
        crate::json::parsed_json(manifest) == Ok::<crate::json::JsonView, Seq<char>>(m)
            ==> crate::cli::plugins::update_of(Some(name), name, manifest)
            == crate::cli::plugins::UpdateView::Reinstall(source)
            && crate::cli::plugins::update_of(None, name, manifest)
            == crate::cli::plugins::UpdateView::Reinstall(source),
        crate::json::parsed_json(manifest) is Err ==> crate::cli::plugins::update_of(
            None,
            name,
            manifest,
        ) is Say,
{
}

/// The plugins that are installed are listed, each by its name and whether it can be
/// used.
pub proof fn law_installed_plugins_are_listed(
    dir: Seq<char>,
    plugins: Seq<(Seq<char>, bool)>,
    i: int,
)
    requires
        0 <= i < plugins.len(),
    ensures
        ({
            let lines = crate::cli::plugins::list_of(dir, Some(plugins));
            let (name, ready) = plugins[i];
            &&& lines.len() == plugins.len()
            &&& name.is_prefix_of(lines[i])
            &&& ready == "ready"@.is_suffix_of(lines[i])
        }),
{
    reveal_strlit("ready");
    reveal_strlit("MISSING ENTRY");
    let (name, ready) = plugins[i];
    let line = crate::cli::plugins::list_line(plugins[i]);
    assert(crate::cli::plugins::list_of(dir, Some(plugins))[i] == line);
    assert(name =~= line.subrange(0, name.len() as int));
    if ready {
        assert(line =~= (name + "\t"@) + "ready"@);
        lemma_ends_with(name + "\t"@, "ready"@, line);
    } else {
        let n = line.len() as int;
        assert(line[n - 1] == "MISSING ENTRY"@[12]);
        assert("ready"@[4] == 'y');
        assert("MISSING ENTRY"@[12] == 'Y');
        if "ready"@.is_suffix_of(line) {
            assert("ready"@ =~= line.subrange(n - 5, n));
            assert(line.subrange(n - 5, n)[4] == line[n - 1]);
        }
    }
}

/// What a reply says of its reliability is what the agent read of it; its text is
/// looked into only where nothing was read.
pub proof fn law_read_trust_goes_first(read: crate::ai::trust::TrustView, text: Seq<char>)
    ensures
        !read.is_empty() ==> crate::cli::repl::trust_of(Some(read), text) == Some(read),
        crate::cli::repl::trust_of(None, text) matches Some(t) ==> t
            == crate::ai::trust::trust_extracted(text).0 && !t.is_empty(),
        crate::cli::repl::trust_of(None, text) is None
            ==> crate::ai::trust::trust_extracted(text).0.is_empty(),
{
}

/// A notice is printed with what it says.
pub proof fn law_notices_are_printed(
    a: crate::cli::ansi::AnsiView,
    r: crate::cli::repl::ReplView,
    message: Seq<char>,
    width: usize,
)
    ensures
        ({
            let (next, outs) = crate::cli::repl::on_event_view(
                a,
                r,
                crate::agent::session::EventView::Notice { message },
                width,
            );
            &&& next == r
            &&& outs.len() == 1
            &&& outs[0] matches crate::cli::repl::OutView::Print(said) && crate::cli::laws::within(
                message,
                said,
            )
        }),
{
    let front = "\n"@ + crate::cli::ansi::in_shade(
        a,
        "[Notice]"@,
        crate::cli::ansi::Shade::Yellow,
    ) + " "@;
    lemma_stands_in(front, message, "\n"@, front + message + "\n"@);
}

/// The reply of a server is the document of its body: its result where it has one, and
/// an error where there is no document.
pub proof fn law_bodies_are_read(
    content_type: Seq<char>,
    bytes: Seq<u8>,
    body: crate::json::JsonView,
)
    requires
        !crate::text::has(content_type, "text/event-stream"@),
        vstd::utf8::valid_utf8(bytes),
        !(body is Null),
    ensures
        crate::json::parsed_json(vstd::utf8::decode_utf8(bytes)) == Ok::<
            crate::json::JsonView,
            Seq<char>,
        >(body) ==> crate::mcp::client::http_outcome(content_type, bytes)
            == crate::mcp::jsonrpc::response_of(body),
        crate::json::parsed_json(vstd::utf8::decode_utf8(bytes)) is Err
            ==> crate::mcp::client::http_outcome(content_type, bytes) is Err,
{
}

/// The provider in use is the first that bears the id.
pub proof fn law_providers_are_found_by_their_id(
    configs: Seq<crate::ai::providers::ConfigView>,
    id: Seq<char>,
)
    ensures
        match crate::cli::startup::provider_from(configs, id, 0) {
            Some(i) => 0 <= i < configs.len() && configs[i].id == id && forall|k: int|
                0 <= k < i ==> (#[trigger] configs[k]).id != id,
            None => forall|k: int| 0 <= k < configs.len() ==> (#[trigger] configs[k]).id != id,
        },
{
    lemma_provider_from(configs, id, 0);
}

proof fn lemma_provider_from(
    configs: Seq<crate::ai::providers::ConfigView>,
    id: Seq<char>,
    from: int,
)
    requires
        0 <= from <= configs.len(),
    ensures
        match crate::cli::startup::provider_from(configs, id, from) {
            Some(i) => from <= i < configs.len() && configs[i].id == id && forall|k: int|
                from <= k < i ==> (#[trigger] configs[k]).id != id,
            None => forall|k: int| from <= k < configs.len() ==> (#[trigger] configs[k]).id != id,
        },
    decreases configs.len() - from,
{
    if from < configs.len() && configs[from].id != id {
        lemma_provider_from(configs, id, from + 1);
    }
}

/// The model in use is the first that bears the id.
pub proof fn law_models_are_found_by_their_id(
    models: Seq<crate::ai::models::ModelView>,
    id: Seq<char>,
)
    ensures
        match crate::ai::models::model_from(models, id, 0) {
            Some(i) => 0 <= i < models.len() && models[i].id == id && forall|k: int|
                0 <= k < i ==> (#[trigger] models[k]).id != id,
            None => forall|k: int| 0 <= k < models.len() ==> (#[trigger] models[k]).id != id,
        },
{
    lemma_model_from(models, id, 0);
}

proof fn lemma_model_from(models: Seq<crate::ai::models::ModelView>, id: Seq<char>, from: int)
    requires
        0 <= from <= models.len(),
    ensures
        match crate::ai::models::model_from(models, id, from) {
            Some(i) => from <= i < models.len() && models[i].id == id && forall|k: int|
                from <= k < i ==> (#[trigger] models[k]).id != id,
            None => forall|k: int| from <= k < models.len() ==> (#[trigger] models[k]).id != id,
        },
    decreases models.len() - from,
{
    if from < models.len() && models[from].id != id {
        lemma_model_from(models, id, from + 1);
    }
}

/// When the work on a ticket starts, the ticket, its summary and its repository are
/// told, and the transition that it takes.
pub proof fn law_starts_are_told(
    picked: crate::cli::pickup::PickedView,
    transition: Seq<char>,
)
    ensures
        ({
            let said = crate::cli::supervisor::start_of(picked, transition);
            &&& crate::cli::laws::within(picked.key, said)
            &&& crate::cli::laws::within(picked.summary, said)
            &&& crate::cli::laws::within(picked.repo, said)
            &&& crate::cli::laws::within(transition, said)
        }),
{
    let said = crate::cli::supervisor::start_of(picked, transition);
    let a = "pickup: "@;
    let b = a + picked.key + " — "@;
    let c = b + picked.summary + "\n  repo:       "@;
    let d = c + picked.repo + "\n  transition: → In Progress ("@;
    assert(said =~= d + transition + ")"@);
    lemma_stands_in(d, transition, ")"@, said);
    let e = "\n  transition: → In Progress ("@ + transition + ")"@;
    assert(said =~= c + picked.repo + e);
    lemma_stands_in(c, picked.repo, e, said);
    let f = "\n  repo:       "@ + picked.repo + e;
    assert(said =~= b + picked.summary + f);
    lemma_stands_in(b, picked.summary, f, said);
    assert(said =~= a + picked.key + (" — "@ + picked.summary + f));
    lemma_stands_in(a, picked.key, " — "@ + picked.summary + f, said);
}

/// Each harness note is shown behind those before it, with its kind and its text.
pub proof fn law_notes_are_all_shown(
    notes: Seq<(Seq<char>, Seq<char>)>,
    kind: Seq<char>,
    text: Seq<char>,
)
    ensures
        ({
            let before = crate::cli::commands::notes_of(notes);
            let all = crate::cli::commands::notes_of(notes.push((kind, text)));
            let line = all.skip(before.len() as int);
            &&& before.is_prefix_of(all)
            &&& crate::cli::laws::within(kind, line)
            &&& crate::cli::laws::within(text, line)
        }),
{
    let before = crate::cli::commands::notes_of(notes);
    let all = crate::cli::commands::notes_of(notes.push((kind, text)));
    assert(notes.push((kind, text)).drop_last() =~= notes);
    let line = "  - ["@ + kind + "] "@ + text + "\n"@;
    assert(all =~= before + line);
    assert(all.skip(before.len() as int) =~= line);
    assert(before =~= all.subrange(0, before.len() as int));
    assert(line =~= "  - ["@ + kind + ("] "@ + text + "\n"@));
    lemma_stands_in("  - ["@, kind, "] "@ + text + "\n"@, line);
    lemma_stands_in("  - ["@ + kind + "] "@, text, "\n"@, line);
}

/// A tool that failed is told with the beginning of what it said; one that did not
/// leaves nothing to be told.
pub proof fn law_failures_are_told(line: Seq<char>)
    requires
        0 < line.len() <= 80,
        !line.contains('\n'),
    ensures
        crate::cli::toolout::finish_of(false, line) is None,
        crate::cli::toolout::finish_of(true, line) matches Some(said) && line.is_suffix_of(said),
{
    lemma_one_line(Seq::empty(), line);
    assert(Seq::<char>::empty() + line =~= line);
    lemma_ends_with("✖ [Tool Error] "@, line, "✖ [Tool Error] "@ + line);
}

proof fn lemma_one_line(cur: Seq<char>, rest: Seq<char>)
    requires
        cur.len() + rest.len() > 0,
        forall|i: int| 0 <= i < rest.len() ==> #[trigger] rest[i] != '\n',
    ensures
        crate::text::lines_go(cur, rest) == seq![cur + rest],
    decreases rest.len(),
{
    if rest.len() > 0 {
        assert(rest[0] != '\n');
        let tail = rest.skip(1);
        assert forall|i: int| 0 <= i < tail.len() implies #[trigger] tail[i] != '\n' by {
            assert(tail[i] == rest[i + 1]);
        }
        lemma_one_line(cur.push(rest[0]), tail);
        assert(cur.push(rest[0]) + tail =~= cur + rest);
    } else {
        assert(cur + rest =~= cur);
    }
}

} // verus!
