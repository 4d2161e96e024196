//! Talking to people over Slack.
use crate::agent::call::ToolCallInfo;
use crate::agent::risk::RiskPolicy;
use crate::agent::session::AgentEvent;
use crate::agent::tool::Permission;
use crate::cli::human::{Asked, HumanChannel};
use crate::dup::Dup;
use crate::flow::executor::{FlowProgress, FlowRun};
use crate::flow::record::{StepRecord, StepStatus};
use crate::json::{self, Json};
use crate::text;
use vstd::prelude::*;

verus! {

/// What comes from Slack.
pub enum Inbound {
    /// A message in a channel.
    Message { channel: String, user: String, text: String, ts: String },
}

/// What an `Inbound` stands for.
pub ghost struct InboundView {
    pub channel: Seq<char>,
    pub user: Seq<char>,
    pub text: Seq<char>,
    pub ts: Seq<char>,
}

impl DeepView for Inbound {
    type V = InboundView;

    open spec fn deep_view(&self) -> InboundView {
        match self {
            Inbound::Message { channel, user, text, ts } => InboundView {
                channel: channel@,
                user: user@,
                text: text@,
                ts: ts@,
            },
        }
    }
}

impl Dup for Inbound {
    fn dup(&self) -> (r: Self) {
        match self {
            Inbound::Message { channel, user, text, ts } => Inbound::Message {
                channel: channel.dup(),
                user: user.dup(),
                text: text.dup(),
                ts: ts.dup(),
            },
        }
    }
}

// ---------------------------------------------------------------------- the API
/// The tokens, where the environment has both.
pub fn from_env(app_token: Option<String>, bot_token: Option<String>) -> (r: Result<
    (String, String),
    String,
>)
    ensures
        match (app_token, bot_token) {
            (None, _) => r matches Err(e) && e@
                == "SLACK_APP_TOKEN is not set (Socket Mode app-level token, xapp-…)"@,
            (Some(_), None) => r matches Err(e) && e@
                == "SLACK_BOT_TOKEN is not set (bot user OAuth token, xoxb-…)"@,
            (Some(a), Some(b)) => r matches Ok(t) && t.0@ == a@ && t.1@ == b@,
        },
{
    match (app_token, bot_token) {
        (None, _) => Err(
            "SLACK_APP_TOKEN is not set (Socket Mode app-level token, xapp-…)".to_owned(),
        ),
        (Some(_), None) => Err(
            "SLACK_BOT_TOKEN is not set (bot user OAuth token, xoxb-…)".to_owned(),
        ),
        (Some(a), Some(b)) => Ok((a, b)),
    }
}

/// Whether a reply of the API says that the request went through.
pub open spec fn is_ok(reply: json::JsonView) -> bool {
    match reply.field("ok"@) {
        Some(flag) => flag.bool() == Some(true),
        None => false,
    }
}

/// The error that a reply of the API names.
pub open spec fn api_error(reply: json::JsonView) -> Seq<char> {
    "slack error: "@ + match reply.text_field("error"@) {
        Some(e) => e,
        None => "unknown"@,
    }
}

fn read_ok(reply: &Json) -> (r: bool)
    ensures
        r == is_ok(reply.deep_view()),
{
    match reply.get("ok") {
        Some(flag) => match flag.as_bool() {
            Some(b) => b,
            None => false,
        },
        None => false,
    }
}

fn read_error(reply: &Json) -> (r: String)
    ensures
        r@ == api_error(reply.deep_view()),
{
    let error = match reply.get_str("error") {
        Some(e) => e,
        None => "unknown",
    };
    text::concat("slack error: ", error)
}

/// What is sent to post a message.
pub fn post_body(channel: &str, message: &str) -> (r: Json)
    ensures
        r.deep_view() == crate::ai::wire::jo(
            map![
                "channel"@ => crate::ai::wire::js(channel@),
                "text"@ => crate::ai::wire::js(message@),
            ],
        ),
{
    let r = Json::object().with("channel", Json::text(channel)).with("text", Json::text(message));
    assert(r.deep_view()->Object_0 =~= map![
        "channel"@ => crate::ai::wire::js(channel@),
        "text"@ => crate::ai::wire::js(message@),
    ]);
    r
}

/// Whether a message was posted, given the reply.
pub fn post_result(reply: &Json) -> (r: Result<(), String>)
    ensures
        is_ok(reply.deep_view()) ==> r is Ok,
        !is_ok(reply.deep_view()) ==> (r matches Err(e) && e@ == api_error(reply.deep_view())),
{
    if read_ok(reply) {
        Ok(())
    } else {
        Err(read_error(reply))
    }
}

/// Where the socket is, given the reply.
pub open spec fn socket_url_of(reply: json::JsonView) -> Result<Seq<char>, Seq<char>> {
    if !is_ok(reply) {
        Err(api_error(reply))
    } else {
        match reply.text_field("url"@) {
            Some(url) => Ok(url),
            None => Err("apps.connections.open returned no url"@),
        }
    }
}

/// Where the socket is, given the reply.
pub fn open_socket_url(reply: &Json) -> (r: Result<String, String>)
    ensures
        crate::flow::executor::result_view(r) == socket_url_of(reply.deep_view()),
{
    if !read_ok(reply) {
        return Err(read_error(reply));
    }
    match reply.get_str("url") {
        Some(url) => Ok(url.to_owned()),
        None => Err("apps.connections.open returned no url".to_owned()),
    }
}

/// What a message on the socket asks for.
pub struct SocketStep {
    /// What is to be sent back.
    pub ack: Option<String>,
    pub inbound: Option<Inbound>,
}

/// A text, or the empty one.
pub open spec fn text_or_empty(j: json::JsonView, key: Seq<char>) -> Seq<char> {
    match j.text_field(key) {
        Some(t) => t,
        None => ""@,
    }
}

/// The field of a document, null where there is none.
pub open spec fn field_or_null(j: json::JsonView, key: Seq<char>) -> json::JsonView {
    match j.field(key) {
        Some(v) => v,
        None => json::JsonView::Null,
    }
}

/// What is sent back for an event.
pub open spec fn ack_of(value: json::JsonView) -> Seq<char> {
    json::json_text(
        crate::ai::wire::jo(
            map![
                "type"@ => crate::ai::wire::js("ack"@),
                "envelope_id"@ => crate::ai::wire::js(text_or_empty(value, "envelope_id"@)),
            ],
        ),
    )
}

/// The message that an event carries, if it carries one.
pub open spec fn message_in(value: json::JsonView) -> Option<InboundView> {
    let event = field_or_null(field_or_null(value, "payload"@), "event"@);
    if event.text_field("type"@) == Some("message"@) {
        Some(
            InboundView {
                channel: text_or_empty(event, "channel"@),
                user: text_or_empty(event, "user"@),
                text: text_or_empty(event, "text"@),
                ts: text_or_empty(event, "ts"@),
            },
        )
    } else {
        None
    }
}

/// What a message on the socket asks for: an event is acknowledged, and handed
/// on where it carries a message.
pub open spec fn socket_of(message: Seq<char>) -> (Option<Seq<char>>, Option<InboundView>) {
    match json::parsed_json(message) {
        Ok(value) => if value.text_field("type"@) == Some("events_api"@) {
            (Some(ack_of(value)), message_in(value))
        } else {
            (None, None)
        },
        Err(_) => (None, None),
    }
}

fn get_text(j: &Json, key: &str) -> (r: String)
    ensures
        r@ == text_or_empty(j.deep_view(), key@),
{
    match j.get_str(key) {
        Some(t) => t.to_owned(),
        None => "".to_owned(),
    }
}

fn read_message(value: &Json) -> (r: Option<Inbound>)
    ensures
        r.deep_view() == message_in(value.deep_view()),
{
    let event = value.get("payload")?.get("event")?;
    let kind = event.get_str("type")?;
    if !text::same(kind, "message") {
        return None;
    }
    Some(
        Inbound::Message {
            channel: get_text(event, "channel"),
            user: get_text(event, "user"),
            text: get_text(event, "text"),
            ts: get_text(event, "ts"),
        },
    )
}

/// Reads a message on the socket.
pub fn read_socket(message: &str) -> (r: SocketStep)
    ensures
        (r.ack.deep_view(), r.inbound.deep_view()) == socket_of(message@),
{
    if let Ok(value) = json::parse(message) {
        if let Some(kind) = value.get_str("type") {
            if text::same(kind, "events_api") {
                let ack = Json::object().with("type", Json::text("ack")).with(
                    "envelope_id",
                    Json::Str(get_text(&value, "envelope_id")),
                );
                assert(ack.deep_view()->Object_0 =~= map![
                    "type"@ => crate::ai::wire::js("ack"@),
                    "envelope_id"@ => crate::ai::wire::js(
                        text_or_empty(value.deep_view(), "envelope_id"@),
                    ),
                ]);
                return SocketStep {
                    ack: Some(json::render(&ack)),
                    inbound: read_message(&value),
                };
            }
        }
    }
    SocketStep { ack: None, inbound: None }
}

// --------------------------------------------------------------------- replies
/// The id and the answer in a reply such as `ask-3 approve`.
pub open spec fn answer_in(s: Seq<char>) -> Option<(Seq<char>, Seq<char>)> {
    let words = text::spec_words(s);
    if words.len() < 2 || !text::begins(words[0], "ask-"@) {
        None
    } else {
        Some((words[0], text::spec_join(words.skip(1), " "@)))
    }
}

/// Reads a reply such as `ask-3 approve` as an id and an answer.
pub fn split_answer(s: &str) -> (r: Option<(String, String)>)
    ensures
        r.deep_view() == answer_in(s@),
{
    let mut words = text::words(s);
    let ghost view = words.deep_view();
    if words.len() < 2 {
        return None;
    }
    assert(view[0] == words@[0]@);
    let rest = words.split_off(1);
    assert(rest.deep_view() =~= view.skip(1));
    if !text::starts_with(&words[0], "ask-") {
        return None;
    }
    Some((words[0].dup(), text::join(rest.as_slice(), " ")))
}

/// What a text without its first `n` bytes is.
pub open spec fn after_bytes(s: Seq<char>, n: nat) -> Seq<char> {
    s.skip(text::bytes_within(s, n).len() as int)
}

/// The ticket that follows a trigger, if it is one word with a dash in it.
pub open spec fn ticket_of(rest: Seq<char>) -> Option<Seq<char>> {
    let s = text::spec_trim(rest);
    if text::spec_words(s).len() == 1 && text::has(s, "-"@) {
        Some(s)
    } else {
        None
    }
}

/// Whether a message asks for work on a ticket, and on which: none named stands
/// for the next one.
pub open spec fn trigger_of(message: Seq<char>) -> Option<Option<Seq<char>>> {
    let s = text::trim_set(text::spec_trim(message), seq!['.', '!', '?']);
    let lowered = text::lowercased(s);
    if lowered == "pick up"@ || lowered == "pickup"@ {
        Some(None)
    } else if text::begins(lowered, "pick up "@) {
        match ticket_of(after_bytes(s, 8)) {
            Some(t) => Some(Some(t)),
            None => None,
        }
    } else if text::begins(lowered, "pickup "@) {
        match ticket_of(after_bytes(s, 7)) {
            Some(t) => Some(Some(t)),
            None => None,
        }
    } else {
        None
    }
}

fn skip_bytes(s: &str, n: usize) -> (r: String)
    ensures
        r@ == after_bytes(s@, n as nat),
{
    let head = text::cut_to_bytes(s, n);
    proof {
        text::lemma_bytes_within_is_beginning(s@, n as nat);
    }
    let from = text::count(&head);
    let to = text::count(s);
    let r = text::sub_string(s, from, to);
    assert(r@ =~= after_bytes(s@, n as nat));
    r
}

fn read_ticket(rest: &str) -> (r: Option<String>)
    ensures
        r.deep_view() == ticket_of(rest@),
{
    let s = text::trim(rest);
    if text::words(&s).len() == 1 && text::contains(&s, "-") {
        Some(s)
    } else {
        None
    }
}

/// Reads a message such as `pick up PROJ-42`, or a bare `pick up`. `None` where it
/// is no such message.
pub fn parse_pickup_trigger(message: &str) -> (r: Option<Option<String>>)
    ensures
        r.deep_view() == trigger_of(message@),
{
    let set: [char; 3] = ['.', '!', '?'];
    assert(set@ =~= seq!['.', '!', '?']);
    let s = text::trim_chars(&text::trim(message), &set);
    let lowered = text::to_lowercase(&s);
    if text::same(&lowered, "pick up") || text::same(&lowered, "pickup") {
        return Some(None);
    }
    let rest = if text::starts_with(&lowered, "pick up ") {
        skip_bytes(&s, 8)
    } else if text::starts_with(&lowered, "pickup ") {
        skip_bytes(&s, 7)
    } else {
        return None;
    };
    match read_ticket(&rest) {
        Some(t) => Some(Some(t)),
        None => None,
    }
}

// ------------------------------------------------------------ inbound messages
/// What is to be done for a message.
pub struct InboundStep {
    /// The question that it answers, and the answer.
    pub answered: Option<(String, String)>,
    /// What is to be posted, and where.
    pub post: Option<(String, String)>,
    /// Which ticket is to be worked on (the next one where none is named), and
    /// where that is to be reported.
    pub pickup: Option<(Option<String>, String)>,
}

/// What an `InboundStep` stands for.
pub ghost struct InboundStepView {
    pub answered: Option<(Seq<char>, Seq<char>)>,
    pub post: Option<(Seq<char>, Seq<char>)>,
    pub pickup: Option<(Option<Seq<char>>, Seq<char>)>,
}

impl DeepView for InboundStep {
    type V = InboundStepView;

    open spec fn deep_view(&self) -> InboundStepView {
        InboundStepView {
            answered: self.answered.deep_view(),
            post: self.post.deep_view(),
            pickup: self.pickup.deep_view(),
        }
    }
}

/// The questions that wait after a message.
pub open spec fn pending_after(pending: Seq<Seq<char>>, message: Seq<char>) -> Seq<Seq<char>> {
    match answer_in(message) {
        Some((id, _)) => crate::cli::human::without_id(pending, id),
        None => pending,
    }
}

/// What is to be done for a message: an answer resolves its question and is
/// confirmed, and nothing is said to one that comes too late; where triggers
/// count, one starts work; anything else is echoed.
pub open spec fn inbound_of(
    message: InboundView,
    pending: Seq<Seq<char>>,
    triggers: bool,
) -> InboundStepView {
    match answer_in(message.text) {
        Some((id, answer)) => if pending.contains(id) {
            InboundStepView {
                answered: Some((id, answer)),
                post: Some(
                    (message.channel, "✅ answered `"@ + id + "`: "@ + answer),
                ),
                pickup: None,
            }
        } else {
            InboundStepView { answered: None, post: None, pickup: None }
        },
        None => if triggers && trigger_of(message.text) is Some {
            InboundStepView {
                answered: None,
                post: None,
                pickup: Some((trigger_of(message.text)->0, message.channel)),
            }
        } else {
            InboundStepView {
                answered: None,
                post: Some((message.channel, "agent-m online. You said: "@ + message.text)),
                pickup: None,
            }
        },
    }
}

fn take_inbound(inbound: Inbound, human: &mut HumanChannel, triggers: bool) -> (r: InboundStep)
    requires
        old(human)@.wf(),
    ensures
        final(human)@.wf(),
        final(human)@.pending == pending_after(old(human)@.pending, inbound.deep_view().text),
        final(human)@.next_id == old(human)@.next_id,
        r.deep_view() == inbound_of(inbound.deep_view(), old(human)@.pending, triggers),
{
    let Inbound::Message { channel, text: message, .. } = inbound;
    if let Some((id, answer)) = split_answer(&message) {
        let known = human.resolve(&id, &answer).is_some();
        if known {
            let reply = text::concat4("✅ answered `", &id, "`: ", &answer);
            return InboundStep {
                answered: Some((id, answer)),
                post: Some((channel, reply)),
                pickup: None,
            };
        }
        return InboundStep { answered: None, post: None, pickup: None };
    }
    if triggers {
        if let Some(ticket) = parse_pickup_trigger(&message) {
            return InboundStep { answered: None, post: None, pickup: Some((ticket, channel)) };
        }
    }
    let reply = text::concat("agent-m online. You said: ", &message);
    InboundStep { answered: None, post: Some((channel, reply)), pickup: None }
}

/// What is to be done for a message: an answer resolves its question, anything
/// else is echoed.
pub fn handle_inbound(inbound: Inbound, human: &mut HumanChannel) -> (r: InboundStep)
    requires
        old(human)@.wf(),
    ensures
        final(human)@.wf(),
        final(human)@.pending == pending_after(old(human)@.pending, inbound.deep_view().text),
        final(human)@.next_id == old(human)@.next_id,
        r.deep_view() == inbound_of(inbound.deep_view(), old(human)@.pending, false),
{
    take_inbound(inbound, human, false)
}

/// What is to be done for a message where triggers count.
pub fn handle_inbound_orchestrated(inbound: Inbound, human: &mut HumanChannel) -> (r: InboundStep)
    requires
        old(human)@.wf(),
    ensures
        final(human)@.wf(),
        final(human)@.pending == pending_after(old(human)@.pending, inbound.deep_view().text),
        final(human)@.next_id == old(human)@.next_id,
        r.deep_view() == inbound_of(inbound.deep_view(), old(human)@.pending, true),
{
    take_inbound(inbound, human, true)
}

/// An answer comes before a trigger: a message that answers never starts work,
/// and one that starts work leaves the questions alone.
pub proof fn law_answers_come_first(message: InboundView, pending: Seq<Seq<char>>)
    ensures
        answer_in(message.text) is Some ==> inbound_of(message, pending, true).pickup is None,
        inbound_of(message, pending, true).pickup is Some ==> pending_after(pending, message.text)
            == pending,
{
}

// --------------------------------------------------------------------- notices
/// What is posted for an event of the agent.
pub open spec fn event_text(event: crate::agent::session::EventView) -> Option<Seq<char>> {
    match event {
        crate::agent::session::EventView::ToolExecutionStart { name, .. } => Some(
            "🔧 `"@ + name + "`…"@,
        ),
        crate::agent::session::EventView::ToolExecutionEnd { outcome, .. } => if outcome.is_error {
            Some("✗ a tool failed — see the session log"@)
        } else {
            None
        },
        crate::agent::session::EventView::TurnEnd { tool_results, .. } => Some(
            "✅ turn complete ("@ + text::spec_decimal(tool_results as nat) + " tool call(s))"@,
        ),
        crate::agent::session::EventView::Notice { message } => Some("⚠️ "@ + message),
        _ => None,
    }
}

/// What is posted for an event of the agent; `None` where it is not worth it.
pub fn event_to_slack_text(event: &AgentEvent) -> (r: Option<String>)
    ensures
        r.deep_view() == event_text(event.deep_view()),
{
    match event {
        AgentEvent::ToolExecutionStart { name, .. } => Some(text::concat3("🔧 `", name, "`…")),
        AgentEvent::ToolExecutionEnd { outcome, .. } => {
            if outcome.is_error {
                Some("✗ a tool failed — see the session log".to_owned())
            } else {
                None
            }
        },
        AgentEvent::TurnEnd { tool_results, .. } => Some(
            text::concat3(
                "✅ turn complete (",
                &text::decimal(*tool_results as u64),
                " tool call(s))",
            ),
        ),
        AgentEvent::Notice { message } => Some(text::concat("⚠️ ", message)),
        _ => None,
    }
}

/// What is posted for the progress of a flow.
pub open spec fn progress_text(p: crate::flow::executor::ProgressView) -> Seq<char> {
    let icon = match p.status {
        StepStatus::Running => "🔄"@,
        StepStatus::Succeeded => "✅"@,
        StepStatus::Failed => "❌"@,
        _ => "⏸️"@,
    };
    icon + " step "@ + text::spec_decimal((p.step_index + 1) as nat) + " `"@ + p.step_name + "`"@
}

/// What is posted for the progress of a flow.
pub fn slack_progress(p: &FlowProgress) -> (r: String)
    requires
        p.step_index < usize::MAX,
    ensures
        r@ == progress_text(p.deep_view()),
{
    let icon = match p.status {
        StepStatus::Running => "🔄",
        StepStatus::Succeeded => "✅",
        StepStatus::Failed => "❌",
        _ => "⏸️",
    };
    let mut r = text::concat5(
        icon,
        " step ",
        &text::decimal((p.step_index + 1) as u64),
        " `",
        &p.step_name,
    );
    r.append("`");
    r
}

// ------------------------------------------------------------------- approvals
/// The question whether a risky call may be made.
pub open spec fn permission_question(
    call: crate::agent::call::CallInfoView,
    risk: Option<Seq<char>>,
    consequence: Seq<char>,
) -> Seq<char> {
    "⚠️  [Security Gate] Tool Execution Requested:\n    Tool: "@ + call.name + "\n    Args: "@
        + json::json_text(call.arguments) + "\n    Risk Level: "@ + (match risk {
        Some(r) => r,
        None => "High"@,
    }) + "\n    Consequence: "@ + consequence
}

/// The question whether a risky call may be made, with what it would bring about.
pub fn permission_text(policy: &RiskPolicy, call: &ToolCallInfo, consequence: &str) -> (r:
    String)
    ensures
        r@ == permission_question(
            call.deep_view(),
            policy.deep_view().risk(call.deep_view()),
            consequence@,
        ),
{
    let risk = match policy.risk(call) {
        Some(risk) => risk,
        None => "High".to_owned(),
    };
    let mut r = text::concat5(
        "⚠️  [Security Gate] Tool Execution Requested:\n    Tool: ",
        &call.name,
        "\n    Args: ",
        &json::render(&call.arguments),
        "\n    Risk Level: ",
    );
    r.append(&risk);
    r.append("\n    Consequence: ");
    r.append(consequence);
    r
}

/// Whether an answer permits a call.
pub open spec fn permits(answer: Seq<char>) -> bool {
    let s = text::ascii_lowered(answer);
    s == text::ascii_lowered("approve"@) || s == text::ascii_lowered("allow"@) || s
        == text::ascii_lowered("1"@)
}

/// What an answer permits; without one the call is denied.
pub fn ask_slack_permission(answer: Option<&str>) -> (r: Permission)
    ensures
        r.deep_view() == if answer matches Some(a) && permits(a@) {
            crate::agent::tool::PermissionView::Allowed
        } else {
            crate::agent::tool::PermissionView::Denied("Denied over remote channel."@)
        },
{
    if let Some(a) = answer {
        if text::eq_ignore_ascii_case(a, "approve") || text::eq_ignore_ascii_case(a, "allow")
            || text::eq_ignore_ascii_case(a, "1") {
            return Permission::Allowed;
        }
    }
    Permission::Denied("Denied over remote channel.".to_owned())
}

// ------------------------------------------------------------------- summaries
/// Whether a step failed.
pub open spec fn any_failed(steps: Seq<crate::flow::record::RecordView>) -> bool {
    exists|i: int| 0 <= i < steps.len() && (#[trigger] steps[i]).status == StepStatus::Failed
}

/// A step in a summary.
pub open spec fn step_line(step: crate::flow::record::RecordView) -> Seq<char> {
    let mark = match step.status {
        StepStatus::Succeeded => "✓"@,
        StepStatus::Failed => "✗"@,
        StepStatus::Skipped => "⏸"@,
        _ => "·"@,
    };
    let line = mark + " "@ + step.name;
    match step.error {
        Some(e) => line + " — "@ + e,
        None => line,
    }
}

/// The first step named `pr`, from `from` on.
pub open spec fn pr_step(
    steps: Seq<crate::flow::record::RecordView>,
    from: int,
) -> Option<crate::flow::record::RecordView>
    decreases steps.len() - from,
{
    if from < 0 || from >= steps.len() {
        None
    } else if steps[from].name == "pr"@ {
        Some(steps[from])
    } else {
        pr_step(steps, from + 1)
    }
}

/// The link that the step named `pr` gave.
pub open spec fn pr_link(steps: Seq<crate::flow::record::RecordView>) -> Option<Seq<char>> {
    match pr_step(steps, 0) {
        Some(step) => match step.output {
            Some(output) => match output.text_field("content"@) {
                Some(content) => {
                    let shown = match text::without_prefix(content, "PR created: "@) {
                        Some(rest) => rest,
                        None => content,
                    };
                    if text::has(shown, "http"@) {
                        Some(shown)
                    } else {
                        None
                    }
                },
                None => None,
            },
            None => None,
        },
        None => None,
    }
}

/// The lines of a summary.
pub open spec fn summary_lines(
    ticket: Seq<char>,
    run: crate::flow::executor::RunView,
) -> Seq<Seq<char>> {
    let failed = any_failed(run.steps);
    let head = (if failed {
        "❌"@
    } else {
        "✅"@
    }) + " "@ + ticket + " — "@ + run.flow_name + " "@ + (if failed {
        "FAILED"@
    } else {
        "OK"@
    });
    let rounds = if run.fix_rounds > 0 {
        seq!["fix rounds: "@ + text::spec_decimal(run.fix_rounds as nat)]
    } else {
        seq![]
    };
    let link = match pr_link(run.steps) {
        Some(l) => seq!["🔗 PR: "@ + l],
        None => seq![],
    };
    seq![head] + rounds + run.steps.map_values(
        |s: crate::flow::record::RecordView| step_line(s),
    ) + link
}

pub(crate) fn has_failed(steps: &[StepRecord]) -> (r: bool)
    ensures
        r == any_failed(steps.deep_view()),
{
    let ghost view = steps.deep_view();
    let mut i: usize = 0;
    while i < steps.len()
        invariant
            i <= steps.len(),
            view == steps.deep_view(),
            forall|k: int| 0 <= k < i ==> (#[trigger] view[k]).status != StepStatus::Failed,
        decreases steps.len() - i,
    {
        assert(view[i as int] == steps@[i as int].deep_view());
        if steps[i].status == StepStatus::Failed {
            return true;
        }
        i += 1;
    }
    false
}

fn show_step(step: &StepRecord) -> (r: String)
    ensures
        r@ == step_line(step.deep_view()),
{
    let mark = match step.status {
        StepStatus::Succeeded => "✓",
        StepStatus::Failed => "✗",
        StepStatus::Skipped => "⏸",
        _ => "·",
    };
    let mut line = text::concat3(mark, " ", &step.name);
    if let Some(e) = &step.error {
        line.append(" — ");
        line.append(e);
    }
    line
}

fn find_pr(steps: &[StepRecord]) -> (r: Option<&StepRecord>)
    ensures
        r.deep_view() == pr_step(steps.deep_view(), 0),
{
    let ghost view = steps.deep_view();
    let mut i: usize = 0;
    while i < steps.len()
        invariant
            i <= steps.len(),
            view == steps.deep_view(),
            pr_step(view, 0) == pr_step(view, i as int),
        decreases steps.len() - i,
    {
        assert(view[i as int] == steps@[i as int].deep_view());
        if text::same(&steps[i].name, "pr") {
            return Some(&steps[i]);
        }
        i += 1;
    }
    None
}

pub(crate) fn find_link(steps: &[StepRecord]) -> (r: Option<String>)
    ensures
        r.deep_view() == pr_link(steps.deep_view()),
{
    let step = find_pr(steps)?;
    let output = match &step.output {
        Some(output) => output,
        None => {
            return None;
        },
    };
    let content = output.get_str("content")?;
    let shown = match text::strip_prefix(content, "PR created: ") {
        Some(rest) => rest,
        None => content.to_owned(),
    };
    if text::contains(&shown, "http") {
        Some(shown)
    } else {
        None
    }
}

/// What is posted when a flow is done: the verdict, the steps, and the link to the
/// pull request where there is one.
pub fn flow_summary(ticket: &str, run: &FlowRun) -> (r: String)
    ensures
        r@ == text::spec_join(summary_lines(ticket@, run.deep_view()), "\n"@),
{
    let ghost view = run.deep_view();
    let failed = has_failed(run.steps.as_slice());
    let mut lines: Vec<String> = Vec::new();
    assert(lines.deep_view() =~= seq![]);
    let mut head = text::concat5(
        if failed {
            "❌"
        } else {
            "✅"
        },
        " ",
        ticket,
        " — ",
        &run.flow_name,
    );
    head.append(" ");
    head.append(
        if failed {
            "FAILED"
        } else {
            "OK"
        },
    );
    text::put(&mut lines, head);
    if run.fix_rounds > 0 {
        text::put(
            &mut lines,
            text::concat("fix rounds: ", &text::decimal(run.fix_rounds as u64)),
        );
    }
    let ghost first = lines.deep_view();
    let ghost said = view.steps.map_values(|s: crate::flow::record::RecordView| step_line(s));
    let mut i: usize = 0;
    assert(first + said.take(0) =~= first);
    while i < run.steps.len()
        invariant
            i <= run.steps@.len(),
            view == run.deep_view(),
            said == view.steps.map_values(|s: crate::flow::record::RecordView| step_line(s)),
            lines.deep_view() == first + said.take(i as int),
        decreases run.steps.len() - i,
    {
        assert(view.steps[i as int] == run.steps@[i as int].deep_view());
        text::put(&mut lines, show_step(&run.steps[i]));
        assert(first + said.take(i + 1) =~= (first + said.take(i as int)).push(said[i as int]));
        i += 1;
    }
    assert(said.take(said.len() as int) =~= said);
    if let Some(link) = find_link(run.steps.as_slice()) {
        text::put(&mut lines, text::concat("🔗 PR: ", &link));
    }
    assert(lines.deep_view() =~= summary_lines(ticket@, view));
    text::join(lines.as_slice(), "\n")
}

// ------------------------------------------------------------------ transports
/// What carries messages.
pub trait SlackTransport: Sized {
    /// Whether posting a message may lead from this transport to `after`, with this
    /// outcome.
    spec fn may_post(
        self,
        channel: Seq<char>,
        message: Seq<char>,
        after: Self,
        outcome: Result<(), Seq<char>>,
    ) -> bool;

    /// Posts a message to a channel, which for a person is their id.
    fn post_message(&mut self, channel: &str, message: &str) -> (r: Result<(), String>)
        ensures
            old(self).may_post(channel@, message@, *final(self), post_outcome(r)),
    ;
}

/// What the outcome of a post stands for.
pub open spec fn post_outcome(r: Result<(), String>) -> Result<(), Seq<char>> {
    match r {
        Ok(_) => Ok(()),
        Err(e) => Err(e@),
    }
}

/// Whether `after` may be the transport once this was posted, whether or not that
/// worked.
pub open spec fn posted_by<T: SlackTransport>(
    before: T,
    post: Option<(Seq<char>, Seq<char>)>,
    after: T,
) -> bool {
    match post {
        Some((channel, message)) => tried(before, channel, message, after),
        None => after == before,
    }
}

/// Whether `after` may be the transport once this was posted, with any outcome.
pub open spec fn tried<T: SlackTransport>(
    before: T,
    channel: Seq<char>,
    message: Seq<char>,
    after: T,
) -> bool {
    exists|outcome: Result<(), Seq<char>>| before.may_post(channel, message, after, outcome)
}

/// Somebody who is not at the terminal, and how they are reached.
pub struct RemoteHuman<T: SlackTransport> {
    pub human: HumanChannel,
    pub transport: T,
}

impl<T: SlackTransport> RemoteHuman<T> {
    /// Somebody who is reached this way, and was asked nothing yet.
    pub fn new(transport: T) -> (r: Self)
        ensures
            r.transport == transport,
            r.human@.wf(),
            r.human@.pending.len() == 0,
            r.human@.next_id == 1,
    {
        RemoteHuman { human: HumanChannel::new(), transport }
    }

    /// Puts a question: it waits for its answer from now on, and is posted. Where it
    /// cannot be posted the error is given.
    pub fn ask(&mut self, channel: &str, question: &str, options: &Option<Vec<String>>) -> (r:
        Result<Asked, String>)
        requires
            old(self).human@.wf(),
            old(self).human@.next_id < u64::MAX,
        ensures
            final(self).human@.wf(),
            final(self).human@ == (crate::cli::human::ChannelView {
                pending: old(self).human@.pending.push(
                    crate::cli::human::ask_id(old(self).human@.next_id),
                ),
                next_id: (old(self).human@.next_id + 1) as u64,
            }),
            old(self).transport.may_post(
                channel@,
                crate::cli::human::posted_question(
                    crate::cli::human::ask_id(old(self).human@.next_id),
                    question@,
                    options.deep_view(),
                ),
                final(self).transport,
                match r {
                    Ok(_) => Ok(()),
                    Err(e) => Err(e@),
                },
            ),
            r matches Ok(asked) ==> asked.id@ == crate::cli::human::ask_id(
                old(self).human@.next_id,
            ) && asked.event.deep_view() == (crate::cli::human::ChannelEventView::Posted {
                id: asked.id@,
                question: question@,
            }),
    {
        let asked = self.human.ask(question, options);
        match self.transport.post_message(channel, &asked.text) {
            Ok(_) => Ok(asked),
            Err(e) => Err(e),
        }
    }

    /// Takes a message: what it answers is resolved, and what is to be said to it is
    /// posted, whether or not that works.
    pub fn deliver(&mut self, inbound: Inbound, triggers: bool) -> (r: InboundStep)
        requires
            old(self).human@.wf(),
        ensures
            final(self).human@.wf(),
            final(self).human@.pending == pending_after(
                old(self).human@.pending,
                inbound.deep_view().text,
            ),
            final(self).human@.next_id == old(self).human@.next_id,
            r.deep_view() == inbound_of(
                inbound.deep_view(),
                old(self).human@.pending,
                triggers,
            ),
            posted_by(old(self).transport, r.deep_view().post, final(self).transport),
    {
        let step = take_inbound(inbound, &mut self.human, triggers);
        match &step.post {
            Some((channel, message)) => {
                let r = self.transport.post_message(channel, message);
                assert(old(self).transport.may_post(
                    channel@,
                    message@,
                    self.transport,
                    post_outcome(r),
                ));
                assert(tried(old(self).transport, channel@, message@, self.transport));
            },
            None => {},
        }
        step
    }
}

// ------------------------------------------------------------------- dry runs
/// A transport that keeps what is posted, and hands out what was put into it.
pub struct FakeTransport {
    posted: Vec<(String, String)>,
    inbox: Vec<Inbound>,
}

/// What a `FakeTransport` stands for.
pub ghost struct FakeView {
    pub posted: Seq<(Seq<char>, Seq<char>)>,
    pub inbox: Seq<InboundView>,
}

impl View for FakeTransport {
    type V = FakeView;

    closed spec fn view(&self) -> FakeView {
        FakeView { posted: self.posted.deep_view(), inbox: self.inbox.deep_view() }
    }
}

impl FakeTransport {
    /// A transport that holds nothing.
    pub fn new() -> (r: Self)
        ensures
            r@ == (FakeView { posted: seq![], inbox: seq![] }),
    {
        let r = FakeTransport { posted: Vec::new(), inbox: Vec::new() };
        assert(r@.posted =~= seq![]);
        assert(r@.inbox =~= seq![]);
        r
    }

    /// Puts a message in.
    pub fn push(&mut self, event: Inbound)
        ensures
            final(self)@ == (FakeView {
                inbox: old(self)@.inbox.push(event.deep_view()),
                ..old(self)@
            }),
    {
        text::put(&mut self.inbox, event);
    }

    /// What was posted, in order.
    pub fn posted(&self) -> (r: Vec<(String, String)>)
        ensures
            r.deep_view() == self@.posted,
    {
        self.posted.dup()
    }

    /// The oldest message that was not handed out yet.
    pub fn next(&mut self) -> (r: Option<Inbound>)
        ensures
            r.deep_view() == if old(self)@.inbox.len() > 0 {
                Some(old(self)@.inbox[0])
            } else {
                None
            },
            final(self)@ == (FakeView {
                inbox: if old(self)@.inbox.len() > 0 {
                    old(self)@.inbox.skip(1)
                } else {
                    old(self)@.inbox
                },
                ..old(self)@
            }),
    {
        if self.inbox.len() == 0 {
            return None;
        }
        let ghost first = self@;
        assert(first.inbox[0] == self.inbox@[0].deep_view());
        let message = self.inbox.remove(0);
        assert(self@.inbox =~= first.inbox.skip(1));
        Some(message)
    }
}

impl SlackTransport for FakeTransport {
    open spec fn may_post(
        self,
        channel: Seq<char>,
        message: Seq<char>,
        after: Self,
        outcome: Result<(), Seq<char>>,
    ) -> bool {
        outcome is Ok && after@ == (FakeView {
            posted: self@.posted.push((channel, message)),
            ..self@
        })
    }

    fn post_message(&mut self, channel: &str, message: &str) -> (r: Result<(), String>) {
        text::put(&mut self.posted, (channel.to_owned(), message.to_owned()));
        Ok(())
    }
}

} // verus!
