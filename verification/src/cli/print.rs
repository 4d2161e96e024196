//! What is printed where nobody sits at the terminal, and events as JSON.
use crate::agent::message::{SessionMessage, SessionMessageKind};
use crate::agent::session::AgentEvent;
use crate::ai::types::{ContentPart, StreamEvent};
use crate::cli::repl::StreamFilter;
use crate::json::{self, Json};
use crate::text;
use vstd::prelude::*;

verus! {

// ----------------------------------------------------------------------- events
/// What the `Debug` format of a string gives: the text in quotes, with escapes,
/// taken as a function of the characters.
pub uninterp spec fn quoted(s: Seq<char>) -> Seq<char>;

/// `Debug` of std for `str`. The result is named `quoted`; a text of ASCII letters
/// and digits stands in quotes as it is.
#[verifier::external_body]
fn debug_text(s: &str) -> (r: String)
    ensures
        r@ == quoted(s@),
        (forall|i: int| 0 <= i < s@.len() ==> text::is_alnum(#[trigger] s@[i])) ==> r@ == "\""@ + s@
            + "\""@,
{
    format!("{s:?}")
}

/// The name of the kind of a message.
pub open spec fn kind_name(kind: SessionMessageKind) -> Seq<char> {
    match kind {
        SessionMessageKind::User => "User"@,
        SessionMessageKind::Assistant => "Assistant"@,
        SessionMessageKind::ToolResult => "ToolResult"@,
        SessionMessageKind::Summary => "Summary"@,
    }
}

fn kind_text(kind: SessionMessageKind) -> (r: &'static str)
    ensures
        r@ == kind_name(kind),
{
    match kind {
        SessionMessageKind::User => "User",
        SessionMessageKind::Assistant => "Assistant",
        SessionMessageKind::ToolResult => "ToolResult",
        SessionMessageKind::Summary => "Summary",
    }
}

/// The name of an event.
pub open spec fn name_of(event: crate::agent::session::EventView) -> Seq<char> {
    match event {
        crate::agent::session::EventView::AgentStart => "agent_start"@,
        crate::agent::session::EventView::TurnStart { .. } => "turn_start"@,
        crate::agent::session::EventView::MessageStart { .. } => "message_start"@,
        crate::agent::session::EventView::MessageUpdate { .. } => "message_update"@,
        crate::agent::session::EventView::MessageEnd { .. } => "message_end"@,
        crate::agent::session::EventView::ToolExecutionStart { .. } => "tool_execution_start"@,
        crate::agent::session::EventView::ToolExecutionEnd { .. } => "tool_execution_end"@,
        crate::agent::session::EventView::RefineResult { .. } => "refine_result"@,
        crate::agent::session::EventView::TurnEnd { .. } => "turn_end"@,
        crate::agent::session::EventView::AgentEnd { .. } => "agent_end"@,
        crate::agent::session::EventView::Notice { .. } => "notice"@,
        crate::agent::session::EventView::Compacted { .. } => "compacted"@,
        crate::agent::session::EventView::FlowStep { .. } => "flow_step"@,
    }
}

/// The name of an event.
pub fn event_name(event: &AgentEvent) -> (r: &'static str)
    ensures
        r@ == name_of(event.deep_view()),
{
    match event {
        AgentEvent::AgentStart => "agent_start",
        AgentEvent::TurnStart { .. } => "turn_start",
        AgentEvent::MessageStart { .. } => "message_start",
        AgentEvent::MessageUpdate { .. } => "message_update",
        AgentEvent::MessageEnd { .. } => "message_end",
        AgentEvent::ToolExecutionStart { .. } => "tool_execution_start",
        AgentEvent::ToolExecutionEnd { .. } => "tool_execution_end",
        AgentEvent::RefineResult { .. } => "refine_result",
        AgentEvent::TurnEnd { .. } => "turn_end",
        AgentEvent::AgentEnd { .. } => "agent_end",
        AgentEvent::Notice { .. } => "notice",
        AgentEvent::Compacted { .. } => "compacted",
        AgentEvent::FlowStep { .. } => "flow_step",
    }
}

/// A non-negative integer in a document.
pub open spec fn jn(n: u64) -> json::JsonView {
    json::JsonView::Number(json::NumberView::Unsigned(n))
}

/// What an event carries; `message` is how the message of a `MessageEnd` is
/// written.
pub open spec fn data_of(
    event: crate::agent::session::EventView,
    message: Seq<char>,
) -> Map<Seq<char>, json::JsonView> {
    match event {
        crate::agent::session::EventView::TurnStart { turn } => map!["turn"@ => jn(turn as u64)],
        crate::agent::session::EventView::MessageStart { kind } => map![
            "kind"@ => crate::ai::wire::js(kind_name(kind)),
        ],
        crate::agent::session::EventView::MessageUpdate { delta } => map![
            "delta"@ => crate::ai::wire::js(
                match delta {
                    crate::ai::types::StreamView::TextDelta { delta } => delta,
                    _ => ""@,
                },
            ),
        ],
        crate::agent::session::EventView::MessageEnd { .. } => map![
            "message"@ => crate::ai::wire::js(message),
        ],
        crate::agent::session::EventView::ToolExecutionStart { name, arguments, .. } => map![
            "name"@ => crate::ai::wire::js(name),
            "arguments"@ => arguments,
        ],
        crate::agent::session::EventView::ToolExecutionEnd { outcome, .. } => map![
            "is_error"@ => json::JsonView::Bool(outcome.is_error),
            "content"@ => crate::ai::wire::js(outcome.content),
        ],
        crate::agent::session::EventView::Notice { message } => map![
            "message"@ => crate::ai::wire::js(message),
        ],
        crate::agent::session::EventView::Compacted { summary, .. } => map![
            "summary"@ => crate::ai::wire::js(summary),
        ],
        crate::agent::session::EventView::FlowStep { index, name, status } => map![
            "index"@ => jn(index as u64),
            "name"@ => crate::ai::wire::js(name),
            "status"@ => crate::ai::wire::js(quoted(status)),
        ],
        _ => Map::empty(),
    }
}

/// An event as JSON.
pub open spec fn event_json(
    event: crate::agent::session::EventView,
    message: Seq<char>,
) -> json::JsonView {
    crate::ai::wire::jo(
        map![
            "event"@ => crate::ai::wire::js(name_of(event)),
            "data"@ => crate::ai::wire::jo(data_of(event, message)),
        ],
    )
}

fn event_data(event: &AgentEvent, message: &str) -> (r: Json)
    ensures
        r.deep_view() == crate::ai::wire::jo(data_of(event.deep_view(), message@)),
{
    let ghost view = event.deep_view();
    let data = Json::object();
    let r = match event {
        AgentEvent::TurnStart { turn } => data.with("turn", Json::number(*turn as u64)),
        AgentEvent::MessageStart { kind } => data.with("kind", Json::text(kind_text(*kind))),
        AgentEvent::MessageUpdate { delta } => data.with(
            "delta",
            Json::text(
                match delta {
                    StreamEvent::TextDelta { delta } => delta.as_str(),
                    _ => "",
                },
            ),
        ),
        AgentEvent::MessageEnd { .. } => data.with("message", Json::text(message)),
        AgentEvent::ToolExecutionStart { name, arguments, .. } => data.with(
            "name",
            Json::text(name),
        ).with("arguments", arguments.clone()),
        AgentEvent::ToolExecutionEnd { outcome, .. } => data.with(
            "is_error",
            Json::Bool(outcome.is_error),
        ).with("content", Json::text(&outcome.content)),
        AgentEvent::Notice { message } => data.with("message", Json::text(message)),
        AgentEvent::Compacted { summary, .. } => data.with("summary", Json::text(summary)),
        AgentEvent::FlowStep { index, name, status } => data.with(
            "index",
            Json::number(*index as u64),
        ).with("name", Json::text(name)).with("status", Json::Str(debug_text(status))),
        _ => data,
    };
    assert(r.deep_view()->Object_0 =~= data_of(view, message@));
    r
}

/// An event as JSON.
pub fn event_to_json(event: &AgentEvent, message: &str) -> (r: Json)
    ensures
        r.deep_view() == event_json(event.deep_view(), message@),
{
    let r = Json::object().with("event", Json::text(event_name(event))).with(
        "data",
        event_data(event, message),
    );
    assert(r.deep_view()->Object_0 =~= event_json(event.deep_view(), message@)->Object_0);
    r
}

/// The line that is printed of an event where events are streamed as JSON.
pub fn event_line(event: &AgentEvent, message: &str) -> (r: String)
    ensures
        r@ == json::json_text(event_json(event.deep_view(), message@)),
{
    json::render(&event_to_json(event, message))
}

// ------------------------------------------------------------------------ print
/// What is printed while an agent works.
pub struct Print {
    filter: StreamFilter,
}

impl View for Print {
    type V = Seq<char>;

    closed spec fn view(&self) -> Seq<char> {
        self.filter@
    }
}

/// What goes to the two outputs.
pub struct PrintOut {
    pub out: String,
    /// A line.
    pub err: Option<String>,
}

/// What a `PrintOut` stands for.
pub ghost struct PrintView {
    pub out: Seq<char>,
    pub err: Option<Seq<char>>,
}

impl DeepView for PrintOut {
    type V = PrintView;

    open spec fn deep_view(&self) -> PrintView {
        PrintView { out: self.out@, err: self.err.deep_view() }
    }
}

/// What is printed of an event, given the text that is held back: the text of the
/// reply, and a line for each tool and each notice.
pub open spec fn printed(held: Seq<char>, event: crate::agent::session::EventView) -> PrintView {
    match event {
        crate::agent::session::EventView::MessageUpdate {
            delta: crate::ai::types::StreamView::TextDelta { delta },
        } => PrintView { out: crate::cli::repl::let_through(held + delta), err: None },
        crate::agent::session::EventView::ToolExecutionStart { name, arguments, .. } => PrintView {
            out: seq![],
            err: Some("[tool] "@ + name + " "@ + json::json_text(arguments)),
        },
        crate::agent::session::EventView::Notice { message } => PrintView {
            out: seq![],
            err: Some("[notice] "@ + message),
        },
        _ => PrintView { out: seq![], err: None },
    }
}

/// The text that an event adds to the reply.
pub open spec fn added_text(event: crate::agent::session::EventView) -> Seq<char> {
    match event {
        crate::agent::session::EventView::MessageUpdate {
            delta: crate::ai::types::StreamView::TextDelta { delta },
        } => delta,
        _ => seq![],
    }
}

impl Print {
    /// Before a prompt; nothing is held back.
    pub fn new() -> (r: Self)
        ensures
            r@ == Seq::<char>::empty(),
    {
        Print { filter: StreamFilter::new() }
    }

    /// Takes an event, and gives what is printed of it. What is not printed of the
    /// reply is held back.
    pub fn run_print(&mut self, event: &AgentEvent) -> (r: PrintOut)
        ensures
            r.deep_view() == printed(old(self)@, event.deep_view()),
            r.out@ + final(self)@ == old(self)@ + added_text(event.deep_view()),
    {
        let ghost held = self@;
        let mut out = String::new();
        let mut err: Option<String> = None;
        assert(out@ =~= seq![]);
        assert(seq![] + held =~= held + seq![]);
        match event {
            AgentEvent::MessageUpdate { delta } => match delta {
                StreamEvent::TextDelta { delta } => {
                    out = self.filter.push(delta);
                },
                _ => {},
            },
            AgentEvent::ToolExecutionStart { name, arguments, .. } => {
                err = Some(text::concat4("[tool] ", name, " ", &json::render(arguments)));
            },
            AgentEvent::Notice { message } => {
                err = Some(text::concat("[notice] ", message));
            },
            _ => {},
        }
        PrintOut { out, err }
    }

    /// What is printed at the end of a reply.
    pub fn finish(&mut self) -> (out: String)
        ensures
            final(self)@ == Seq::<char>::empty(),
            out@ == crate::ai::trust::trust_extracted(old(self)@).1,
    {
        self.filter.finish()
    }
}

/// The prompt in what came on the standard input; blank input is none.
pub fn piped_prompt(input: &str) -> (r: Option<String>)
    ensures
        r.deep_view() == if text::spec_trim(input@).len() == 0 {
            None
        } else {
            Some(text::spec_trim(input@))
        },
{
    let trimmed = text::trim(input);
    if text::count(&trimmed) == 0 {
        None
    } else {
        Some(trimmed)
    }
}

/// Whether a message is of the model and has text.
pub open spec fn says_something(message: crate::agent::message::SessionView) -> bool {
    match message {
        crate::agent::message::SessionView::Assistant { content, .. } =>
            crate::ai::wire::joined_text(content).len() > 0,
        _ => false,
    }
}

/// How many messages of the model have text.
pub open spec fn replies_in(messages: Seq<crate::agent::message::SessionView>) -> nat
    decreases messages.len(),
{
    if messages.len() == 0 {
        0
    } else {
        replies_in(messages.drop_last()) + if says_something(messages.last()) {
            1nat
        } else {
            0
        }
    }
}

fn has_text(message: &SessionMessage) -> (r: bool)
    ensures
        r == says_something(message.deep_view()),
{
    match message {
        SessionMessage::Assistant { content, .. } => {
            let ghost parts = content.deep_view();
            let mut i: usize = 0;
            let mut found = false;
            assert(parts.take(0) =~= seq![]);
            while i < content.len()
                invariant
                    i <= content.len(),
                    parts == content.deep_view(),
                    found == (crate::ai::wire::joined_text(parts.take(i as int)).len() > 0),
                decreases content.len() - i,
            {
                assert(parts.take(i + 1).drop_last() =~= parts.take(i as int));
                assert(parts[i as int] == content@[i as int].deep_view());
                match &content[i] {
                    ContentPart::Text { text } => {
                        if text::count(text) > 0 {
                            found = true;
                        }
                    },
                    _ => {},
                }
                i += 1;
            }
            assert(parts.take(parts.len() as int) =~= parts);
            found
        },
        _ => false,
    }
}

/// How many line ends are printed when all prompts are done: one for each message
/// of the model that has text.
pub fn closing_lines(messages: &[SessionMessage]) -> (n: usize)
    ensures
        n == replies_in(messages.deep_view()),
{
    let ghost view = messages.deep_view();
    let mut n: usize = 0;
    let mut i: usize = 0;
    assert(view.take(0) =~= seq![]);
    while i < messages.len()
        invariant
            n <= i <= messages@.len(),
            view == messages.deep_view(),
            n == replies_in(view.take(i as int)),
        decreases messages.len() - i,
    {
        assert(view.take(i + 1).drop_last() =~= view.take(i as int));
        assert(view[i as int] == messages@[i as int].deep_view());
        if has_text(&messages[i]) {
            n += 1;
        }
        i += 1;
    }
    assert(view.take(view.len() as int) =~= view);
    n
}

} // verus!
