//! Sessions that run in the background, and their clients.
//!
//! A client and a daemon speak in lines. The first line of a client is the token of
//! the session; after that it may send `prompt <text>`, `resume`, `status` and
//! `QUIT`, and is sent `EVENT` lines and one `RESULT` line for each command.
use crate::agent::message::SessionMessage;
use crate::agent::session::AgentEvent;
use crate::cli::print::event_to_json;
use crate::dup::Dup;
use crate::json;
use crate::paths;
use crate::text;
use vstd::prelude::*;

verus! {

// ------------------------------------------------------------------------ paths
/// The directory of the sockets.
pub fn get_sockets_dir(agent_dir: &str) -> (r: String)
    ensures
        r@ == paths::joined(agent_dir@, "sockets"@),
{
    paths::join(agent_dir, "sockets")
}

/// Where the socket of a session is.
pub fn get_socket_path(agent_dir: &str, session_id: &str) -> (r: String)
    ensures
        r@ == paths::joined(paths::joined(agent_dir@, "sockets"@), session_id@ + ".sock"@),
{
    paths::join(&get_sockets_dir(agent_dir), &text::concat(session_id, ".sock"))
}

/// Where the token of a session is.
pub fn get_token_path(agent_dir: &str, session_id: &str) -> (r: String)
    ensures
        r@ == paths::joined(paths::joined(agent_dir@, "sockets"@), session_id@ + ".token"@),
{
    paths::join(&get_sockets_dir(agent_dir), &text::concat(session_id, ".token"))
}

/// What is printed when a daemon listens.
pub fn listening_text(session_id: &str, socket_path: &str) -> (r: String)
    ensures
        r@ == "Daemon `"@ + session_id@ + "` running on socket: "@ + socket_path@,
{
    text::concat4("Daemon `", session_id, "` running on socket: ", socket_path)
}

/// A name without any number of endings `.sock`.
pub open spec fn without_sock(name: Seq<char>) -> Seq<char>
    decreases name.len(),
{
    match text::without_suffix(name, ".sock"@) {
        Some(rest) => if rest.len() < name.len() {
            without_sock(rest)
        } else {
            name
        },
        None => name,
    }
}

/// The line for a file among the sockets: one for each socket.
pub fn daemon_line(file_name: &str) -> (r: Option<String>)
    ensures
        r.deep_view() == if text::ends(file_name@, ".sock"@) {
            Some("  - "@ + without_sock(file_name@))
        } else {
            None
        },
{
    if !text::ends_with(file_name, ".sock") {
        return None;
    }
    proof {
        reveal_strlit(".sock");
    }
    let mut name = file_name.to_owned();
    loop
        invariant
            without_sock(name@) == without_sock(file_name@),
        ensures
            name@ == without_sock(file_name@),
        decreases name@.len(),
    {
        proof {
            reveal_strlit(".sock");
        }
        match text::strip_suffix(&name, ".sock") {
            Some(rest) => {
                name = rest;
            },
            None => {
                break;
            },
        }
    }
    Some(text::concat("  - ", &name))
}

// ------------------------------------------------------------------- session log
/// The tools that run, by the ids of their calls.
pub struct DaemonLog {
    names: Vec<(String, String)>,
}

impl View for DaemonLog {
    type V = Map<Seq<char>, Seq<char>>;

    closed spec fn view(&self) -> Map<Seq<char>, Seq<char>> {
        crate::mcp::registry::env_view(self.names@)
    }
}

/// What an event leads to.
pub struct LogStep {
    /// What is added to the file of the session.
    pub append: Option<SessionMessage>,
    /// What every client is sent.
    pub line: String,
}

/// The names after an event.
pub open spec fn names_after(
    names: Map<Seq<char>, Seq<char>>,
    event: crate::agent::session::EventView,
) -> Map<Seq<char>, Seq<char>> {
    match event {
        crate::agent::session::EventView::ToolExecutionStart { tool_call_id, name, .. } =>
            names.insert(tool_call_id, name),
        crate::agent::session::EventView::ToolExecutionEnd { tool_call_id, .. } => names.remove(
            tool_call_id,
        ),
        _ => names,
    }
}

/// What an event adds to the file of the session: a message that ended, and the
/// result of a tool whose start was seen.
pub open spec fn appended(
    names: Map<Seq<char>, Seq<char>>,
    event: crate::agent::session::EventView,
) -> Option<crate::agent::message::SessionView> {
    match event {
        crate::agent::session::EventView::MessageEnd { message } => Some(message),
        crate::agent::session::EventView::ToolExecutionEnd { tool_call_id, outcome } =>
            if names.contains_key(tool_call_id) {
                Some(
                    crate::agent::message::SessionView::ToolResult {
                        tool_call_id,
                        name: names[tool_call_id],
                        content: outcome.content,
                        is_error: outcome.is_error,
                    },
                )
            } else {
                None
            },
        _ => None,
    }
}

fn find_name(names: &[(String, String)], id: &str) -> (r: Option<String>)
    ensures
        r.deep_view() == if crate::mcp::registry::env_view(names@).contains_key(id@) {
            Some(crate::mcp::registry::env_view(names@)[id@])
        } else {
            None
        },
{
    let mut i: usize = 0;
    let mut found: Option<String> = None;
    assert(names@.take(0) =~= seq![]);
    while i < names.len()
        invariant
            i <= names@.len(),
            found.deep_view() == if crate::mcp::registry::env_view(
                names@.take(i as int),
            ).contains_key(id@) {
                Some(crate::mcp::registry::env_view(names@.take(i as int))[id@])
            } else {
                None
            },
        decreases names.len() - i,
    {
        assert(names@.take(i + 1).drop_last() =~= names@.take(i as int));
        if text::same(&names[i].0, id) {
            found = Some(names[i].1.dup());
        }
        i += 1;
    }
    assert(names@.take(names@.len() as int) =~= names@);
    found
}

fn without_name(names: Vec<(String, String)>, id: &str) -> (out: Vec<(String, String)>)
    ensures
        crate::mcp::registry::env_view(out@) == crate::mcp::registry::env_view(names@).remove(id@),
{
    let ghost all = names@;
    let mut out: Vec<(String, String)> = Vec::new();
    assert(all.take(0) =~= seq![]);
    assert(crate::mcp::registry::env_view(all.take(0)).remove(id@) =~= Map::empty());
    for pair in it: names
        invariant
            it.seq() == all,
            crate::mcp::registry::env_view(out@) == crate::mcp::registry::env_view(
                all.take(it.index() as int),
            ).remove(id@),
    {
        let ghost before = out@;
        let ghost i = it.index() as int;
        assert(all.take(i + 1).drop_last() =~= all.take(i));
        if !text::same(&pair.0, id) {
            out.push(pair);
            assert(out@.drop_last() =~= before);
        }
        assert(crate::mcp::registry::env_view(out@) =~= crate::mcp::registry::env_view(
            all.take(i + 1),
        ).remove(id@));
    }
    assert(all.take(all.len() as int) =~= all);
    out
}

impl DaemonLog {
    /// Before any event.
    pub fn new() -> (r: Self)
        ensures
            r@ == Map::<Seq<char>, Seq<char>>::empty(),
    {
        DaemonLog { names: Vec::new() }
    }

    /// Takes an event; `message` is how the message of a `MessageEnd` is written.
    pub fn run_daemon(&mut self, event: &AgentEvent, message: &str) -> (r: LogStep)
        ensures
            final(self)@ == names_after(old(self)@, event.deep_view()),
            r.append.deep_view() == appended(old(self)@, event.deep_view()),
            r.line@ == "EVENT "@ + json::json_text(
                crate::cli::print::event_json(event.deep_view(), message@),
            ),
    {
        let line = text::concat("EVENT ", &json::render(&event_to_json(event, message)));
        let append = match event {
            AgentEvent::MessageEnd { message } => Some(message.dup()),
            AgentEvent::ToolExecutionStart { tool_call_id, name, .. } => {
                let ghost before = self.names@;
                self.names.push((tool_call_id.dup(), name.dup()));
                assert(self.names@.drop_last() =~= before);
                None
            },
            AgentEvent::ToolExecutionEnd { tool_call_id, outcome } => {
                let found = find_name(self.names.as_slice(), tool_call_id);
                let mut names: Vec<(String, String)> = Vec::new();
                std::mem::swap(&mut names, &mut self.names);
                self.names = without_name(names, tool_call_id);
                match found {
                    Some(name) => Some(
                        SessionMessage::ToolResult {
                            tool_call_id: tool_call_id.dup(),
                            name,
                            content: outcome.content.dup(),
                            is_error: outcome.is_error,
                        },
                    ),
                    None => None,
                }
            },
            _ => None,
        };
        LogStep { append, line }
    }
}

/// The result of a tool is recorded under the name with which the tool was started,
/// whatever other calls started in between.
pub proof fn law_results_have_their_names(
    names: Map<Seq<char>, Seq<char>>,
    start: crate::agent::session::EventView,
    other: crate::agent::session::EventView,
    end: crate::agent::session::EventView,
)
    requires
        start is ToolExecutionStart,
        end is ToolExecutionEnd,
        start->ToolExecutionStart_tool_call_id == end->ToolExecutionEnd_tool_call_id,
        other is ToolExecutionStart ==> other->ToolExecutionStart_tool_call_id
            != start->ToolExecutionStart_tool_call_id,
        other is ToolExecutionEnd ==> other->ToolExecutionEnd_tool_call_id
            != start->ToolExecutionStart_tool_call_id,
    ensures
        appended(names_after(names_after(names, start), other), end) == Some(
            crate::agent::message::SessionView::ToolResult {
                tool_call_id: start->ToolExecutionStart_tool_call_id,
                name: start->ToolExecutionStart_name,
                content: end->ToolExecutionEnd_outcome.content,
                is_error: end->ToolExecutionEnd_outcome.is_error,
            },
        ),
{
}

// ----------------------------------------------------------------------- clients
/// How far a client is.
#[derive(Debug, Clone, Copy, PartialEq, Eq, Structural)]
pub enum ClientState {
    /// The token has not come yet.
    New,
    Open,
    Closed,
}

/// A client of a daemon.
pub struct Client {
    token: String,
    state: ClientState,
}

/// What a `Client` stands for.
pub ghost struct ClientView {
    pub token: Seq<char>,
    pub state: ClientState,
}

impl View for Client {
    type V = ClientView;

    closed spec fn view(&self) -> ClientView {
        ClientView { token: self.token@, state: self.state }
    }
}

/// What a line of a client leads to.
pub enum ClientAction {
    /// The client is sent this line.
    Send(String),
    /// The client is sent this line, and the connection ends.
    Close(String),
    /// The agent is prompted, if it is idle.
    Prompt(String),
    /// The messages of the session are read from their file.
    Resume,
    /// The client is told how far the session is.
    Status,
    /// Nothing: the connection has ended.
    Nothing,
}

/// What a `ClientAction` stands for.
pub ghost enum ClientActionView {
    Send(Seq<char>),
    Close(Seq<char>),
    Prompt(Seq<char>),
    Resume,
    Status,
    Nothing,
}

impl DeepView for ClientAction {
    type V = ClientActionView;

    open spec fn deep_view(&self) -> ClientActionView {
        match self {
            ClientAction::Send(s) => ClientActionView::Send(s@),
            ClientAction::Close(s) => ClientActionView::Close(s@),
            ClientAction::Prompt(s) => ClientActionView::Prompt(s@),
            ClientAction::Resume => ClientActionView::Resume,
            ClientAction::Status => ClientActionView::Status,
            ClientAction::Nothing => ClientActionView::Nothing,
        }
    }
}

/// What a command of a client leads to.
pub open spec fn command_of(message: Seq<char>) -> ClientActionView {
    match text::without_prefix(message, "prompt "@) {
        Some(prompt) => ClientActionView::Prompt(prompt),
        None => if message == "resume"@ {
            ClientActionView::Resume
        } else if message == "status"@ {
            ClientActionView::Status
        } else {
            ClientActionView::Send("RESULT error unknown command: "@ + message)
        },
    }
}

/// What a line of a client, or the end of its lines, leads to.
pub open spec fn client_step(c: ClientView, line: Option<Seq<char>>) -> (
    ClientView,
    ClientActionView,
) {
    let message = match line {
        Some(line) => text::spec_trim(line),
        None => seq![],
    };
    match c.state {
        ClientState::New => if message == c.token {
            (
                ClientView { state: ClientState::Open, ..c },
                ClientActionView::Send("OK: Authenticated"@),
            )
        } else {
            (
                ClientView { state: ClientState::Closed, ..c },
                ClientActionView::Close("ERROR: Invalid session token"@),
            )
        },
        ClientState::Open => if line is None || message == "QUIT"@ {
            (ClientView { state: ClientState::Closed, ..c }, ClientActionView::Close("QUIT"@))
        } else {
            (c, command_of(message))
        },
        ClientState::Closed => (c, ClientActionView::Nothing),
    }
}

fn read_command(message: &str) -> (r: ClientAction)
    ensures
        r.deep_view() == command_of(message@),
{
    match text::strip_prefix(message, "prompt ") {
        Some(prompt) => ClientAction::Prompt(prompt),
        None => if text::same(message, "resume") {
            ClientAction::Resume
        } else if text::same(message, "status") {
            ClientAction::Status
        } else {
            ClientAction::Send(text::concat("RESULT error unknown command: ", message))
        },
    }
}

impl Client {
    /// A client of a session with this token.
    pub fn new(token: &str) -> (r: Self)
        ensures
            r@ == (ClientView { token: token@, state: ClientState::New }),
    {
        Client { token: token.to_owned(), state: ClientState::New }
    }

    /// Takes a line of the client, or the end of its lines.
    pub fn handle_client(&mut self, line: Option<&str>) -> (r: ClientAction)
        ensures
            (final(self)@, r.deep_view()) == client_step(
                old(self)@,
                match line {
                    Some(l) => Some(l@),
                    None => None,
                },
            ),
    {
        let message = match line {
            Some(l) => text::trim(l),
            None => {
                let empty = String::new();
                assert(empty@ =~= seq![]);
                empty
            },
        };
        match self.state {
            ClientState::New => {
                if text::same(&message, &self.token) {
                    self.state = ClientState::Open;
                    ClientAction::Send("OK: Authenticated".to_owned())
                } else {
                    self.state = ClientState::Closed;
                    ClientAction::Close("ERROR: Invalid session token".to_owned())
                }
            },
            ClientState::Open => {
                if line.is_none() || text::same(&message, "QUIT") {
                    self.state = ClientState::Closed;
                    ClientAction::Close("QUIT".to_owned())
                } else {
                    read_command(&message)
                }
            },
            ClientState::Closed => ClientAction::Nothing,
        }
    }
}

/// How a prompt of a client ended.
pub enum PromptEnd {
    Done,
    Failed(String),
    /// The agent was at work.
    Busy,
}

/// What a client is sent when its prompt ended.
pub fn prompt_result(end: &PromptEnd) -> (r: String)
    ensures
        r@ == (match *end {
            PromptEnd::Done => "RESULT ok"@,
            PromptEnd::Failed(e) => "RESULT error "@ + e@,
            PromptEnd::Busy => "RESULT error daemon busy (a prompt is already running)"@,
        }),
{
    match end {
        PromptEnd::Done => "RESULT ok".to_owned(),
        PromptEnd::Failed(e) => text::concat("RESULT error ", e),
        PromptEnd::Busy => "RESULT error daemon busy (a prompt is already running)".to_owned(),
    }
}

/// What a client is sent when this many messages were read from the file.
pub fn resume_result(messages: usize) -> (r: String)
    ensures
        r@ == "RESULT ok restored "@ + text::spec_decimal(messages as nat) + " messages"@,
{
    text::concat3("RESULT ok restored ", &text::decimal(messages as u64), " messages")
}

/// What a client is told of how far the session is.
pub fn status_result(messages: usize, tokens: u64, window: Option<u64>) -> (r: String)
    ensures
        r@ == "RESULT ok messages="@ + text::spec_decimal(messages as nat) + " tokens="@
            + text::spec_decimal(tokens as nat) + "/"@ + (match window {
            Some(w) => text::spec_decimal(w as nat),
            None => "?"@,
        }),
{
    let mut r = text::concat5(
        "RESULT ok messages=",
        &text::decimal(messages as u64),
        " tokens=",
        &text::decimal(tokens),
        "/",
    );
    match window {
        Some(w) => {
            r.append(&text::decimal(w));
        },
        None => {
            r.append("?");
        },
    }
    r
}

/// The client after lines.
pub open spec fn client_after(c: ClientView, lines: Seq<Option<Seq<char>>>) -> ClientView
    decreases lines.len(),
{
    if lines.len() == 0 {
        c
    } else {
        client_step(client_after(c, lines.drop_last()), lines.last()).0
    }
}

/// Who does not send the token first gets nothing done: no line after that leads to
/// anything.
pub proof fn law_token_comes_first(
    token: Seq<char>,
    lines: Seq<Option<Seq<char>>>,
    line: Option<Seq<char>>,
)
    requires
        lines.len() > 0,
        client_step(ClientView { token, state: ClientState::New }, lines[0]).0.state
            == ClientState::Closed,
    ensures
        client_step(
            client_after(ClientView { token, state: ClientState::New }, lines),
            line,
        ).1 == ClientActionView::Nothing,
    decreases lines.len(),
{
    let c = ClientView { token, state: ClientState::New };
    if lines.len() == 1 {
        assert(lines.drop_last() =~= seq![]);
        assert(client_after(c, lines.drop_last()) == c);
    } else {
        law_token_comes_first(token, lines.drop_last(), lines.last());
    }
}

/// A line is taken for the token if and only if it is the token, white space around
/// it left aside.
pub proof fn law_only_the_token_opens(token: Seq<char>, line: Seq<char>)
    ensures
        (client_step(ClientView { token, state: ClientState::New }, Some(line)).0.state
            == ClientState::Open) == (text::spec_trim(line) == token),
{
}

} // verus!
