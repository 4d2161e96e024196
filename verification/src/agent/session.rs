//! The conversation of an agent with a model.
//!
//! An `Agent` decides what happens next; whoever drives it performs the action
//! that it asks for and tells it what came of it. Each step also gives the
//! events to publish, in their order.
use crate::agent::call::{ToolCallInfo, ToolOutcome};
use crate::agent::message::{to_llm_messages, SessionMessage, SessionMessageKind};
use crate::ai::cache::CacheStats;
use crate::ai::trust::{self, TrustData};
use crate::ai::types::{
    ChatRequest, ContentPart, LlmMessage, StopReason, StreamEvent, ToolSpec, Usage,
};
use crate::dup::{extend_dup, Dup};
use crate::indexed;
use crate::json::{self, Json};
use crate::text;
use vstd::prelude::*;

verus! {

/// How the agent works. In plan mode it changes nothing.
#[derive(Debug, Clone, Copy, PartialEq, Eq, Structural)]
pub enum Mode {
    Build,
    Plan,
}

impl Mode {
    /// The name of the mode.
    pub fn as_str(&self) -> (r: &'static str)
        ensures
            r@ == mode_name(*self),
    {
        match self {
            Mode::Build => "build",
            Mode::Plan => "plan",
        }
    }
}

/// The name of a mode.
pub open spec fn mode_name(mode: Mode) -> Seq<char> {
    match mode {
        Mode::Build => "build"@,
        Mode::Plan => "plan"@,
    }
}

/// What the system prompt says in plan mode.
pub const PLAN_MODE_BLOCK: &'static str = "\n\nYou are in PLAN MODE. You may only read, search, and ask questions — you cannot modify files or run state-changing commands. Available tools: `ls` (list a directory — use this instead of reading a directory), `read` (read one file), `view_outline` (fast AST outline of a file), `grep` (search file contents), `find` (locate files), `ask` (ask the user a question). There is no `bash` tool in plan mode. Explore the codebase, then create a detailed numbered plan under a heading `Plan:`, one item per line (`1. step`). Each step must be a concrete, verifiable action. Do not execute the plan yet.";

/// What the system prompt says of the trust block.
pub const TRUST_BLOCK: &'static str = "\n\nEnd each reply with a <trust> block the harness machine-reads (it is never shown to the user): <confidence>0-100</confidence>, <reason>, <expected_outcome>, <evidence> with <item file=\"…\" line=\"…\">note</item> entries, <uncertainty>, <plan> with <item> steps, and <estimated_time>. Omit any field you cannot answer honestly; do not invent evidence or confidence.";

/// The schema of the `delegate` tool.
pub const DELEGATE_SPEC: &'static str = "{\"type\":\"object\",\"properties\":{\"prompt\":{\"type\":\"string\",\"description\":\"Self-contained task for the sub-agent\"},\"tools\":{\"type\":\"array\",\"items\":{\"type\":\"string\"},\"description\":\"Restrict the sub-agent to these tools (default: the parent's set minus delegate)\"},\"max_turns\":{\"type\":\"integer\",\"description\":\"Sub-agent turn budget (default 4)\"}},\"required\":[\"prompt\"]}";

/// What the `delegate` tool is for.
pub const DELEGATE_DESCRIPTION: &'static str = "Delegate a self-contained task to a fresh sub-agent with its own context window and tool budget. Returns the sub-agent's final answer. Use for isolated research, review, or implementation subtasks you should not block on.";

/// What the model is asked when older messages are summarized.
pub const SUMMARY_PROMPT: &'static str = "Summarize the conversation above for continuation by a coding agent. Keep it concise but complete: the goal, key decisions, files touched, important tool results, user preferences, and open questions. 300 words or fewer.";

/// The system prompt of a summary.
pub const SUMMARY_SYSTEM: &'static str = "You produce conversation summaries for a coding agent.";

/// Whether a tool may be called in plan mode.
pub open spec fn is_plan_tool(name: Seq<char>) -> bool {
    name == "read"@ || name == "view_outline"@ || name == "grep"@ || name == "find"@ || name
        == "ls"@ || name == "ask"@ || name == "search"@ || name == "web_fetch"@ || name
        == "web_search"@
}

/// Whether a tool may be called in plan mode.
pub fn allowed_in_plan(name: &str) -> (r: bool)
    ensures
        r == is_plan_tool(name@),
{
    text::same(name, "read") || text::same(name, "view_outline") || text::same(name, "grep")
        || text::same(name, "find") || text::same(name, "ls") || text::same(name, "ask")
        || text::same(name, "search") || text::same(name, "web_fetch") || text::same(
        name,
        "web_search",
    )
}

// ------------------------------------------------------------------ options
/// How an agent is set up.
pub struct AgentOptions {
    /// The model's id.
    pub model: String,
    /// The system prompt, fixed for the session.
    pub system_prompt: String,
    /// What has been learned, put between the prompt and the trust block.
    pub harness_block: Option<String>,
    /// The tools that the model may call.
    pub tools: Vec<ToolSpec>,
    /// How many turns the agent takes before it asks.
    pub max_turns: usize,
    /// The working directory of the tools.
    pub cwd: String,
    pub mode: Mode,
    /// Whether there is somebody to ask.
    pub can_ask: bool,
    /// The context window of the model in tokens.
    pub context_window: Option<u64>,
    /// The reasoning effort.
    pub variant: Option<String>,
    /// Where large tool outputs are kept.
    pub output_dir: Option<String>,
}

/// What `AgentOptions` stand for.
pub ghost struct OptionsView {
    pub model: Seq<char>,
    pub system_prompt: Seq<char>,
    pub harness_block: Option<Seq<char>>,
    pub tools: Seq<crate::ai::types::ToolView>,
    pub max_turns: usize,
    pub cwd: Seq<char>,
    pub mode: Mode,
    pub can_ask: bool,
    pub context_window: Option<u64>,
    pub variant: Option<Seq<char>>,
    pub output_dir: Option<Seq<char>>,
}

impl DeepView for AgentOptions {
    type V = OptionsView;

    open spec fn deep_view(&self) -> OptionsView {
        OptionsView {
            model: self.model@,
            system_prompt: self.system_prompt@,
            harness_block: self.harness_block.deep_view(),
            tools: self.tools.deep_view(),
            max_turns: self.max_turns,
            cwd: self.cwd@,
            mode: self.mode,
            can_ask: self.can_ask,
            context_window: self.context_window,
            variant: self.variant.deep_view(),
            output_dir: self.output_dir.deep_view(),
        }
    }
}

impl Dup for AgentOptions {
    fn dup(&self) -> (r: Self) {
        AgentOptions {
            model: self.model.dup(),
            system_prompt: self.system_prompt.dup(),
            harness_block: self.harness_block.dup(),
            tools: self.tools.dup(),
            max_turns: self.max_turns,
            cwd: self.cwd.dup(),
            mode: self.mode,
            can_ask: self.can_ask,
            context_window: self.context_window,
            variant: self.variant.dup(),
            output_dir: self.output_dir.dup(),
        }
    }
}

/// The tools of this list that are active in the mode.
pub open spec fn active_view(
    tools: Seq<crate::ai::types::ToolView>,
    mode: Mode,
) -> Seq<crate::ai::types::ToolView>
    decreases tools.len(),
{
    if tools.len() == 0 {
        seq![]
    } else {
        let before = active_view(tools.drop_last(), mode);
        if mode == Mode::Plan && !is_plan_tool(tools.last().name) {
            before
        } else {
            before.push(tools.last())
        }
    }
}

/// The `delegate` tool.
pub open spec fn delegate_tool() -> crate::ai::types::ToolView {
    crate::ai::types::ToolView {
        name: "delegate"@,
        description: DELEGATE_DESCRIPTION@,
        parameters: match json::parsed_json(DELEGATE_SPEC@) {
            Ok(j) => j,
            Err(_) => json::JsonView::Null,
        },
    }
}

/// The tools that the model is told of: those that are active, and in build
/// mode `delegate`.
pub open spec fn specs_view(options: OptionsView) -> Seq<crate::ai::types::ToolView> {
    let active = active_view(options.tools, options.mode);
    if options.mode == Mode::Build {
        active.push(delegate_tool())
    } else {
        active
    }
}

/// The system prompt: the fixed part, the block of the mode, what was learned,
/// and what is said of the trust block.
pub open spec fn system_prompt_view(options: OptionsView) -> Seq<char> {
    let raw = match options.mode {
        Mode::Build => options.system_prompt,
        Mode::Plan => options.system_prompt + PLAN_MODE_BLOCK@,
    };
    let learned = match options.harness_block {
        Some(h) => raw + h,
        None => raw,
    };
    learned + TRUST_BLOCK@
}

impl AgentOptions {
    /// The tools that are active in the current mode.
    pub fn active_tools(&self) -> (out: Vec<ToolSpec>)
        ensures
            out.deep_view() == active_view(self.deep_view().tools, self.mode),
    {
        let ghost view = self.tools.deep_view();
        let mut out: Vec<ToolSpec> = Vec::new();
        assert(out.deep_view() =~= seq![]);
        let mut i: usize = 0;
        assert(view.take(0) =~= seq![]);
        while i < self.tools.len()
            invariant
                i <= self.tools.len(),
                view == self.tools.deep_view(),
                out.deep_view() == active_view(view.take(i as int), self.mode),
            decreases self.tools.len() - i,
        {
            assert(view.take(i + 1).drop_last() =~= view.take(i as int));
            if !(self.mode == Mode::Plan && !allowed_in_plan(&self.tools[i].name)) {
                text::put(&mut out, self.tools[i].dup());
            }
            i += 1;
        }
        assert(view.take(view.len() as int) =~= view);
        out
    }

    /// The tools that the model is told of.
    pub fn tool_specs(&self) -> (out: Vec<ToolSpec>)
        ensures
            out.deep_view() == specs_view(self.deep_view()),
    {
        let mut out = self.active_tools();
        if self.mode == Mode::Build {
            let parameters = match json::parse(DELEGATE_SPEC) {
                Ok(j) => j,
                Err(_) => Json::Null,
            };
            text::put(
                &mut out,
                ToolSpec {
                    name: "delegate".to_owned(),
                    description: DELEGATE_DESCRIPTION.to_owned(),
                    parameters,
                },
            );
        }
        out
    }

    /// The system prompt.
    pub fn current_system_prompt(&self) -> (r: String)
        ensures
            r@ == system_prompt_view(self.deep_view()),
    {
        let mut prompt = match self.mode {
            Mode::Build => self.system_prompt.clone(),
            Mode::Plan => text::concat(&self.system_prompt, PLAN_MODE_BLOCK),
        };
        if let Some(h) = &self.harness_block {
            prompt.append(h);
        }
        prompt.append(TRUST_BLOCK);
        prompt
    }
}

// ----------------------------------------------------------- trust and size
/// The position of the last text among the parts.
pub open spec fn last_text(parts: Seq<crate::ai::types::ContentView>) -> Option<int>
    decreases parts.len(),
{
    if parts.len() == 0 {
        None
    } else if parts.last() is Text {
        Some(parts.len() - 1)
    } else {
        last_text(parts.drop_last())
    }
}

/// What the last text says of the reply, and the parts with that text cleaned.
pub open spec fn trust_of_parts(parts: Seq<crate::ai::types::ContentView>) -> (
    crate::ai::trust::TrustView,
    Seq<crate::ai::types::ContentView>,
) {
    match last_text(parts) {
        Some(i) => match parts[i] {
            crate::ai::types::ContentView::Text { text } => (
                trust::trust_extracted(text).0,
                parts.update(
                    i,
                    crate::ai::types::ContentView::Text { text: trust::trust_extracted(text).1 },
                ),
            ),
            _ => (crate::ai::trust::TrustView::nothing(), parts),
        },
        None => (crate::ai::trust::TrustView::nothing(), parts),
    }
}

/// Takes what a reply says of itself out of its last text.
pub fn extract_trust(parts: Vec<ContentPart>) -> (r: (TrustData, Vec<ContentPart>))
    ensures
        r.0.deep_view() == trust_of_parts(parts.deep_view()).0,
        r.1.deep_view() == trust_of_parts(parts.deep_view()).1,
{
    let ghost view = parts.deep_view();
    let mut out = parts;
    let mut i: usize = out.len();
    assert(view.take(view.len() as int) =~= view);
    while i > 0
        invariant
            i <= out@.len(),
            view == parts.deep_view(),
            out.deep_view() == view,
            last_text(view) == last_text(view.take(i as int)),
        decreases i,
    {
        assert(view.take(i as int).drop_last() =~= view.take(i - 1));
        assert(view[i - 1] == out@[i - 1].deep_view());
        if let ContentPart::Text { text: said } = &out[i - 1] {
            let (found, cleaned) = trust::extract_trust_block(said);
            out.set(i - 1, ContentPart::Text { text: cleaned });
            assert(out.deep_view() =~= trust_of_parts(view).1);
            return (found, out);
        }
        i -= 1;
    }
    (TrustData::default(), out)
}

/// A tool result cut to `max` bytes, with a note, where it is longer.
pub open spec fn clamped(
    message: crate::agent::message::SessionView,
    max: nat,
) -> crate::agent::message::SessionView {
    match message {
        crate::agent::message::SessionView::ToolResult { tool_call_id, name, content, is_error } =>
            if text::byte_count(content) > max {
            crate::agent::message::SessionView::ToolResult {
                tool_call_id,
                name,
                content: text::bytes_within(content, max) + "\n…[clamped for compaction]"@,
                is_error,
            }
        } else {
            message
        },
        _ => message,
    }
}

/// Cuts the tool results among the messages to `max_chars` bytes.
pub fn clamp_tool_results(messages: &mut Vec<SessionMessage>, max_chars: usize)
    ensures
        final(messages).deep_view() == old(messages).deep_view().map_values(
            |m: crate::agent::message::SessionView| clamped(m, max_chars as nat),
        ),
{
    let ghost first = messages.deep_view();
    let ghost goal = first.map_values(
        |m: crate::agent::message::SessionView| clamped(m, max_chars as nat),
    );
    let mut i: usize = 0;
    while i < messages.len()
        invariant
            i <= messages@.len(),
            messages@.len() == first.len(),
            goal.len() == first.len(),
            forall|k: int|
                0 <= k < first.len() ==> #[trigger] goal[k] == clamped(first[k], max_chars as nat),
            forall|k: int|
                0 <= k < messages@.len() ==> (#[trigger] messages@[k]).deep_view() == (if k < i {
                    goal[k]
                } else {
                    first[k]
                }),
        decreases messages@.len() - i,
    {
        if let SessionMessage::ToolResult { tool_call_id, name, content, is_error } = &messages[i] {
            if text::byte_len(content) > max_chars {
                let mut cut = text::cut_to_bytes(content, max_chars);
                cut.append("\n…[clamped for compaction]");
                let changed = SessionMessage::ToolResult {
                    tool_call_id: tool_call_id.clone(),
                    name: name.clone(),
                    content: cut,
                    is_error: *is_error,
                };
                messages.set(i, changed);
            }
        }
        assert(messages@[i as int].deep_view() == goal[i as int]);
        i += 1;
    }
    assert(messages.deep_view() =~= goal);
}

// ------------------------------------------------------------------- events
/// What an agent publishes. A run begins with `AgentStart` and ends with
/// `AgentEnd`; in each turn come `TurnStart`, the message with its updates, the
/// tool executions, and `TurnEnd`.
#[allow(inconsistent_fields)]
pub enum AgentEvent {
    AgentStart,
    TurnStart { turn: usize },
    MessageStart { kind: SessionMessageKind },
    MessageUpdate { delta: StreamEvent },
    MessageEnd { message: SessionMessage },
    ToolExecutionStart { tool_call_id: String, name: String, arguments: Json },
    ToolExecutionEnd { tool_call_id: String, outcome: ToolOutcome },
    /// A proposal for what the agent could learn, as JSON.
    RefineResult { proposal_json: String },
    TurnEnd { message: SessionMessage, tool_results: usize },
    AgentEnd { messages: usize, cache_stats: CacheStats },
    /// Something the user should know.
    Notice { message: String },
    /// Older messages were replaced by a summary.
    Compacted { summary: String, messages_removed: usize },
    /// The status of a step of a flow has changed.
    FlowStep { index: usize, name: String, status: String },
}

/// What an `AgentEvent` stands for.
#[allow(inconsistent_fields)]
pub ghost enum EventView {
    AgentStart,
    TurnStart { turn: usize },
    MessageStart { kind: SessionMessageKind },
    MessageUpdate { delta: crate::ai::types::StreamView },
    MessageEnd { message: crate::agent::message::SessionView },
    ToolExecutionStart { tool_call_id: Seq<char>, name: Seq<char>, arguments: json::JsonView },
    ToolExecutionEnd { tool_call_id: Seq<char>, outcome: crate::agent::call::OutcomeView },
    RefineResult { proposal_json: Seq<char> },
    TurnEnd { message: crate::agent::message::SessionView, tool_results: usize },
    AgentEnd { messages: usize, cache_stats: CacheStats },
    Notice { message: Seq<char> },
    Compacted { summary: Seq<char>, messages_removed: usize },
    FlowStep { index: usize, name: Seq<char>, status: Seq<char> },
}

impl DeepView for AgentEvent {
    type V = EventView;

    open spec fn deep_view(&self) -> EventView {
        match self {
            AgentEvent::AgentStart => EventView::AgentStart,
            AgentEvent::TurnStart { turn } => EventView::TurnStart { turn: *turn },
            AgentEvent::MessageStart { kind } => EventView::MessageStart { kind: *kind },
            AgentEvent::MessageUpdate { delta } => EventView::MessageUpdate {
                delta: delta.deep_view(),
            },
            AgentEvent::MessageEnd { message } => EventView::MessageEnd {
                message: message.deep_view(),
            },
            AgentEvent::ToolExecutionStart { tool_call_id, name, arguments } =>
                EventView::ToolExecutionStart {
                tool_call_id: tool_call_id@,
                name: name@,
                arguments: arguments.deep_view(),
            },
            AgentEvent::ToolExecutionEnd { tool_call_id, outcome } => EventView::ToolExecutionEnd {
                tool_call_id: tool_call_id@,
                outcome: outcome.deep_view(),
            },
            AgentEvent::RefineResult { proposal_json } => EventView::RefineResult {
                proposal_json: proposal_json@,
            },
            AgentEvent::TurnEnd { message, tool_results } => EventView::TurnEnd {
                message: message.deep_view(),
                tool_results: *tool_results,
            },
            AgentEvent::AgentEnd { messages, cache_stats } => EventView::AgentEnd {
                messages: *messages,
                cache_stats: *cache_stats,
            },
            AgentEvent::Notice { message } => EventView::Notice { message: message@ },
            AgentEvent::Compacted { summary, messages_removed } => EventView::Compacted {
                summary: summary@,
                messages_removed: *messages_removed,
            },
            AgentEvent::FlowStep { index, name, status } => EventView::FlowStep {
                index: *index,
                name: name@,
                status: status@,
            },
        }
    }
}

// -------------------------------------------------------------------- state
/// What has been received of the current reply.
pub struct Reply {
    pub text: String,
    pub thinking: String,
    /// The tool calls in the order of their indices.
    pub tool_calls: Vec<(usize, ToolCallInfo)>,
    pub usage: Option<Usage>,
    pub stop_reason: StopReason,
    pub error: Option<String>,
}

/// What a `Reply` stands for.
pub ghost struct ReplyView {
    pub text: Seq<char>,
    pub thinking: Seq<char>,
    pub tool_calls: Seq<(usize, crate::agent::call::CallInfoView)>,
    pub usage: Option<Usage>,
    pub stop_reason: StopReason,
    pub error: Option<Seq<char>>,
}

impl DeepView for Reply {
    type V = ReplyView;

    open spec fn deep_view(&self) -> ReplyView {
        ReplyView {
            text: self.text@,
            thinking: self.thinking@,
            tool_calls: self.tool_calls.deep_view(),
            usage: self.usage,
            stop_reason: self.stop_reason,
            error: self.error.deep_view(),
        }
    }
}

impl ReplyView {
    /// Nothing received yet.
    pub open spec fn fresh() -> ReplyView {
        ReplyView {
            text: seq![],
            thinking: seq![],
            tool_calls: seq![],
            usage: None,
            stop_reason: StopReason::Stop,
            error: None,
        }
    }
}

impl Reply {
    /// Nothing received yet.
    pub fn new() -> (r: Self)
        ensures
            r.deep_view() == ReplyView::fresh(),
    {
        let r = Reply {
            text: String::new(),
            thinking: String::new(),
            tool_calls: Vec::new(),
            usage: None,
            stop_reason: StopReason::Stop,
            error: None,
        };
        assert(r.tool_calls.deep_view() =~= seq![]);
        r
    }
}

/// An agent and its conversation.
pub struct Agent {
    pub options: AgentOptions,
    /// The tools that the model is told of.
    pub tool_specs: Vec<ToolSpec>,
    pub messages: Vec<SessionMessage>,
    pub cache_stats: CacheStats,
    /// The prompt tokens of the last turn, about the size of the context.
    pub last_input_tokens: u64,
    /// The number of the current turn of the run.
    pub turn: usize,
    pub reply: Reply,
    /// The calls of the current turn that have no result yet.
    pub pending: Vec<ToolCallInfo>,
    /// The number of results in the current turn.
    pub results: usize,
    /// The assistant message of the current turn.
    pub current: Option<SessionMessage>,
}

/// What an `Agent` stands for.
pub ghost struct AgentView {
    pub options: OptionsView,
    pub tool_specs: Seq<crate::ai::types::ToolView>,
    pub messages: Seq<crate::agent::message::SessionView>,
    pub cache_stats: CacheStats,
    pub last_input_tokens: u64,
    pub turn: usize,
    pub reply: ReplyView,
    pub pending: Seq<crate::agent::call::CallInfoView>,
    pub results: usize,
    pub current: Option<crate::agent::message::SessionView>,
}

impl DeepView for Agent {
    type V = AgentView;

    open spec fn deep_view(&self) -> AgentView {
        AgentView {
            options: self.options.deep_view(),
            tool_specs: self.tool_specs.deep_view(),
            messages: self.messages.deep_view(),
            cache_stats: self.cache_stats,
            last_input_tokens: self.last_input_tokens,
            turn: self.turn,
            reply: self.reply.deep_view(),
            pending: self.pending.deep_view(),
            results: self.results,
            current: self.current.deep_view(),
        }
    }
}

/// What is to be done for an agent.
pub enum Action {
    /// Ask the user, who may choose one of the options.
    Ask { question: String, options: Vec<String> },
    /// Put a request to the model.
    Stream(ChatRequest),
    /// Wait for the next event of the reply.
    Next,
    /// Run a tool.
    RunTool(ToolCallInfo),
    /// Nothing: the run is over.
    Finished,
}

/// What an `Action` stands for.
pub ghost enum ActionView {
    Ask { question: Seq<char>, options: Seq<Seq<char>> },
    Stream(crate::ai::types::RequestView),
    Next,
    RunTool(crate::agent::call::CallInfoView),
    Finished,
}

impl DeepView for Action {
    type V = ActionView;

    open spec fn deep_view(&self) -> ActionView {
        match self {
            Action::Ask { question, options } => ActionView::Ask {
                question: question@,
                options: options.deep_view(),
            },
            Action::Stream(request) => ActionView::Stream(request.deep_view()),
            Action::Next => ActionView::Next,
            Action::RunTool(call) => ActionView::RunTool(call.deep_view()),
            Action::Finished => ActionView::Finished,
        }
    }
}

/// One step of an agent: what it publishes, and what is to be done for it.
pub struct Step {
    pub events: Vec<AgentEvent>,
    pub action: Action,
}

/// An agent after a step, what it published, and what is to be done for it.
pub ghost struct StepView {
    pub agent: AgentView,
    pub events: Seq<EventView>,
    pub action: ActionView,
}

/// What comes from the stream of a reply.
pub enum Incoming {
    Event(StreamEvent),
    /// The stream has ended.
    End,
    /// The user has interrupted the reply.
    Interrupted,
}

/// What an `Incoming` stands for.
pub ghost enum IncomingView {
    Event(crate::ai::types::StreamView),
    End,
    Interrupted,
}

impl DeepView for Incoming {
    type V = IncomingView;

    open spec fn deep_view(&self) -> IncomingView {
        match self {
            Incoming::Event(e) => IncomingView::Event(e.deep_view()),
            Incoming::End => IncomingView::End,
            Incoming::Interrupted => IncomingView::Interrupted,
        }
    }
}

// -------------------------------------------------------------------- turns
/// The request of the current turn.
pub open spec fn turn_request(a: AgentView) -> crate::ai::types::RequestView {
    crate::ai::types::RequestView {
        model: a.options.model,
        system: system_prompt_view(a.options),
        messages: crate::agent::message::to_llm_all(a.messages),
        tools: a.tool_specs,
        temperature: None,
        variant: a.options.variant,
    }
}

/// The run is over.
pub open spec fn finished(a: AgentView, events: Seq<EventView>) -> StepView {
    StepView {
        agent: a,
        events: events.push(
            EventView::AgentEnd { messages: a.messages.len() as usize, cache_stats: a.cache_stats },
        ),
        action: ActionView::Finished,
    }
}

/// The next turn begins.
pub open spec fn begun(a: AgentView, events: Seq<EventView>) -> StepView {
    let next = AgentView { turn: (a.turn + 1) as usize, ..a };
    StepView {
        agent: next,
        events: events.push(EventView::TurnStart { turn: next.turn }),
        action: ActionView::Stream(turn_request(next)),
    }
}

/// What is said when the turns are used up.
pub open spec fn many_turns(max_turns: usize) -> Seq<char> {
    "agent-m has been working on this problem for a while ("@ + text::spec_decimal(max_turns as nat)
        + " turns). It can continue to iterate, or you can send a new message to refine your prompt."@
}

/// The question whether to go on.
pub open spec fn continue_question() -> ActionView {
    ActionView::Ask { question: "Continue for more turns?"@, options: seq!["yes"@, "no"@] }
}

/// The next turn, unless the turns are used up: then the user is asked, and
/// without anybody to ask the run is over.
pub open spec fn next_turn(a: AgentView, events: Seq<EventView>) -> StepView {
    if a.turn >= a.options.max_turns {
        let told = events.push(EventView::Notice { message: many_turns(a.options.max_turns) });
        if a.options.can_ask {
            StepView { agent: a, events: told, action: continue_question() }
        } else {
            finished(a, told)
        }
    } else {
        begun(a, events)
    }
}

/// A run begins with what the user says.
pub open spec fn prompted(a: AgentView, content: Seq<char>, images: Seq<Seq<char>>) -> StepView {
    let message = crate::agent::message::SessionView::User { content, images };
    next_turn(
        AgentView { turn: 0, messages: a.messages.push(message), ..a },
        seq![
            EventView::AgentStart,
            EventView::MessageStart { kind: SessionMessageKind::User },
            EventView::MessageEnd { message },
        ],
    )
}

/// Whether an answer is a yes, in whatever case.
pub open spec fn is_yes(answer: Seq<char>) -> bool {
    text::ascii_lowered(text::spec_trim(answer)) == text::ascii_lowered("yes"@)
}

/// The run after the user was asked whether to go on: with a yes for 20 more
/// turns, or else not at all.
pub open spec fn answered(a: AgentView, answer: Option<Seq<char>>) -> StepView {
    match answer {
        Some(t) => if is_yes(t) {
            begun(
                AgentView {
                    options: OptionsView {
                        max_turns: (a.options.max_turns + 20) as usize,
                        ..a.options
                    },
                    ..a
                },
                seq![],
            )
        } else {
            finished(a, seq![])
        },
        None => finished(a, seq![]),
    }
}

/// The run after the request was put to the model, or could not be.
pub open spec fn opened(a: AgentView, error: Option<Seq<char>>) -> StepView {
    match error {
        Some(e) => finished(a, seq![EventView::Notice { message: "provider error: "@ + e }]),
        None => StepView {
            agent: AgentView { reply: ReplyView::fresh(), ..a },
            events: seq![EventView::MessageStart { kind: SessionMessageKind::Assistant }],
            action: ActionView::Next,
        },
    }
}

/// A call after what was received of it: an empty id or name changes nothing.
pub open spec fn updated_call(
    calls: Seq<(usize, crate::agent::call::CallInfoView)>,
    index: usize,
    id: Seq<char>,
    name: Seq<char>,
    arguments: Seq<char>,
) -> crate::agent::call::CallInfoView {
    let slot = indexed::slot_from(calls, index, 0);
    let parsed = crate::ai::sse::call_arguments(arguments);
    if slot < calls.len() && calls[slot].0 == index {
        crate::agent::call::CallInfoView {
            tool_call_id: if id.len() > 0 {
                id
            } else {
                calls[slot].1.tool_call_id
            },
            name: if name.len() > 0 {
                name
            } else {
                calls[slot].1.name
            },
            arguments: parsed,
        }
    } else {
        crate::agent::call::CallInfoView { tool_call_id: id, name, arguments: parsed }
    }
}

/// The calls with this one at its index.
pub open spec fn upserted(
    calls: Seq<(usize, crate::agent::call::CallInfoView)>,
    index: usize,
    call: crate::agent::call::CallInfoView,
) -> Seq<(usize, crate::agent::call::CallInfoView)> {
    let slot = indexed::slot_from(calls, index, 0);
    if slot < calls.len() && calls[slot].0 == index {
        calls.update(slot, (index, call))
    } else {
        calls.insert(slot, (index, call))
    }
}

/// The reply after an event of its stream, and what is published of it.
pub open spec fn reply_after(
    reply: ReplyView,
    event: crate::ai::types::StreamView,
) -> (ReplyView, Seq<EventView>) {
    match event {
        crate::ai::types::StreamView::Start => (reply, seq![]),
        crate::ai::types::StreamView::TextDelta { delta } => (
            ReplyView { text: reply.text + delta, ..reply },
            seq![EventView::MessageUpdate { delta: event }],
        ),
        crate::ai::types::StreamView::ThinkingDelta { delta } => (
            ReplyView { thinking: reply.thinking + delta, ..reply },
            seq![EventView::MessageUpdate { delta: event }],
        ),
        crate::ai::types::StreamView::ToolCallDelta { index, id, name, arguments } => {
            let call = updated_call(reply.tool_calls, index, id, name, arguments);
            (
                ReplyView { tool_calls: upserted(reply.tool_calls, index, call), ..reply },
                seq![
                    EventView::MessageUpdate {
                        delta: crate::ai::types::StreamView::ToolCallDelta {
                            index,
                            id: call.tool_call_id,
                            name: call.name,
                            arguments: json::json_text(call.arguments),
                        },
                    },
                ],
            )
        },
        crate::ai::types::StreamView::Error { message } => (
            ReplyView { error: Some(message), stop_reason: StopReason::Error, ..reply },
            seq![],
        ),
        crate::ai::types::StreamView::Done { message } => (
            match message.error_message {
                Some(e) => ReplyView {
                    usage: message.usage,
                    error: Some(e),
                    stop_reason: StopReason::Error,
                    ..reply
                },
                None => ReplyView {
                    usage: message.usage,
                    stop_reason: message.stop_reason,
                    ..reply
                },
            },
            seq![],
        ),
    }
}

/// A call as a part of the message.
pub open spec fn part_of_call(
    call: crate::agent::call::CallInfoView,
) -> crate::ai::types::ContentView {
    crate::ai::types::ContentView::ToolCall {
        id: call.tool_call_id,
        name: call.name,
        arguments: call.arguments,
    }
}

/// The calls of a reply.
pub open spec fn reply_calls(reply: ReplyView) -> Seq<crate::agent::call::CallInfoView> {
    reply.tool_calls.map_values(|c: (usize, crate::agent::call::CallInfoView)| c.1)
}

/// The parts of the reply: text, reasoning, tool calls.
pub open spec fn reply_parts(reply: ReplyView) -> Seq<crate::ai::types::ContentView> {
    (if reply.text.len() > 0 {
        seq![crate::ai::types::ContentView::Text { text: reply.text }]
    } else {
        seq![]
    }) + (if reply.thinking.len() > 0 {
        seq![crate::ai::types::ContentView::Thinking { thinking: reply.thinking }]
    } else {
        seq![]
    }) + reply_calls(reply).map_values(|c: crate::agent::call::CallInfoView| part_of_call(c))
}

/// The message that the reply amounts to, without its trust block.
pub open spec fn reply_message(
    reply: ReplyView,
    model: Seq<char>,
) -> crate::agent::message::SessionView {
    let (found, parts) = trust_of_parts(reply_parts(reply));
    crate::agent::message::SessionView::Assistant {
        content: parts,
        usage: reply.usage,
        stop_reason: reply.stop_reason,
        model,
        trust: found,
    }
}

/// The next tool of the turn is run.
pub open spec fn tool_started(a: AgentView, events: Seq<EventView>) -> StepView {
    let call = a.pending[0];
    StepView {
        agent: a,
        events: events.push(
            EventView::ToolExecutionStart {
                tool_call_id: call.tool_call_id,
                name: call.name,
                arguments: call.arguments,
            },
        ),
        action: ActionView::RunTool(call),
    }
}

/// The agent with the token counts of the reply.
pub open spec fn counted(a: AgentView) -> AgentView {
    match a.reply.usage {
        Some(u) => AgentView {
            cache_stats: a.cache_stats.recorded(u),
            last_input_tokens: u.input_tokens,
            ..a
        },
        None => a,
    }
}

/// The run after the whole reply. An interrupted reply is not kept and its calls
/// are not made; otherwise the reply is kept, and its calls are made in turn.
pub open spec fn replied(a: AgentView) -> StepView {
    let message = reply_message(a.reply, a.options.model);
    let b = counted(a);
    let ended = seq![EventView::MessageEnd { message }];
    if a.reply.stop_reason == StopReason::Aborted {
        finished(b, ended.push(EventView::TurnEnd { message, tool_results: 0 }))
    } else {
        let kept = AgentView { messages: b.messages.push(message), ..b };
        let events = match a.reply.error {
            Some(e) => ended.push(EventView::Notice { message: "model error: "@ + e }),
            None => ended,
        };
        let calls = reply_calls(a.reply);
        if calls.len() > 0 {
            tool_started(
                AgentView { pending: calls, results: 0, current: Some(message), ..kept },
                events,
            )
        } else {
            finished(kept, events.push(EventView::TurnEnd { message, tool_results: 0 }))
        }
    }
}

/// The run after something came from the stream of the reply.
pub open spec fn streamed(a: AgentView, incoming: IncomingView) -> StepView {
    match incoming {
        IncomingView::Event(event) => {
            let (reply, events) = reply_after(a.reply, event);
            StepView { agent: AgentView { reply, ..a }, events, action: ActionView::Next }
        },
        IncomingView::End => replied(a),
        IncomingView::Interrupted => replied(
            AgentView {
                reply: ReplyView {
                    stop_reason: StopReason::Aborted,
                    error: Some("interrupted by user"@),
                    ..a.reply
                },
                ..a
            },
        ),
    }
}

/// The run after a tool has given its result, which is kept.
pub open spec fn tool_finished(
    a: AgentView,
    outcome: crate::agent::call::OutcomeView,
) -> StepView {
    let call = a.pending[0];
    let b = AgentView {
        messages: a.messages.push(
            crate::agent::message::SessionView::ToolResult {
                tool_call_id: call.tool_call_id,
                name: call.name,
                content: outcome.content,
                is_error: outcome.is_error,
            },
        ),
        pending: a.pending.skip(1),
        results: (a.results + 1) as usize,
        ..a
    };
    let events = seq![
        EventView::ToolExecutionEnd { tool_call_id: call.tool_call_id, outcome },
    ];
    if b.pending.len() > 0 {
        tool_started(b, events)
    } else {
        match b.current {
            Some(message) => next_turn(
                b,
                events.push(EventView::TurnEnd { message, tool_results: b.results }),
            ),
            None => next_turn(b, events),
        }
    }
}

/// Whether the token counts of the reply fit those of the session.
pub open spec fn usage_fits(a: AgentView) -> bool {
    a.reply.usage matches Some(u) ==> a.cache_stats.has_room(u)
}

impl Step {
    /// Whether this step is what `expected` says.
    pub open spec fn is(self, expected: StepView) -> bool {
        self.events.deep_view() == expected.events && self.action.deep_view() == expected.action
    }
}

fn yes_no() -> (out: Vec<String>)
    ensures
        out.deep_view() == seq!["yes"@, "no"@],
{
    let mut out: Vec<String> = Vec::new();
    text::put(&mut out, "yes".to_owned());
    text::put(&mut out, "no".to_owned());
    assert(out.deep_view() =~= seq!["yes"@, "no"@]);
    out
}

impl Agent {
    /// An agent that has not spoken yet.
    pub fn new(options: AgentOptions) -> (r: Self)
        ensures
            r.deep_view() == fresh_agent(options.deep_view()),
    {
        let tool_specs = options.tool_specs();
        let r = Agent {
            options,
            tool_specs,
            messages: Vec::new(),
            cache_stats: CacheStats::default(),
            last_input_tokens: 0,
            turn: 0,
            reply: Reply::new(),
            pending: Vec::new(),
            results: 0,
            current: None,
        };
        assert(r.messages.deep_view() =~= seq![]);
        assert(r.pending.deep_view() =~= seq![]);
        r
    }

    fn request(&self) -> (r: ChatRequest)
        ensures
            r.deep_view() == turn_request(self.deep_view()),
    {
        ChatRequest {
            model: self.options.model.dup(),
            system: self.options.current_system_prompt(),
            messages: to_llm_messages(&self.messages),
            tools: self.tool_specs.dup(),
            temperature: None,
            variant: self.options.variant.dup(),
        }
    }

    fn finish(&mut self, events: Vec<AgentEvent>) -> (r: Step)
        ensures
            final(self).deep_view() == finished(old(self).deep_view(), events.deep_view()).agent,
            r.is(finished(old(self).deep_view(), events.deep_view())),
    {
        let mut events = events;
        let messages = self.messages.len();
        text::put(&mut events, AgentEvent::AgentEnd { messages, cache_stats: self.cache_stats });
        Step { events, action: Action::Finished }
    }

    fn begin_turn(&mut self, events: Vec<AgentEvent>) -> (r: Step)
        requires
            old(self).turn < usize::MAX,
        ensures
            final(self).deep_view() == begun(old(self).deep_view(), events.deep_view()).agent,
            r.is(begun(old(self).deep_view(), events.deep_view())),
    {
        let mut events = events;
        self.turn = self.turn + 1;
        text::put(&mut events, AgentEvent::TurnStart { turn: self.turn });
        Step { events, action: Action::Stream(self.request()) }
    }

    fn go_on(&mut self, events: Vec<AgentEvent>) -> (r: Step)
        ensures
            final(self).deep_view() == next_turn(old(self).deep_view(), events.deep_view()).agent,
            r.is(next_turn(old(self).deep_view(), events.deep_view())),
    {
        let mut events = events;
        if self.turn >= self.options.max_turns {
            let n = text::decimal(self.options.max_turns as u64);
            let message = text::concat3(
                "agent-m has been working on this problem for a while (",
                &n,
                " turns). It can continue to iterate, or you can send a new message to refine your prompt.",
            );
            text::put(&mut events, AgentEvent::Notice { message });
            if self.options.can_ask {
                Step {
                    events,
                    action: Action::Ask {
                        question: "Continue for more turns?".to_owned(),
                        options: yes_no(),
                    },
                }
            } else {
                self.finish(events)
            }
        } else {
            self.begin_turn(events)
        }
    }

    /// Begins a run with what the user says.
    pub fn prompt(&mut self, content: &str) -> (r: Step)
        ensures
            final(self).deep_view() == prompted(old(self).deep_view(), content@, seq![]).agent,
            r.is(prompted(old(self).deep_view(), content@, seq![])),
    {
        let images: Vec<String> = Vec::new();
        assert(images.deep_view() =~= seq![]);
        self.prompt_with_images(content, images)
    }

    /// Begins a run with what the user says, and images as data URIs.
    pub fn prompt_with_images(&mut self, content: &str, images: Vec<String>) -> (r: Step)
        ensures
            final(self).deep_view() == prompted(
                old(self).deep_view(),
                content@,
                images.deep_view(),
            ).agent,
            r.is(prompted(old(self).deep_view(), content@, images.deep_view())),
    {
        let ghost shown = images.deep_view();
        let message = SessionMessage::User { content: content.to_owned(), images };
        let mut events: Vec<AgentEvent> = Vec::new();
        text::put(&mut events, AgentEvent::AgentStart);
        text::put(&mut events, AgentEvent::MessageStart { kind: SessionMessageKind::User });
        text::put(&mut events, AgentEvent::MessageEnd { message: message.dup() });
        assert(events.deep_view() =~= seq![
            EventView::AgentStart,
            EventView::MessageStart { kind: SessionMessageKind::User },
            EventView::MessageEnd {
                message: crate::agent::message::SessionView::User {
                    content: content@,
                    images: shown,
                },
            },
        ]);
        text::put(&mut self.messages, message);
        self.turn = 0;
        self.go_on(events)
    }

    /// Takes the answer to the question whether to go on; `None` where nobody
    /// answered.
    pub fn continue_answered(&mut self, answer: Option<String>) -> (r: Step)
        requires
            old(self).options.max_turns + 20 <= usize::MAX,
            old(self).turn < usize::MAX,
        ensures
            final(self).deep_view() == answered(old(self).deep_view(), answer.deep_view()).agent,
            r.is(answered(old(self).deep_view(), answer.deep_view())),
    {
        let events: Vec<AgentEvent> = Vec::new();
        assert(events.deep_view() =~= seq![]);
        let yes = match &answer {
            Some(t) => text::eq_ignore_ascii_case(&text::trim(t), "yes"),
            None => false,
        };
        if yes {
            self.options.max_turns = self.options.max_turns + 20;
            self.begin_turn(events)
        } else {
            self.finish(events)
        }
    }

    /// Tells whether the request could be put to the model; if not, with the
    /// reason.
    pub fn stream_opened(&mut self, error: Option<String>) -> (r: Step)
        ensures
            final(self).deep_view() == opened(old(self).deep_view(), error.deep_view()).agent,
            r.is(opened(old(self).deep_view(), error.deep_view())),
    {
        let mut events: Vec<AgentEvent> = Vec::new();
        assert(events.deep_view() =~= seq![]);
        match &error {
            Some(e) => {
                text::put(
                    &mut events,
                    AgentEvent::Notice { message: text::concat("provider error: ", e) },
                );
                assert(events.deep_view() =~= seq![
                    EventView::Notice { message: "provider error: "@ + e@ },
                ]);
                self.finish(events)
            },
            None => {
                self.reply = Reply::new();
                text::put(
                    &mut events,
                    AgentEvent::MessageStart { kind: SessionMessageKind::Assistant },
                );
                assert(events.deep_view() =~= seq![
                    EventView::MessageStart { kind: SessionMessageKind::Assistant },
                ]);
                Step { events, action: Action::Next }
            },
        }
    }
}

fn parse_arguments(arguments: &str) -> (r: Json)
    ensures
        r.deep_view() == crate::ai::sse::call_arguments(arguments@),
{
    match json::parse(arguments) {
        Ok(j) => j,
        Err(_) => Json::text(arguments),
    }
}

impl Reply {
    fn take_call(&mut self, index: usize, id: &str, name: &str, arguments: &str) -> (r: AgentEvent)
        ensures
            ({
                let before = old(self).deep_view();
                let call = updated_call(before.tool_calls, index, id@, name@, arguments@);
                final(self).deep_view() == (ReplyView {
                    tool_calls: upserted(before.tool_calls, index, call),
                    ..before
                }) && r.deep_view() == (EventView::MessageUpdate {
                    delta: crate::ai::types::StreamView::ToolCallDelta {
                        index,
                        id: call.tool_call_id,
                        name: call.name,
                        arguments: json::json_text(call.arguments),
                    },
                })
            }),
    {
        let ghost before = self.tool_calls.deep_view();
        let slot = indexed::find_slot(&self.tool_calls, index);
        let n = self.tool_calls.len();
        let parsed = parse_arguments(arguments);
        let known = slot < n && self.tool_calls[slot].0 == index;
        assert(slot < n ==> before[slot as int] == self.tool_calls@[slot as int].deep_view());
        let call = if known {
            let existing = &self.tool_calls[slot].1;
            ToolCallInfo {
                tool_call_id: if text::count(id) > 0 {
                    id.to_owned()
                } else {
                    existing.tool_call_id.clone()
                },
                name: if text::count(name) > 0 {
                    name.to_owned()
                } else {
                    existing.name.clone()
                },
                arguments: parsed,
            }
        } else {
            ToolCallInfo { tool_call_id: id.to_owned(), name: name.to_owned(), arguments: parsed }
        };
        let event = AgentEvent::MessageUpdate {
            delta: StreamEvent::ToolCallDelta {
                index,
                id: call.tool_call_id.clone(),
                name: call.name.clone(),
                arguments: json::render(&call.arguments),
            },
        };
        let ghost view = call.deep_view();
        assert(view == updated_call(before, index, id@, name@, arguments@));
        if known {
            self.tool_calls.set(slot, (index, call));
            assert(self.tool_calls.deep_view() =~= before.update(slot as int, (index, view)));
        } else {
            self.tool_calls.insert(slot, (index, call));
            assert(self.tool_calls.deep_view() =~= before.insert(slot as int, (index, view)));
        }
        event
    }

    /// Takes an event of the stream, and gives what is published of it.
    pub fn take(&mut self, event: StreamEvent) -> (events: Vec<AgentEvent>)
        ensures
            final(self).deep_view() == reply_after(old(self).deep_view(), event.deep_view()).0,
            events.deep_view() == reply_after(old(self).deep_view(), event.deep_view()).1,
    {
        let ghost shown = event.deep_view();
        let ghost expected = reply_after(self.deep_view(), shown).1;
        let mut events: Vec<AgentEvent> = Vec::new();
        assert(events.deep_view() =~= seq![]);
        match event {
            StreamEvent::Start => {},
            StreamEvent::TextDelta { delta } => {
                self.text.append(&delta);
                text::put(
                    &mut events,
                    AgentEvent::MessageUpdate { delta: StreamEvent::TextDelta { delta } },
                );
            },
            StreamEvent::ThinkingDelta { delta } => {
                self.thinking.append(&delta);
                text::put(
                    &mut events,
                    AgentEvent::MessageUpdate { delta: StreamEvent::ThinkingDelta { delta } },
                );
            },
            StreamEvent::ToolCallDelta { index, id, name, arguments } => {
                let update = self.take_call(index, &id, &name, &arguments);
                text::put(&mut events, update);
            },
            StreamEvent::Error { message } => {
                self.error = Some(message);
                self.stop_reason = StopReason::Error;
            },
            StreamEvent::Done { message } => {
                self.usage = message.usage;
                self.stop_reason = message.stop_reason;
                if let Some(e) = message.error_message {
                    self.error = Some(e);
                    self.stop_reason = StopReason::Error;
                }
            },
        }
        assert(events.deep_view() =~= expected);
        events
    }

    fn calls(&self) -> (out: Vec<ToolCallInfo>)
        ensures
            out.deep_view() == reply_calls(self.deep_view()),
    {
        let ghost view = self.tool_calls.deep_view();
        let mut out: Vec<ToolCallInfo> = Vec::new();
        assert(out.deep_view() =~= seq![]);
        let mut i: usize = 0;
        while i < self.tool_calls.len()
            invariant
                i <= self.tool_calls.len(),
                view == self.tool_calls.deep_view(),
                out.deep_view() == view.take(i as int).map_values(
                    |c: (usize, crate::agent::call::CallInfoView)| c.1,
                ),
            decreases self.tool_calls.len() - i,
        {
            text::put(&mut out, self.tool_calls[i].1.dup());
            assert(view[i as int] == self.tool_calls@[i as int].deep_view());
            assert(out.deep_view() =~= view.take(i + 1).map_values(
                |c: (usize, crate::agent::call::CallInfoView)| c.1,
            ));
            i += 1;
        }
        assert(view.take(view.len() as int) =~= view);
        out
    }

    fn message(&self, model: &str) -> (r: SessionMessage)
        ensures
            r.deep_view() == reply_message(self.deep_view(), model@),
    {
        let mut parts: Vec<ContentPart> = Vec::new();
        assert(parts.deep_view() =~= seq![]);
        if text::count(&self.text) > 0 {
            text::put(&mut parts, ContentPart::Text { text: self.text.clone() });
        }
        if text::count(&self.thinking) > 0 {
            text::put(&mut parts, ContentPart::Thinking { thinking: self.thinking.clone() });
        }
        let ghost head = parts.deep_view();
        let calls = self.calls();
        let ghost view = calls.deep_view();
        let mut i: usize = 0;
        while i < calls.len()
            invariant
                i <= calls.len(),
                view == calls.deep_view(),
                parts.deep_view() == head + view.take(i as int).map_values(
                    |c: crate::agent::call::CallInfoView| part_of_call(c),
                ),
            decreases calls.len() - i,
        {
            let call = &calls[i];
            assert(view[i as int] == call.deep_view());
            text::put(
                &mut parts,
                ContentPart::ToolCall {
                    id: call.tool_call_id.clone(),
                    name: call.name.clone(),
                    arguments: call.arguments.dup(),
                },
            );
            assert(parts.deep_view() =~= head + view.take(i + 1).map_values(
                |c: crate::agent::call::CallInfoView| part_of_call(c),
            ));
            i += 1;
        }
        assert(view.take(view.len() as int) =~= view);
        assert(parts.deep_view() =~= reply_parts(self.deep_view()));
        let (found, content) = extract_trust(parts);
        SessionMessage::Assistant {
            content,
            usage: self.usage,
            stop_reason: self.stop_reason,
            model: model.to_owned(),
            trust: found,
        }
    }
}

impl Agent {
    fn start_tool(&mut self, events: Vec<AgentEvent>) -> (r: Step)
        requires
            old(self).pending@.len() > 0,
        ensures
            final(self).deep_view() == tool_started(
                old(self).deep_view(),
                events.deep_view(),
            ).agent,
            r.is(tool_started(old(self).deep_view(), events.deep_view())),
    {
        let mut events = events;
        let call = self.pending[0].dup();
        assert(self.deep_view().pending[0] == call.deep_view());
        text::put(
            &mut events,
            AgentEvent::ToolExecutionStart {
                tool_call_id: call.tool_call_id.clone(),
                name: call.name.clone(),
                arguments: call.arguments.dup(),
            },
        );
        Step { events, action: Action::RunTool(call) }
    }

    fn count_usage(&mut self)
        requires
            usage_fits(old(self).deep_view()),
        ensures
            final(self).deep_view() == counted(old(self).deep_view()),
    {
        if let Some(usage) = self.reply.usage {
            self.cache_stats.record(&usage);
            self.last_input_tokens = usage.input_tokens;
        }
    }

    fn end_reply(&mut self) -> (r: Step)
        requires
            usage_fits(old(self).deep_view()),
        ensures
            final(self).deep_view() == replied(old(self).deep_view()).agent,
            r.is(replied(old(self).deep_view())),
    {
        let message = self.reply.message(&self.options.model);
        let ghost shown = message.deep_view();
        self.count_usage();
        let mut events: Vec<AgentEvent> = Vec::new();
        text::put(&mut events, AgentEvent::MessageEnd { message: message.dup() });
        assert(events.deep_view() =~= seq![EventView::MessageEnd { message: shown }]);
        if self.reply.stop_reason == StopReason::Aborted {
            text::put(&mut events, AgentEvent::TurnEnd { message, tool_results: 0 });
            return self.finish(events);
        }
        text::put(&mut self.messages, message.dup());
        if let Some(e) = &self.reply.error {
            text::put(&mut events, AgentEvent::Notice { message: text::concat("model error: ", e) });
        }
        let calls = self.reply.calls();
        assert(calls.deep_view().len() == calls@.len());
        if calls.len() > 0 {
            self.pending = calls;
            self.results = 0;
            self.current = Some(message);
            self.start_tool(events)
        } else {
            text::put(&mut events, AgentEvent::TurnEnd { message, tool_results: 0 });
            self.finish(events)
        }
    }

    /// Whether the token counts of the reply fit those of the session.
    pub fn can_end_reply(&self) -> (r: bool)
        ensures
            r == usage_fits(self.deep_view()),
    {
        match &self.reply.usage {
            Some(u) => self.cache_stats.can_record(u),
            None => true,
        }
    }

    /// Takes what came from the stream of the reply.
    pub fn stream_event(&mut self, incoming: Incoming) -> (r: Step)
        requires
            incoming is Event || usage_fits(old(self).deep_view()),
        ensures
            final(self).deep_view() == streamed(old(self).deep_view(), incoming.deep_view()).agent,
            r.is(streamed(old(self).deep_view(), incoming.deep_view())),
    {
        match incoming {
            Incoming::Event(event) => {
                let events = self.reply.take(event);
                Step { events, action: Action::Next }
            },
            Incoming::End => self.end_reply(),
            Incoming::Interrupted => {
                self.reply.stop_reason = StopReason::Aborted;
                self.reply.error = Some("interrupted by user".to_owned());
                self.end_reply()
            },
        }
    }

    /// Takes the result of the tool that was run.
    pub fn tool_result(&mut self, outcome: ToolOutcome) -> (r: Step)
        requires
            old(self).pending@.len() > 0,
            old(self).current is Some,
            old(self).results < usize::MAX,
        ensures
            final(self).deep_view() == tool_finished(
                old(self).deep_view(),
                outcome.deep_view(),
            ).agent,
            r.is(tool_finished(old(self).deep_view(), outcome.deep_view())),
    {
        let ghost before = self.pending.deep_view();
        let ghost shown = outcome.deep_view();
        let call = self.pending.remove(0);
        assert(before[0] == call.deep_view());
        assert(self.pending.deep_view() =~= before.skip(1));
        let mut events: Vec<AgentEvent> = Vec::new();
        text::put(
            &mut events,
            AgentEvent::ToolExecutionEnd {
                tool_call_id: call.tool_call_id.clone(),
                outcome: outcome.dup(),
            },
        );
        assert(events.deep_view() =~= seq![
            EventView::ToolExecutionEnd { tool_call_id: call.tool_call_id@, outcome: shown },
        ]);
        text::put(
            &mut self.messages,
            SessionMessage::ToolResult {
                tool_call_id: call.tool_call_id,
                name: call.name,
                content: outcome.content,
                is_error: outcome.is_error,
            },
        );
        self.results = self.results + 1;
        if self.pending.len() > 0 {
            return self.start_tool(events);
        }
        if let Some(message) = &self.current {
            text::put(
                &mut events,
                AgentEvent::TurnEnd { message: message.dup(), tool_results: self.results },
            );
        }
        self.go_on(events)
    }
}

/// An agent that has not spoken yet.
pub open spec fn fresh_agent(options: OptionsView) -> AgentView {
    AgentView {
        options,
        tool_specs: specs_view(options),
        messages: seq![],
        cache_stats: CacheStats { hit_tokens: 0, miss_tokens: 0, requests: 0 },
        last_input_tokens: 0,
        turn: 0,
        reply: ReplyView::fresh(),
        pending: seq![],
        results: 0,
        current: None,
    }
}

// ---------------------------------------------------------------- tool runs
/// What is done with a tool call once it was judged.
pub enum ToolVerdict {
    /// The tool is not run; this is its result.
    Outcome(ToolOutcome),
    /// A sub-agent takes the call.
    Delegate,
    /// The tool of this position is run.
    Execute(usize),
}

/// What a `ToolVerdict` stands for.
pub ghost enum VerdictView {
    Outcome(crate::agent::call::OutcomeView),
    Delegate,
    Execute(int),
}

impl DeepView for ToolVerdict {
    type V = VerdictView;

    open spec fn deep_view(&self) -> VerdictView {
        match self {
            ToolVerdict::Outcome(o) => VerdictView::Outcome(o.deep_view()),
            ToolVerdict::Delegate => VerdictView::Delegate,
            ToolVerdict::Execute(i) => VerdictView::Execute(*i as int),
        }
    }
}

/// The position of the first tool of this name, from `from` on.
pub open spec fn tool_from(
    tools: Seq<crate::ai::types::ToolView>,
    name: Seq<char>,
    from: int,
) -> Option<int>
    decreases tools.len() - from,
{
    if from < 0 || from >= tools.len() {
        None
    } else if tools[from].name == name {
        Some(from)
    } else {
        tool_from(tools, name, from + 1)
    }
}

/// A result that is an error.
pub open spec fn error_outcome(content: Seq<char>) -> VerdictView {
    VerdictView::Outcome(crate::agent::call::OutcomeView { content, is_error: true })
}

/// What is done with a call: a denied one fails, `delegate` goes to a sub-agent,
/// and in plan mode only the tools of that mode are run.
pub open spec fn call_verdict(
    options: OptionsView,
    name: Seq<char>,
    denied: Option<Seq<char>>,
) -> VerdictView {
    match denied {
        Some(reason) => error_outcome(
            "Permission denied for tool `"@ + name + "`: "@ + reason,
        ),
        None => if name == "delegate"@ {
            VerdictView::Delegate
        } else {
            match tool_from(options.tools, name, 0) {
                Some(i) => if options.mode == Mode::Plan && !is_plan_tool(name) {
                    error_outcome("`"@ + name + "` is not available in plan mode"@)
                } else {
                    VerdictView::Execute(i)
                },
                None => error_outcome("Unknown tool `"@ + name + "`"@),
            }
        },
    }
}

/// What is done with a call, given why it was denied, if it was.
pub fn judge_call(options: &AgentOptions, name: &str, denied: Option<&str>) -> (r: ToolVerdict)
    ensures
        r.deep_view() == call_verdict(
            options.deep_view(),
            name@,
            match denied {
                Some(d) => Some(d@),
                None => None,
            },
        ),
{
    if let Some(reason) = denied {
        return ToolVerdict::Outcome(
            ToolOutcome::error(
                &text::concat4("Permission denied for tool `", name, "`: ", reason),
            ),
        );
    }
    if text::same(name, "delegate") {
        return ToolVerdict::Delegate;
    }
    let ghost view = options.tools.deep_view();
    let mut i: usize = 0;
    while i < options.tools.len()
        invariant
            i <= options.tools.len(),
            view == options.tools.deep_view(),
            denied is None,
            name@ != "delegate"@,
            tool_from(view, name@, 0) == tool_from(view, name@, i as int),
        decreases options.tools.len() - i,
    {
        assert(view[i as int] == options.tools@[i as int].deep_view());
        if text::same(&options.tools[i].name, name) {
            if options.mode == Mode::Plan && !allowed_in_plan(name) {
                return ToolVerdict::Outcome(
                    ToolOutcome::error(&text::concat3("`", name, "` is not available in plan mode")),
                );
            }
            return ToolVerdict::Execute(i);
        }
        i += 1;
    }
    ToolVerdict::Outcome(ToolOutcome::error(&text::concat3("Unknown tool `", name, "`")))
}

/// In plan mode a tool that is run is one of that mode.
pub proof fn law_plan_mode_runs_no_other_tools(
    options: OptionsView,
    name: Seq<char>,
    denied: Option<Seq<char>>,
)
    requires
        options.mode == Mode::Plan,
    ensures
        call_verdict(options, name, denied) is Execute ==> is_plan_tool(name),
{
}

/// A denied call is never run.
pub proof fn law_denied_calls_do_not_run(
    options: OptionsView,
    name: Seq<char>,
    reason: Seq<char>,
)
    ensures
        call_verdict(options, name, Some(reason)) matches VerdictView::Outcome(o) && o.is_error,
{
}

// --------------------------------------------------------------- delegation
/// The names among the items.
pub open spec fn names_tool(names: Seq<json::JsonView>, name: Seq<char>) -> bool {
    exists|i: int| 0 <= i < names.len() && #[trigger] names[i] == json::JsonView::Str(name)
}

/// The tools of a sub-agent: those that are named, or all, and never `delegate`.
pub open spec fn delegated_tools(
    tools: Seq<crate::ai::types::ToolView>,
    names: Option<Seq<json::JsonView>>,
) -> Seq<crate::ai::types::ToolView>
    decreases tools.len(),
{
    if tools.len() == 0 {
        seq![]
    } else {
        let before = delegated_tools(tools.drop_last(), names);
        let name = tools.last().name;
        if name != "delegate"@ && (names matches Some(list) ==> names_tool(list, name)) {
            before.push(tools.last())
        } else {
            before
        }
    }
}

/// How many turns a sub-agent gets: what is asked for, from 1 to 16, or 4.
pub open spec fn delegated_turns(arguments: json::JsonView) -> usize {
    match arguments.field("max_turns"@) {
        Some(v) => match v.unsigned() {
            Some(n) => if n < 1 {
                1
            } else if n > 16 {
                16
            } else {
                n as usize
            },
            None => 4,
        },
        None => 4,
    }
}

/// The names that the arguments list, where they list any.
pub open spec fn listed_names(arguments: json::JsonView) -> Option<Seq<json::JsonView>> {
    match arguments.field("tools"@) {
        Some(v) => v.items(),
        None => None,
    }
}

/// What a sub-agent is given.
pub struct Delegation {
    pub prompt: String,
    pub options: AgentOptions,
}

/// What a sub-agent is given for a call, or the result of a call that lacks its
/// prompt.
pub fn plan_delegate(options: &AgentOptions, arguments: &Json) -> (r: Result<
    Delegation,
    ToolOutcome,
>)
    ensures
        match arguments.deep_view().text_field("prompt"@) {
            Some(prompt) => r matches Ok(d) && d.prompt@ == prompt && d.options.deep_view() == (
            OptionsView {
                tools: delegated_tools(
                    options.deep_view().tools,
                    listed_names(arguments.deep_view()),
                ),
                max_turns: delegated_turns(arguments.deep_view()),
                ..options.deep_view()
            }),
            None => r matches Err(o) && o.deep_view() == (crate::agent::call::OutcomeView {
                content: "delegate: missing `prompt` argument"@,
                is_error: true,
            }),
        },
{
    let prompt = match arguments.get_str("prompt") {
        Some(p) => p.to_owned(),
        None => return Err(ToolOutcome::error("delegate: missing `prompt` argument")),
    };
    let max_turns: usize = match arguments.get("max_turns") {
        Some(v) => match v.as_u64() {
            Some(n) => {
                if n < 1 {
                    1
                } else if n > 16 {
                    16
                } else {
                    n as usize
                }
            },
            None => 4,
        },
        None => 4,
    };
    let names = match arguments.get("tools") {
        Some(v) => v.as_array(),
        None => None,
    };
    let ghost listed = listed_names(arguments.deep_view());
    let ghost view = options.tools.deep_view();
    let mut tools: Vec<ToolSpec> = Vec::new();
    assert(tools.deep_view() =~= seq![]);
    assert(view.take(0) =~= seq![]);
    let mut i: usize = 0;
    while i < options.tools.len()
        invariant
            i <= options.tools.len(),
            view == options.tools.deep_view(),
            names is Some == listed is Some,
            names matches Some(list) ==> listed == Some(list.deep_view()),
            tools.deep_view() == delegated_tools(view.take(i as int), listed),
        decreases options.tools.len() - i,
    {
        assert(view.take(i + 1).drop_last() =~= view.take(i as int));
        let tool = &options.tools[i];
        let wanted = match names {
            Some(list) => lists_name(list, &tool.name),
            None => true,
        };
        if !text::same(&tool.name, "delegate") && wanted {
            text::put(&mut tools, tool.dup());
        }
        i += 1;
    }
    assert(view.take(view.len() as int) =~= view);
    let mut sub = options.dup();
    sub.tools = tools;
    sub.max_turns = max_turns;
    Ok(Delegation { prompt, options: sub })
}

fn lists_name(names: &Vec<Json>, name: &str) -> (r: bool)
    ensures
        r == names_tool(names.deep_view(), name@),
{
    let ghost view = names.deep_view();
    let mut i: usize = 0;
    while i < names.len()
        invariant
            i <= names.len(),
            view == names.deep_view(),
            forall|k: int| 0 <= k < i ==> #[trigger] view[k] != json::JsonView::Str(name@),
        decreases names.len() - i,
    {
        assert(view[i as int] == names@[i as int].deep_view());
        if let Some(s) = names[i].as_str() {
            if text::same(s, name) {
                return true;
            }
        }
        i += 1;
    }
    false
}

/// The texts of the parts, each with a line feed.
pub open spec fn text_lines(parts: Seq<crate::ai::types::ContentView>) -> Seq<char>
    decreases parts.len(),
{
    if parts.len() == 0 {
        seq![]
    } else {
        let before = text_lines(parts.drop_last());
        match parts.last() {
            crate::ai::types::ContentView::Text { text } => before + text + "\n"@,
            _ => before,
        }
    }
}

/// What the model said last in these messages: the texts of the last of its messages
/// that has any.
pub open spec fn last_said(messages: Seq<crate::agent::message::SessionView>) -> Seq<char>
    decreases messages.len(),
{
    if messages.len() == 0 {
        seq![]
    } else {
        let before = last_said(messages.drop_last());
        match messages.last() {
            crate::agent::message::SessionView::Assistant { content, .. } => {
                let answer = text::spec_trim(text_lines(content));
                if answer.len() > 0 {
                    answer
                } else {
                    before
                }
            },
            _ => before,
        }
    }
}

/// The result of a call that a sub-agent took: what it said last, which is an error
/// where it said nothing.
pub open spec fn delegate_view(
    messages: Seq<crate::agent::message::SessionView>,
) -> crate::agent::call::OutcomeView {
    let answer = last_said(messages);
    if answer.len() == 0 {
        crate::agent::call::OutcomeView {
            content: "delegate: sub-agent produced no answer"@,
            is_error: true,
        }
    } else {
        crate::agent::call::OutcomeView { content: answer, is_error: false }
    }
}

fn append_texts(out: &mut String, parts: &[ContentPart])
    ensures
        final(out)@ == old(out)@ + text_lines(parts.deep_view()),
{
    let ghost first = out@;
    let ghost view = parts.deep_view();
    let mut i: usize = 0;
    assert(view.take(0) =~= seq![]);
    while i < parts.len()
        invariant
            i <= parts.len(),
            view == parts.deep_view(),
            out@ == first + text_lines(view.take(i as int)),
        decreases parts.len() - i,
    {
        assert(view.take(i + 1).drop_last() =~= view.take(i as int));
        if let ContentPart::Text { text } = &parts[i] {
            out.append(text);
            out.append("\n");
        }
        i += 1;
    }
    assert(view.take(view.len() as int) =~= view);
}

/// The result of a call that a sub-agent took, given its messages.
pub fn delegate_answer(messages: &[SessionMessage]) -> (r: ToolOutcome)
    ensures
        r.deep_view() == delegate_view(messages.deep_view()),
{
    let ghost view = messages.deep_view();
    let mut i: usize = messages.len();
    assert(view.take(view.len() as int) =~= view);
    while i > 0
        invariant
            i <= messages.len(),
            view == messages.deep_view(),
            last_said(view) == last_said(view.take(i as int)),
        decreases i,
    {
        i -= 1;
        assert(view.take(i + 1).drop_last() =~= view.take(i as int));
        assert(view[i as int] == messages@[i as int].deep_view());
        if let SessionMessage::Assistant { content, .. } = &messages[i] {
            let mut said = String::new();
            append_texts(&mut said, content);
            assert(said@ =~= text_lines(content.deep_view()));
            let answer = text::trim(&said);
            if text::count(&answer) > 0 {
                return ToolOutcome { content: answer, is_error: false };
            }
        }
    }
    assert(view.take(0) =~= seq![]);
    ToolOutcome::error("delegate: sub-agent produced no answer")
}

/// A sub-agent cannot delegate in turn.
pub proof fn law_sub_agents_do_not_delegate(
    tools: Seq<crate::ai::types::ToolView>,
    names: Option<Seq<json::JsonView>>,
    i: int,
)
    requires
        0 <= i < delegated_tools(tools, names).len(),
    ensures
        delegated_tools(tools, names)[i].name != "delegate"@,
    decreases tools.len(),
{
    if tools.len() > 0 {
        let before = delegated_tools(tools.drop_last(), names);
        if i < before.len() {
            law_sub_agents_do_not_delegate(tools.drop_last(), names, i);
        }
    }
}

// --------------------------------------------------------------- compaction
/// From `from` on, the first message that is not a tool result, or the end.
pub open spec fn past_results(
    messages: Seq<crate::agent::message::SessionView>,
    from: int,
) -> int
    decreases messages.len() - from,
{
    if 0 <= from < messages.len() && messages[from] is ToolResult {
        past_results(messages, from + 1)
    } else {
        from
    }
}

/// How many messages are summarized when `keep` are to stay: a tool result does
/// not stay without the call before it.
pub open spec fn split_of(
    messages: Seq<crate::agent::message::SessionView>,
    keep: nat,
) -> int {
    let kept = if keep < 1 {
        1
    } else {
        keep as int
    };
    let start = if messages.len() >= kept {
        messages.len() - kept
    } else {
        0
    };
    past_results(messages, start)
}

/// What is put to the model for a summary, attempt by attempt: all older
/// messages; these with their tool results cut; three tenths from either end of
/// them, cut too.
pub open spec fn attempt_messages(
    older: Seq<crate::agent::message::SessionView>,
    attempt: nat,
) -> Seq<crate::agent::message::SessionView> {
    if attempt == 0 {
        older
    } else {
        let n = (older.len() * 3 / 10) as int;
        let taken = if attempt == 1 {
            older
        } else {
            older.take(n) + older.skip(older.len() - n)
        };
        taken.map_values(|m: crate::agent::message::SessionView| clamped(m, 5_000))
    }
}

/// The request for a summary of these messages.
pub open spec fn summary_request(
    options: OptionsView,
    messages: Seq<crate::agent::message::SessionView>,
) -> crate::ai::types::RequestView {
    crate::ai::types::RequestView {
        model: options.model,
        system: SUMMARY_SYSTEM@,
        messages: crate::agent::message::to_llm_all(messages).push(
            crate::ai::types::MessageView::User { content: SUMMARY_PROMPT@, images: seq![] },
        ),
        tools: seq![],
        temperature: None,
        variant: options.variant,
    }
}

/// The agent after older messages were summarized, or could not be. Without a
/// summary nothing changes.
pub open spec fn compacted(
    a: AgentView,
    split: int,
    summary: Option<Seq<char>>,
) -> (AgentView, Seq<EventView>) {
    match summary {
        Some(t) => if text::spec_trim(t).len() > 0 {
            (
                AgentView {
                    messages: seq![crate::agent::message::SessionView::Summary { text: t }]
                        + a.messages.skip(split),
                    ..a
                },
                seq![EventView::Compacted { summary: t, messages_removed: split as usize }],
            )
        } else {
            (a, seq![])
        },
        None => (a, seq![]),
    }
}

proof fn lemma_past_results(messages: Seq<crate::agent::message::SessionView>, from: int)
    requires
        0 <= from <= messages.len(),
    ensures
        from <= past_results(messages, from) <= messages.len(),
        past_results(messages, from) < messages.len() ==> !(messages[past_results(
            messages,
            from,
        )] is ToolResult),
    decreases messages.len() - from,
{
    if from < messages.len() && messages[from] is ToolResult {
        lemma_past_results(messages, from + 1);
    }
}

impl Agent {
    /// How many of the messages are summarized when `keep_messages` are to
    /// stay; less than two are not worth it.
    pub fn compaction_split(&self, keep_messages: usize) -> (r: Option<usize>)
        ensures
            ({
                let split = split_of(self.deep_view().messages, keep_messages as nat);
                if split < 2 {
                    r is None
                } else {
                    r == Some(split as usize) && split <= self.messages@.len()
                }
            }),
    {
        let ghost view = self.messages.deep_view();
        let keep: usize = if keep_messages < 1 {
            1
        } else {
            keep_messages
        };
        let start: usize = if self.messages.len() >= keep {
            self.messages.len() - keep
        } else {
            0
        };
        let mut split: usize = start;
        proof {
            lemma_past_results(view, start as int);
        }
        loop
            invariant_except_break
                start <= split <= self.messages@.len(),
                view == self.messages.deep_view(),
                past_results(view, start as int) == past_results(view, split as int),
            ensures
                split == past_results(view, start as int),
            decreases self.messages@.len() - split,
        {
            if split >= self.messages.len() {
                break;
            }
            assert(view[split as int] == self.messages@[split as int].deep_view());
            match &self.messages[split] {
                SessionMessage::ToolResult { .. } => {},
                _ => break,
            }
            split += 1;
        }
        if split < 2 {
            None
        } else {
            Some(split)
        }
    }

    /// The request for a summary of the first `split` messages, at this
    /// attempt.
    pub fn summary_attempt(&self, split: usize, attempt: usize) -> (r: ChatRequest)
        requires
            split <= self.messages@.len(),
            split * 3 <= usize::MAX,
        ensures
            r.deep_view() == summary_request(
                self.deep_view().options,
                attempt_messages(self.deep_view().messages.take(split as int), attempt as nat),
            ),
    {
        let older = vstd::slice::slice_subrange(self.messages.as_slice(), 0, split);
        let ghost view = self.messages.deep_view().take(split as int);
        assert(older.deep_view() =~= view);
        let mut taken: Vec<SessionMessage> = Vec::new();
        assert(taken.deep_view() =~= seq![]);
        if attempt <= 1 {
            extend_dup(&mut taken, older);
            assert(taken.deep_view() =~= view);
        } else {
            let n: usize = split * 3 / 10;
            let head = vstd::slice::slice_subrange(older, 0, n);
            let tail = vstd::slice::slice_subrange(older, split - n, split);
            assert(head.deep_view() =~= view.take(n as int));
            assert(tail.deep_view() =~= view.skip(split - n));
            extend_dup(&mut taken, head);
            extend_dup(&mut taken, tail);
            assert(taken.deep_view() =~= view.take(n as int) + view.skip(split - n));
        }
        if attempt >= 1 {
            clamp_tool_results(&mut taken, 5_000);
            assert(taken.deep_view() =~= attempt_messages(view, attempt as nat));
        }
        let mut messages = to_llm_messages(&taken);
        let images: Vec<String> = Vec::new();
        assert(images.deep_view() =~= seq![]);
        text::put(&mut messages, LlmMessage::User { content: SUMMARY_PROMPT.to_owned(), images });
        let tools: Vec<ToolSpec> = Vec::new();
        assert(tools.deep_view() =~= seq![]);
        ChatRequest {
            model: self.options.model.dup(),
            system: SUMMARY_SYSTEM.to_owned(),
            messages,
            tools,
            temperature: None,
            variant: self.options.variant.dup(),
        }
    }

    /// Replaces the first `split` messages by their summary, where there is
    /// one that is not blank; `None` where every attempt failed.
    pub fn finish_compaction(&mut self, split: usize, summary: Option<String>) -> (events: Vec<
        AgentEvent,
    >)
        requires
            split <= old(self).messages@.len(),
        ensures
            final(self).deep_view() == compacted(
                old(self).deep_view(),
                split as int,
                summary.deep_view(),
            ).0,
            events.deep_view() == compacted(
                old(self).deep_view(),
                split as int,
                summary.deep_view(),
            ).1,
    {
        let mut events: Vec<AgentEvent> = Vec::new();
        assert(events.deep_view() =~= seq![]);
        if let Some(t) = summary {
            if text::count(&text::trim(&t)) > 0 {
                let ghost shown = t@;
                let ghost view = self.messages.deep_view();
                let rest = vstd::slice::slice_subrange(
                    self.messages.as_slice(),
                    split,
                    self.messages.len(),
                );
                assert(rest.deep_view() =~= view.skip(split as int));
                let mut messages: Vec<SessionMessage> = Vec::new();
                text::put(&mut messages, SessionMessage::Summary { text: t.clone() });
                assert(messages.deep_view() =~= seq![
                    crate::agent::message::SessionView::Summary { text: shown },
                ]);
                extend_dup(&mut messages, rest);
                self.messages = messages;
                text::put(
                    &mut events,
                    AgentEvent::Compacted { summary: t, messages_removed: split },
                );
                assert(events.deep_view() =~= seq![
                    EventView::Compacted { summary: shown, messages_removed: split },
                ]);
            }
        }
        events
    }

    // -------------------------------------------------------------- settings
    /// Switches the mode, and with it the tools that the model is told of.
    pub fn set_mode(&mut self, mode: Mode)
        ensures
            final(self).deep_view() == mode_set(old(self).deep_view(), mode),
    {
        self.options.mode = mode;
        self.tool_specs = self.options.tool_specs();
    }

    /// The mode.
    pub fn mode(&self) -> (r: Mode)
        ensures
            r == self.deep_view().options.mode,
    {
        self.options.mode
    }

    /// Uses another model from the next turn on.
    pub fn set_model(&mut self, model: &str)
        ensures
            final(self).deep_view() == (AgentView {
                options: OptionsView { model: model@, ..old(self).deep_view().options },
                ..old(self).deep_view()
            }),
    {
        self.options.model = model.to_owned();
    }

    /// Uses another reasoning effort from the next turn on.
    pub fn set_variant(&mut self, variant: Option<String>)
        ensures
            final(self).deep_view() == (AgentView {
                options: OptionsView {
                    variant: variant.deep_view(),
                    ..old(self).deep_view().options
                },
                ..old(self).deep_view()
            }),
    {
        self.options.variant = variant;
    }

    /// Puts what was learned into the prompt; a blank block takes it out.
    pub fn set_harness_block(&mut self, block: String)
        ensures
            final(self).deep_view() == (AgentView {
                options: OptionsView {
                    harness_block: if text::spec_trim(block@).len() == 0 {
                        None
                    } else {
                        Some(block@)
                    },
                    ..old(self).deep_view().options
                },
                ..old(self).deep_view()
            }),
    {
        self.options.harness_block = if text::count(&text::trim(&block)) == 0 {
            None
        } else {
            Some(block)
        };
    }

    /// The reasoning effort.
    pub fn variant(&self) -> (r: Option<String>)
        ensures
            r.deep_view() == self.deep_view().options.variant,
    {
        self.options.variant.dup()
    }

    /// The model.
    pub fn model(&self) -> (r: &str)
        ensures
            r@ == self.deep_view().options.model,
    {
        self.options.model.as_str()
    }

    /// The options.
    pub fn options(&self) -> (r: &AgentOptions)
        ensures
            r.deep_view() == self.deep_view().options,
    {
        &self.options
    }

    /// The options, to be changed. The tools that the model is told of stay as they
    /// are.
    pub fn options_mut(&mut self) -> (r: &mut AgentOptions)
        ensures
            *r == old(self).options,
            *final(self) == (Agent { options: *final(r), ..*old(self) }),
    {
        &mut self.options
    }

    /// The messages.
    pub fn messages(&self) -> (r: &[SessionMessage])
        ensures
            r.deep_view() == self.deep_view().messages,
    {
        let r = self.messages.as_slice();
        assert(r.deep_view() =~= self.messages.deep_view());
        r
    }

    /// Appends the messages of an earlier session.
    pub fn restore_messages(&mut self, messages: Vec<SessionMessage>)
        ensures
            final(self).deep_view() == (AgentView {
                messages: old(self).deep_view().messages + messages.deep_view(),
                ..old(self).deep_view()
            }),
    {
        extend_dup(&mut self.messages, &messages);
    }

    /// The token counts of the session.
    pub fn cache_stats(&self) -> (r: CacheStats)
        ensures
            r == self.deep_view().cache_stats,
    {
        self.cache_stats
    }

    /// The prompt tokens of the last turn, and the context window.
    pub fn context_usage(&self) -> (r: (u64, Option<u64>))
        ensures
            r == (self.deep_view().last_input_tokens, self.deep_view().options.context_window),
    {
        (self.last_input_tokens, self.options.context_window)
    }
}

/// The agent in another mode.
pub open spec fn mode_set(a: AgentView, mode: Mode) -> AgentView {
    let options = OptionsView { mode, ..a.options };
    AgentView { options, tool_specs: specs_view(options), ..a }
}

// --------------------------------------------------------------------- laws
/// The conversation only grows: what was said stays where it was, whatever
/// comes of a step.
pub proof fn law_messages_are_append_only(
    a: AgentView,
    content: Seq<char>,
    images: Seq<Seq<char>>,
    answer: Option<Seq<char>>,
    error: Option<Seq<char>>,
    incoming: IncomingView,
    outcome: crate::agent::call::OutcomeView,
)
    ensures
        a.messages.is_prefix_of(prompted(a, content, images).agent.messages),
        answered(a, answer).agent.messages == a.messages,
        opened(a, error).agent.messages == a.messages,
        a.messages.is_prefix_of(streamed(a, incoming).agent.messages),
        a.messages.is_prefix_of(tool_finished(a, outcome).agent.messages),
{
    assert forall|m: crate::agent::message::SessionView| #[trigger]
        a.messages.is_prefix_of(a.messages.push(m)) by {
        assert(a.messages =~= a.messages.push(m).subrange(0, a.messages.len() as int));
    }
    assert(a.messages =~= a.messages.subrange(0, a.messages.len() as int));
    assert(prompted(a, content, images).agent.messages == a.messages.push(
        crate::agent::message::SessionView::User { content, images },
    ));
}

/// An interrupted reply leaves no trace in the conversation, and none of its
/// calls are made.
pub proof fn law_interrupted_reply_is_dropped(a: AgentView)
    ensures
        streamed(a, IncomingView::Interrupted).agent.messages == a.messages,
        streamed(a, IncomingView::Interrupted).action == ActionView::Finished,
{
}

/// A run is over exactly when its end has been published, as the last event of
/// the step.
pub proof fn law_run_ends_with_agent_end(
    a: AgentView,
    content: Seq<char>,
    images: Seq<Seq<char>>,
    answer: Option<Seq<char>>,
    error: Option<Seq<char>>,
    incoming: IncomingView,
    outcome: crate::agent::call::OutcomeView,
)
    ensures
        ends_properly(prompted(a, content, images)),
        ends_properly(answered(a, answer)),
        ends_properly(opened(a, error)),
        ends_properly(streamed(a, incoming)),
        ends_properly(tool_finished(a, outcome)),
{
}

/// Whether the step ends the run exactly where its last event says so.
pub open spec fn ends_properly(step: StepView) -> bool {
    (step.action is Finished) == (step.events.len() > 0 && step.events.last() is AgentEnd)
}

/// A run begins with its start and with what the user says.
pub proof fn law_run_begins_with_agent_start(
    a: AgentView,
    content: Seq<char>,
    images: Seq<Seq<char>>,
)
    ensures
        prompted(a, content, images).events.len() >= 4,
        prompted(a, content, images).events[0] is AgentStart,
        prompted(a, content, images).events[1] == (EventView::MessageStart {
            kind: SessionMessageKind::User,
        }),
        prompted(a, content, images).events[2] is MessageEnd,
{
}

/// Every tool call gets one result, which bears its id, before the next tool is
/// run or the next turn begins.
pub proof fn law_each_call_gets_its_result(
    a: AgentView,
    outcome: crate::agent::call::OutcomeView,
)
    requires
        a.pending.len() > 0,
    ensures
        ({
            let after = tool_finished(a, outcome).agent;
            after.messages.len() == a.messages.len() + 1 && after.messages.last() == (
            crate::agent::message::SessionView::ToolResult {
                tool_call_id: a.pending[0].tool_call_id,
                name: a.pending[0].name,
                content: outcome.content,
                is_error: outcome.is_error,
            }) && after.pending == a.pending.skip(1)
        }),
{
}

/// A turn does not begin beyond the number of turns.
pub proof fn law_turns_are_bounded(
    a: AgentView,
    content: Seq<char>,
    images: Seq<Seq<char>>,
    answer: Option<Seq<char>>,
    outcome: crate::agent::call::OutcomeView,
)
    requires
        a.turn <= a.options.max_turns,
        a.options.max_turns + 20 <= usize::MAX,
    ensures
        ({
            let b = prompted(a, content, images).agent;
            b.turn <= b.options.max_turns
        }),
        ({
            let b = answered(a, answer).agent;
            b.turn <= b.options.max_turns
        }),
        ({
            let b = tool_finished(a, outcome).agent;
            b.turn <= b.options.max_turns
        }),
{
}

/// Switching the mode and back gives the same tools and the same prompt.
pub proof fn law_mode_switch_is_reversible(a: AgentView, mode: Mode)
    requires
        a.tool_specs == specs_view(a.options),
    ensures
        mode_set(mode_set(a, mode), a.options.mode) == a,
{
}

/// A kept tool result always has something kept before it: what is left after
/// the older messages does not begin with a tool result.
pub proof fn law_no_orphaned_results(
    messages: Seq<crate::agent::message::SessionView>,
    keep: nat,
)
    ensures
        0 <= split_of(messages, keep) <= messages.len(),
        messages.skip(split_of(messages, keep)).len() > 0 ==> !(messages.skip(
            split_of(messages, keep),
        )[0] is ToolResult),
{
    let kept = if keep < 1 {
        1
    } else {
        keep as int
    };
    let start = if messages.len() >= kept {
        messages.len() - kept
    } else {
        0
    };
    lemma_past_results(messages, start);
}

/// A compaction that fails, or gives nothing, changes nothing; one that
/// succeeds keeps every message that was not summarized.
pub proof fn law_compaction_keeps_the_rest(a: AgentView, split: int, summary: Option<Seq<char>>)
    requires
        0 <= split <= a.messages.len(),
    ensures
        summary is None ==> compacted(a, split, summary).0 == a,
        compacted(a, split, summary).0 == a || compacted(a, split, summary).0.messages.skip(1)
            == a.messages.skip(split),
{
    if let Some(t) = summary {
        if text::spec_trim(t).len() > 0 {
            assert(compacted(a, split, summary).0.messages.skip(1) =~= a.messages.skip(split));
        }
    }
}

/// What is cut is the longest beginning within the limit: one character more would
/// exceed it.
pub proof fn law_clamped_results_are_short(content: Seq<char>, max: nat)
    ensures
        text::byte_count(text::bytes_within(content, max)) <= max,
        text::bytes_within(content, max).is_prefix_of(content),
        text::bytes_within(content, max) == content || text::byte_count(
            content.take(1 + text::bytes_within(content, max).len() as int),
        ) > max,
    decreases content.len(),
{
    if content.len() == 0 || text::byte_count(content) <= max {
        assert(content =~= content.subrange(0, content.len() as int));
    } else {
        let shorter = content.drop_last();
        law_clamped_results_are_short(shorter, max);
        let cut = text::bytes_within(content, max);
        assert(cut =~= content.subrange(0, cut.len() as int));
        if cut == shorter {
            assert(content.take(1 + cut.len() as int) =~= content);
        } else {
            assert(cut.len() < shorter.len());
            assert(content.take(1 + cut.len() as int) =~= shorter.take(1 + cut.len() as int));
        }
    }
}

} // verus!
