//! The agent and its conversation, and what its tools may do.
use agent_m::agent::call::{ToolCallInfo, ToolError, ToolOutcome};
use agent_m::agent::checkpoint::{
    restore_args, restore_checkpoint, Checkpoint, CheckpointStep, GitOutput,
};
use agent_m::agent::compaction::{try_summarize, CompactStep};
use agent_m::agent::context::{
    discover_instructions, head_tail_split, instruction_candidates, instruction_files,
    render_instructions, InstructionFile, PER_FILE_CAP, TOTAL_CAP,
};
use agent_m::agent::message::SessionMessage;
use agent_m::agent::risk::RiskPolicy;
use agent_m::agent::session::{
    clamp_tool_results, judge_call, plan_delegate, Action, Agent, AgentEvent, AgentOptions,
    Incoming, Mode, Step, ToolVerdict,
};
use agent_m::agent::tool::{
    tool_spec, AlwaysAllowGate, AskGate, BoolGate, ClosureAskGate, ClosureGate,
    DangerousCommandGate, Permission, PermissionGate, ReadOnlyAutoApproveGate, SelectiveAskGate,
    ToolContext, ToolRegistry, UnavailableAskGate,
};
use agent_m::agent::trust_policy::{
    assess, check_evidence, enforce, evidence_paths, settle, trust_options, Enforcement,
    FileFacts, TrustDecision, TrustMode, TrustPolicy,
};
use agent_m::agent::worktree::{create_worktree, list_worktrees, remove_worktree, sanitize_slug};
use agent_m::ai::trust::{Evidence, TrustData};
use agent_m::ai::types::{
    AssistantMessage, ContentPart, LlmMessage, StopReason, StreamEvent, ToolSpec, Usage,
};
use agent_m::json::{self, Json};
use agent_m::mcp::client::McpToolDef;
use agent_m::mcp::tools::McpTool;
use std::cell::RefCell;
use std::collections::VecDeque;

fn doc(text: &str) -> Json {
    match json::parse(text) {
        Ok(j) => j,
        Err(e) => panic!("{e}"),
    }
}

// ------------------------------------------------------------------------ scripts
fn text_response(text: &str, cache_read_tokens: u64) -> Vec<StreamEvent> {
    vec![
        StreamEvent::Start,
        StreamEvent::TextDelta { delta: text.to_string() },
        StreamEvent::Done {
            message: AssistantMessage {
                content: vec![ContentPart::Text { text: text.to_string() }],
                usage: Some(Usage {
                    input_tokens: 10,
                    output_tokens: 5,
                    cache_read_tokens,
                    cache_creation_tokens: 10 - cache_read_tokens,
                    total_tokens: 15,
                }),
                stop_reason: StopReason::Stop,
                error_message: None,
                model: "fake".to_string(),
                trust: TrustData::default(),
            },
        },
    ]
}

fn tool_response(name: &str, arguments: &str) -> Vec<StreamEvent> {
    vec![
        StreamEvent::Start,
        StreamEvent::ToolCallDelta {
            index: 0,
            id: "call_1".to_string(),
            name: name.to_string(),
            arguments: arguments.to_string(),
        },
        StreamEvent::Done {
            message: AssistantMessage {
                content: vec![ContentPart::ToolCall {
                    id: "call_1".to_string(),
                    name: name.to_string(),
                    arguments: doc(arguments),
                }],
                usage: None,
                stop_reason: StopReason::ToolUse,
                error_message: None,
                model: "fake".to_string(),
                trust: TrustData::default(),
            },
        },
    ]
}

fn tool(name: &str) -> ToolSpec {
    ToolSpec {
        name: name.to_string(),
        description: name.to_string(),
        parameters: doc("{\"type\":\"object\"}"),
    }
}

fn options(tools: &[&str], mode: Mode) -> AgentOptions {
    AgentOptions {
        model: "fake".to_string(),
        system_prompt: "You are a test agent.".to_string(),
        harness_block: None,
        tools: tools.iter().map(|n| tool(n)).collect(),
        max_turns: 6,
        cwd: ".".to_string(),
        mode,
        can_ask: false,
        context_window: Some(64_000),
        variant: None,
        output_dir: None,
    }
}

/// Runs a prompt against scripted replies, and gives what the agent published.
fn run(
    agent: &mut Agent,
    prompt: &str,
    replies: Vec<Vec<StreamEvent>>,
    gate: &dyn Fn(&ToolCallInfo) -> Permission,
    execute: &dyn Fn(&ToolCallInfo) -> ToolOutcome,
) -> Vec<AgentEvent> {
    let mut replies: VecDeque<Vec<StreamEvent>> = replies.into();
    let mut current: VecDeque<StreamEvent> = VecDeque::new();
    let mut published = Vec::new();
    let mut step: Step = agent.prompt(prompt);
    loop {
        published.extend(step.events);
        step = match step.action {
            Action::Finished => return published,
            Action::Ask { .. } => agent.continue_answered(None),
            Action::Stream(_) => {
                current = replies.pop_front().unwrap_or_default().into();
                agent.stream_opened(None)
            }
            Action::Next => match current.pop_front() {
                Some(event) => agent.stream_event(Incoming::Event(event)),
                None => {
                    assert!(agent.can_end_reply());
                    agent.stream_event(Incoming::End)
                }
            },
            Action::RunTool(call) => {
                let denied = match gate(&call) {
                    Permission::Allowed => None,
                    Permission::Denied(reason) => Some(reason),
                };
                let outcome = match judge_call(&agent.options, &call.name, denied.as_deref()) {
                    ToolVerdict::Outcome(outcome) => outcome,
                    ToolVerdict::Execute(_) => execute(&call),
                    ToolVerdict::Delegate => ToolOutcome::error("nobody to delegate to"),
                };
                agent.tool_result(outcome)
            }
        };
    }
}

fn allow(_: &ToolCallInfo) -> Permission {
    Permission::Allowed
}

fn stub(call: &ToolCallInfo) -> ToolOutcome {
    match call.name.as_str() {
        "echo" => ToolOutcome::success(&format!(
            "echoed: {}",
            call.arguments.get_str("text").unwrap_or_default()
        )),
        "ls" => ToolOutcome::success("listing"),
        "search" => ToolOutcome::success("hits"),
        _ => ToolOutcome::success("ran"),
    }
}

fn label(event: &AgentEvent) -> &'static str {
    agent_m::cli::print::event_name(event)
}

fn outcomes(events: &[AgentEvent]) -> Vec<(String, bool)> {
    events
        .iter()
        .filter_map(|e| match e {
            AgentEvent::ToolExecutionEnd { outcome, .. } => {
                Some((outcome.content.clone(), outcome.is_error))
            }
            _ => None,
        })
        .collect()
}

// --------------------------------------------------------------------------- loop
#[test]
fn emits_pi_event_ordering_through_tool_calls() {
    let mut agent = Agent::new(options(&["echo"], Mode::Build));
    let events = run(
        &mut agent,
        "say hi",
        vec![tool_response("echo", "{\"text\":\"hi\"}"), text_response("done", 8)],
        &allow,
        &stub,
    );
    let labels: Vec<&str> = events.iter().map(label).collect();
    assert_eq!(
        labels,
        vec![
            "agent_start",
            "message_start",
            "message_end",
            "turn_start",
            "message_start",
            "message_update",
            "message_end",
            "tool_execution_start",
            "tool_execution_end",
            "turn_end",
            "turn_start",
            "message_start",
            "message_update",
            "message_end",
            "turn_end",
            "agent_end",
        ]
    );
    assert!(matches!(
        &agent.messages()[2],
        SessionMessage::ToolResult { name, is_error: false, content, .. }
            if name == "echo" && content == "echoed: hi"
    ));
    match events.last().unwrap() {
        AgentEvent::AgentEnd { cache_stats, .. } => {
            assert_eq!(cache_stats.hit_tokens, 8);
            assert_eq!(cache_stats.miss_tokens, 2);
        }
        _ => panic!("expected agent_end"),
    }
}

#[test]
fn denied_tool_call_becomes_error_result() {
    let mut agent = Agent::new(options(&["echo"], Mode::Build));
    let deny = BoolGate::new(|_: &ToolCallInfo| false);
    let events = run(
        &mut agent,
        "do it",
        vec![tool_response("echo", "{\"text\":\"hi\"}"), text_response("understood", 0)],
        &|call| deny.authorize(call),
        &stub,
    );
    let seen = outcomes(&events);
    assert!(seen[0].1);
    assert!(seen[0].0.contains("Permission denied"));
    let recorded = agent
        .messages()
        .iter()
        .find_map(|m| match m {
            SessionMessage::ToolResult { content, .. } => Some(content.clone()),
            _ => None,
        })
        .expect("tool result message");
    assert!(recorded.contains("Permission denied"));
}

#[test]
fn model_error_is_reported_as_notice_and_run_ends() {
    let mut agent = Agent::new(options(&["echo"], Mode::Build));
    let events = run(
        &mut agent,
        "hi",
        vec![vec![
            StreamEvent::Start,
            StreamEvent::Error { message: "connection reset".to_string() },
        ]],
        &allow,
        &stub,
    );
    let labels: Vec<&str> = events.iter().map(label).collect();
    assert!(labels.contains(&"notice"), "got {labels:?}");
    assert_eq!(labels.last(), Some(&"agent_end"));
    match agent.messages().last().unwrap() {
        SessionMessage::Assistant { stop_reason, .. } => {
            assert_eq!(*stop_reason, StopReason::Error)
        }
        _ => panic!("expected assistant message"),
    }
}

#[test]
fn cache_stats_accumulate_across_turns() {
    let mut agent = Agent::new(options(&["echo"], Mode::Build));
    run(&mut agent, "one", vec![text_response("first", 5)], &allow, &stub);
    let events = run(&mut agent, "two", vec![text_response("second", 3)], &allow, &stub);
    match events.last().unwrap() {
        AgentEvent::AgentEnd { cache_stats, .. } => {
            assert_eq!(cache_stats.requests, 2);
            assert_eq!(cache_stats.hit_tokens, 8);
            assert_eq!(cache_stats.miss_tokens, 12);
        }
        _ => panic!("expected agent_end"),
    }
}

#[test]
fn interrupt_aborts_the_stream() {
    let mut agent = Agent::new(options(&["echo"], Mode::Build));
    let step = agent.prompt("hi");
    assert!(matches!(step.action, Action::Stream(_)));
    agent.stream_opened(None);
    let step = agent.stream_event(Incoming::Interrupted);
    let reason = step
        .events
        .iter()
        .find_map(|e| match e {
            AgentEvent::MessageEnd { message: SessionMessage::Assistant { stop_reason, .. } } => {
                Some(*stop_reason)
            }
            _ => None,
        })
        .expect("assistant message_end seen");
    assert_eq!(reason, StopReason::Aborted);
    assert_eq!(agent.messages().len(), 1);
}

#[test]
fn plan_mode_hides_mutating_tools() {
    let mut agent = Agent::new(options(&["read", "ls", "search", "bash"], Mode::Plan));
    let events = run(
        &mut agent,
        "plan the work",
        vec![
            tool_response("bash", "{\"command\":\"ls\"}"),
            tool_response("ls", "{\"path\":\".\"}"),
            tool_response("search", "{\"query\":\"cache_hit\"}"),
            text_response("finished", 8),
        ],
        &allow,
        &stub,
    );
    let seen = outcomes(&events);
    assert_eq!(seen.len(), 3, "bash rejected, ls+search allowed: {seen:?}");
    assert!(
        seen[0].1 && seen[0].0.contains("not available in plan mode"),
        "plan mode must reject bash, got: {}",
        seen[0].0
    );
    assert!(!seen[1].1 && seen[1].0 == "listing", "plan mode must allow ls, got: {}", seen[1].0);
    assert!(!seen[2].1 && seen[2].0 == "hits", "plan mode must allow search, got: {}", seen[2].0);
    agent.set_mode(Mode::Build);
    assert_eq!(agent.mode(), Mode::Build);
    assert_eq!(Mode::Plan.as_str(), "plan");
}

#[test]
fn ask_tool_returns_user_answer_and_continues() {
    let context = ToolContext {
        cwd: ".".to_string(),
        ask_gate: Some(ClosureAskGate::new(|_: String, _: Option<Vec<String>>| {
            Ok("blue".to_string())
        })),
    };
    let ask = |call: &ToolCallInfo| {
        let question = call.arguments.get_str("question").unwrap_or_default();
        match &context.ask_gate {
            None => ToolOutcome::error("ask requires the interactive UI"),
            Some(gate) => match gate.ask(question.to_string(), None) {
                Ok(answer) => ToolOutcome::success(&format!("User answer: {answer}")),
                Err(message) => ToolOutcome::error(&format!("ask cancelled: {message}")),
            },
        }
    };
    let mut agent = Agent::new(options(&["ask"], Mode::Build));
    let events = run(
        &mut agent,
        "pick a color",
        vec![
            tool_response("ask", "{\"question\":\"Which color?\"}"),
            text_response("done", 8),
        ],
        &allow,
        &ask,
    );
    let seen = outcomes(&events);
    assert_eq!(seen.len(), 1);
    assert!(seen[0].0.contains("User answer: blue"), "got: {}", seen[0].0);
    assert!(UnavailableAskGate.ask("?".to_string(), None).is_err());
}

#[test]
fn compaction_is_tried_three_times() {
    let mut agent = Agent::new(options(&["echo"], Mode::Build));
    assert!(matches!(
        agent.summarize_and_compact(1),
        CompactStep::Done(Ok(summary), events) if summary.is_empty() && events.is_empty()
    ));
    run(&mut agent, "hello", vec![text_response("first reply", 8)], &allow, &stub);
    run(&mut agent, "again", vec![text_response("second reply", 8)], &allow, &stub);
    let mut step = agent.summarize_and_compact(1);
    let mut attempts = 0;
    loop {
        step = match step {
            CompactStep::Ask(at, _) => {
                attempts += 1;
                let broken = [StreamEvent::Error { message: "overloaded".to_string() }];
                agent.summary_reply(at, try_summarize(&broken))
            }
            CompactStep::Done(result, events) => {
                assert_eq!(
                    result.err().map(|e| e.message()),
                    Some("provider returned an error: stream error during compaction".to_string())
                );
                assert!(events.is_empty());
                break;
            }
        };
    }
    assert_eq!(attempts, 3);
    assert_eq!(agent.messages().len(), 4, "the conversation is as it was");
    let CompactStep::Ask(at, _) = agent.summarize_and_compact(1) else { panic!("worth it") };
    assert!(matches!(
        agent.summary_reply(at, Ok("  \n".to_string())),
        CompactStep::Done(Ok(summary), _) if summary.is_empty()
    ));
    assert_eq!(agent.messages().len(), 4, "a blank summary replaces nothing");
}

#[test]
fn compaction_replaces_older_messages_with_summary() {
    let mut agent = Agent::new(options(&["echo"], Mode::Build));
    run(&mut agent, "hello", vec![text_response("first reply", 8)], &allow, &stub);
    run(&mut agent, "again", vec![text_response("second reply", 8)], &allow, &stub);
    assert_eq!(agent.messages().len(), 4);
    let (at, request) = match agent.summarize_and_compact(2) {
        CompactStep::Ask(at, request) => (at, request),
        CompactStep::Done(..) => panic!("worth it"),
    };
    assert_eq!(at.split, 2);
    assert_eq!(request.messages.len(), 3, "the two oldest, and the wish");
    let reply = try_summarize(&text_response("summary of the conversation", 0));
    let events = match agent.summary_reply(at, reply) {
        CompactStep::Done(Ok(summary), events) => {
            assert!(summary.contains("summary of the conversation"));
            events
        }
        _ => panic!("compact"),
    };
    assert!(matches!(
        &events[0],
        AgentEvent::Compacted { summary, messages_removed: 2 }
            if summary.contains("summary of the conversation")
    ));
    let messages = agent.messages();
    assert_eq!(messages.len(), 3);
    assert!(matches!(&messages[0], SessionMessage::Summary { .. }));
    let (tokens, window) = agent.context_usage();
    assert_eq!(tokens, 10);
    assert_eq!(window, Some(64_000));
}

#[test]
fn too_many_turns_are_asked_about() {
    let mut settings = options(&["echo"], Mode::Build);
    settings.max_turns = 1;
    settings.can_ask = true;
    let mut agent = Agent::new(settings);
    let mut step = agent.prompt("go");
    assert!(matches!(step.action, Action::Stream(_)));
    agent.stream_opened(None);
    for event in tool_response("echo", "{\"text\":\"hi\"}") {
        agent.stream_event(Incoming::Event(event));
    }
    step = agent.stream_event(Incoming::End);
    assert!(matches!(step.action, Action::RunTool(_)));
    step = agent.tool_result(ToolOutcome::success("ok"));
    assert!(matches!(step.action, Action::Ask { .. }));
    step = agent.continue_answered(Some("Yes".to_string()));
    assert!(matches!(step.action, Action::Stream(_)));
    assert_eq!(agent.options.max_turns, 21);
}

#[test]
fn delegation_leaves_out_itself() {
    let settings = options(&["read", "bash"], Mode::Build);
    match plan_delegate(&settings, &doc("{\"prompt\":\"look\",\"tools\":[\"read\"]}")) {
        Ok(plan) => {
            let names: Vec<&str> = plan.options.tools.iter().map(|t| t.name.as_str()).collect();
            assert_eq!(names, vec!["read"]);
        }
        Err(_) => panic!("a prompt is enough"),
    }
    assert!(plan_delegate(&settings, &doc("{}")).is_err());
}

fn tool_result(content: &str) -> SessionMessage {
    SessionMessage::ToolResult {
        tool_call_id: "call_1".to_string(),
        name: "bash".to_string(),
        content: content.to_string(),
        is_error: false,
    }
}

#[test]
fn clamp_tool_results_truncates_on_char_boundary() {
    let mut content = "é".repeat(2500);
    content.push_str("trailing");
    let mut messages = vec![tool_result(&content)];
    clamp_tool_results(&mut messages, 5000);
    let SessionMessage::ToolResult { content: clamped, .. } = &messages[0] else {
        panic!("still a tool result")
    };
    assert!(clamped.is_char_boundary(5000) || clamped.len() <= 5000);
    assert!(clamped.ends_with("[clamped for compaction]"));
    assert!(clamped.starts_with("éé"));
}

#[test]
fn clamp_tool_results_leaves_short_output_untouched() {
    let mut messages = vec![tool_result("short")];
    clamp_tool_results(&mut messages, 5000);
    let SessionMessage::ToolResult { content, .. } = &messages[0] else {
        panic!("still a tool result")
    };
    assert_eq!(content, "short");
}

// ---------------------------------------------------------------------------- risk
fn call(name: &str, arguments: &str) -> ToolCallInfo {
    ToolCallInfo {
        tool_call_id: "t1".to_string(),
        name: name.to_string(),
        arguments: doc(arguments),
    }
}

fn bash(command: &str) -> ToolCallInfo {
    ToolCallInfo {
        tool_call_id: "t1".to_string(),
        name: "bash".to_string(),
        arguments: Json::object().with("command", Json::text(command)),
    }
}

fn policy() -> RiskPolicy {
    RiskPolicy { cwd: "/work".to_string(), opaque_tools: vec![] }
}

#[test]
fn risk_policy_detects_destructive_commands() {
    let policy = policy();
    assert!(policy.risk(&bash("rm -rf /tmp/x")).is_some());
    assert!(policy.risk(&bash("sudo rm -rf /")).is_some());
    assert!(policy.risk(&bash("git checkout --force main")).is_some());
    assert!(policy.risk(&bash("git reset --hard HEAD")).is_some());
    assert!(policy.risk(&bash("git clean -fd")).is_some());
    assert!(policy.risk(&bash("find . -name '*.tmp' -delete")).is_some());
    assert!(policy.risk(&bash("dd if=x of=/dev/sda")).is_some());
    assert!(policy.risk(&bash("ls -la")).is_none());
    assert!(policy.risk(&bash("rm file.txt")).is_none());
    assert!(policy.risk(&bash("git status")).is_none());
    assert!(policy.risk(&call("read", "{\"path\":\"rm -rf /\"}")).is_none());
}

#[test]
fn opaque_tools_and_outside_writes_are_risky() {
    let policy =
        RiskPolicy { cwd: "/work".to_string(), opaque_tools: vec!["jira__create".to_string()] };
    assert!(policy.risk(&call("jira__create", "{}")).is_some());
    assert!(policy.risk(&call("write", "{\"path\":\"/etc/passwd\",\"content\":\"\"}")).is_some());
    assert!(policy.risk(&call("write", "{\"path\":\"src/a.rs\",\"content\":\"\"}")).is_none());
}

#[test]
fn selective_gate_asks_only_for_destructive_commands() {
    let asked: RefCell<Vec<String>> = RefCell::new(Vec::new());
    let gate = SelectiveAskGate::new(policy(), |c: &ToolCallInfo| {
        asked.borrow_mut().push(format!(
            "{} {}",
            c.name,
            c.arguments.get_str("command").unwrap_or_default()
        ));
        Permission::Allowed
    });
    assert!(matches!(gate.authorize(&bash("ls -la")), Permission::Allowed));
    assert!(asked.borrow().is_empty(), "benign commands must not ask");
    assert!(matches!(gate.authorize(&bash("rm -rf /tmp/x")), Permission::Allowed));
    assert_eq!(asked.borrow().as_slice(), ["bash rm -rf /tmp/x".to_string()]);
}

#[test]
fn dangerous_gate_denies_destructive_under_auto_approve() {
    let gate = DangerousCommandGate::new(policy(), AlwaysAllowGate);
    match gate.authorize(&bash("rm -rf /tmp/x")) {
        Permission::Denied(message) => {
            assert!(message.contains("recursive delete"), "reason should name the risk: {message}")
        }
        Permission::Allowed => panic!("destructive command must be denied under auto-approve"),
    }
    assert!(matches!(gate.authorize(&bash("git status")), Permission::Allowed));
}

#[test]
fn read_only_tools_bypass_the_inner_gate() {
    let gate = ReadOnlyAutoApproveGate::new(BoolGate::new(|_: &ToolCallInfo| false));
    assert!(matches!(
        gate.authorize(&call("read", "{\"path\":\"src/main.rs\"}")),
        Permission::Allowed
    ));
    assert!(matches!(gate.authorize(&call("ls", "{}")), Permission::Allowed));
    assert!(matches!(
        gate.authorize(&call("write", "{\"path\":\"src/main.rs\",\"content\":\"\"}")),
        Permission::Denied(_)
    ));
}

#[test]
fn benign_shell_commands_auto_approve_without_yes() {
    let gate = ReadOnlyAutoApproveGate::new(SelectiveAskGate::new(policy(), |_: &ToolCallInfo| {
        Permission::Denied("should not ask".to_string())
    }));
    assert!(matches!(gate.authorize(&bash("ls -la")), Permission::Allowed));
    assert!(matches!(gate.authorize(&bash("cat README.md")), Permission::Allowed));
    assert!(matches!(gate.authorize(&bash("git status")), Permission::Allowed));
    match gate.authorize(&bash("rm -rf /tmp/x")) {
        Permission::Denied(m) => assert_eq!(m, "should not ask"),
        Permission::Allowed => panic!("a risky command must still ask"),
    }
    let closure = ClosureGate::new(|_: &ToolCallInfo| Permission::Allowed);
    assert!(matches!(closure.authorize(&bash("ls")), Permission::Allowed));
}

// --------------------------------------------------------------------------- tools
fn mcp_tool(name: &str) -> McpTool {
    McpTool::new(
        "srv",
        McpToolDef {
            name: name.to_string(),
            description: " does it ".to_string(),
            input_schema: doc("{\"type\":\"object\"}"),
            read_only: false,
        },
    )
}

#[test]
fn registry_is_sorted_and_can_be_filtered() {
    let mut registry = ToolRegistry::new();
    for name in ["write", "read", "bash"] {
        registry.register(mcp_tool(name));
    }
    registry.register(mcp_tool("read"));
    assert_eq!(registry.names(), vec!["srv__bash", "srv__read", "srv__write"]);
    let described: Vec<String> =
        registry.tools().into_iter().map(|tool| tool_spec(tool).name).collect();
    assert_eq!(described, registry.names());
    assert!(registry.get("srv__read").is_some());
    assert!(registry.get("read").is_none());
    let spec = tool_spec(registry.get("srv__bash").unwrap());
    assert_eq!(spec.name, "srv__bash");
    assert_eq!(spec.description, "MCP tool from server `srv`: does it");
    let some = registry.filter(&["srv__read".to_string(), "srv__bash".to_string()], &[
        "srv__bash".to_string(),
    ]);
    assert_eq!(some.names(), vec!["srv__read"]);
    assert_eq!(registry.filter(&[], &["srv__read".to_string()]).names().len(), 2);
}

#[test]
fn options_can_be_changed() {
    let mut agent = Agent::new(options(&["read"], Mode::Build));
    agent.options_mut().max_turns = 9;
    assert_eq!(agent.options().max_turns, 9);
    assert_eq!(agent.options().model, "fake");
}

#[test]
fn tool_errors_are_told_in_words() {
    assert_eq!(
        ToolError::NotFound("x".to_string()).message(),
        "tool `x` is not registered"
    );
    assert_eq!(ToolError::failed("x", "boom").message(), "tool `x` failed: boom");
}

// --------------------------------------------------------------------- instructions
/// What is found where these files are there and no others.
fn found(cwd: &str, home: &str, files: &[(&str, &str)]) -> Vec<InstructionFile> {
    let paths = instruction_candidates(cwd, home, None, Some("OTHER.md"));
    let contents: Vec<Option<String>> = paths
        .iter()
        .map(|path| files.iter().find(|(name, _)| name == path).map(|(_, c)| c.to_string()))
        .collect();
    discover_instructions(&paths, &contents)
}

#[test]
fn discovers_cross_tool_rules_files_in_order() {
    let files = found("/repo", "/repo", &[
        ("/repo/AGENTS.md", "# agent-m rules"),
        ("/repo/OTHER.md", "# other rules"),
        ("/repo/.cursorrules", "# cursor rules"),
    ]);
    let names: Vec<&str> =
        files.iter().map(|f| f.path.rsplit('/').next().unwrap_or_default()).collect();
    assert_eq!(
        names,
        vec!["AGENTS.md", "OTHER.md", ".cursorrules"],
        "precedence order in the same directory: {names:?}"
    );
    // The rendered block is deterministic (byte-stable prefix input).
    let rendered = render_instructions(&files);
    assert!(rendered.contains("other rules"));
    assert!(rendered.contains("cursor rules"));
    assert_eq!(render_instructions(&files), rendered);
}

#[test]
fn instruction_files_have_their_order() {
    assert_eq!(
        instruction_files(Some("OTHER.md")),
        vec!["AGENTS.md", "OTHER.md", ".cursorrules", "GEMINI.md"]
    );
    assert_eq!(instruction_files(None), vec!["AGENTS.md", ".cursorrules", "GEMINI.md"]);
    let paths = instruction_candidates("/home/u/a", "/home/u", Some("/cfg"), Some("OTHER.md"));
    assert_eq!(
        paths,
        vec![
            "/home/u/a/AGENTS.md",
            "/home/u/a/OTHER.md",
            "/home/u/a/.cursorrules",
            "/home/u/a/GEMINI.md",
            "/home/u/AGENTS.md",
            "/home/u/OTHER.md",
            "/home/u/.cursorrules",
            "/home/u/GEMINI.md",
            "/cfg/agent/AGENTS.md"
        ]
    );
}

#[test]
fn discovers_ancestors_nearest_first() {
    let files = found("/home/u/a/b", "/home/u", &[
        ("/home/u/AGENTS.md", "root rules"),
        ("/home/u/a/b/AGENTS.md", "inner rules"),
    ]);
    assert_eq!(files.len(), 2);
    assert!(
        files[0].path.ends_with("a/b/AGENTS.md"),
        "nearest first, got {:?}",
        files[0].path
    );
    assert_eq!(files[0].content, "inner rules");
    assert!(files[1].path.ends_with("AGENTS.md"));
    assert_eq!(files[1].content, "root rules");
}

#[test]
fn renders_xml_block_and_escapes() {
    let files = vec![InstructionFile {
        path: "/tmp/x/AGENTS.md".to_string(),
        content: "use <b>bold</b> & keep it simple".to_string(),
    }];
    let rendered = render_instructions(&files);
    assert!(rendered.contains("<project_instructions path=\"/tmp/x/AGENTS.md\">"));
    assert!(rendered.contains("use &lt;b&gt;bold&lt;/b&gt; &amp; keep it simple"));
    assert!(rendered.contains("</project_instructions>"));
    assert_eq!(render_instructions(&[]), "");
}

#[test]
fn long_files_keep_head_and_tail() {
    assert_eq!(head_tail_split("short", 100), "short");
    let cut = head_tail_split(&"a".repeat(200), 100);
    assert!(cut.contains("100 chars omitted"), "{cut}");
    assert!(cut.starts_with(&"a".repeat(75)));
    assert_eq!(head_tail_split("éééé", 6), "éééé", "the cap is one of characters");
    assert_eq!(head_tail_split("ééééüü", 4), "ééé\n…[2 chars omitted]…\nü");
}

#[test]
fn instructions_stay_within_their_caps() {
    let file = |n: usize| InstructionFile {
        path: format!("/{n}/AGENTS.md"),
        content: "x".repeat(n),
    };
    let files: Vec<InstructionFile> = (0..8).map(|i| file(11_900 + i)).collect();
    let rendered = render_instructions(&files);
    let kept = rendered.lines().filter(|l| l.starts_with('x')).map(|l| l.len()).sum::<usize>();
    assert!(kept <= TOTAL_CAP, "{kept}");
    assert_eq!(rendered.matches("</project_instructions>").count(), 6);
    assert!(rendered.contains("chars omitted]"), "the last is cut to what is left");
    let rendered = render_instructions(&[file(PER_FILE_CAP + 5)]);
    assert!(rendered.contains("…[5 chars omitted]…"));
}

// --------------------------------------------------------------------------- trust
#[test]
fn assess_flags_missing_block_for_tool_turns() {
    let policy = TrustPolicy::default();
    let issues = assess(&policy, &TrustData::default(), &[bash("rm -rf /tmp/x")], None, &[]);
    assert!(issues.missing_block);
    assert!(issues.low_confidence.is_none());
    assert!(!issues.is_clean());
    assert!(assess(&policy, &TrustData::default(), &[], None, &[]).is_clean());
}

#[test]
fn assess_escalates_low_confidence_only_with_risky_calls() {
    let rules = TrustPolicy { mode: TrustMode::Ask, confidence_threshold: 50 };
    let risk = policy();
    let low = TrustData { confidence: Some(30), ..TrustData::default() };
    let issues = assess(&rules, &low, &[bash("rm -rf /tmp/x")], Some(&risk), &[]);
    assert_eq!(issues.low_confidence, Some(30));
    let read = call("read", "{\"path\":\"src/main.rs\"}");
    let issues = assess(&rules, &low, &[read], Some(&risk), &[]);
    assert!(issues.low_confidence.is_none());
    let high = TrustData { confidence: Some(90), ..TrustData::default() };
    assert!(assess(&rules, &high, &[bash("rm -rf /tmp/x")], Some(&risk), &[]).is_clean());
}

fn cited(file: &str, line: Option<u64>) -> Evidence {
    Evidence { file: file.into(), line, note: None }
}

#[test]
fn check_evidence_reports_missing_files_and_bad_lines() {
    let trust = TrustData {
        evidence: vec![
            cited("real.rs", Some(1)),
            cited("missing.rs", None),
            cited("real.rs", Some(99)),
        ],
        ..TrustData::default()
    };
    assert_eq!(evidence_paths(&trust, "/w")[1], "/w/missing.rs");
    let real = FileFacts { is_file: true, lines: Some(1) };
    let gone = FileFacts { is_file: false, lines: None };
    let problems = check_evidence(&trust, &[real, gone, real]);
    assert_eq!(problems.len(), 2, "one per broken citation: {problems:?}");
    assert!(problems[0].contains("missing.rs"));
    assert!(problems[1].contains("99"));
    let ok = TrustData { evidence: vec![cited("real.rs", Some(1))], ..TrustData::default() };
    assert!(check_evidence(&ok, &[real]).is_empty());
}

#[test]
fn enforce_modes() {
    let calls = [bash("rm -rf /tmp/x")];
    let nothing = TrustData::default();
    let with = |mode| TrustPolicy { mode, confidence_threshold: 50 };
    match enforce(&with(TrustMode::Warn), &nothing, &calls, None, false, &[]) {
        Enforcement::Decided(TrustDecision::ProceedWarned, notices) => assert_eq!(notices.len(), 1),
        _ => panic!("warn never blocks"),
    }
    match enforce(&TrustPolicy::default(), &nothing, &calls, None, false, &[]) {
        Enforcement::Decided(TrustDecision::Proceed, notices) => assert!(notices.is_empty()),
        _ => panic!("off proceeds silently"),
    }
    match enforce(&with(TrustMode::Block), &nothing, &calls, None, true, &[]) {
        Enforcement::Decided(TrustDecision::Denied(reason), _) => {
            assert!(reason.contains("<trust>"))
        }
        _ => panic!("block denies without asking"),
    }
    let ask = with(TrustMode::Ask);
    match enforce(&ask, &nothing, &calls, None, true, &[]) {
        Enforcement::Ask { question, options } => {
            assert!(question.ends_with("\nRun its tool calls anyway?"), "{question:?}");
            assert_eq!(options, vec!["yes", "no"]);
            assert_eq!(options, trust_options());
        }
        _ => panic!("ask puts the gaps to the user"),
    }
    let issues = assess(&ask, &nothing, &calls, None, &[]);
    assert!(matches!(
        settle(&ask, &issues, Some("yes".to_string())).0,
        TrustDecision::ApprovedByHuman
    ));
    assert!(matches!(settle(&ask, &issues, Some("no".to_string())).0, TrustDecision::Denied(_)));
    assert!(matches!(
        enforce(&ask, &nothing, &calls, None, false, &[]),
        Enforcement::Decided(TrustDecision::Denied(_), _)
    ));
}

#[test]
fn only_a_yes_lets_a_gapped_turn_through() {
    let ask = TrustPolicy { mode: TrustMode::Ask, confidence_threshold: 50 };
    let issues = assess(&ask, &TrustData::default(), &[bash("ls")], None, &[]);
    for (answer, approved) in [
        (Some("yes"), true),
        (Some(" YES \n"), true),
        (Some("no"), false),
        (Some("yes please"), false),
        (Some(""), false),
        (None, false),
    ] {
        let (decision, notices) = settle(&ask, &issues, answer.map(str::to_string));
        assert_eq!(matches!(decision, TrustDecision::ApprovedByHuman), approved, "{answer:?}");
        assert_eq!(matches!(decision, TrustDecision::Denied(_)), !approved, "{answer:?}");
        assert_eq!(notices.len(), 1);
    }
}

#[test]
fn enforce_clean_turn_never_asks() {
    let ask = TrustPolicy { mode: TrustMode::Ask, confidence_threshold: 50 };
    let trust = TrustData {
        confidence: Some(90),
        reason: Some("it is correct".into()),
        ..TrustData::default()
    };
    let read = call("read", "{\"path\":\"src/main.rs\"}");
    match enforce(&ask, &trust, &[read], None, false, &[]) {
        Enforcement::Decided(TrustDecision::Proceed, notices) => assert!(notices.is_empty()),
        _ => panic!("a clean turn proceeds"),
    }
}

// ------------------------------------------------------------------------ worktrees
#[test]
fn create_list_and_remove_worktree() {
    let plan = create_worktree(true, Some("fix-auth"), "/repo", "/agent", "20250101-000000")
        .unwrap_or_else(|e| panic!("{e}"));
    assert_eq!(plan.branch, "agent-m/fix-auth-20250101-000000");
    assert_eq!(plan.dir, "/agent/worktrees/fix-auth-20250101-000000");
    let listed = list_worktrees(&format!(
        "worktree /repo\nHEAD 1\nbranch refs/heads/main\n\nworktree {}\nHEAD 2\n",
        plan.dir
    ));
    assert_eq!(listed, vec!["/repo".to_string(), plan.dir.clone()]);
    assert_eq!(remove_worktree(&format!("{}\n", plan.dir), &listed), Ok(plan.dir));
    assert_eq!(sanitize_slug("fix auth/now"), "fix-auth-now");
}

#[test]
fn refuses_non_repo_and_main_worktree() {
    match create_worktree(false, None, "", "/agent", "t") {
        Err(error) => assert!(error.contains("requires a git repository"), "{error}"),
        Ok(_) => panic!("outside a repository there are no worktrees"),
    }
    let error = remove_worktree("/repo", &["/repo".to_string()]).unwrap_err();
    assert!(error.contains("main worktree"), "{error}");
}

// ---------------------------------------------------------------------- checkpoints
fn said(success: bool, stdout: &str) -> Result<GitOutput, String> {
    Ok(GitOutput { success, stdout: stdout.as_bytes().to_vec(), stderr: b"fatal: no\n".to_vec() })
}

fn args(step: &CheckpointStep) -> Vec<String> {
    match step {
        CheckpointStep::Run(args) => args.clone(),
        _ => panic!("a command was expected"),
    }
}

#[test]
fn checkpoint_roundtrip_in_a_temp_repo() {
    let (mut checkpoint, first) = Checkpoint::new("test");
    assert_eq!(args(&first), vec!["rev-parse", "--is-inside-work-tree"]);
    let step = checkpoint.create_checkpoint(said(true, "true\n"));
    assert_eq!(args(&step), vec!["status", "--porcelain"]);
    let step = checkpoint.create_checkpoint(said(true, " M a.txt\n"));
    assert_eq!(args(&step), vec!["stash", "create"]);
    let step = checkpoint.create_checkpoint(said(true, "abc123\n"));
    assert_eq!(args(&step), vec!["stash", "store", "-m", "agent-m: test", "abc123"]);
    match checkpoint.create_checkpoint(said(true, "")) {
        CheckpointStep::Done(Ok(Some(sha))) => assert_eq!(sha, "abc123"),
        _ => panic!("the snapshot is stored"),
    }
    assert_eq!(
        restore_args("abc123"),
        vec!["restore", "--source", "abc123", "--worktree", "--", "."]
    );
    assert!(restore_checkpoint("abc123", said(true, "")).is_ok());
    assert_eq!(
        restore_checkpoint("abc123", said(false, "")).unwrap_err(),
        "git restore --source abc123 failed:\nfatal: no"
    );
    // A clean tree.
    let (mut clean, _) = Checkpoint::new("clean");
    clean.create_checkpoint(said(true, "true\n"));
    assert!(matches!(
        clean.create_checkpoint(said(true, "")),
        CheckpointStep::Done(Ok(None))
    ));
}

#[test]
fn non_git_dir_yields_none() {
    let (mut checkpoint, _) = Checkpoint::new("x");
    assert!(matches!(
        checkpoint.create_checkpoint(said(false, "")),
        CheckpointStep::Done(Ok(None))
    ));
    assert!(matches!(checkpoint.create_checkpoint(said(true, "")), CheckpointStep::Nothing));
}

#[test]
fn failed_stash_is_told() {
    let (mut checkpoint, _) = Checkpoint::new("x");
    checkpoint.create_checkpoint(said(true, "true"));
    checkpoint.create_checkpoint(said(true, " M a\n"));
    match checkpoint.create_checkpoint(said(false, "")) {
        CheckpointStep::Done(Err(e)) => assert_eq!(e, "fatal: no"),
        _ => panic!("the error is told"),
    }
    let (mut checkpoint, _) = Checkpoint::new("x");
    checkpoint.create_checkpoint(said(true, "true"));
    match checkpoint.create_checkpoint(Err("gone".to_string())) {
        CheckpointStep::Done(Err(e)) => assert_eq!(e, "git status failed: gone"),
        _ => panic!("the error is told"),
    }
}

#[test]
fn messages_reach_the_model_as_they_are() {
    let mut agent = Agent::new(options(&["echo"], Mode::Build));
    let step = agent.prompt_with_images("look", vec!["data:image/png;base64,AAAA".to_string()]);
    let Action::Stream(request) = step.action else { panic!("a request") };
    match &request.messages[0] {
        LlmMessage::User { content, images } => {
            assert_eq!(content, "look");
            assert_eq!(images.len(), 1);
        }
        _ => panic!("a user message"),
    }
    assert!(request.tools.iter().any(|t| t.name == "echo"));
}
