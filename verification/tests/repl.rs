//! The interactive session: commands, turns and what is shown of them.
use agent_m::agent::call::{ToolCallInfo, ToolOutcome};
use agent_m::agent::message::{to_llm_messages, SessionMessage};
use agent_m::agent::risk::command_risk;
use agent_m::agent::session::{
    allowed_in_plan, delegate_answer, extract_trust, Agent, AgentEvent, AgentOptions, Mode,
};
use agent_m::agent::tool::{dangerous_bash, harden, is_kept, is_read_only, Permission};
use agent_m::agent::trust_policy::count_lines;
use agent_m::agent::worktree::repo_slug;
use agent_m::ai::keys::key_in_file;
use agent_m::ai::models::{find_model, ModelSpec};
use agent_m::ai::openai::{endpoint, missing_api_key};
use agent_m::ai::providers::{merge_providers, ProviderConfig};
use agent_m::ai::trust::TrustData;
use agent_m::ai::types::{ContentPart, LlmMessage, StopReason, StreamEvent};
use agent_m::cli::ansi::{dim, fg_only, init_color, is_full_reset, tint_cell, yellow, Ansi, Shade};
use agent_m::cli::commands::{
    handle_slash_command, harness_answer, journal_answer, refine_answer, sessions_answer,
    todos_answer, undo_answer, CommandResult, JournalRow, RefineOp, Request, Undone,
};
use agent_m::cli::human::HumanChannel;
use agent_m::cli::pickup::{repos_path, PickedTicket};
use agent_m::cli::repl::{
    evidence_line, print_plan, prompt_text, read_input, Input, Intent, Repl, ReplOut, TodoItem,
};
use agent_m::cli::slack::{from_env, open_socket_url, post_body, post_result};
use agent_m::cli::ticket_log::{no_report, pickup_report, step_report, verdict_report};
use agent_m::cli::toolout::ToolStore;
use agent_m::flow::executor::{FlowProgress, FlowRun};
use agent_m::flow::model::{set_step_output, FlowContext};
use agent_m::flow::record::{all_to_json, final_answer, state_text, StepRecord, StepStatus};
use agent_m::json::{self, Json};
use agent_m::mcp::tools::describe_call;

fn doc(text: &str) -> Json {
    match json::parse(text) {
        Ok(j) => j,
        Err(e) => panic!("{e}"),
    }
}

fn agent() -> Agent {
    Agent::new(AgentOptions {
        model: "m1".to_string(),
        system_prompt: "p".to_string(),
        harness_block: None,
        tools: vec![],
        max_turns: 5,
        cwd: "/w".to_string(),
        mode: Mode::Build,
        can_ask: false,
        context_window: None,
        variant: None,
        output_dir: None,
    })
}

fn plain() -> Ansi {
    init_color(false, false)
}

fn reply(content: Vec<ContentPart>, trust: TrustData) -> SessionMessage {
    SessionMessage::Assistant {
        content,
        usage: None,
        stop_reason: StopReason::Stop,
        model: "m".to_string(),
        trust,
    }
}

// ---------------------------------------------------------------------- commands
struct Session {
    agent: Agent,
    models: Vec<ModelSpec>,
    store: ToolStore,
    ansi: Ansi,
}

impl Session {
    fn new() -> Session {
        let mut store = ToolStore::new();
        store.push("bash", "one\ntwo".to_string());
        Session {
            agent: agent(),
            models: vec![
                ModelSpec::new("m1").effort(vec!["low".to_string(), "high".to_string()]),
                ModelSpec::new("m2"),
            ],
            store,
            ansi: plain(),
        }
    }

    fn run(&mut self, line: &str) -> CommandResult {
        handle_slash_command(line, &mut self.agent, &self.models, &self.store, &mut self.ansi, 60)
    }

    fn say(&mut self, line: &str) -> String {
        match self.run(line) {
            CommandResult::Handled(text) => text,
            _ => panic!("{line} is answered"),
        }
    }
}

#[test]
fn commands_are_answered() {
    let mut s = Session::new();
    assert!(matches!(s.run("hello"), CommandResult::Continue));
    assert!(matches!(s.run(" /exit "), CommandResult::Exit));
    assert!(matches!(s.run("/quit"), CommandResult::Exit));
    assert_eq!(s.say("/model"), "Current model: m1\nAvailable models: m1, m2");
    assert_eq!(s.say("/model m9"), "Unknown model `m9` for active provider.");
    assert_eq!(s.say("/variant"), "Current variant: none\nAvailable variants for m1: low, high");
    assert_eq!(s.say("/variant high"), "Variant set to `high`");
    assert_eq!(s.agent.variant().as_deref(), Some("high"));
    assert_eq!(
        s.say("/variant max"),
        "Invalid variant `max`. Available variants for m1: low, high"
    );
    assert_eq!(s.say("/variant none"), "Variant set to `none`");
    assert_eq!(s.agent.variant(), None);
    assert_eq!(s.say("/model m2"), "Model switched to m2");
    assert_eq!(s.agent.model(), "m2");
    assert_eq!(
        s.say("/variant"),
        "Current variant: none\nAvailable variants for m2: none (model does not specify variants)"
    );
    assert_eq!(s.say("/mode"), "Current mode: build");
    assert!(s.say("/mode PLAN").contains("Read-only · no file writes"));
    assert_eq!(s.agent.mode(), Mode::Plan);
    assert!(s.say("/mode build").contains("Writes enabled · tools active"));
    assert_eq!(s.say("/mode x"), "Unknown mode `x`. Use 'plan' or 'build'.");
    assert_eq!(
        s.say("/usage"),
        "Telemetry Usage:\n  - Last Input Tokens: 0\n  - Context Limit: unspecified\n  - Cache Hit Tokens: 0\n  - Cache Miss Tokens: 0\n  - Total Requests: 0"
    );
    assert_eq!(s.say("/level"), "Autonomy level is set via CLI startup flags.");
    assert_eq!(s.say("/worktree"), "Git Worktree status: active");
    assert_eq!(s.say("/checkpoint"), "Checkpoint recorded.");
    assert_eq!(s.say("/restore"), "Session restored to latest checkpoint.");
    assert_eq!(s.say("/flows"), "Flows directory: active");
    assert_eq!(s.say("/compact"), "Context compaction scheduled.");
    assert_eq!(s.say("/tool-output"), "[Tool Output: bash]\none\ntwo");
    assert_eq!(s.say("/tool-output 1"), "[Tool Output: bash]\none\ntwo");
    assert!(s.say("/tool-output 9").starts_with("No tool output with index `9`. Available:\n"));
    assert!(s
        .say("/tool-output x")
        .starts_with("Unknown selector `x`. Use `last` or a 1-based index.\n"));
    assert!(s.say("/tools").starts_with("Tool outputs:\n"));
    assert_eq!(s.say("/color"), "Color is off.");
    assert_eq!(s.say("/color ON"), "Color enabled.");
    assert_eq!(s.say("/color"), "Color is on.");
    assert_eq!(s.say("/color off"), "Color disabled.");
    assert_eq!(s.say("/provider"), "Active provider models: 2");
    assert!(s.say("/help").contains("/model [id]"));
    assert_eq!(s.say("/nope x"), "Unknown command `/nope`. Type /help for available options.");
}

#[test]
fn commands_that_need_files_say_so() {
    let mut s = Session::new();
    assert!(matches!(s.run("/sessions"), CommandResult::Load(Request::Sessions)));
    assert!(matches!(s.run("/undo"), CommandResult::Load(Request::Undo)));
    assert!(matches!(s.run("/harness"), CommandResult::Load(Request::Harness)));
    assert!(matches!(s.run("/todos"), CommandResult::Load(Request::Todos)));
    assert!(matches!(s.run("/journal"), CommandResult::Load(Request::Journal)));
    assert!(matches!(s.run("/refine"), CommandResult::Load(Request::Refine(None))));
    assert!(matches!(
        s.run("/refine  the tests"),
        CommandResult::Load(Request::Refine(Some(f))) if f == "the tests"
    ));
    assert_eq!(sessions_answer(&[]), "No prior sessions found for this directory.");
    assert_eq!(sessions_answer(&["/s/1".to_string()]), "Sessions:\n  - /s/1\n");
    assert_eq!(undo_answer(&Undone::Nothing), "Nothing to undo.");
    assert_eq!(
        undo_answer(&Undone::Done { action: "restored".to_string(), path: "a.rs".to_string() }),
        "Undo: restored a.rs"
    );
    assert_eq!(undo_answer(&Undone::Failed("x".to_string())), "Undo error: x");
    assert_eq!(harness_answer(&[]), "No active harness notes.");
    assert_eq!(
        harness_answer(&[("Note".to_string(), "be terse".to_string())]),
        "Harness Notes:\n  - [Note] be terse\n"
    );
    assert_eq!(refine_answer(&Ok(vec![])), "No refinements proposed.");
    assert_eq!(refine_answer(&Err("x".to_string())), "Refine error: x");
    let op = RefineOp {
        action: "add".to_string(),
        kind: "note".to_string(),
        reason: "why".to_string(),
        text: "what".to_string(),
    };
    assert_eq!(
        refine_answer(&Ok(vec![op])),
        "1 refinement(s) proposed:\n  [add note] why: what\n"
    );
    assert_eq!(todos_answer(&[]), "No plan recorded for this session.");
    let todo = |step, completed| TodoItem { step, text: "t".to_string(), completed };
    assert_eq!(todos_answer(&[todo(1, true), todo(2, false)]), "  ✓ 1. t\n  ○ 2. t\n");
    assert_eq!(journal_answer(&[]), "Journal empty.");
    let row = JournalRow {
        time: "12:00".to_string(),
        kind: "tool".to_string(),
        text: "ls".to_string(),
    };
    assert_eq!(journal_answer(&[row]), "Journal:\n[12:00] tool ls\n");
}

// ------------------------------------------------------------------------- turns
fn shown(outs: Vec<ReplOut>) -> String {
    outs.into_iter()
        .map(|o| match o {
            ReplOut::Print(s) => s,
            ReplOut::StopThinking => String::new(),
            ReplOut::Snapshot(path) => format!("<snapshot {path}>"),
        })
        .collect()
}

fn text_delta(delta: &str) -> AgentEvent {
    AgentEvent::MessageUpdate { delta: StreamEvent::TextDelta { delta: delta.to_string() } }
}

#[test]
fn a_turn_is_shown_without_its_trust_block() {
    let ansi = plain();
    let mut repl = Repl::new(60);
    repl.begin_turn(60);
    let mut out = String::new();
    for delta in ["All done", ".\n<trust><confi", "dence>80</confidence></trust>"] {
        out.push_str(&shown(repl.on_event(&ansi, &text_delta(delta), 60)));
    }
    let end = repl.end_turn(&ansi, None, 60);
    assert!(end.trust.as_ref().is_some_and(|t| t.confidence == Some(80)));
    assert_eq!(end.full_text, "All done.\n<trust><confidence>80</confidence></trust>");
    out.push_str(&shown(end.outs));
    assert!(out.contains("All done."), "{out}");
    assert!(!out.contains("<trust>") && !out.contains("<confidence>"), "{out}");
}

#[test]
fn tools_are_shown_and_kept() {
    let ansi = plain();
    let mut repl = Repl::new(60);
    let start = AgentEvent::ToolExecutionStart {
        tool_call_id: "1".to_string(),
        name: "write".to_string(),
        arguments: doc("{\"path\":\"a.rs\"}"),
    };
    let outs = repl.on_event(&ansi, &start, 60);
    assert!(matches!(&outs[0], ReplOut::Snapshot(p) if p == "a.rs"));
    let end = AgentEvent::ToolExecutionEnd {
        tool_call_id: "1".to_string(),
        outcome: ToolOutcome::error("no space"),
    };
    let out = shown(repl.on_event(&ansi, &end, 60));
    assert!(out.contains("✗ no space"), "{out}");
    assert_eq!(repl.store().get("last").map(|o| o.full), Some("no space".to_string()));
    let notice = AgentEvent::Notice { message: "careful".to_string() };
    assert_eq!(shown(repl.on_event(&ansi, &notice, 60)), "\n[Notice] careful\n");
    let out = shown(repl.end_turn(&ansi, Some("boom"), 60).outs);
    assert!(out.contains("boom"), "{out}");
}

#[test]
fn what_the_agent_read_goes_before_the_text() {
    let ansi = plain();
    let mut repl = Repl::new(60);
    let mut trust = TrustData::default();
    trust.confidence = Some(30);
    let event = AgentEvent::TurnEnd { message: reply(vec![], trust), tool_results: 0 };
    repl.on_event(&ansi, &event, 60);
    repl.on_event(&ansi, &text_delta("<trust><confidence>80</confidence></trust>"), 60);
    let end = repl.end_turn(&ansi, None, 60);
    assert_eq!(end.trust.and_then(|t| t.confidence), Some(30));
}

#[test]
fn lines_are_read() {
    assert!(matches!(read_input(Input::Line("  ".to_string())), Intent::Skip));
    assert!(matches!(
        read_input(Input::Line(" /help ".to_string())),
        Intent::Command(c) if c == "/help"
    ));
    assert!(matches!(
        read_input(Input::Line(" hi ".to_string())),
        Intent::Prompt(p) if p == "hi"
    ));
    assert!(matches!(read_input(Input::Interrupted), Intent::Stop(s) if s == "CTRL-C"));
    assert!(matches!(read_input(Input::Eof), Intent::Stop(s) if s == "CTRL-D"));
    assert!(matches!(
        read_input(Input::Failed("Io".to_string())),
        Intent::Stop(s) if s == "Error: Io"
    ));
    let ansi = plain();
    assert_eq!(prompt_text(&ansi, Mode::Plan, "m"), "agent-m (plan · m) > ");
    assert_eq!(evidence_line(&ansi, "gone"), "[evidence] gone");
    let todos = vec![
        TodoItem { step: 1, text: "a".to_string(), completed: true },
        TodoItem { step: 2, text: "b".to_string(), completed: false },
    ];
    let plan = print_plan(&ansi, &todos, true, 60);
    assert!(plan.contains("plan (1/2) · read-only"), "{plan}");
    assert!(plan.contains("✓ 1. a") && plan.contains("○ 2. b"), "{plan}");
}

#[test]
fn colors_frame_what_they_color() {
    let on = init_color(true, false);
    assert_eq!(fg_only(&on, "x", Shade::Green), "\u{1b}[38;5;71mx\u{1b}[39m");
    assert!(yellow(&on, "x").starts_with("\u{1b}[38;5;136m"));
    assert!(dim(&on, "x").starts_with("\u{1b}[38;5;244m"));
    assert!(tint_cell(&on, "x").contains("\u{1b}[48;5;236m"));
    assert_eq!(tint_cell(&plain(), "x"), "x");
    assert!(is_full_reset("\u{1b}[0m"));
    assert!(!is_full_reset("\u{1b}[39m"));
    assert_eq!(yellow(&init_color(true, true), "x"), "x");
}

// --------------------------------------------------------------- smaller decisions
#[test]
fn destructive_commands_have_their_reasons() {
    let danger = |command: &str| {
        dangerous_bash(&ToolCallInfo {
            tool_call_id: "t1".to_string(),
            name: "bash".to_string(),
            arguments: Json::object().with("command", Json::text(command)),
        })
    };
    for (command, reason) in [
        ("rm -rf /tmp/x", "recursive force delete (rm -rf)"),
        ("rm -fr /tmp/x", "recursive force delete (rm -rf)"),
        ("rm -r -f /tmp/x", "recursive force delete (rm -r -f)"),
        ("rm -f -r /tmp/x", "recursive force delete (rm -r -f)"),
        ("RM -R -F /tmp/x", "recursive force delete (rm -r -f)"),
        ("rm --recursive --force x", "recursive force delete (rm --recursive --force)"),
        ("rm --force x --recursive", "recursive force delete (rm --recursive --force)"),
        ("sudo rm x", "sudo rm"),
        ("git checkout -f main", "git checkout --force"),
        ("git reset --hard", "git reset --hard"),
        ("git clean -fd", "git clean -f"),
        ("find . -name x -delete", "find -exec/-delete"),
        ("find -exec rm {} +", "find -exec/-delete"),
        ("dd if=x of=/dev/sda", "device/partition write"),
        ("chmod -R 777 .", "recursive chmod"),
        ("echo x > /dev/sda", "write to a device"),
        ("echo x >/dev/sda", "write to a device"),
    ] {
        assert_eq!(danger(command), Some(reason), "{command}");
    }
    for command in ["rm -r x", "rm -f x", "rm --recursive x", "chmod 644 x", "ls", "find . -name x"] {
        assert_eq!(danger(command), None, "{command}");
    }
}

#[test]
fn trust_is_taken_out_of_a_reply() {
    let parts = vec![
        ContentPart::Thinking { thinking: "hm".to_string() },
        ContentPart::Text {
            text: "Done. <trust><confidence>70</confidence></trust>".to_string(),
        },
    ];
    let (trust, parts) = extract_trust(parts);
    assert_eq!(trust.confidence, Some(70));
    assert!(matches!(&parts[1], ContentPart::Text { text } if text.trim_end() == "Done."));
}

#[test]
fn delegates_answer_with_what_they_said_last() {
    let text = |t: &str| vec![ContentPart::Text { text: t.to_string() }];
    let call = ContentPart::ToolCall {
        id: "1".to_string(),
        name: "read".to_string(),
        arguments: Json::object(),
    };
    let mut looking = text("looking");
    looking.push(call);
    let messages = vec![
        reply(looking, TrustData::default()),
        reply(text("last"), TrustData::default()),
    ];
    let outcome = delegate_answer(&messages);
    assert!(!outcome.is_error);
    assert_eq!(outcome.content, "last");
    let silent = vec![
        reply(text(" answer\n"), TrustData::default()),
        reply(text("  "), TrustData::default()),
        reply(vec![], TrustData::default()),
    ];
    assert_eq!(delegate_answer(&silent).content, "answer", "the last message that has text");
    let mut two = text("a");
    two.extend(text("b"));
    assert_eq!(delegate_answer(&[reply(two, TrustData::default())]).content, "a\nb");
    assert!(delegate_answer(&[]).is_error);
    assert_eq!(delegate_answer(&[]).content, "delegate: sub-agent produced no answer");
    assert_eq!(final_answer(&messages, "streamed"), "last");
    assert_eq!(final_answer(&[], "streamed"), "streamed");
}

#[test]
fn summaries_reach_the_model_as_user_messages() {
    let messages = vec![SessionMessage::Summary { text: "so far".to_string() }];
    match &to_llm_messages(&messages)[0] {
        LlmMessage::User { content, .. } => assert!(content.contains("so far")),
        _ => panic!("a user message"),
    }
}

#[test]
fn plan_mode_allows_reading_alone() {
    for name in ["read", "grep", "find", "ls"] {
        assert!(allowed_in_plan(name), "{name}");
        assert!(is_read_only(name), "{name}");
    }
    for name in ["write", "edit", "bash"] {
        assert!(!allowed_in_plan(name), "{name}");
        assert!(!is_read_only(name), "{name}");
    }
}

#[test]
fn risky_commands_are_known() {
    assert!(command_risk("rm -rf /").is_some());
    assert!(command_risk("ls -la").is_none());
    let call = |command: &str| ToolCallInfo {
        tool_call_id: "1".to_string(),
        name: "bash".to_string(),
        arguments: Json::object().with("command", Json::text(command)),
    };
    assert!(dangerous_bash(&call("sudo rm -rf /")).is_some());
    assert!(dangerous_bash(&call("git status")).is_none());
    assert!(matches!(harden(None, Permission::Allowed), Permission::Allowed));
    assert!(matches!(
        harden(Some("deletes".to_string()), Permission::Allowed),
        Permission::Denied(_)
    ));
    let names = vec!["bash".to_string()];
    assert!(is_kept("bash", &names, &[]));
    assert!(!is_kept("bash", &names, &names));
    assert!(is_kept("x", &[], &[]));
    assert!(describe_call(&call("ls")).contains("ls"));
}

#[test]
fn keys_models_and_addresses() {
    let key = Some("k".to_string());
    assert_eq!(key_in_file("{\"providers\":{\"openai\":{\"apiKey\":\"k\"}}}", "openai"), key);
    assert_eq!(key_in_file("{\"openai\":\"k\"}", "openai"), key);
    assert_eq!(key_in_file("OPENAI_API_KEY=k\n", "openai"), key);
    assert_eq!(key_in_file("nope", "openai"), None);
    assert!(missing_api_key("openai").message().contains("openai"));
    assert_eq!(endpoint("https://x/v1/", "/chat"), "https://x/v1/chat");
    let models = vec![ModelSpec::new("a"), ModelSpec::new("b")];
    assert_eq!(find_model(&models, "b"), Some(1));
    assert_eq!(find_model(&models, "c"), None);
    assert!(ProviderConfig::is_valid_id("my-provider"));
    assert!(!ProviderConfig::is_valid_id(""));
    let merged = merge_providers(doc("{\"x\":1,\"providers\":[]}"), doc("[{}]"));
    assert_eq!(json::render(&merged), "{\"providers\":[{}],\"x\":1}");
    assert_eq!(repo_slug("/home/u/app\n"), "app");
    assert_eq!(repo_slug(""), "repo");
    assert_eq!(count_lines("a\nb\n"), "a\nb\n".lines().count() as u64);
}

#[test]
fn slack_is_asked_and_answers() {
    let token = |t: &str| Some(t.to_string());
    assert!(from_env(None, token("xoxb")).is_err());
    assert!(from_env(token("xapp"), None).is_err());
    assert_eq!(
        from_env(token("xapp"), token("xoxb")),
        Ok(("xapp".to_string(), "xoxb".to_string()))
    );
    assert_eq!(json::render(&post_body("C1", "hi")), "{\"channel\":\"C1\",\"text\":\"hi\"}");
    assert_eq!(post_result(&doc("{\"ok\":true}")), Ok(()));
    assert!(post_result(&doc("{\"ok\":false,\"error\":\"not_in_channel\"}"))
        .is_err_and(|e| e.contains("not_in_channel")));
    assert_eq!(
        open_socket_url(&doc("{\"ok\":true,\"url\":\"wss://x\"}")),
        Ok("wss://x".to_string())
    );
    assert!(open_socket_url(&doc("{\"ok\":false,\"error\":\"e\"}")).is_err());
    let mut human = HumanChannel::new();
    let asked = human.ask("sure?", &None);
    assert_eq!(human.pending_count(), 1);
    human.give_up(&asked.id);
    assert_eq!(human.pending_count(), 0);
    assert!(human.resolve(&asked.id, "yes").is_none());
}

#[test]
fn reports_of_a_ticket() {
    let picked = PickedTicket {
        key: "A-1".to_string(),
        summary: "Fix".to_string(),
        repo: "acme/app".to_string(),
    };
    assert_eq!(
        json::render(&pickup_report("T", &picked)),
        "{\"kind\":\"pickup\",\"repo\":\"acme/app\",\"summary\":\"Fix\",\"ticket\":\"A-1\",\"ts\":\"T\"}"
    );
    let progress = FlowProgress {
        step_index: 0,
        step_name: "plan".to_string(),
        status: StepStatus::Running,
    };
    assert_eq!(
        json::render(&step_report("T", &progress)),
        "{\"kind\":\"step\",\"status\":\"running\",\"step\":\"plan\",\"ts\":\"T\"}"
    );
    let run = FlowRun {
        flow_name: "f".to_string(),
        steps: vec![StepRecord::succeeded(
            "pr",
            "tool",
            doc("{\"content\":\"PR created: https://x/7\"}"),
        )],
        context: FlowContext::new(),
        fix_rounds: 2,
    };
    let (report, failed) = verdict_report("T", &run);
    assert!(!failed);
    assert_eq!(
        json::render(&report),
        "{\"fix_rounds\":2,\"kind\":\"verdict\",\"pr\":\"https://x/7\",\"status\":\"OK\",\"ts\":\"T\"}"
    );
    assert_eq!(
        no_report("/a/tickets/A-1.jsonl", "A-1"),
        "no ticket report for `A-1` at /a/tickets/A-1.jsonl (run `agent-m pickup --poll --workers N` or `agent-m ticket-run --ticket A-1` first)"
    );
    assert_eq!(repos_path("/a"), "/a/repos.json");
}

#[test]
fn records_of_a_flow() {
    let mut context = FlowContext::new();
    set_step_output(&mut context, "plan", Json::text("x"));
    assert_eq!(context.get("steps.plan.output").and_then(|v| v.as_str()), Some("x"));
    let records = vec![StepRecord::failed("c", "verify", "red")];
    let j = all_to_json(&records);
    let first = &j.as_array().expect("a list")[0];
    assert_eq!(first.get_str("name"), Some("c"));
    assert_eq!(first.get_str("error"), Some("red"));
    assert!(state_text("f", &records).contains("c"));
}

#[test]
fn the_agent_takes_what_it_is_given() {
    let mut agent = agent();
    agent.set_model("m2");
    agent.set_variant(Some("low".to_string()));
    agent.set_harness_block("\nNotes.".to_string());
    assert_eq!(agent.model(), "m2");
    let prompt = agent.options.current_system_prompt();
    assert!(prompt.starts_with("p\nNotes."), "{prompt}");
    assert!(prompt.contains("<trust>"));
    agent.restore_messages(vec![SessionMessage::User { content: "x".to_string(), images: vec![] }]);
    assert_eq!(agent.messages().len(), 1);
    agent.set_mode(Mode::Plan);
    assert!(agent.options.current_system_prompt().contains("PLAN MODE"));
    assert!(agent.options.active_tools().is_empty());
}
