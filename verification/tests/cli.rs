//! What is shown at the terminal, and the work on tickets.
use agent_m::agent::call::{ToolCallInfo, ToolOutcome};
use agent_m::agent::risk::RiskPolicy;
use agent_m::agent::session::AgentEvent;
use agent_m::agent::tool::Permission;
use agent_m::ai::trust::TrustData;
use agent_m::ai::types::StreamEvent;
use agent_m::cli::ansi::{self, Ansi};
use agent_m::cli::ask::{approval_text, ask_human, question_text, resolve_answer};
use agent_m::cli::human::{ChannelEvent, HumanChannel};
use agent_m::cli::pickup::{
    default_jql, load_repo_map, pick, pick_found, project_key, query_ticket, resolve_repo,
    transition_body, transition_ticket, Pick, PickInputs, RepoMap, REPOS_FILE,
};
use agent_m::cli::repl::{complete, hint, StreamFilter};
use agent_m::cli::section::{
    print_decision, render_box_inner, terminal_width, ReplyBox, SectionKind,
};
use agent_m::cli::slack::{
    ask_slack_permission, event_to_slack_text, flow_summary, handle_inbound,
    handle_inbound_orchestrated, parse_pickup_trigger, permission_text, read_socket,
    slack_progress, split_answer, FakeTransport, Inbound, RemoteHuman, SlackTransport,
};
use agent_m::cli::ticket_log;
use agent_m::cli::toolout::{
    finish_message, humanize, progress_message, summarize, ToolStore, MAX_HUMANIZE_CHARS,
    MAX_STORED, MAX_SUMMARY_CHARS,
};
use agent_m::cli::wrap::wrap_styled_line;
use agent_m::flow::executor::{FlowProgress, FlowRun};
use agent_m::flow::model::FlowContext;
use agent_m::flow::record::{StepRecord, StepStatus};
use agent_m::json::{self, Json};

fn doc(text: &str) -> Json {
    match json::parse(text) {
        Ok(j) => j,
        Err(e) => panic!("{e}"),
    }
}

fn colored() -> Ansi {
    ansi::init_color(true, false)
}

fn plain() -> Ansi {
    ansi::init_color(false, false)
}

// ---------------------------------------------------------------------- rendering
#[test]
fn render_markdown_heading() {
    for a in [plain(), colored()] {
        let out = ansi::render_markdown(&a, "## Hello world\nsome text");
        assert!(out.contains("Hello world"), "{out:?}");
        assert!(out.contains("some text"), "{out:?}");
    }
}

#[test]
fn render_markdown_fenced_block() {
    let src = "intro\n```\nfn foo() {}\n```\noutro";
    for a in [plain(), colored()] {
        let out = ansi::render_markdown(&a, src);
        assert!(out.contains("fn foo()"), "{out:?}");
        assert!(out.contains("intro"), "{out:?}");
        assert!(out.contains("outro"), "{out:?}");
    }
}

#[test]
fn render_markdown_bullet() {
    for a in [plain(), colored()] {
        let out = ansi::render_markdown(&a, "- item one\n- item two");
        assert!(out.contains("item one"), "{out:?}");
        assert!(out.contains("item two"), "{out:?}");
        assert!(out.contains('•'), "{out:?}");
    }
}

#[test]
fn render_inline_bold_and_code() {
    for a in [plain(), colored()] {
        let out = ansi::render_inline(&a, "say **hello** and `world`");
        assert!(out.contains("hello"), "{out:?}");
        assert!(out.contains("world"), "{out:?}");
    }
}

#[test]
fn render_inline_code_followed_by_em_dash() {
    for a in [plain(), colored()] {
        let out = ansi::render_inline(&a, "`/model [id]` — query or switch the active model");
        assert!(out.contains("/model [id]"), "{out:?}");
        assert!(out.contains("— query or switch the active model"), "{out:?}");
    }
}

#[test]
fn styles_wrap_text_and_can_be_stripped() {
    let mut a = colored();
    assert!(ansi::enabled(&a));
    let red = ansi::red(&a, "stop");
    assert!(red.starts_with("\u{1b}[") && red.ends_with("\u{1b}[0m"), "{red:?}");
    assert_eq!(ansi::strip_ansi(&red), "stop");
    assert_eq!(ansi::visible_width(&red), 4);
    let bold = ansi::bold(&a, "b");
    assert!(bold.starts_with("\u{1b}[1m"), "{bold:?}");
    assert_eq!(ansi::strip_ansi(&bold), "b");
    ansi::set_color(&mut a, false);
    assert_eq!(ansi::red(&a, "stop"), "stop");
    assert_eq!(ansi::cyan(&a, "x"), "x");
    assert!(!ansi::enabled(&ansi::init_color(true, true)));
}

#[test]
fn wraps_long_plain_line_to_inner_width() {
    let a = colored();
    let long = "word ".repeat(20);
    let boxed = render_box_inner(&a, "tools", &[long], SectionKind::Tools, 40, true);
    for l in boxed.lines() {
        assert!(ansi::visible_width(l) <= 40, "overflow: {l:?}");
    }
    assert!(boxed.contains('╭'));
    assert!(boxed.contains('╰'));
    assert!(boxed.contains('│'));
}

#[test]
fn panels_keep_their_width() {
    let a = colored();
    let styled = format!("{} and {}", ansi::bold(&a, "a rather long start"), "word ".repeat(12));
    for kind in [SectionKind::Tools, SectionKind::Plan] {
        let boxed = render_box_inner(&a, "tools", &[styled.clone()], kind, 40, true);
        let rows: Vec<&str> = boxed.lines().collect();
        assert!(rows.len() > 3);
        for row in &rows {
            assert_eq!(ansi::visible_width(row), 40, "{row:?}");
        }
        let first = ansi::strip_ansi(rows[1]);
        assert!(first.starts_with("│ a rather long start"), "{first:?}");
        assert!(first.ends_with(" │"), "{first:?}");
    }
    for row in wrap_styled_line(&styled, 10) {
        assert!(ansi::visible_width(&row) <= 10, "overflow: {row:?}");
    }
}

#[test]
fn wraps_on_utf8_em_dash_without_panic() {
    let long = format!("a{}\u{2014}b ", "x".repeat(5)).repeat(20);
    let rows = wrap_styled_line(&long, 20);
    for r in &rows {
        assert!(ansi::visible_width(r) <= 20, "overflow: {r:?}");
    }
    assert!(!rows.is_empty());
}

#[test]
fn plain_fallback_when_color_off() {
    let a = plain();
    let out =
        render_box_inner(&a, "tools", &["hello world".to_string()], SectionKind::Tools, 40, false);
    assert!(out.contains("--- tools ---"), "{out:?}");
    assert!(out.contains("  hello world"), "{out:?}");
    assert!(!out.contains('╭'));
}

#[test]
fn decision_title_includes_confidence() {
    assert_eq!(
        SectionKind::Decision { tier: "high", confidence: 95 }.title_suffix(),
        " · 95% high"
    );
    assert_eq!(SectionKind::Decision { tier: "", confidence: 0 }.title_suffix(), "");
}

#[test]
fn decision_box_renders_fields() {
    let trust = TrustData {
        confidence: Some(95),
        reason: Some("Grep found no matches".into()),
        uncertainty: Some("local files only".into()),
        ..Default::default()
    };
    let out = print_decision(&plain(), &trust, 80);
    assert!(out.contains("decision"), "{out:?}");
    assert!(out.contains("reason: Grep found no matches"), "{out:?}");
    assert!(out.contains("uncertainty: local files only"), "{out:?}");
}

#[test]
fn empty_trust_renders_nothing() {
    assert_eq!(print_decision(&plain(), &TrustData::default(), 80), "");
}

#[test]
fn terminal_width_is_bounded() {
    for columns in [None, Some(0), Some(10), Some(80), Some(500)] {
        let w = terminal_width(columns);
        assert!(w >= 24 && w <= 160);
    }
    assert_eq!(terminal_width(Some(80)), 80);
    assert_eq!(terminal_width(Some(150)), 100);
}

#[test]
fn panels_are_at_most_a_hundred_wide() {
    let a = colored();
    for (width, expected) in [(10, 24), (24, 24), (60, 60), (100, 100), (150, 100)] {
        let lines = ["hello".to_string()];
        let boxed = render_box_inner(&a, "tools", &lines, SectionKind::Tools, width, true);
        let rows: Vec<&str> = boxed.lines().collect();
        assert_eq!(ansi::visible_width(rows[0]), expected);
        assert_eq!(ansi::visible_width(rows[rows.len() - 1]), expected);
    }
    let title = "t".repeat(200);
    let boxed = render_box_inner(&a, &title, &[], SectionKind::Tools, 30, true);
    let top = ansi::strip_ansi(boxed.lines().next().unwrap_or_default());
    assert_eq!(top, format!("╭─ {}… ─╮", "t".repeat(23)));
}

#[test]
fn rows_take_up_the_style_at_the_break() {
    assert_eq!(
        wrap_styled_line("\x1b[31mabcd\x1b[0m", 2),
        vec!["\x1b[31mab", "\x1b[31mcd\x1b[0m"]
    );
    assert_eq!(
        wrap_styled_line("ab \x1b[31mcd\x1b[0m ef", 4),
        vec!["ab ", "\x1b[31mcd\x1b[0m ", "ef"],
        "what is selected behind the break is not taken up"
    );
    let line = "\x1b[1mone\x1b[0m two \x1b[32mthree four\x1b[0m five";
    for inner in 1..12 {
        let rows = wrap_styled_line(line, inner);
        let seen: String = rows.iter().map(|row| ansi::strip_ansi(row)).collect();
        assert_eq!(seen, ansi::strip_ansi(line));
    }
    assert_eq!(wrap_styled_line("no escapes here", 4).concat(), "no escapes here");
}

#[test]
fn reply_box_shows_what_was_pushed() {
    let a = plain();
    let mut reply = ReplyBox::new(60);
    let mut out = reply.push(&a, "Hello ");
    out.push_str(&reply.push(&a, "world\nsecond"));
    out.push_str(&reply.finish(&a));
    assert!(out.contains("Hello world"), "{out:?}");
    assert!(out.contains("second"), "{out:?}");
}

#[test]
fn push_handles_multibyte_across_flush_boundary() {
    let mut sf = StreamFilter::new();
    let mut fed = String::new();
    let mut total = String::new();
    for delta in ["aaaaaaaa", "\u{2014}", "bbbbbbbbbbb"] {
        fed.push_str(delta);
        total.push_str(&sf.push(delta));
    }
    total.push_str(&sf.finish());
    assert_eq!(fed, total);
}

#[test]
fn trust_blocks_are_held_back() {
    let mut sf = StreamFilter::new();
    let mut shown = String::new();
    for delta in ["Done it.\n", "<tru", "st><confidence>", "90</confidence></trust>"] {
        shown.push_str(&sf.push(delta));
    }
    shown.push_str(&sf.finish());
    assert!(!shown.contains("<trust>"), "{shown:?}");
    assert!(shown.contains("Done it."), "{shown:?}");
}

#[test]
fn commands_are_completed_and_hinted() {
    assert!(complete("/mo", "/mo").contains(&"/model".to_string()));
    assert_eq!(hint("/mode", true), Some("l".to_string()));
    assert_eq!(hint("/und", true), Some("o".to_string()));
    assert_eq!(hint("/nope", true), None);
    assert_eq!(
        complete("/mo", "/mo"),
        vec!["/model".to_string(), "/mode".to_string()]
    );
    assert!(complete("hello", "he").is_empty());
    assert_eq!(hint("hello", true), None);
    assert_eq!(hint("/model", false), None);
}

// -------------------------------------------------------------------- tool output
#[test]
fn summarize_shows_first_and_last() {
    let (text, extra) = summarize("line one\nline two\n\nline four");
    assert!(text.contains("line one"), "{text:?}");
    assert!(text.contains("line four"), "{text:?}");
    assert!(text.contains('…'), "{text:?}");
    assert_eq!(extra, 3);
}

#[test]
fn summarize_single_line_no_separator() {
    let (text, extra) = summarize("only line");
    assert_eq!(text, "only line");
    assert_eq!(extra, 0);
}

#[test]
fn summarize_empty() {
    let (text, extra) = summarize("");
    assert_eq!(text, "");
    assert_eq!(extra, 0);
}

#[test]
fn summarize_truncates_long_lines() {
    let long = "x".repeat(300);
    let (text, _) = summarize(&long);
    assert!(text.chars().count() <= MAX_SUMMARY_CHARS + 1);
    assert!(text.ends_with('…'));
}

#[test]
fn store_indexing_is_one_based_from_most_recent() {
    let mut store = ToolStore::new();
    store.push("first", "1".to_string());
    store.push("second", "2".to_string());
    assert_eq!(store.get("last").unwrap().full, "2");
    assert_eq!(store.get("latest").unwrap().full, "2");
    assert_eq!(store.get("1").unwrap().full, "2");
    assert_eq!(store.get("2").unwrap().full, "1");
    assert!(store.get("3").is_none());
    assert!(store.get("0").is_none());
}

#[test]
fn store_bounds_size() {
    let mut store = ToolStore::new();
    for i in 0..MAX_STORED + 10 {
        store.push(&format!("t{i}"), format!("{i}"));
    }
    assert_eq!(store.list().lines().count(), MAX_STORED);
}

#[test]
fn humanize_known_tools() {
    assert_eq!(
        humanize("find", &doc("{\"pattern\": \"**/*.config.*\"}")),
        "finding \"**/*.config.*\""
    );
    assert_eq!(
        humanize("read", &doc("{\"path\": \"src/main.jsx\"}")),
        "reading \"src/main.jsx\""
    );
    assert_eq!(humanize("bash", &doc("{\"command\": \"ls -la\"}")), "running \"ls -la\"");
    assert_eq!(
        humanize("ask", &doc("{\"question\": \"backend or wasm?\"}")),
        "asking \"backend or wasm?\""
    );
    assert_eq!(
        humanize("web_search", &doc("{\"query\": \"rust mcp\"}")),
        "searching the web for \"rust mcp\""
    );
}

#[test]
fn humanize_escapes_quotes() {
    assert_eq!(
        humanize("grep", &doc("{\"pattern\": \"say \\\"hi\\\"\"}")),
        "searching for \"say \\\"hi\\\"\""
    );
}

#[test]
fn humanize_plugin_tools_use_generic_keys() {
    assert_eq!(humanize("jira", &doc("{\"query\": \"agent-m\"}")), "jira \"agent-m\"");
    assert_eq!(
        humanize("github-repo-info", &doc("{\"path\": \".\"}")),
        "github-repo-info \".\""
    );
}

#[test]
fn humanize_unknown_falls_back_to_json() {
    assert_eq!(
        humanize("mystery-tool", &doc("{\"a\": 1, \"b\": \"x\"}")),
        "mystery-tool {\"a\":1,\"b\":\"x\"}"
    );
}

#[test]
fn humanize_truncates_long_values() {
    let long = "x".repeat(300);
    let out = humanize("bash", &Json::object().with("command", Json::text(&long)));
    assert!(out.chars().count() <= MAX_HUMANIZE_CHARS);
}

#[test]
fn progress_tells_what_runs_and_what_failed() {
    assert!(progress_message("bash", "ls").contains("bash"));
    assert!(finish_message(true, "boom").unwrap().contains("boom"));
}

// ------------------------------------------------------------------------ tickets
#[test]
fn project_key_splits_prefix() {
    assert_eq!(project_key("PROJ-42"), "PROJ");
    assert_eq!(project_key("TEAM-PROJ-7"), "TEAM");
    assert_eq!(project_key("noproject"), "noproject");
}

#[test]
fn default_jql_excludes_in_progress() {
    let jql = default_jql();
    assert!(jql.contains("In Progress"), "{jql}");
    assert!(jql.contains("Done"), "{jql}");
    assert!(jql.contains("ORDER BY updated DESC"), "{jql}");
}

#[test]
fn resolve_repo_override_wins_then_map() {
    let mut repos = RepoMap::new();
    repos.insert("PROJ".to_string(), "https://github.com/acme/app.git".to_string());
    assert_eq!(resolve_repo("PROJ-1", &repos, Some("/local/repo")).unwrap(), "/local/repo");
    assert_eq!(
        resolve_repo("PROJ-2", &repos, None).unwrap(),
        "https://github.com/acme/app.git"
    );
    let err = resolve_repo("OTHER-3", &repos, None).unwrap_err();
    assert!(err.contains("no repo mapping for project `OTHER`"), "{err}");
    assert!(err.contains(REPOS_FILE), "{err}");
}

#[test]
fn missing_repo_file_loads_empty() {
    assert!(load_repo_map(None).is_empty());
}

#[test]
fn loads_repo_map_from_file() {
    let repos = load_repo_map(Some("{ \"PROJ\": \"https://github.com/acme/app.git\" }"));
    assert_eq!(
        repos.get("PROJ").map(String::as_str),
        Some("https://github.com/acme/app.git")
    );
}

#[test]
fn query_ticket_parses_first_issue() {
    let body = doc(
        "{\"issues\": [
            { \"key\": \"PROJ-7\", \"fields\": { \"summary\": \"Fix login\" } },
            { \"key\": \"PROJ-9\", \"fields\": { \"summary\": \"Add tests\" } }
        ]}",
    );
    let got = query_ticket(true, "200 OK", &body).expect("query");
    assert_eq!(got, Some(("PROJ-7".to_string(), "Fix login".to_string())));
}

#[test]
fn query_ticket_empty_when_no_issues() {
    let got = query_ticket(true, "200 OK", &doc("{\"issues\": []}")).expect("query");
    assert_eq!(got, None);
    assert!(query_ticket(false, "401 Unauthorized", &doc("{}")).is_err());
}

#[test]
fn transition_posts_transition_id() {
    assert_eq!(json::render(&transition_body("11")), "{\"transition\":{\"id\":\"11\"}}");
    transition_ticket(true, "204 No Content", &Json::Null).expect("transition");
    assert!(transition_ticket(false, "404 Not Found", &doc("{}")).is_err());
}

fn inputs<'a>(ticket: Option<&'a str>, repo: Option<&'a str>) -> PickInputs<'a> {
    PickInputs {
        ticket,
        repo,
        jql: None,
        jira_url: Some("https://jira.example"),
        jira_token: Some("t"),
    }
}

#[test]
fn pick_goes_by_what_is_named() {
    let mut repos = RepoMap::new();
    repos.insert("PROJ".to_string(), "/fixture".to_string());
    match pick(&inputs(Some("PROJ-1"), None), &repos) {
        Pick::Picked(picked) => {
            assert_eq!(picked.key, "PROJ-1");
            assert_eq!(picked.repo, "/fixture");
        }
        _ => panic!("a named ticket is picked at once"),
    }
    assert!(matches!(pick(&inputs(Some("X-1"), None), &repos), Pick::Failed(_)));
    match pick(&inputs(None, None), &repos) {
        Pick::Query { base, jql, .. } => {
            assert_eq!(base, "https://jira.example");
            assert_eq!(jql, default_jql());
        }
        _ => panic!("without a ticket there is a search"),
    }
    let found = Some(("PROJ-7".to_string(), "Fix login".to_string()));
    match pick_found(&found, "jql", &repos, None) {
        Pick::Picked(picked) => {
            assert_eq!((picked.key.as_str(), picked.repo.as_str()), ("PROJ-7", "/fixture"));
            assert_eq!(picked.summary, "Fix login");
        }
        _ => panic!("the ticket that was found is picked"),
    }
    assert!(matches!(pick_found(&None, "jql", &repos, None), Pick::Failed(_)));
}

#[test]
fn append_and_read_round_trip() {
    let mut report = String::new();
    report.push_str(&ticket_log::append(&doc(
        "{ \"ts\": \"t1\", \"kind\": \"pickup\", \"ticket\": \"PROJ-42\", \"summary\": \"Fix the bug\" }",
    )));
    report.push_str(&ticket_log::append(&doc(
        "{ \"ts\": \"t2\", \"kind\": \"step\", \"step\": \"verify\", \"status\": \"running\" }",
    )));
    let path = ticket_log::report_path("/agent", "PROJ-42");
    assert_eq!(path, "/agent/tickets/PROJ-42.jsonl");
    let lines = ticket_log::read_lines(&path, Some(&report)).expect("read");
    assert_eq!(lines.len(), 2, "both lines must round-trip");
    assert!(lines[0].contains("\"kind\":\"pickup\""), "got: {}", lines[0]);
    assert!(lines[1].contains("\"status\":\"running\""), "got: {}", lines[1]);
    assert_eq!(ticket_log::new_lines(&lines, 1).len(), 1);
}

#[test]
fn read_lines_missing_report_errors() {
    let err = ticket_log::read_lines("/agent/tickets/PROJ-1.jsonl", None).expect_err("no report yet");
    assert!(err.contains("no ticket report"), "got: {err}");
}

#[test]
fn render_verdict_includes_pr_when_present() {
    let rendered = ticket_log::render_line(
        "{\"ts\":\"t3\",\"kind\":\"verdict\",\"status\":\"OK\",\"fix_rounds\":2,\"pr\":\"https://github.com/o/r/pull/7\"}",
    );
    assert!(rendered.contains("verdict OK"), "got: {rendered}");
    assert!(rendered.contains("fix rounds: 2"), "got: {rendered}");
    assert!(rendered.contains("pull/7"), "got: {rendered}");
}

#[test]
fn render_step_line_shows_status() {
    let rendered = ticket_log::render_line(
        "{\"ts\":\"t4\",\"kind\":\"step\",\"step\":\"github-create-pr\",\"status\":\"failed\"}",
    );
    assert!(rendered.contains("[failed] github-create-pr"), "got: {rendered}");
}

// -------------------------------------------------------------------------- slack
#[test]
fn split_answer_parses_ask_replies() {
    assert_eq!(
        split_answer("ask-3 approve"),
        Some(("ask-3".to_string(), "approve".to_string()))
    );
    assert_eq!(
        split_answer("ask-12 yes please"),
        Some(("ask-12".to_string(), "yes please".to_string()))
    );
    assert_eq!(split_answer("hello there"), None);
    assert_eq!(split_answer("ask-5"), None);
}

#[test]
fn event_to_slack_text_maps_relevant_events() {
    let start = AgentEvent::ToolExecutionStart {
        tool_call_id: "1".into(),
        name: "bash".into(),
        arguments: Json::object(),
    };
    assert_eq!(event_to_slack_text(&start).unwrap(), "🔧 `bash`…");
    let notice = AgentEvent::Notice { message: "model error: boom".into() };
    assert!(event_to_slack_text(&notice).unwrap().contains("model error"));
    assert!(event_to_slack_text(&AgentEvent::AgentStart).is_none());
    let failed = AgentEvent::ToolExecutionEnd {
        tool_call_id: "1".into(),
        outcome: ToolOutcome::error("boom"),
    };
    assert_eq!(event_to_slack_text(&failed).unwrap(), "✗ a tool failed — see the session log");
}

fn message(channel: &str, text: &str) -> Inbound {
    Inbound::Message {
        channel: channel.into(),
        user: "U9".into(),
        text: text.into(),
        ts: "1".into(),
    }
}

/// The id in the last question that was posted.
fn posted_id(transport: &FakeTransport) -> String {
    let posted = transport.posted();
    let (_, text) = posted.iter().rev().find(|(_, t)| t.starts_with('❓')).expect("a question");
    text.split_whitespace().find(|w| w.starts_with("ask-")).expect("an id").to_string()
}

#[test]
fn ask_posts_then_resolves_from_inbound_reply() {
    let mut transport = FakeTransport::new();
    let mut human = HumanChannel::new();
    let asked = human.ask("Approve the plan?", &None);
    assert!(transport.post_message("U123", &asked.text).is_ok());
    let id = posted_id(&transport);
    assert_eq!(id, asked.id);
    let step = handle_inbound(message("U123", &format!("{id} approved")), &mut human);
    assert_eq!(step.answered, Some((id.clone(), "approved".to_string())));
    assert_eq!(
        step.post,
        Some(("U123".to_string(), format!("✅ answered `{id}`: approved")))
    );
    assert_eq!(human.pending_count(), 0);
    // A second answer comes too late.
    let late = handle_inbound(message("U123", &format!("{id} again")), &mut human);
    assert!(late.answered.is_none() && late.post.is_none());
}

#[test]
fn handle_inbound_echoes_non_answers() {
    let mut human = HumanChannel::new();
    let step = handle_inbound(message("C1", "hi"), &mut human);
    assert_eq!(step.post.unwrap().1, "agent-m online. You said: hi");
}

#[test]
fn ask_times_out_without_a_reply() {
    let mut human = HumanChannel::new();
    let asked = human.ask("question", &None);
    assert_eq!(human.pending_count(), 1);
    let err = human.time_out(&asked.id);
    assert_eq!(err, "no answer received before timeout");
    assert_eq!(human.pending_count(), 0);
}

#[test]
fn remote_ask_gate_round_trip() {
    let mut remote = RemoteHuman::new(FakeTransport::new());
    let asked = match remote.ask("U123", "Approve the plan?", &None) {
        Ok(asked) => asked,
        Err(e) => panic!("{e}"),
    };
    assert!(matches!(asked.event, ChannelEvent::Posted { .. }));
    let id = posted_id(&remote.transport);
    remote.transport.push(message("U123", &format!("{id} yes do it")));
    let inbound = remote.transport.next().expect("a message");
    let step = remote.deliver(inbound, false);
    assert_eq!(step.answered, Some((id, "yes do it".to_string())));
    assert_eq!(remote.transport.posted().len(), 2, "the answer is confirmed");
}

#[test]
fn remote_permission_closure_approve_and_deny() {
    let policy = RiskPolicy { cwd: "/work".to_string(), opaque_tools: Vec::new() };
    let call = ToolCallInfo {
        tool_call_id: "t1".into(),
        name: "bash".into(),
        arguments: doc("{\"command\": \"rm -rf /tmp/x\"}"),
    };
    let question = permission_text(&policy, &call, "");
    assert!(question.contains("Tool: bash"), "{question}");
    let options = Some(vec!["Approve".to_string(), "Deny".to_string()]);
    let mut remote = RemoteHuman::new(FakeTransport::new());

    assert!(remote.ask("C1", &question, &options).is_ok());
    let id = posted_id(&remote.transport);
    let step = remote.deliver(message("C1", &format!("{id} Approve")), false);
    let answer = step.answered.map(|(_, a)| a);
    assert!(matches!(ask_slack_permission(answer.as_deref()), Permission::Allowed));

    assert!(remote.ask("C1", &question, &options).is_ok());
    let second = posted_id(&remote.transport);
    assert_ne!(id, second);
    let step = remote.deliver(message("C1", &format!("{second} Deny")), false);
    let answer = step.answered.map(|(_, a)| a);
    assert!(matches!(ask_slack_permission(answer.as_deref()), Permission::Denied(_)));
    assert!(matches!(ask_slack_permission(None), Permission::Denied(_)));
}

#[test]
fn slack_progress_posts_step_lines() {
    let line = |status| {
        slack_progress(&FlowProgress { step_index: 0, step_name: "plan".into(), status })
    };
    assert!(line(StepStatus::Running).contains("🔄 step 1 `plan`"));
    assert!(line(StepStatus::Succeeded).contains("✅ step 1 `plan`"));
}

#[test]
fn parse_pickup_trigger_matches_forms() {
    assert_eq!(parse_pickup_trigger("pick up"), Some(None));
    assert_eq!(parse_pickup_trigger("Pickup"), Some(None));
    assert_eq!(parse_pickup_trigger("pick up!"), Some(None));
    assert_eq!(parse_pickup_trigger("pick up PROJ-42"), Some(Some("PROJ-42".to_string())));
    assert_eq!(parse_pickup_trigger("Pickup PROJ-7."), Some(Some("PROJ-7".to_string())));
    assert_eq!(parse_pickup_trigger("hello"), None);
    assert_eq!(parse_pickup_trigger("pick up the trash"), None);
    assert_eq!(parse_pickup_trigger("pickup please"), None);
    assert_eq!(parse_pickup_trigger("pick"), None);
}

#[test]
fn flow_summary_reports_pr_link_and_failures() {
    let run = FlowRun {
        flow_name: "agentic-dev".to_string(),
        fix_rounds: 2,
        context: FlowContext::new(),
        steps: vec![
            StepRecord {
                name: "verify".into(),
                step_type: "verify".into(),
                status: StepStatus::Failed,
                output: None,
                error: Some(
                    "fix budget exhausted (used 2 of 5 fix rounds); last failure:\nboom"
                        .to_string(),
                ),
            },
            StepRecord {
                name: "pr".into(),
                step_type: "tool".into(),
                status: StepStatus::Succeeded,
                output: Some(doc(
                    "{\"content\": \"PR created: https://github.com/acme/app/pull/7 (#7)\"}",
                )),
                error: None,
            },
        ],
    };
    let summary = flow_summary("PROJ-42", &run);
    assert!(summary.contains("❌ PROJ-42 — agentic-dev FAILED"), "{summary}");
    assert!(summary.contains("fix rounds: 2"), "{summary}");
    assert!(summary.contains("✗ verify"), "{summary}");
    assert!(summary.contains("fix budget exhausted"), "{summary}");
    assert!(summary.contains("🔗 PR: https://github.com/acme/app/pull/7 (#7)"), "{summary}");

    let green = FlowRun {
        flow_name: "agentic-dev".to_string(),
        fix_rounds: 0,
        context: FlowContext::new(),
        steps: vec![StepRecord {
            name: "verify".into(),
            step_type: "verify".into(),
            status: StepStatus::Succeeded,
            output: None,
            error: None,
        }],
    };
    let summary = flow_summary("PROJ-9", &green);
    assert!(summary.contains("✅ PROJ-9 — agentic-dev OK"), "{summary}");
    assert!(!summary.contains('✗'), "{summary}");
    assert!(!summary.contains("PR:"), "{summary}");
}

#[test]
fn orchestrated_inbound_routes_pickups_and_echoes() {
    let mut human = HumanChannel::new();
    let step = handle_inbound_orchestrated(message("U123", "pick up PROJ-7"), &mut human);
    assert_eq!(step.pickup, Some((Some("PROJ-7".to_string()), "U123".to_string())));
    assert!(step.post.is_none(), "no echo for a trigger");
    let step = handle_inbound_orchestrated(message("U9", "pickup"), &mut human);
    assert_eq!(step.pickup, Some((None, "U9".to_string())));
    let step = handle_inbound_orchestrated(message("U9", "hello"), &mut human);
    assert_eq!(step.post.unwrap().1, "agent-m online. You said: hello");
}

#[test]
fn orchestrated_inbound_still_resolves_asks() {
    let mut human = HumanChannel::new();
    let asked = human.ask("Approve the plan?", &None);
    let step =
        handle_inbound_orchestrated(message("U123", &format!("{} approved", asked.id)), &mut human);
    assert_eq!(step.answered, Some((asked.id, "approved".to_string())));
    assert!(step.pickup.is_none(), "no pickup triggered");
}

#[test]
fn socket_messages_are_acknowledged_and_handed_on() {
    let step = read_socket(
        "{\"type\":\"events_api\",\"envelope_id\":\"e1\",\"payload\":{\"event\":{\"type\":\"message\",\"channel\":\"C\",\"user\":\"U\",\"text\":\"hi\",\"ts\":\"1\"}}}",
    );
    assert_eq!(step.ack.unwrap(), "{\"envelope_id\":\"e1\",\"type\":\"ack\"}");
    let Some(Inbound::Message { text, .. }) = step.inbound else { panic!("a message") };
    assert_eq!(text, "hi");
    assert!(read_socket("{\"type\":\"hello\"}").ack.is_none());
    assert!(read_socket("not json").inbound.is_none());
}

#[test]
fn questions_carry_their_options() {
    let mut human = HumanChannel::new();
    let options = Some(vec!["a".to_string(), "b".to_string()]);
    let asked = human.ask("Which?", &options);
    assert_eq!(asked.text, "❓ Which?\n  1. a\n  2. b\nreply with: ask-1 <answer>");
    assert_eq!(human.ask("Next?", &None).id, "ask-2");
}

// ------------------------------------------------------------------------- asking
#[test]
fn answers_are_chosen_by_number_or_text() {
    let options = Some(vec!["yes".to_string(), "no".to_string()]);
    assert!(question_text("Go?", &options, false).contains("yes"));
    assert_eq!(resolve_answer(Some("1"), &options, false), Ok("yes".to_string()));
    assert_eq!(resolve_answer(Some("no"), &options, false), Ok("no".to_string()));
    assert!(resolve_answer(None, &options, false).is_err());
}

#[test]
fn approval_is_yes_or_denied() {
    let policy = RiskPolicy { cwd: "/work".to_string(), opaque_tools: Vec::new() };
    let call = ToolCallInfo {
        tool_call_id: "1".into(),
        name: "bash".into(),
        arguments: doc("{\"command\":\"sudo rm -rf /\"}"),
    };
    let text = approval_text(&policy, &call, "");
    assert!(text.contains("Tool: bash") && text.contains("[y] Approve"), "{text}");
    assert!(matches!(ask_human(Some(" YES ")), Permission::Allowed));
    assert!(matches!(ask_human(Some("y")), Permission::Allowed));
    assert!(matches!(ask_human(Some("n")), Permission::Denied(_)));
    match ask_human(None) {
        Permission::Denied(m) => assert_eq!(m, "User denied execution via security gate."),
        Permission::Allowed => panic!("nobody has approved"),
    }
}

#[test]
fn stream_events_without_text_are_quiet_on_slack() {
    let update = AgentEvent::MessageUpdate {
        delta: StreamEvent::TextDelta { delta: "x".to_string() },
    };
    assert!(event_to_slack_text(&update).is_none());
}
