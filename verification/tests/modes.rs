//! The modes of the program: files in prompts, printing, serving, background
//! sessions, plugins, flows and pick-ups.
use agent_m::agent::call::{ToolCallInfo, ToolOutcome};
use agent_m::agent::checkpoint::{Checkpoint, CheckpointStep, GitOutput};
use agent_m::agent::context::InstructionFile;
use agent_m::agent::message::{SessionMessage, SessionMessageKind};
use agent_m::agent::risk::RiskPolicy;
use agent_m::agent::session::AgentEvent;
use agent_m::agent::tool::{Permission, PermissionGate};
use agent_m::agent::trust_policy::TrustMode;
use agent_m::agent::worktree::create_worktree;
use agent_m::ai::models::ModelSpec;
use agent_m::ai::providers::ProviderConfig;
use agent_m::ai::trust::TrustData;
use agent_m::ai::types::{ContentPart, StopReason, StreamEvent};
use agent_m::cli::attach::{
    attach_prompt, greeting, no_daemon, run_attach, token_line, AttachStep,
};
use agent_m::cli::daemon::{
    daemon_line, get_socket_path, get_sockets_dir, get_token_path, listening_text, prompt_result,
    resume_result, status_result, Client, ClientAction, DaemonLog, PromptEnd,
};
use agent_m::cli::files::{
    base64_encode, extension_of, file_args, file_name_of, image_mime, inline_file_args, is_read,
    FileFact, MAX_FILE_CHARS, MAX_IMAGE_BYTES,
};
use agent_m::cli::flow_mode::{flow_context, flow_header, run_flow_mode};
use agent_m::cli::pickup::{load_repo_map, pick, Pick, PickInputs, PickedTicket};
use agent_m::cli::plugins::{
    default_entry_name, find_release_dir, plugins_dir, read_manifest, run_list, run_remove,
    run_update, update_end, InstallAction, InstallEvent, Installer, Platform, Update,
};
use agent_m::cli::print::{
    closing_lines, event_line, event_name, event_to_json, piped_prompt, Print,
};
use agent_m::cli::serve::{event_notification, prompt_response, Serve, Server};
use agent_m::cli::startup::{
    allowed_paths, always_asked, budget_warning, build_tools, connection_text, context_warning,
    default_agent_dir, find_provider, how_to_connect, load_settings, model_line,
    non_interactive_gate, plugin_tools, print_mode_warning, resolve_level, resolve_model,
    server_tools, system_prompt, target_provider_id, tools_enabled, trust_mode, window_of, Connect,
    Connection, DEFAULT_SYSTEM_PROMPT, STARTUP_CONTEXT_MAX_CHARS, TOOL_BUDGET,
};
use agent_m::cli::supervisor::{
    dry_run_text, is_parallel, pick_and_run_context, run_pickup, run_pickup_slack, start_text,
    ticket_run_args, transition_warning, worktree_line, Dispatch, Exit, PickupEnd, PickupNext,
    RunConfig, Supervisor,
};
use agent_m::flow::executor::FlowRun;
use agent_m::flow::model::FlowContext;
use agent_m::flow::record::StepRecord;
use agent_m::json::{self, Json};
use agent_m::mcp::client::McpToolDef;
use agent_m::mcp::registry::McpServerConfig;
use agent_m::mcp::tools::connect_tools;

fn doc(text: &str) -> Json {
    match json::parse(text) {
        Ok(j) => j,
        Err(e) => panic!("{e}"),
    }
}

fn strings(items: &[&str]) -> Vec<String> {
    items.iter().map(|s| s.to_string()).collect()
}

// ------------------------------------------------------------------------ files
fn file(canonical: &str, bytes: &[u8]) -> FileFact {
    FileFact {
        canonical: Some(canonical.to_string()),
        is_file: true,
        bytes: Some(bytes.to_vec()),
    }
}

fn inlined(message: &str, facts: &[FileFact]) -> (String, Vec<String>) {
    assert_eq!(file_args(message).len(), facts.len());
    inline_file_args("/work", Some("/work"), message, facts)
}

#[test]
fn image_attachment_keeps_the_rest_of_the_prompt() {
    let (message, images) =
        inlined("@shot.png explain this", &[file("/work/shot.png", &[0x89, 0x50, 0x4e, 0x47])]);
    assert!(images.len() == 1, "image attached: {images:?}");
    assert!(images[0].starts_with("data:image/png;base64,"));
    assert_eq!(images[0], "data:image/png;base64,iVBORw==");
    assert_eq!(message, "explain this", "prompt text preserved: {message}");
}

#[test]
fn outside_cwd_paths_are_not_inlined() {
    let (message, images) =
        inlined("@/elsewhere/secret.png explain", &[file("/elsewhere/secret.png", &[1, 2, 3])]);
    assert!(images.is_empty(), "nothing attached");
    assert!(message.contains("explain"));
    assert!(message.contains("secret.png"), "token left visible");
}

#[test]
fn text_files_are_shown_up_to_a_limit() {
    let (message, images) = inlined("see @a.rs now", &[file("/work/a.rs", b"fn a() {}")]);
    assert_eq!(message, "see <file name=\"a.rs\">\nfn a() {}\n</file> now");
    assert!(images.is_empty());
    let long = "x".repeat(MAX_FILE_CHARS + 1);
    let (message, _) = inlined("@a.txt", &[file("/work/a.txt", long.as_bytes())]);
    assert_eq!(
        message,
        format!("<file name=\"a.txt\">\n{}\n… (truncated)\n</file>", "x".repeat(MAX_FILE_CHARS))
    );
    let (message, _) = inlined("@a.txt", &[file("/work/a.txt", &[0xff, 0xfe])]);
    assert_eq!(message, "<file name=\"a.txt\">\n\n</file>", "what is no text is empty");
}

#[test]
fn images_that_are_too_big_stay_mentioned() {
    let big = FileFact {
        canonical: Some("/work/a.png".to_string()),
        is_file: true,
        bytes: Some(vec![0; MAX_IMAGE_BYTES + 1]),
    };
    let (message, images) = inlined("look @a.png", &[big]);
    assert_eq!(message, "look @a.png");
    assert!(images.is_empty());
}

#[test]
fn missing_files_and_directories_stay_mentioned() {
    let missing = FileFact { canonical: None, is_file: false, bytes: None };
    assert_eq!(inlined("@no.txt  x", &[missing]).0, "@no.txt  x");
    let dir = FileFact { canonical: Some("/work/src".to_string()), is_file: false, bytes: None };
    assert_eq!(inlined("@src", &[dir]).0, "@src");
}

#[test]
fn messages_without_files_pass_unchanged() {
    let (message, images) = inlined("fix  this\nnow", &[]);
    assert_eq!(message, "fix  this\nnow");
    assert!(images.is_empty());
    let (message, _) = inlined("see  @a.rs\nnow", &[file("/work/a.rs", b"x")]);
    assert_eq!(message, "see <file name=\"a.rs\">\nx\n</file> now");
}

#[test]
fn base64_has_its_padding() {
    assert_eq!(base64_encode(b""), "");
    assert_eq!(base64_encode(b"f"), "Zg==");
    assert_eq!(base64_encode(b"fo"), "Zm8=");
    assert_eq!(base64_encode(b"foo"), "Zm9v");
    assert_eq!(base64_encode(b"foobar"), "Zm9vYmFy");
    assert_eq!(base64_encode(&[0xfb, 0xff, 0xfe]), "+//+");
    for n in 0..40usize {
        assert_eq!(base64_encode(&vec![7; n]).len(), n.div_ceil(3) * 4);
    }
}

#[test]
fn names_and_extensions() {
    for path in ["a/b.tar.gz", "b", ".bashrc", "a/..", "/", "x.", "dir/.a.b", "a/b/"] {
        let p = std::path::Path::new(path);
        let name = p.file_name().map(|n| n.to_str().unwrap().to_string());
        let ext = p.extension().map(|n| n.to_str().unwrap().to_string());
        assert_eq!(file_name_of(path), name, "{path}");
        assert_eq!(extension_of(path), ext, "{path}");
    }
    assert_eq!(image_mime(Some("jpg")), Some("image/jpeg"));
    assert_eq!(image_mime(Some("webp")), Some("image/webp"));
    assert_eq!(image_mime(Some("rs")), None);
    assert_eq!(image_mime(None), None);
    assert!(is_read(Some("/work"), &file("/work/a", b"")));
    assert!(!is_read(Some("/work"), &file("/workshop/a", b"")));
    assert!(!is_read(None, &file("/work/a", b"")));
}

#[test]
fn upper_case_extensions_are_images_too() {
    let (_, images) = inlined("@A.PNG", &[file("/work/A.PNG", b"foo")]);
    assert_eq!(images, vec!["data:image/png;base64,Zm9v"]);
}

// ------------------------------------------------------------------------ print
fn text_delta(delta: &str) -> AgentEvent {
    AgentEvent::MessageUpdate { delta: StreamEvent::TextDelta { delta: delta.to_string() } }
}

fn started(id: &str, name: &str) -> AgentEvent {
    AgentEvent::ToolExecutionStart {
        tool_call_id: id.to_string(),
        name: name.to_string(),
        arguments: doc("{\"path\":\"a.rs\"}"),
    }
}

fn ended(id: &str) -> AgentEvent {
    AgentEvent::ToolExecutionEnd {
        tool_call_id: id.to_string(),
        outcome: ToolOutcome::success("ok"),
    }
}

#[test]
fn event_to_json_shapes_are_stable() {
    let j = event_to_json(&AgentEvent::AgentStart, "");
    assert_eq!(j.get_str("event"), Some("agent_start"));
    let j = event_to_json(&started("1", "read"), "");
    assert_eq!(j.get_str("event"), Some("tool_execution_start"));
    let data = j.get("data").unwrap();
    assert_eq!(data.get_str("name"), Some("read"));
    assert_eq!(data.get("arguments").unwrap().get_str("path"), Some("a.rs"));
    let j = event_to_json(&text_delta("hi"), "");
    assert_eq!(j.get_str("event"), Some("message_update"));
    assert_eq!(j.get("data").unwrap().get_str("delta"), Some("hi"));
}

#[test]
fn every_event_has_its_line() {
    let user = || SessionMessage::User { content: "hi".to_string(), images: vec![] };
    let cases: Vec<(AgentEvent, &str, &str)> = vec![
        (AgentEvent::TurnStart { turn: 3 }, "turn_start", "{\"turn\":3}"),
        (
            AgentEvent::MessageStart { kind: SessionMessageKind::ToolResult },
            "message_start",
            "{\"kind\":\"ToolResult\"}",
        ),
        (
            AgentEvent::MessageUpdate { delta: StreamEvent::Start },
            "message_update",
            "{\"delta\":\"\"}",
        ),
        (AgentEvent::MessageEnd { message: user() }, "message_end", "{\"message\":\"M\"}"),
        (ended("1"), "tool_execution_end", "{\"content\":\"ok\",\"is_error\":false}"),
        (AgentEvent::Notice { message: "n".to_string() }, "notice", "{\"message\":\"n\"}"),
        (
            AgentEvent::Compacted { summary: "s".to_string(), messages_removed: 2 },
            "compacted",
            "{\"summary\":\"s\"}",
        ),
        (
            AgentEvent::FlowStep {
                index: 1,
                name: "plan".to_string(),
                status: "ru\"n\n".to_string(),
            },
            "flow_step",
            "{\"index\":1,\"name\":\"plan\",\"status\":\"\\\"ru\\\\\\\"n\\\\n\\\"\"}",
        ),
        (
            AgentEvent::RefineResult { proposal_json: "{}".to_string() },
            "refine_result",
            "{}",
        ),
        (AgentEvent::TurnEnd { message: user(), tool_results: 0 }, "turn_end", "{}"),
    ];
    for (event, name, data) in cases {
        assert_eq!(event_name(&event), name);
        assert_eq!(
            event_line(&event, "M"),
            format!("{{\"data\":{data},\"event\":\"{name}\"}}")
        );
    }
}

#[test]
fn printing_leaves_the_trust_block_out() {
    let mut print = Print::new();
    let mut shown = String::new();
    for delta in ["Hel", "lo <tr", "ust><confidence>90</confidence></trust>"] {
        let out = print.run_print(&text_delta(delta));
        shown.push_str(&out.out);
        assert_eq!(out.err, None);
    }
    shown.push_str(&print.finish());
    assert_eq!(shown.trim_end(), "Hello");
    let out = print.run_print(&started("1", "read"));
    assert_eq!(out.out, "");
    assert_eq!(out.err.as_deref(), Some("[tool] read {\"path\":\"a.rs\"}"));
    let out = print.run_print(&AgentEvent::Notice { message: "careful".to_string() });
    assert_eq!(out.err.as_deref(), Some("[notice] careful"));
    assert_eq!(print.run_print(&AgentEvent::AgentStart).err, None);
}

#[test]
fn piped_prompts_and_closing_lines() {
    assert_eq!(piped_prompt("  hi \n"), Some("hi".to_string()));
    assert_eq!(piped_prompt(" \n"), None);
    let reply = |content| SessionMessage::Assistant {
        content,
        usage: None,
        stop_reason: StopReason::Stop,
        model: "m".to_string(),
        trust: TrustData::default(),
    };
    let messages = vec![
        SessionMessage::User { content: "hi".to_string(), images: vec![] },
        reply(vec![ContentPart::Text { text: "a".to_string() }]),
        reply(vec![ContentPart::Thinking { thinking: "hm".to_string() }]),
    ];
    assert_eq!(closing_lines(&messages), 1);
}

// ------------------------------------------------------------------------ serve
fn line(bytes: &[u8]) -> &str {
    std::str::from_utf8(bytes).unwrap()
}

#[test]
fn requests_are_served_line_by_line() {
    let mut server = Server::new();
    assert!(matches!(server.serve_loop(), Serve::Read));
    server.feed(b"{\"id\":1,\"method\":\"prompt\",\"params\":{\"te");
    assert!(matches!(server.serve_loop(), Serve::Read));
    server.feed(b"xt\":\"hi\"}}\n{\"method\":\"note\"}\n{\"id\":2,\"method\":\"x\"}\n");
    match server.serve_loop() {
        Serve::Prompt { id, text } => {
            assert_eq!(text, "hi");
            assert_eq!(
                line(&prompt_response(id, None)),
                "{\"id\":1,\"jsonrpc\":\"2.0\",\"result\":{\"error\":null,\"ok\":true}}\n"
            );
        }
        _ => panic!("a prompt"),
    }
    // The notification before it gets no response.
    match server.serve_loop() {
        Serve::Reply(bytes) => assert_eq!(
            line(&bytes),
            "{\"error\":{\"message\":\"unknown method `x`\"},\"id\":2,\"jsonrpc\":\"2.0\"}\n"
        ),
        _ => panic!("an error"),
    }
    server.feed(b"{\"id\":\"z\",\"method\":\"exit\"}\n");
    match server.serve_loop() {
        Serve::Exit(bytes) => assert_eq!(
            line(&bytes),
            "{\"id\":\"z\",\"jsonrpc\":\"2.0\",\"result\":{\"ok\":true}}\n"
        ),
        _ => panic!("the end"),
    }
    let mut server = Server::new();
    server.feed(b"{\"method\":\"exit\"}\n");
    match server.serve_loop() {
        Serve::Exit(bytes) => assert!(bytes.is_empty()),
        _ => panic!("the end, in silence"),
    }
    assert_eq!(
        line(&prompt_response(Json::number(7), Some("boom"))),
        "{\"id\":7,\"jsonrpc\":\"2.0\",\"result\":{\"error\":\"boom\",\"ok\":false}}\n"
    );
    assert_eq!(
        line(&event_notification(&AgentEvent::AgentStart, "")),
        "{\"jsonrpc\":\"2.0\",\"method\":\"event\",\"params\":{\"data\":{},\"event\":\"agent_start\"}}\n"
    );
}

// ----------------------------------------------------------------------- daemon
#[test]
fn sockets_have_their_places() {
    assert_eq!(get_sockets_dir("/a"), "/a/sockets");
    assert_eq!(get_socket_path("/a", "s1"), "/a/sockets/s1.sock");
    assert_eq!(get_token_path("/a", "s1"), "/a/sockets/s1.token");
    assert_eq!(
        listening_text("s1", "/a/sockets/s1.sock"),
        "Daemon `s1` running on socket: /a/sockets/s1.sock"
    );
    assert_eq!(daemon_line("s1.sock").as_deref(), Some("  - s1"));
    assert_eq!(daemon_line("s1.sock.sock").as_deref(), Some("  - s1"));
    assert_eq!(daemon_line("s1.token"), None);
}

#[test]
fn clients_need_the_token_first() {
    let mut client = Client::new("secret");
    assert!(matches!(
        client.handle_client(Some("wrong\n")),
        ClientAction::Close(m) if m == "ERROR: Invalid session token"
    ));
    assert!(matches!(client.handle_client(Some("secret")), ClientAction::Nothing));
    let mut client = Client::new("secret");
    assert!(matches!(
        client.handle_client(Some(" secret\n")),
        ClientAction::Send(m) if m == "OK: Authenticated"
    ));
    assert!(matches!(
        client.handle_client(Some("prompt fix it\n")),
        ClientAction::Prompt(t) if t == "fix it"
    ));
    assert!(matches!(client.handle_client(Some("resume\n")), ClientAction::Resume));
    assert!(matches!(client.handle_client(Some("status\n")), ClientAction::Status));
    assert!(matches!(
        client.handle_client(Some("dance\n")),
        ClientAction::Send(m) if m == "RESULT error unknown command: dance"
    ));
    assert!(matches!(
        client.handle_client(Some("QUIT\n")),
        ClientAction::Close(m) if m == "QUIT"
    ));
    assert!(matches!(client.handle_client(Some("status\n")), ClientAction::Nothing));
}

#[test]
fn results_of_commands() {
    assert_eq!(prompt_result(&PromptEnd::Done), "RESULT ok");
    assert_eq!(prompt_result(&PromptEnd::Failed("x".to_string())), "RESULT error x");
    assert_eq!(
        prompt_result(&PromptEnd::Busy),
        "RESULT error daemon busy (a prompt is already running)"
    );
    assert_eq!(resume_result(3), "RESULT ok restored 3 messages");
    assert_eq!(status_result(3, 40, Some(128)), "RESULT ok messages=3 tokens=40/128");
    assert_eq!(status_result(0, 0, None), "RESULT ok messages=0 tokens=0/?");
}

#[test]
fn results_are_logged_with_the_names_of_their_tools() {
    let mut log = DaemonLog::new();
    let step = log.run_daemon(&started("c1", "read"), "");
    assert!(step.append.is_none());
    assert_eq!(
        step.line,
        "EVENT {\"data\":{\"arguments\":{\"path\":\"a.rs\"},\"name\":\"read\"},\"event\":\"tool_execution_start\"}"
    );
    match log.run_daemon(&ended("c1"), "").append {
        Some(SessionMessage::ToolResult { tool_call_id, name, content, is_error }) => {
            assert_eq!((tool_call_id.as_str(), name.as_str()), ("c1", "read"));
            assert_eq!((content.as_str(), is_error), ("ok", false));
        }
        _ => panic!("the result is logged"),
    }
    assert!(log.run_daemon(&ended("c1"), "").append.is_none(), "a result is logged once");
    let message = SessionMessage::User { content: "hi".to_string(), images: vec![] };
    assert!(matches!(
        log.run_daemon(&AgentEvent::MessageEnd { message }, "M").append,
        Some(SessionMessage::User { content, .. }) if content == "hi"
    ));
}

#[test]
fn attaching_to_a_session() {
    assert_eq!(
        no_daemon("s", "/a/s.sock"),
        "No active daemon found for session `s` at /a/s.sock"
    );
    assert_eq!(token_line(" t \n"), "t\n");
    assert_eq!(greeting("s", "OK: Authenticated\n"), Ok("Connected to daemon `s`.".to_string()));
    assert_eq!(
        greeting("s", "ERROR: no\n"),
        Err("Authentication failed: ERROR: no".to_string())
    );
    assert_eq!(attach_prompt("s"), "attach (s) > ");
    assert!(matches!(run_attach("s", Some("  ")), AttachStep::Again));
    assert!(matches!(run_attach("s", Some(" hi ")), AttachStep::Send(l) if l == "hi\n"));
    for quit in ["/detach", "/exit"] {
        assert!(matches!(
            run_attach("s", Some(quit)),
            AttachStep::Detach { send, said }
                if send == "QUIT\n" && said == "Detached from daemon `s`."
        ));
    }
    assert!(matches!(
        run_attach("s", None),
        AttachStep::Detach { send, said } if send == "QUIT\n" && said == "Detached."
    ));
}

// ---------------------------------------------------------------------- plugins
#[test]
fn library_names_go_by_the_platform() {
    let toml = "[package]\n name = \"my-plug\"\nversion = \"1\"\n";
    assert_eq!(default_entry_name(Some(toml), "x", Platform::Other), "libmy-plug.so");
    assert_eq!(default_entry_name(Some(toml), "x", Platform::MacOs), "libmy-plug.dylib");
    assert_eq!(default_entry_name(Some(toml), "x", Platform::Windows), "my-plug.dll");
    assert_eq!(default_entry_name(None, "a-b", Platform::Other), "liba_b.so");
    assert_eq!(plugins_dir("/a"), "/a/plugins");
}

#[test]
fn the_nearest_release_directory_is_taken() {
    let dirs = strings(&["/a/b/target/release", "/a/target/release", "/target/release"]);
    assert_eq!(
        find_release_dir(&dirs, &[false, true, true]).as_deref(),
        Some("/a/target/release")
    );
    assert_eq!(find_release_dir(&dirs, &[false, false, false]), None);
}

fn failed(action: InstallAction) -> String {
    match action {
        InstallAction::Fail(m) => m,
        _ => panic!("a failure"),
    }
}

#[test]
fn a_plugin_is_installed_step_by_step() {
    let (mut installer, action) = Installer::new(
        "/agent",
        "https://example.com/p.git",
        Some("v1"),
        "/tmp/stage",
        Platform::Other,
    );
    match action {
        InstallAction::Clone(args) => assert_eq!(
            args,
            strings(&[
                "clone", "--depth", "1", "--branch", "v1", "https://example.com/p.git",
                "/tmp/stage"
            ])
        ),
        _ => panic!("git sources are cloned"),
    }
    match installer.run_install(InstallEvent::Ran(Some(true))) {
        InstallAction::Read { manifest, cargo_toml } => {
            assert_eq!(manifest, "/tmp/stage/plugin.json");
            assert_eq!(cargo_toml, "/tmp/stage/Cargo.toml");
        }
        _ => panic!("the manifest is read"),
    }
    match installer.run_install(InstallEvent::Files {
        manifest: Some("{\"name\":\"hello\",\"entry\":\"libhello.so\"}".to_string()),
        cargo_toml: None,
    }) {
        InstallAction::Build(args) => assert_eq!(
            args,
            strings(&["build", "--release", "--manifest-path", "/tmp/stage/Cargo.toml"])
        ),
        _ => panic!("the plugin is built"),
    }
    match installer.run_install(InstallEvent::Ran(Some(true))) {
        InstallAction::CheckDirs(dirs) => assert_eq!(
            dirs,
            strings(&[
                "/tmp/stage/target/release", "/tmp/target/release", "/target/release"
            ])
        ),
        _ => panic!("the build is looked for"),
    }
    match installer.run_install(InstallEvent::AreDirs(vec![true, false, false])) {
        InstallAction::List { file, dir } => {
            assert_eq!(file, "/tmp/stage/target/release/libhello.so");
            assert_eq!(dir, "/tmp/stage/target/release");
        }
        _ => panic!("the library is looked for"),
    }
    match installer.run_install(InstallEvent::Listing {
        found: false,
        files: strings(&["x.d", "libother.so"]),
    }) {
        InstallAction::CheckFree(dir) => assert_eq!(dir, "/agent/plugins/hello"),
        _ => panic!("its place is looked at"),
    }
    match installer.run_install(InstallEvent::Exists(false)) {
        InstallAction::Install { artifact, dir, entry, manifest, said } => {
            assert_eq!(artifact, "/tmp/stage/target/release/libother.so");
            assert_eq!(dir, "/agent/plugins/hello");
            assert_eq!(entry, "/agent/plugins/hello/libhello.so");
            assert_eq!(
                manifest,
                "{\n  \"entry\": \"libhello.so\",\n  \"name\": \"hello\",\n  \"version\": \"0.1.0\"\n}"
            );
            assert_eq!(said, "installed plugin `hello` -> /agent/plugins/hello");
        }
        _ => panic!("it is installed"),
    }
    assert!(matches!(
        installer.run_install(InstallEvent::Exists(false)),
        InstallAction::Nothing
    ));
}

fn local() -> Installer {
    let (installer, action) = Installer::new("/agent", "/src/p", None, "/tmp/s", Platform::Other);
    assert!(matches!(action, InstallAction::CheckDir(dir) if dir == "/src/p"));
    installer
}

fn built(manifest: Option<&str>) -> Installer {
    let mut installer = local();
    installer.run_install(InstallEvent::IsDir(true));
    installer.run_install(InstallEvent::Files {
        manifest: manifest.map(|m| m.to_string()),
        cargo_toml: None,
    });
    installer
}

#[test]
fn what_stops_an_installation() {
    assert_eq!(
        failed(local().run_install(InstallEvent::IsDir(false))),
        "plugin source `/src/p` is not a directory"
    );
    let mut git =
        Installer::new("/agent", "git@host:p", None, "/tmp/s", Platform::Other).0;
    assert_eq!(
        failed(git.run_install(InstallEvent::Ran(Some(false)))),
        "git clone failed for git@host:p"
    );
    let mut git =
        Installer::new("/agent", "http://host/p", None, "/tmp/s", Platform::Other).0;
    assert_eq!(
        failed(git.run_install(InstallEvent::Ran(None))),
        "cannot run git clone for http://host/p"
    );
    let read = |manifest: &str| {
        let mut installer = local();
        installer.run_install(InstallEvent::IsDir(true));
        failed(installer.run_install(InstallEvent::Files {
            manifest: Some(manifest.to_string()),
            cargo_toml: None,
        }))
    };
    assert_eq!(read("{}"), "plugin.json lacks `name`");
    assert_eq!(read("nope"), "invalid plugin.json in /src/p");
    assert_eq!(
        failed(built(None).run_install(InstallEvent::Ran(Some(false)))),
        "plugin build failed for p"
    );
    assert_eq!(
        failed(built(None).run_install(InstallEvent::Ran(None))),
        "cannot build plugin p (cargo required at install time)"
    );
    let mut installer = built(None);
    installer.run_install(InstallEvent::Ran(Some(true)));
    assert_eq!(
        failed(installer.run_install(InstallEvent::AreDirs(vec![false, false, false]))),
        "no target/release found under /src/p"
    );
    let mut installer = built(None);
    installer.run_install(InstallEvent::Ran(Some(true)));
    installer.run_install(InstallEvent::AreDirs(vec![false, true, false]));
    assert_eq!(
        failed(installer.run_install(InstallEvent::Listing {
            found: false,
            files: strings(&["x.d"]),
        })),
        "no cdylib artifact found in /src/target/release"
    );
    let mut installer = built(Some("{\"name\":\"p\"}"));
    installer.run_install(InstallEvent::Ran(Some(true)));
    installer.run_install(InstallEvent::AreDirs(vec![true, false, false]));
    installer.run_install(InstallEvent::Listing { found: true, files: vec![] });
    assert_eq!(
        failed(installer.run_install(InstallEvent::Exists(true))),
        "plugin `p` already installed (remove it first: `agent-m plugins remove p`)"
    );
}

#[test]
fn plugins_are_listed_removed_and_updated() {
    assert_eq!(run_list("/p", None), strings(&["no plugins installed (/p does not exist)"]));
    assert_eq!(run_list("/p", Some(&[])), strings(&["no plugins installed"]));
    assert_eq!(
        run_list("/p", Some(&[("a".to_string(), true), ("b".to_string(), false)])),
        strings(&["a\tready", "b\tMISSING ENTRY"])
    );
    assert_eq!(
        read_manifest("{\"name\":\"a\",\"entry\":\"liba.so\"}"),
        ("a".to_string(), "liba.so".to_string())
    );
    assert_eq!(read_manifest("nope"), ("?".to_string(), "?".to_string()));
    assert_eq!(run_remove("a", true), Ok("removed plugin `a`".to_string()));
    assert_eq!(run_remove("a", false), Err("plugin `a` is not installed".to_string()));
    assert!(matches!(run_update(Some("b"), "a", "{}"), Update::Skip));
    assert!(matches!(
        run_update(None, "a", "{\"source\":\"/s\"}"),
        Update::Reinstall(s) if s == "/s"
    ));
    assert!(matches!(
        run_update(Some("a"), "a", "{}"),
        Update::Say(m)
            if m == "plugin `a` has no `source` in its manifest; reinstall from its repo"
    ));
    assert_eq!(update_end(None, false), Ok(Some("nothing to update".to_string())));
    assert_eq!(update_end(Some("a"), true), Ok(None));
    assert_eq!(update_end(Some("a"), false), Err("plugin `a` is not installed".to_string()));
}

// ---------------------------------------------------------------------- startup
fn config(id: &str) -> ProviderConfig {
    ProviderConfig {
        id: id.to_string(),
        name: None,
        base_url: "https://x/v1".to_string(),
        model: "m".to_string(),
        reasoning: false,
        supports_images: false,
        context_window: 1000,
        api_key_env: None,
        protocol: None,
        models: None,
    }
}

#[test]
fn settings_and_directories() {
    assert_eq!(default_agent_dir(Some("/data"), Some("/home/u")), "/data/agent");
    assert_eq!(default_agent_dir(None, Some("/home/u")), "/home/u/.agent-m/agent");
    assert_eq!(default_agent_dir(None, None), "./.agent-m/agent");
    assert_eq!(json::render(&load_settings(None)), "{}");
    assert_eq!(json::render(&load_settings(Some("oops"))), "{}");
    let settings = load_settings(Some("{\"level\":258,\"allowedPaths\":[\"/x\",1,\"/y\"]}"));
    assert_eq!(resolve_level(Some(1), &settings), 1);
    assert_eq!(resolve_level(None, &settings), 2, "the number is cut to its last byte");
    assert_eq!(resolve_level(None, &Json::object()), 3);
    let (all, opaque) = (vec!["read".to_string(), "jira".to_string()], vec!["jira".to_string()]);
    assert_eq!(always_asked(2, &all, &opaque), all);
    assert_eq!(always_asked(3, &all, &opaque), opaque);
    assert_eq!(allowed_paths(&strings(&["/w"]), &settings), strings(&["/w", "/x", "/y"]));
}

#[test]
fn providers_and_models_are_resolved_in_order() {
    let configs = vec![config("a"), config("b")];
    assert_eq!(target_provider_id(Some("x"), Some("y"), Some("z"), &configs), "x");
    assert_eq!(target_provider_id(None, Some("y"), Some("z"), &configs), "y");
    assert_eq!(target_provider_id(None, None, Some("z"), &configs), "z");
    assert_eq!(target_provider_id(None, None, None, &configs), "a");
    assert_eq!(target_provider_id(None, None, None, &[]), "default");
    assert_eq!(find_provider(&configs, "b"), Ok(1));
    assert_eq!(
        find_provider(&configs, "c"),
        Err("provider `c` is not configured in settings.json `providers`. Available: [a, b]"
            .to_string())
    );
    let models = vec![
        ModelSpec::new("m1").context_window(10),
        ModelSpec::new("m2").reasoning(true).name("Two"),
    ];
    assert_eq!(resolve_model(None, None, None, &models), "m1");
    assert_eq!(resolve_model(None, None, Some("d"), &models), "d");
    assert_eq!(resolve_model(None, Some("t"), Some("d"), &models), "t");
    assert_eq!(resolve_model(Some("g"), Some("t"), None, &models), "g");
    assert_eq!(resolve_model(None, None, None, &[]), "default");
    assert_eq!(window_of(&models, "m1"), Some(10));
    assert_eq!(window_of(&models, "m3"), None);
    assert_eq!(model_line("p", &models[0]), "p\tm1\t");
    assert_eq!(model_line("p", &models[1]), "p\tm2\tTwo (reasoning)");
}

#[test]
fn print_mode_has_no_tools_without_consent() {
    assert!(tools_enabled(false, false, false));
    assert!(!tools_enabled(false, true, false));
    assert!(tools_enabled(false, true, true));
    assert!(!tools_enabled(true, false, true));
    assert_eq!(
        print_mode_warning(false, true, false),
        Some("warning: print mode disables tools; pass --yes to enable them")
    );
    assert_eq!(print_mode_warning(false, true, true), None);
    assert_eq!(budget_warning(TOOL_BUDGET), None);
    assert_eq!(
        budget_warning(81).as_deref(),
        Some("warning: 81 tools active (budget 80); consider pruning tool schemas")
    );
}

#[test]
fn tools_are_named_and_excluded() {
    let all = strings(&["read", "bash", "grep", "edit"]);
    let usual = strings(&["read", "bash", "edit"]);
    assert_eq!(build_tools(false, &all, &usual, &[], &[]), strings(&["read", "bash", "edit"]));
    assert_eq!(
        build_tools(false, &all, &usual, &strings(&["grep", "bash"]), &strings(&["bash"])),
        strings(&["grep"])
    );
    assert!(build_tools(true, &all, &usual, &[], &[]).is_empty());
    let plugins = strings(&["p1", "p2"]);
    assert_eq!(plugin_tools(&plugins, &[], &strings(&["p2"])), strings(&["p1"]));
    assert_eq!(plugin_tools(&plugins, &strings(&["p2"]), &[]), strings(&["p2"]));
}

#[test]
fn unknown_server_tools_are_opaque() {
    let def = |name: &str, read_only| McpToolDef {
        name: name.to_string(),
        description: String::new(),
        input_schema: Json::object(),
        read_only,
    };
    let (tools, hinted) =
        connect_tools("s", vec![def("list", true), def("get_x", false), def("drop", false)]);
    let (kept, opaque) = server_tools(&tools, &hinted, &strings(&["get_*"]), &[], &[]);
    assert_eq!(kept, strings(&["s__list", "s__get_x", "s__drop"]));
    assert_eq!(opaque, strings(&["s__drop"]));
    let (kept, opaque) = server_tools(&tools, &hinted, &[], &[], &strings(&["s__drop"]));
    assert_eq!(kept, strings(&["s__list", "s__get_x"]));
    assert_eq!(opaque, strings(&["s__get_x"]));
}

#[test]
fn servers_are_connected_by_what_is_configured() {
    let server = |command: Option<&str>, url: Option<&str>| McpServerConfig {
        command: command.map(|c| c.to_string()),
        args: vec![],
        env: vec![],
        url: url.map(|u| u.to_string()),
        read_only_tools: vec![],
    };
    assert!(matches!(
        how_to_connect("s", &server(Some("run"), Some("http://x"))),
        Connect::Stdio(c) if c == "run"
    ));
    assert!(matches!(
        how_to_connect("s", &server(None, Some("http://x"))),
        Connect::Http(u) if u == "http://x"
    ));
    assert!(matches!(
        how_to_connect("s", &server(None, None)),
        Connect::Skip(m) if m == "mcp: server `s` has neither command nor url"
    ));
    assert_eq!(
        connection_text("s", &Connection::Tools(2)),
        "mcp: connected `s` (2 tool(s))"
    );
    assert_eq!(
        connection_text("s", &Connection::Handshake("e".to_string())),
        "mcp: `s` handshake failed: e"
    );
    assert_eq!(
        connection_text("s", &Connection::Failed("e".to_string())),
        "mcp: `s` connect failed: e"
    );
}

#[test]
fn nothing_dangerous_runs_without_a_human() {
    let policy = || RiskPolicy { cwd: "/w".to_string(), opaque_tools: strings(&["odd"]) };
    assert!(non_interactive_gate(false, policy()).is_none());
    let gate = non_interactive_gate(true, policy()).expect("consent was given");
    let call = |name: &str, arguments: &str| ToolCallInfo {
        tool_call_id: "1".to_string(),
        name: name.to_string(),
        arguments: doc(arguments),
    };
    assert!(matches!(
        gate.authorize(&call("read", "{\"path\":\"a\"}")),
        Permission::Allowed
    ));
    assert!(matches!(gate.authorize(&call("odd", "{}")), Permission::Denied(_)));
}

#[test]
fn the_system_prompt_is_put_together() {
    assert_eq!(system_prompt(None, &[], ""), DEFAULT_SYSTEM_PROMPT);
    assert!(DEFAULT_SYSTEM_PROMPT.starts_with("You are agent-m, a coding agent"));
    let files =
        vec![InstructionFile { path: "/w/AGENTS.md".to_string(), content: "Be kind.".to_string() }];
    let prompt = system_prompt(Some("Base."), &files, "\nPrefs.");
    assert!(prompt.starts_with("Base."));
    assert!(prompt.contains("Be kind."));
    assert!(prompt.ends_with("\nPrefs."));
    assert_eq!(context_warning(&"x".repeat(STARTUP_CONTEXT_MAX_CHARS)), None);
    assert_eq!(
        context_warning(&"é".repeat(50_001)).as_deref(),
        Some("warning: startup context is 50001 chars (cap 50000); consider trimming AGENTS.md files")
    );
    assert_eq!(trust_mode("off"), TrustMode::Off);
    assert_eq!(trust_mode("ask"), TrustMode::Ask);
    assert_eq!(trust_mode("block"), TrustMode::Block);
    assert_eq!(trust_mode("?"), TrustMode::Warn);
}

// ------------------------------------------------------------- flows and pick-ups
#[test]
fn flow_values_come_in_pairs() {
    let context = match flow_context("/w", &strings(&["ticket=A-1", "q=a=b", "ticket=B-2"])) {
        Ok(c) => c,
        Err(e) => panic!("{e}"),
    };
    assert_eq!(context.get("cwd").and_then(|v| v.as_str()), Some("/w"));
    assert_eq!(context.get("ticket").and_then(|v| v.as_str()), Some("B-2"));
    assert_eq!(context.get("q").and_then(|v| v.as_str()), Some("a=b"));
    assert_eq!(
        flow_context("/w", &strings(&["x"])).err().as_deref(),
        Some("--flow-context expects KEY=VALUE, got `x`")
    );
    assert_eq!(
        flow_context("/w", &strings(&["=x"])).err().as_deref(),
        Some("--flow-context key must not be empty in `=x`")
    );
}

fn run_of(steps: Vec<StepRecord>) -> FlowRun {
    FlowRun {
        flow_name: "f".to_string(),
        steps,
        context: FlowContext::new(),
        fix_rounds: 0,
    }
}

#[test]
fn a_flow_is_reported_step_by_step() {
    assert_eq!(flow_header("f"), "flow: f");
    let run = run_of(vec![
        StepRecord::succeeded("a", "tool", doc("{\"content\":\"done\"}")),
        StepRecord::succeeded("b", "ask", doc("{\"answer\":\"yes\"}")),
        StepRecord::failed("c", "verify", "red"),
    ]);
    assert_eq!(
        run_flow_mode("f", Ok(&run)),
        Ok((
            strings(&[
                "[succeeded] a", "    done", "[succeeded] b", "    answer: yes", "[failed] c",
                "    error: red", "flow f: FAILED"
            ]),
            true
        ))
    );
    assert_eq!(
        run_flow_mode("f", Ok(&run_of(vec![]))),
        Ok((strings(&["flow f: OK"]), false))
    );
    assert_eq!(
        run_flow_mode("f", Err("x".to_string())),
        Err("flow failed: x".to_string())
    );
}

fn picked() -> PickedTicket {
    PickedTicket {
        key: "A-1".to_string(),
        summary: "Fix it".to_string(),
        repo: "acme/app".to_string(),
    }
}

#[test]
fn one_pick_up_after_the_other() {
    assert!(is_parallel(Some(5), 2, None, false));
    assert!(!is_parallel(Some(5), 1, None, false));
    assert!(!is_parallel(None, 2, None, false));
    assert!(!is_parallel(Some(5), 2, Some("A-1"), false));
    assert!(!is_parallel(Some(5), 2, None, true));
    let ran = |failed| PickupEnd::Ran { key: "A-1".to_string(), failed };
    assert!(matches!(run_pickup(ran(false), 0), (l, PickupNext::Return) if l.is_empty()));
    assert!(matches!(run_pickup(ran(true), 0), (l, PickupNext::Exit) if l.is_empty()));
    assert!(matches!(run_pickup(PickupEnd::DryRun, 9), (l, PickupNext::Return) if l.is_empty()));
    let (lines, next) = run_pickup(ran(true), 9);
    assert_eq!(
        lines,
        strings(&[
            "flow failed for A-1",
            "pickup: sleeping 9s before next pick (Ctrl-C to stop)"
        ])
    );
    assert!(matches!(next, PickupNext::Again));
    let (lines, next) = run_pickup(PickupEnd::Failed("no ticket".to_string()), 0);
    assert_eq!(lines, strings(&["pickup failed: no ticket"]));
    assert!(matches!(next, PickupNext::Fail(e) if e == "no ticket"));
}

#[test]
fn pick_ups_side_by_side() {
    let config = RunConfig {
        flow_path: "flows/f.yml".to_string(),
        transition_id: "11".to_string(),
        agent_dir: "/agent".to_string(),
        yes: true,
        flow_context: strings(&["a=b"]),
    };
    assert_eq!(
        ticket_run_args(&config, "A-1", "acme/app"),
        strings(&[
            "ticket-run", "--ticket", "A-1", "--repo", "acme/app", "--flow", "flows/f.yml",
            "--transition-id", "11", "--agent-dir", "/agent", "--yes", "--flow-context", "a=b"
        ])
    );
    let mut supervisor = Supervisor::new(2, 9);
    assert!(supervisor.has_slot());
    assert!(matches!(
        supervisor.dispatch(Ok(picked()), &config),
        Dispatch::Start { key, .. } if key == "A-1"
    ));
    assert!(supervisor.has_slot());
    match supervisor.dispatch(Ok(picked()), &config) {
        Dispatch::Wait(lines) => {
            assert_eq!(lines, strings(&["pickup: A-1 already in flight, waiting"]))
        }
        _ => panic!("no ticket is worked on twice"),
    }
    match supervisor.dispatch(Err("down".to_string()), &config) {
        Dispatch::Wait(lines) => assert_eq!(
            lines,
            strings(&[
                "pickup failed: down",
                "pickup: sleeping 9s before next pick (Ctrl-C to stop)"
            ])
        ),
        _ => panic!("a failed query waits"),
    }
    let other = PickedTicket { key: "B-2".to_string(), ..picked() };
    assert!(matches!(supervisor.dispatch(Ok(other), &config), Dispatch::Start { .. }));
    assert!(!supervisor.has_slot());
    assert_eq!(
        supervisor.finished("A-1", &Exit::Code(Some(3))).as_deref(),
        Some("ticket-run for A-1 exited with 3")
    );
    assert!(supervisor.has_slot());
    assert_eq!(
        supervisor.finished("B-2", &Exit::Code(None)).as_deref(),
        Some("ticket-run for B-2 exited with signal")
    );
    assert_eq!(
        supervisor.finished("B-2", &Exit::NotStarted("e".to_string())).as_deref(),
        Some("ticket-run for B-2 failed to start: e")
    );
    assert_eq!(supervisor.finished("B-2", &Exit::Success), None);
    assert!(matches!(supervisor.dispatch(Ok(picked()), &config), Dispatch::Start { .. }));
}

#[test]
fn what_is_said_of_a_pick_up() {
    assert_eq!(
        dry_run_text(&picked(), "/agent", "11", "flows/f.yml", "dev"),
        "pickup (dry-run): A-1 — Fix it\n  repo:       acme/app\n  worktree:   agent-m/A-1 in /agent/worktrees/\n  transition: A-1 → In Progress (transition 11)\n  flow:       flows/f.yml (dev)\n  context:    ticket=A-1 repo=acme/app"
    );
    assert_eq!(
        start_text(&picked(), "11"),
        "pickup: A-1 — Fix it\n  repo:       acme/app\n  transition: → In Progress (11)"
    );
    assert_eq!(transition_warning("A-1", "e"), "warn: could not transition A-1: e");
    assert_eq!(worktree_line("/w"), "  worktree:   /w");
    assert_eq!(
        pick_and_run_context(&strings(&["x=y"]), &picked()),
        strings(&["x=y", "ticket=A-1", "repo=acme/app", "worktree=true"])
    );
    assert_eq!(run_pickup_slack(Err("e".to_string())), "❌ pickup failed: e");
    let summary = run_pickup_slack(Ok(("A-1".to_string(), run_of(vec![]))));
    assert!(summary.contains("A-1"), "{summary}");
}

#[test]
fn pick_and_worktree_with_local_git_fixture() {
    let repos = load_repo_map(Some("{\"PROJ\":\"/fixture\"}"));
    let picked = match pick(
        &PickInputs {
            ticket: Some("PROJ-1"),
            repo: None,
            jql: None,
            jira_url: None,
            jira_token: None,
        },
        &repos,
    ) {
        Pick::Picked(picked) => picked,
        _ => panic!("pick"),
    };
    assert_eq!(picked.key, "PROJ-1");
    assert_eq!(picked.repo, "/fixture");
    let plan = create_worktree(true, Some(&picked.key), &picked.repo, "/agent", "20250101-000000")
        .unwrap_or_else(|e| panic!("{e}"));
    assert!(plan.dir.starts_with("/agent/"), "worktree under agent dir: {}", plan.dir);
    assert!(plan.branch.starts_with("agent-m/PROJ-1-"), "branch was {}", plan.branch);
}

#[test]
fn staged_only_changes_are_captured() {
    let said = |stdout: &str| {
        Ok(GitOutput { success: true, stdout: stdout.as_bytes().to_vec(), stderr: vec![] })
    };
    let (mut checkpoint, _) = Checkpoint::new("staged");
    checkpoint.create_checkpoint(said("true\n"));
    checkpoint.create_checkpoint(said("M  a.txt\n"));
    checkpoint.create_checkpoint(said("abc123\n"));
    match checkpoint.create_checkpoint(said("")) {
        CheckpointStep::Done(Ok(Some(sha))) => assert!(!sha.is_empty()),
        _ => panic!("staged changes should produce a checkpoint"),
    }
}
