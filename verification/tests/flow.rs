//! Flows, run against scripted replies.
use agent_m::agent::call::{ToolCallInfo, ToolOutcome};
use agent_m::agent::risk::RiskPolicy;
use agent_m::agent::session::Mode;
use agent_m::agent::tool::{AlwaysAllowGate, DangerousCommandGate, Permission, PermissionGate};
use agent_m::flow::executor::{run_flow, Action, CallReply, FlowReply, FlowRun, Note, Turn};
use agent_m::flow::model::{default_fix_rounds, default_stop, expand_json, Flow, FlowContext, FlowStep};
use agent_m::flow::record::{answer_format, delegate_arguments, evaluate_condition, StepStatus};
use agent_m::json::{self, Json};
use std::cell::RefCell;
use std::collections::VecDeque;

fn doc(text: &str) -> Json {
    match json::parse(text) {
        Ok(j) => j,
        Err(e) => panic!("{e}"),
    }
}

/// What stands around a flow, and what was asked of it.
struct World {
    answers: RefCell<VecDeque<String>>,
    prompts: RefCell<Vec<(String, Mode)>>,
    commands: RefCell<VecDeque<(String, ToolOutcome)>>,
    calls: RefCell<Vec<ToolCallInfo>>,
    progress: RefCell<Vec<(String, String)>>,
    states: RefCell<Vec<(String, String)>>,
    careful: bool,
}

impl World {
    fn new(answers: &[&str], commands: Vec<(&str, ToolOutcome)>) -> World {
        World {
            answers: RefCell::new(answers.iter().map(|s| s.to_string()).collect()),
            prompts: RefCell::new(Vec::new()),
            commands: RefCell::new(
                commands.into_iter().map(|(c, o)| (c.to_string(), o)).collect(),
            ),
            calls: RefCell::new(Vec::new()),
            progress: RefCell::new(Vec::new()),
            states: RefCell::new(Vec::new()),
            careful: false,
        }
    }

    fn answer(&self) -> String {
        self.answers.borrow_mut().pop_front().unwrap_or_default()
    }

    fn call(&self, call: ToolCallInfo) -> CallReply {
        if self.careful {
            let gate = DangerousCommandGate::new(
                RiskPolicy { cwd: ".".to_string(), opaque_tools: vec![] },
                AlwaysAllowGate,
            );
            if let Permission::Denied(reason) = gate.authorize(&call) {
                return CallReply::Denied(reason);
            }
        }
        let reply = match call.name.as_str() {
            "bash" => {
                let command = call.arguments.get_str("command").unwrap_or_default().to_string();
                let (expected, outcome) =
                    self.commands.borrow_mut().pop_front().expect("a command was scripted");
                assert_eq!(expected, command, "unexpected command {command}");
                outcome
            }
            "jira-stub" => ToolOutcome::success(&format!(
                "jira: {}",
                call.arguments.get_str("query").unwrap_or_default()
            )),
            "github-create-pr" => {
                ToolOutcome::success("PR created: https://github.com/acme/app/pull/7 (#7)")
            }
            _ => ToolOutcome::success("done"),
        };
        self.calls.borrow_mut().push(call);
        CallReply::Done(reply)
    }

    fn called(&self, name: &str) -> usize {
        self.calls.borrow().iter().filter(|c| c.name == name).count()
    }

    fn note(&self, turn: &Turn) {
        for note in &turn.notes {
            match note {
                Note::Progress(p) => self
                    .progress
                    .borrow_mut()
                    .push((p.step_name.clone(), p.status.as_str().to_string())),
                Note::State { state, context } => {
                    self.states.borrow_mut().push((state.clone(), context.clone()))
                }
            }
        }
    }

    fn run(&self, flow: &Flow, context: FlowContext, can_ask: bool) -> Result<FlowRun, String> {
        let tools = ["bash", "jira-stub", "github-create-pr", "jira-transition", "jira-comment"]
            .iter()
            .map(|s| s.to_string())
            .collect();
        let mut runner = run_flow(flow, context, tools, can_ask);
        let mut turn = runner.advance();
        loop {
            self.note(&turn);
            turn = match turn.action {
                Action::Go => runner.advance(),
                Action::Idle => panic!("nothing was waited for"),
                Action::Prompt { prompt, mode, .. } => {
                    self.prompts.borrow_mut().push((prompt, mode));
                    runner.reply(FlowReply::Text(Ok(self.answer())))
                }
                Action::Delegate { prompt, .. } => {
                    self.prompts.borrow_mut().push((prompt, Mode::Build));
                    runner.reply(FlowReply::Text(Ok(self.answer())))
                }
                Action::Ask { .. } => runner.reply(FlowReply::Answer(Ok("approved".to_string()))),
                Action::Call(call) => runner.reply(FlowReply::Call(self.call(call))),
                Action::Done(run) => return Ok(run),
                Action::Aborted(message) => return Err(message),
            };
        }
    }
}

fn ok(text: &str) -> ToolOutcome {
    ToolOutcome::success(text)
}

fn err(text: &str) -> ToolOutcome {
    ToolOutcome::error(text)
}

fn flow(name: &str, error_budget: Option<usize>, steps: Vec<FlowStep>) -> Flow {
    Flow { name: name.to_string(), description: None, error_budget, steps }
}

fn tool(name: &str, tool: &str, arguments: &str) -> FlowStep {
    FlowStep::Tool {
        name: name.to_string(),
        tool: tool.to_string(),
        arguments: Some(doc(arguments)),
    }
}

fn ask(name: &str, question: &str) -> FlowStep {
    FlowStep::Ask {
        name: name.to_string(),
        question: question.to_string(),
        options: None,
        on_reject: default_stop(),
    }
}

fn prompt(name: &str, mode: Option<&str>, message: &str) -> FlowStep {
    FlowStep::Prompt {
        name: name.to_string(),
        mode: mode.map(|m| m.to_string()),
        message: Some(message.to_string()),
        model: None,
    }
}

fn verify(name: &str, command: &str, max_fix_rounds: usize) -> FlowStep {
    FlowStep::Verify { name: name.to_string(), command: Some(command.to_string()), max_fix_rounds }
}

fn delegate(on_invalid: &str, prompt: &str, schema: Option<Json>) -> FlowStep {
    FlowStep::Delegate {
        name: "analysis".to_string(),
        prompt: prompt.to_string(),
        schema,
        tools: None,
        max_turns: 4,
        on_invalid: on_invalid.to_string(),
    }
}

fn context(pairs: &[(&str, &str)]) -> FlowContext {
    let mut context = FlowContext::new();
    for (key, value) in pairs {
        context.set(key, Json::text(value));
    }
    context
}

fn text_at<'a>(run: &'a FlowRun, path: &str) -> Option<&'a str> {
    run.context.get(path).and_then(|v| v.as_str())
}

fn basic() -> Flow {
    flow(
        "basic",
        None,
        vec![
            tool("jira", "jira-stub", "{\"query\":\"${ticket}\"}"),
            prompt("plan", Some("plan"), "Plan ${steps.jira.output.content}"),
            FlowStep::Condition {
                name: "gate".to_string(),
                if_condition: "${steps.jira.output.content} != empty".to_string(),
                then: vec![ask("gate", "Approve?")],
                else_: None,
            },
            tool("ship", "bash", "{\"command\":\"git status\"}"),
        ],
    )
}

#[test]
fn tool_and_condition_and_ask_steps() {
    let world = World::new(&["the plan"], vec![("git status", ok("clean"))]);
    let run = world.run(&basic(), context(&[("ticket", "TICKET-42")]), true).expect("run");
    let names: Vec<&str> = run.steps.iter().map(|s| s.name.as_str()).collect();
    assert_eq!(names, vec!["jira", "plan", "gate", "gate", "ship"]);
    assert!(run.steps.iter().all(|s| s.status == StepStatus::Succeeded));
    assert_eq!(text_at(&run, "steps.jira.output.content"), Some("jira: TICKET-42"));
    assert_eq!(text_at(&run, "steps.gate.output.answer"), Some("approved"));
}

#[test]
fn failed_step_aborts_the_flow() {
    let world = World::new(&[], vec![("false", err("boom"))]);
    let steps = vec![tool("failing", "bash", "{\"command\":\"false\"}"), ask("never", "?")];
    let error = world.run(&flow("f", None, steps), FlowContext::new(), true).err().expect("abort");
    assert!(error.contains("failing"), "got: {error}");
}

#[test]
fn prompt_step_uses_fresh_agent_and_captures_output() {
    let world = World::new(&["the plan is: 1. fix it"], vec![]);
    let steps = vec![prompt("plan", Some("plan"), "Plan ${ticket}")];
    let run =
        world.run(&flow("single", None, steps), context(&[("ticket", "ABC")]), false).expect("run");
    assert_eq!(run.steps[0].status, StepStatus::Succeeded);
    let output = run.steps[0].output.as_ref().and_then(|o| o.as_str()).unwrap_or("");
    assert!(output.contains("1. fix it"), "got: {output}");
    assert_eq!(world.prompts.borrow()[0], ("Plan ABC".to_string(), Mode::Plan));
}

#[test]
fn destructive_command_denied_in_flow() {
    let mut world = World::new(&[], vec![]);
    world.careful = true;
    let steps = vec![tool("wipe", "bash", "{\"command\":\"rm -rf /tmp/x\"}")];
    let error =
        world.run(&flow("danger", None, steps), FlowContext::new(), false).err().expect("abort");
    assert!(error.contains("permission denied"), "got: {error}");
    assert_eq!(world.called("bash"), 0, "tool must not run");
}

#[test]
fn on_progress_emits_running_then_final_per_step() {
    let world = World::new(&["the plan"], vec![("git status", ok("clean"))]);
    world.run(&basic(), context(&[("ticket", "TICKET-42")]), true).expect("run");
    let progress = world.progress.borrow();
    let top: Vec<(&str, &str)> =
        progress.iter().map(|(n, s)| (n.as_str(), s.as_str())).collect();
    assert_eq!(
        top,
        vec![
            ("jira", "running"),
            ("jira", "succeeded"),
            ("plan", "running"),
            ("plan", "succeeded"),
            ("gate", "running"),
            ("gate", "succeeded"),
            ("ship", "running"),
            ("ship", "succeeded"),
        ]
    );
}

#[test]
fn writes_state_artifacts() {
    let world = World::new(&[], vec![("git status", ok("clean"))]);
    let steps = vec![tool("step1", "bash", "{\"command\":\"git status\"}")];
    world.run(&flow("state-demo", None, steps), FlowContext::new(), false).expect("run");
    let states = world.states.borrow();
    let (state, context) = states.last().expect("a state was written");
    assert!(state.contains("step1"), "step listed: {state}");
    assert!(json::parse(context).is_ok(), "context is JSON: {context}");
}

#[test]
fn verify_loops_fixes_until_command_passes() {
    let world = World::new(
        &["fixed the test"],
        vec![("cargo test", err("test failure 1")), ("cargo test", ok("all green"))],
    );
    let steps = vec![verify("check", "cargo test", 3)];
    let run =
        world.run(&flow("verify-demo", None, steps), FlowContext::new(), false).expect("run");
    assert_eq!(run.steps[0].status, StepStatus::Succeeded);
    let rounds = run.steps[0].output.as_ref().and_then(|o| o.get("fix_rounds"));
    assert_eq!(rounds.and_then(|r| r.as_u64()), Some(1));
    assert_eq!(world.called("bash"), 2, "run + one fix re-run");
}

#[test]
fn verify_stops_and_reports_on_fix_round_cap() {
    let world = World::new(
        &["fix 1", "fix 2"],
        vec![
            ("cargo test", err("boom 1")),
            ("cargo test", err("boom 2")),
            ("cargo test", err("boom 3")),
        ],
    );
    let steps = vec![verify("check", "cargo test", 2)];
    let error =
        world.run(&flow("cap-demo", None, steps), FlowContext::new(), false).err().expect("abort");
    assert!(error.contains("fix rounds exhausted (2/2)"), "got: {error}");
    assert!(error.contains("boom 3"), "last failure must be reported: {error}");
    assert_eq!(world.called("bash"), 3, "run + 2 fix re-runs");
    let prompts = world.prompts.borrow();
    assert!(prompts.iter().any(|(p, _)| p.contains("boom 1")));
    assert!(prompts.iter().any(|(p, _)| p.contains("boom 2")));
    assert!(prompts.iter().any(|(p, _)| p.contains("Fix rounds remaining: 1")));
}

#[test]
fn verify_failure_feeds_the_fix_prompt() {
    let world = World::new(
        &["fixed the test"],
        vec![("cargo test", err("test failure 1")), ("cargo test", ok("all green"))],
    );
    let steps = vec![verify("check", "cargo test", default_fix_rounds())];
    let run =
        world.run(&flow("verify-feed", None, steps), FlowContext::new(), false).expect("run");
    assert_eq!(run.steps[0].status, StepStatus::Succeeded);
    assert_eq!(run.fix_rounds, 1);
    let prompts = world.prompts.borrow();
    assert_eq!(prompts.len(), 1, "one fix prompt");
    assert!(prompts[0].0.contains("test failure 1"), "{}", prompts[0].0);
    assert!(prompts[0].0.contains("Fix rounds remaining: 2"), "{}", prompts[0].0);
}

#[test]
fn error_budget_caps_fix_rounds_across_verify_steps() {
    let world = World::new(
        &["fix A"],
        vec![("t A", err("A fails")), ("t A", err("A still fails")), ("t B", err("B fails"))],
    );
    let steps = vec![verify("a", "t A", 3), verify("b", "t B", 3)];
    let error = world
        .run(&flow("budget-demo", Some(1), steps), FlowContext::new(), false)
        .err()
        .expect("abort");
    assert!(
        error.contains("fix budget exhausted (used 1 of 1 fix rounds)"),
        "got: {error}"
    );
    assert!(error.contains("A still fails"), "last failure reported: {error}");
    assert_eq!(world.called("bash"), 2);
}

#[test]
fn agentic_dev_close_out_transitions_and_comments_after_pr() {
    let world = World::new(
        &["the plan", "implemented"],
        vec![
            ("git clone acme/app work", ok("cloned")),
            ("cd work && cargo test", ok("all green")),
        ],
    );
    let steps = vec![
        tool("jira-ticket", "jira-stub", "{\"query\":\"${ticket}\"}"),
        tool("clone", "bash", "{\"command\":\"git clone ${repo} work\"}"),
        prompt("plan", Some("plan"), "Plan: ${steps.jira-ticket.output.content}"),
        ask("review-plan", "Approve?"),
        FlowStep::Phase {
            name: "execute".to_string(),
            prompt: Some("Implement: ${steps.plan.output}".to_string()),
            steps: vec![],
        },
        verify("verify", "cd work && cargo test", 3),
        ask("review-implementation", "Ship?"),
        tool("pr", "github-create-pr", "{\"title\":\"${ticket}\"}"),
        tool(
            "transition",
            "jira-transition",
            "{\"key\":\"${ticket}\",\"transitionId\":\"${transitionId}\"}",
        ),
        tool(
            "comment",
            "jira-comment",
            "{\"key\":\"${ticket}\",\"body\":\"PR ready: ${steps.pr.output.content}\"}",
        ),
    ];
    let run = world
        .run(
            &flow("agentic-dev", Some(5), steps),
            context(&[("ticket", "PROJ-42"), ("repo", "acme/app"), ("transitionId", "31")]),
            true,
        )
        .expect("run");
    let names: Vec<&str> =
        run.steps.iter().map(|s| s.name.as_str()).filter(|n| !n.contains(':')).collect();
    assert_eq!(
        names,
        vec![
            "jira-ticket",
            "clone",
            "plan",
            "review-plan",
            "execute",
            "verify",
            "review-implementation",
            "pr",
            "transition",
            "comment"
        ]
    );
    assert!(run.steps.iter().all(|s| s.status == StepStatus::Succeeded));
    assert_eq!(run.fix_rounds, 0, "green verify spends no budget");
    let calls = world.calls.borrow();
    let transition = calls.iter().find(|c| c.name == "jira-transition").expect("called");
    assert_eq!(transition.arguments.get_str("key"), Some("PROJ-42"));
    assert_eq!(transition.arguments.get_str("transitionId"), Some("31"));
    let comment = calls.iter().find(|c| c.name == "jira-comment").expect("called");
    let body = comment.arguments.get_str("body").unwrap();
    assert!(body.contains("https://github.com/acme/app/pull/7"), "PR link in comment: {body}");
}

fn worktree_flow() -> Flow {
    let branch = |command: &str| {
        vec![FlowStep::Tool {
            name: "clone".to_string(),
            tool: "bash".to_string(),
            arguments: Some(Json::object().with("command", Json::text(command))),
        }]
    };
    flow(
        "agentic-dev",
        Some(5),
        vec![
            FlowStep::Condition {
                name: "workspace".to_string(),
                if_condition: "${worktree} == true".to_string(),
                then: branch("echo 'worktree checkout: ${cwd}'"),
                else_: Some(branch("git clone ${repo} work")),
            },
            ask("review-plan", "Approve?"),
            FlowStep::Condition {
                name: "verify-env".to_string(),
                if_condition: "${worktree} == true".to_string(),
                then: vec![verify("verify", "cargo test", 3)],
                else_: Some(vec![verify("verify", "cd work && cargo test", 3)]),
            },
        ],
    )
}

#[test]
fn worktree_mode_skips_clone_and_runs_inplace_verify() {
    let world = World::new(
        &[],
        vec![
            ("echo 'worktree checkout: /repo'", ok("worktree checkout: /repo")),
            ("cargo test", ok("all green")),
        ],
    );
    let flow = worktree_flow();
    let run = world
        .run(&flow, context(&[("cwd", "/repo"), ("worktree", "true")]), true)
        .expect("run");
    assert!(run.steps.iter().all(|s| s.status == StepStatus::Succeeded));
    assert_eq!(world.called("bash"), 2, "clone echo + inplace verify");

    let world = World::new(
        &[],
        vec![
            ("git clone acme/app work", ok("cloned")),
            ("cd work && cargo test", ok("all green")),
        ],
    );
    world
        .run(&flow, context(&[("cwd", "/elsewhere"), ("repo", "acme/app")]), true)
        .expect("run");
    assert_eq!(world.called("bash"), 2);
}

#[test]
fn red_verify_never_ships() {
    let world = World::new(
        &["fix 1"],
        vec![
            ("cd work && cargo test", err("tests fail")),
            ("cd work && cargo test", err("tests fail")),
        ],
    );
    let steps = vec![
        verify("verify", "cd work && cargo test", 1),
        tool("pr", "github-create-pr", "{}"),
        tool("transition", "jira-transition", "{}"),
    ];
    let error =
        world.run(&flow("red-flow", Some(1), steps), FlowContext::new(), false).err().expect("abort");
    assert!(error.contains("fix budget exhausted"), "{error}");
    assert_eq!(world.called("github-create-pr"), 0, "no PR on red verify");
    assert_eq!(world.called("jira-transition"), 0, "no transition on red verify");
}

#[test]
fn delegate_step_returns_parsed_json_and_feeds_downstream() {
    let world = World::new(
        &["{\"risk\":\"low\",\"entrypoints\":[\"src/main.rs\"]}"],
        vec![("echo low", ok("low"))],
    );
    let steps = vec![
        delegate("stop", "Map entrypoints and rate the risk", Some(doc("{\"type\":\"object\"}"))),
        tool("echo-risk", "bash", "{\"command\":\"echo ${steps.analysis.output.json.risk}\"}"),
    ];
    let run =
        world.run(&flow("structured", None, steps), FlowContext::new(), false).expect("run");
    assert_eq!(run.steps.len(), 2);
    assert_eq!(run.steps[0].status, StepStatus::Succeeded);
    let output = run.steps[0].output.as_ref().expect("delegate output");
    let parsed = output.get("json").expect("json");
    assert_eq!(parsed.get_str("risk"), Some("low"));
    assert_eq!(parsed.get("entrypoints").unwrap().as_array().unwrap()[0].as_str(), Some("src/main.rs"));
    assert_eq!(output.get("isError").and_then(|v| v.as_bool()), Some(false));
    assert!(output.get_str("content").unwrap_or("").contains("\"risk\""));
    assert_eq!(world.prompts.borrow()[0].0, "Map entrypoints and rate the risk");
    assert_eq!(text_at(&run, "steps.analysis.output.json.risk"), Some("low"));
    assert_eq!(world.called("bash"), 1);
}

#[test]
fn sub_agents_are_given_their_arguments() {
    let schema = doc("{\"type\":\"object\"}");
    let tools = vec!["read".to_string()];
    let all = delegate_arguments("Map it", Some(&schema), Some(&tools), 4);
    assert_eq!(
        json::render(&all),
        "{\"max_turns\":4,\"prompt\":\"Map it\",\"schema\":{\"type\":\"object\"},\"tools\":[\"read\"]}"
    );
    let few = delegate_arguments("Map it", None, None, 4);
    assert_eq!(json::render(&few), "{\"max_turns\":4,\"prompt\":\"Map it\"}");
    assert_eq!(
        answer_format(Some(&schema)),
        "\n\nAnswer with one JSON document that matches this schema: {\"type\":\"object\"}"
    );
    assert_eq!(answer_format(None), "");
}

#[test]
fn delegate_step_invalid_json_aborts_the_flow() {
    let world = World::new(&["I explored the codebase. Entrypoints are src/main.rs."], vec![]);
    let steps = vec![delegate("stop", "Map entrypoints", None)];
    let error =
        world.run(&flow("strict", None, steps), FlowContext::new(), false).err().expect("abort");
    assert!(error.contains("did not produce valid JSON"), "got: {error}");
}

#[test]
fn delegate_step_on_invalid_continue_keeps_flow_running() {
    let world = World::new(&["no json here, just prose"], vec![("echo after", ok("after"))]);
    let steps = vec![
        delegate("continue", "Map entrypoints", None),
        tool("after", "bash", "{\"command\":\"echo after\"}"),
    ];
    let run =
        world.run(&flow("tolerant", None, steps), FlowContext::new(), false).expect("continues");
    assert_eq!(run.steps[0].status, StepStatus::Failed);
    assert!(run.steps[0].error.as_deref().unwrap_or("").contains("did not produce valid JSON"));
    assert_eq!(run.steps[1].status, StepStatus::Succeeded);
    assert_eq!(world.called("bash"), 1);
}

#[test]
fn unknown_tools_and_missing_users_abort() {
    let world = World::new(&[], vec![]);
    let steps = vec![tool("x", "no-such-tool", "{}")];
    assert!(world.run(&flow("f", None, steps), FlowContext::new(), false).is_err());
    let steps = vec![ask("q", "Approve?")];
    assert!(world.run(&flow("f", None, steps), FlowContext::new(), false).is_err());
}

#[test]
fn a_runner_that_is_over_stays_idle() {
    let f = flow("empty", None, vec![]);
    let mut runner = run_flow(&f, FlowContext::new(), vec![], false);
    assert!(matches!(runner.advance().action, Action::Done(_)));
    assert!(matches!(runner.advance().action, Action::Idle));
    assert!(matches!(
        runner.reply(FlowReply::Text(Ok("late".to_string()))).action,
        Action::Idle
    ));
}

#[test]
fn expands_references() {
    let mut context = FlowContext::new();
    context.set("steps.jira.output", Json::text("ticket ABC"));
    context.set("steps.plan.status", Json::text("succeeded"));
    assert_eq!(
        context.expand("got ${steps.jira.output} with ${steps.plan.status}"),
        "got ticket ABC with succeeded"
    );
    assert_eq!(context.expand("x ${missing.path}"), "x ${missing.path}");
    context.set("n", doc("{\"a\":[1,2]}"));
    assert_eq!(context.expand("${n}"), "{\"a\":[1,2]}");
    assert_eq!(context.expand("${n.a}!"), "[1,2]!");
    let expanded = expand_json(&doc("{\"k\":[\"${n.a}\",7]}"), &context);
    assert_eq!(json::render(&expanded), "{\"k\":[\"[1,2]\",7]}");
}

#[test]
fn conditions_hold_or_not() {
    assert!(evaluate_condition("true == true"));
    assert!(!evaluate_condition("a == b"));
    assert!(evaluate_condition("a != b"));
    assert!(evaluate_condition("text != empty"));
    assert_eq!(default_stop(), "stop");
    assert_eq!(default_fix_rounds(), 3);
}
