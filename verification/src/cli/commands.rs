//! The commands of an interactive session.
use crate::agent::session::{Agent, Mode};
use crate::ai::models::{find_model, ModelSpec};
use crate::cli::ansi::{enabled, render_markdown, set_color, Ansi};
use crate::cli::repl::{line_box, TodoItem};
use crate::cli::section::SectionKind;
use crate::cli::toolout::ToolStore;
use crate::dup::Dup;
use crate::text;
use vstd::prelude::*;

verus! {

/// What a command needs from outside before it can be answered.
pub enum Request {
    Sessions,
    Undo,
    Harness,
    /// With what the refinement is to focus on.
    Refine(Option<String>),
    Todos,
    Journal,
}

/// What came of a command.
pub enum CommandResult {
    /// It is answered with this.
    Handled(String),
    /// The line is no command.
    Continue,
    /// The session ends.
    Exit,
    /// It is answered once this is there.
    Load(Request),
}

/// What a `Request` stands for.
pub ghost enum RequestView {
    Sessions,
    Undo,
    Harness,
    Refine(Option<Seq<char>>),
    Todos,
    Journal,
}

/// What a `CommandResult` stands for.
pub ghost enum ResultView {
    Handled(Seq<char>),
    Continue,
    Exit,
    Load(RequestView),
}

impl DeepView for Request {
    type V = RequestView;

    open spec fn deep_view(&self) -> RequestView {
        match self {
            Request::Sessions => RequestView::Sessions,
            Request::Undo => RequestView::Undo,
            Request::Harness => RequestView::Harness,
            Request::Refine(focus) => RequestView::Refine(focus.deep_view()),
            Request::Todos => RequestView::Todos,
            Request::Journal => RequestView::Journal,
        }
    }
}

impl DeepView for CommandResult {
    type V = ResultView;

    open spec fn deep_view(&self) -> ResultView {
        match self {
            CommandResult::Handled(s) => ResultView::Handled(s@),
            CommandResult::Continue => ResultView::Continue,
            CommandResult::Exit => ResultView::Exit,
            CommandResult::Load(request) => ResultView::Load(request.deep_view()),
        }
    }
}

// --------------------------------------------------------------- the commands
/// The ids of models.
pub open spec fn ids_of(models: Seq<crate::ai::models::ModelView>) -> Seq<Seq<char>> {
    models.map_values(|m: crate::ai::models::ModelView| m.id)
}

/// `/model`: which model is used, or the use of another.
pub open spec fn model_command(
    agent: crate::agent::session::AgentView,
    models: Seq<crate::ai::models::ModelView>,
    args: Seq<Seq<char>>,
) -> (crate::agent::session::AgentView, Seq<char>) {
    if args.len() == 0 {
        (
            agent,
            "Current model: "@ + agent.options.model + "\nAvailable models: "@ + text::spec_join(
                ids_of(models),
                ", "@,
            ),
        )
    } else if crate::ai::models::model_from(models, args[0], 0) is Some {
        (
            crate::agent::session::AgentView {
                options: crate::agent::session::OptionsView { model: args[0], ..agent.options },
                ..agent
            },
            "Model switched to "@ + args[0],
        )
    } else {
        (agent, "Unknown model `"@ + args[0] + "` for active provider."@)
    }
}

/// The variants of a model.
pub open spec fn variants_of(
    models: Seq<crate::ai::models::ModelView>,
    id: Seq<char>,
) -> Seq<Seq<char>> {
    match crate::ai::models::model_from(models, id, 0) {
        Some(i) => models[i].variants,
        None => seq![],
    }
}

/// `/variant`: which effort is used, or the use of another.
pub open spec fn variant_command(
    agent: crate::agent::session::AgentView,
    models: Seq<crate::ai::models::ModelView>,
    args: Seq<Seq<char>>,
) -> (crate::agent::session::AgentView, Seq<char>) {
    let model = agent.options.model;
    let variants = variants_of(models, model);
    if args.len() == 0 {
        (
            agent,
            "Current variant: "@ + (match agent.options.variant {
                Some(v) => v,
                None => "none"@,
            }) + "\nAvailable variants for "@ + model + ": "@ + if variants.len() == 0 {
                "none (model does not specify variants)"@
            } else {
                text::spec_join(variants, ", "@)
            },
        )
    } else if variants.contains(args[0]) || args[0] == "none"@ || args[0] == "default"@ {
        (
            crate::agent::session::AgentView {
                options: crate::agent::session::OptionsView {
                    variant: if args[0] == "none"@ {
                        None
                    } else {
                        Some(args[0])
                    },
                    ..agent.options
                },
                ..agent
            },
            "Variant set to `"@ + args[0] + "`"@,
        )
    } else {
        (
            agent,
            "Invalid variant `"@ + args[0] + "`. Available variants for "@ + model + ": "@
                + if variants.len() == 0 {
                "none"@
            } else {
                text::spec_join(variants, ", "@)
            },
        )
    }
}

/// `/mode`: which mode is on, or the switch to another.
pub open spec fn mode_command(
    a: crate::cli::ansi::AnsiView,
    agent: crate::agent::session::AgentView,
    args: Seq<Seq<char>>,
    width: usize,
) -> (crate::agent::session::AgentView, Seq<char>) {
    if args.len() == 0 {
        (
            agent,
            "Current mode: "@ + match agent.options.mode {
                Mode::Plan => "plan"@,
                Mode::Build => "build"@,
            },
        )
    } else {
        let wanted = text::lowercased(args[0]);
        let notice = crate::cli::section::KindView::Notice;
        if wanted == "plan"@ {
            (
                crate::agent::session::mode_set(agent, Mode::Plan),
                crate::cli::repl::one_line_box(
                    a,
                    "mode"@,
                    "Read-only · no file writes"@,
                    notice,
                    width,
                ),
            )
        } else if wanted == "build"@ {
            (
                crate::agent::session::mode_set(agent, Mode::Build),
                crate::cli::repl::one_line_box(
                    a,
                    "mode"@,
                    "Writes enabled · tools active"@,
                    notice,
                    width,
                ),
            )
        } else {
            (agent, "Unknown mode `"@ + wanted + "`. Use 'plan' or 'build'."@)
        }
    }
}

/// `/usage`: the token counts.
pub open spec fn usage_of(agent: crate::agent::session::AgentView) -> Seq<char> {
    "Telemetry Usage:\n  - Last Input Tokens: "@ + text::spec_decimal(
        agent.last_input_tokens as nat,
    ) + "\n  - Context Limit: "@ + (match agent.options.context_window {
        Some(w) => text::spec_decimal(w as nat),
        None => "unspecified"@,
    }) + "\n  - Cache Hit Tokens: "@ + text::spec_decimal(agent.cache_stats.hit_tokens as nat)
        + "\n  - Cache Miss Tokens: "@ + text::spec_decimal(agent.cache_stats.miss_tokens as nat)
        + "\n  - Total Requests: "@ + text::spec_decimal(agent.cache_stats.requests as nat)
}

/// Whether a text is made of digits alone.
pub open spec fn all_digits(s: Seq<char>) -> bool {
    forall|i: int| 0 <= i < s.len() ==> text::is_digit(#[trigger] s[i])
}

/// `/tool-output`: a kept output.
pub open spec fn tool_output_of(
    store: Seq<crate::cli::toolout::OutputView>,
    args: Seq<Seq<char>>,
) -> Seq<char> {
    let selector = if args.len() == 0 {
        "last"@
    } else {
        args[0]
    };
    match crate::cli::toolout::selected(store, selector) {
        Some(out) => "[Tool Output: "@ + out.name + "]\n"@ + out.full,
        None => if all_digits(selector) {
            "No tool output with index `"@ + selector + "`. Available:\n"@
                + crate::cli::toolout::list_of(store)
        } else {
            "Unknown selector `"@ + selector + "`. Use `last` or a 1-based index.\n"@
                + crate::cli::toolout::list_of(store)
        },
    }
}

/// `/color`: whether output is styled, or the switch to it.
pub open spec fn color_command(
    a: crate::cli::ansi::AnsiView,
    args: Seq<Seq<char>>,
) -> (crate::cli::ansi::AnsiView, Seq<char>) {
    let wanted = if args.len() == 0 {
        ""@
    } else {
        text::ascii_lowered(args[0])
    };
    if args.len() > 0 && wanted == "on"@ {
        (crate::cli::ansi::AnsiView { on: true, ..a }, "Color enabled."@)
    } else if args.len() > 0 && wanted == "off"@ {
        (crate::cli::ansi::AnsiView { on: false, ..a }, "Color disabled."@)
    } else {
        (
            a,
            "Color is "@ + (if a.on {
                "on"@
            } else {
                "off"@
            }) + "."@,
        )
    }
}

/// The commands whose answer is always the same.
pub open spec fn fixed_answer(cmd: Seq<char>) -> Option<Seq<char>> {
    if cmd == "/level"@ {
        Some("Autonomy level is set via CLI startup flags."@)
    } else if cmd == "/worktree"@ {
        Some("Git Worktree status: active"@)
    } else if cmd == "/checkpoint"@ {
        Some("Checkpoint recorded."@)
    } else if cmd == "/restore"@ {
        Some("Session restored to latest checkpoint."@)
    } else if cmd == "/flows"@ {
        Some("Flows directory: active"@)
    } else if cmd == "/compact"@ {
        Some("Context compaction scheduled."@)
    } else {
        None
    }
}

/// The commands that are answered with what is kept outside.
pub open spec fn request_of(cmd: Seq<char>, args: Seq<Seq<char>>) -> Option<RequestView> {
    if cmd == "/sessions"@ {
        Some(RequestView::Sessions)
    } else if cmd == "/undo"@ {
        Some(RequestView::Undo)
    } else if cmd == "/harness"@ {
        Some(RequestView::Harness)
    } else if cmd == "/refine"@ {
        Some(
            RequestView::Refine(
                if args.len() == 0 {
                    None
                } else {
                    Some(text::spec_join(args, " "@))
                },
            ),
        )
    } else if cmd == "/todos"@ {
        Some(RequestView::Todos)
    } else if cmd == "/journal"@ {
        Some(RequestView::Journal)
    } else {
        None
    }
}

/// The help text.
pub const HELP: &'static str = "## agent-m commands\n\n- `/model [id]` — query or switch the active model\n- `/variant [id]` — query or switch model variant\n- `/mode [plan|build]` — toggle plan (read-only) vs build mode\n- `/usage` — token and cache-hit telemetry\n- `/undo` — revert the last turn's file edits\n- `/todos` — show the persisted plan for this session\n- `/sessions` — list sessions for the current directory\n- `/harness` — show active harness notes\n- `/refine [focus]` — propose harness refinements\n- `/journal` — action audit timeline\n- `/tool-output [last|n]` — reprint a stored tool output\n- `/tools` — list stored tool outputs\n- `/compact` — compact conversation history\n- `/checkpoint` — record a git checkpoint\n- `/restore` — restore from last checkpoint\n- `/flows` — list available flow files\n- `/color [on|off]` — toggle ANSI color\n- `/provider` — show active provider details\n- `/level` — show autonomy level\n- `/exit` — quit";

/// What a command changes and answers.
pub ghost struct CommandView {
    pub agent: crate::agent::session::AgentView,
    pub ansi: crate::cli::ansi::AnsiView,
    pub result: ResultView,
}

/// What the command `cmd` does with its arguments.
pub open spec fn command_of(
    cmd: Seq<char>,
    args: Seq<Seq<char>>,
    agent: crate::agent::session::AgentView,
    models: Seq<crate::ai::models::ModelView>,
    store: Seq<crate::cli::toolout::OutputView>,
    a: crate::cli::ansi::AnsiView,
    width: usize,
) -> CommandView {
    let said = |s: Seq<char>| CommandView { agent, ansi: a, result: ResultView::Handled(s) };
    if cmd == "/exit"@ || cmd == "/quit"@ {
        CommandView { agent, ansi: a, result: ResultView::Exit }
    } else if request_of(cmd, args) is Some {
        CommandView { agent, ansi: a, result: ResultView::Load(request_of(cmd, args)->0) }
    } else if cmd == "/model"@ {
        let (agent, s) = model_command(agent, models, args);
        CommandView { agent, ansi: a, result: ResultView::Handled(s) }
    } else if cmd == "/variant"@ {
        let (agent, s) = variant_command(agent, models, args);
        CommandView { agent, ansi: a, result: ResultView::Handled(s) }
    } else if cmd == "/mode"@ {
        let (agent, s) = mode_command(a, agent, args, width);
        CommandView { agent, ansi: a, result: ResultView::Handled(s) }
    } else if cmd == "/usage"@ {
        said(usage_of(agent))
    } else if fixed_answer(cmd) is Some {
        said(fixed_answer(cmd)->0)
    } else if cmd == "/tool-output"@ {
        said(tool_output_of(store, args))
    } else if cmd == "/tools"@ {
        said("Tool outputs:\n"@ + crate::cli::toolout::list_of(store))
    } else if cmd == "/color"@ {
        let (a, s) = color_command(a, args);
        CommandView { agent, ansi: a, result: ResultView::Handled(s) }
    } else if cmd == "/provider"@ {
        said("Active provider models: "@ + text::spec_decimal(models.len()))
    } else if cmd == "/help"@ {
        said(crate::cli::ansi::markdown_of(a, HELP@))
    } else {
        said("Unknown command `"@ + cmd + "`. Type /help for available options."@)
    }
}

/// What a line does: what its command does, and nothing where it is none.
pub open spec fn line_command(
    line: Seq<char>,
    agent: crate::agent::session::AgentView,
    models: Seq<crate::ai::models::ModelView>,
    store: Seq<crate::cli::toolout::OutputView>,
    a: crate::cli::ansi::AnsiView,
    width: usize,
) -> CommandView {
    let s = text::spec_trim(line);
    let words = text::spec_words(s);
    if !text::begins(s, "/"@) || words.len() == 0 {
        CommandView { agent, ansi: a, result: ResultView::Continue }
    } else {
        command_of(words[0], words.skip(1), agent, models, store, a, width)
    }
}

// ---------------------------------------------------------------- doing them
fn ids(models: &[ModelSpec]) -> (out: Vec<String>)
    ensures
        out.deep_view() == ids_of(models.deep_view()),
{
    let mut out: Vec<String> = Vec::new();
    let mut i: usize = 0;
    while i < models.len()
        invariant
            i <= models.len(),
            out@.len() == i,
            forall|k: int| 0 <= k < i ==> (#[trigger] out@[k])@ == models@[k].id@,
        decreases models.len() - i,
    {
        out.push(models[i].id.dup());
        i += 1;
    }
    assert(out.deep_view() =~= ids_of(models.deep_view()));
    out
}

fn do_model(agent: &mut Agent, models: &[ModelSpec], args: &[String]) -> (r: String)
    ensures
        (final(agent).deep_view(), r@) == model_command(
            old(agent).deep_view(),
            models.deep_view(),
            args.deep_view(),
        ),
{
    if args.len() == 0 {
        return text::concat4(
            "Current model: ",
            agent.model(),
            "\nAvailable models: ",
            &text::join(ids(models).as_slice(), ", "),
        );
    }
    assert(args.deep_view()[0] == args@[0]@);
    if find_model(models, &args[0]).is_some() {
        agent.set_model(&args[0]);
        text::concat("Model switched to ", &args[0])
    } else {
        text::concat3("Unknown model `", &args[0], "` for active provider.")
    }
}

fn model_variants(models: &[ModelSpec], id: &str) -> (out: Vec<String>)
    ensures
        out.deep_view() == variants_of(models.deep_view(), id@),
{
    match find_model(models, id) {
        Some(i) => models[i].variants.dup(),
        None => {
            let out: Vec<String> = Vec::new();
            assert(out.deep_view() =~= seq![]);
            out
        },
    }
}

fn do_variant(agent: &mut Agent, models: &[ModelSpec], args: &[String]) -> (r: String)
    ensures
        (final(agent).deep_view(), r@) == variant_command(
            old(agent).deep_view(),
            models.deep_view(),
            args.deep_view(),
        ),
{
    let model = agent.model().to_owned();
    let variants = model_variants(models, &model);
    if args.len() == 0 {
        let current = match agent.variant() {
            Some(v) => v,
            None => "none".to_owned(),
        };
        let listed = if variants.len() == 0 {
            "none (model does not specify variants)".to_owned()
        } else {
            text::join(variants.as_slice(), ", ")
        };
        let mut r = text::concat5(
            "Current variant: ",
            &current,
            "\nAvailable variants for ",
            &model,
            ": ",
        );
        r.append(&listed);
        return r;
    }
    assert(args.deep_view()[0] == args@[0]@);
    let wanted = args[0].as_str();
    if text::contains_text(variants.as_slice(), wanted) || text::same(wanted, "none") || text::same(
        wanted,
        "default",
    ) {
        agent.set_variant(
            if text::same(wanted, "none") {
                None
            } else {
                Some(wanted.to_owned())
            },
        );
        text::concat3("Variant set to `", wanted, "`")
    } else {
        let listed = if variants.len() == 0 {
            "none".to_owned()
        } else {
            text::join(variants.as_slice(), ", ")
        };
        let mut r = text::concat5(
            "Invalid variant `",
            wanted,
            "`. Available variants for ",
            &model,
            ": ",
        );
        r.append(&listed);
        r
    }
}

fn do_mode(ansi: &Ansi, agent: &mut Agent, args: &[String], width: usize) -> (r: String)
    ensures
        (final(agent).deep_view(), r@) == mode_command(
            ansi.deep_view(),
            old(agent).deep_view(),
            args.deep_view(),
            width,
        ),
{
    if args.len() == 0 {
        let mode = match agent.mode() {
            Mode::Plan => "plan",
            Mode::Build => "build",
        };
        return text::concat("Current mode: ", mode);
    }
    assert(args.deep_view()[0] == args@[0]@);
    let wanted = text::to_lowercase(&args[0]);
    if text::same(&wanted, "plan") {
        agent.set_mode(Mode::Plan);
        line_box(ansi, "mode", "Read-only · no file writes", SectionKind::Notice, width)
    } else if text::same(&wanted, "build") {
        agent.set_mode(Mode::Build);
        line_box(ansi, "mode", "Writes enabled · tools active", SectionKind::Notice, width)
    } else {
        text::concat3("Unknown mode `", &wanted, "`. Use 'plan' or 'build'.")
    }
}

fn usage_text(agent: &Agent) -> (r: String)
    ensures
        r@ == usage_of(agent.deep_view()),
{
    let (input, window) = agent.context_usage();
    let stats = agent.cache_stats();
    let limit = match window {
        Some(w) => text::decimal(w),
        None => "unspecified".to_owned(),
    };
    let mut r = text::concat5(
        "Telemetry Usage:\n  - Last Input Tokens: ",
        &text::decimal(input),
        "\n  - Context Limit: ",
        &limit,
        "\n  - Cache Hit Tokens: ",
    );
    r.append(&text::decimal(stats.hit_tokens));
    r.append("\n  - Cache Miss Tokens: ");
    r.append(&text::decimal(stats.miss_tokens));
    r.append("\n  - Total Requests: ");
    r.append(&text::decimal(stats.requests));
    r
}

fn is_number(s: &str) -> (r: bool)
    ensures
        r == all_digits(s@),
{
    let x = text::chars_of(s);
    let mut i: usize = 0;
    while i < x.len()
        invariant
            i <= x.len(),
            x@ == s@,
            forall|k: int| 0 <= k < i ==> text::is_digit(#[trigger] s@[k]),
        decreases x.len() - i,
    {
        if x[i] < '0' || x[i] > '9' {
            assert(!text::is_digit(s@[i as int]));
            return false;
        }
        i += 1;
    }
    true
}

fn tool_output(store: &ToolStore, args: &[String]) -> (r: String)
    ensures
        r@ == tool_output_of(store@, args.deep_view()),
{
    let selector = if args.len() == 0 {
        "last"
    } else {
        assert(args.deep_view()[0] == args@[0]@);
        args[0].as_str()
    };
    match store.get(selector) {
        Some(out) => text::concat4("[Tool Output: ", &out.name, "]\n", &out.full),
        None => {
            if is_number(selector) {
                text::concat4(
                    "No tool output with index `",
                    selector,
                    "`. Available:\n",
                    &store.list(),
                )
            } else {
                text::concat4(
                    "Unknown selector `",
                    selector,
                    "`. Use `last` or a 1-based index.\n",
                    &store.list(),
                )
            }
        },
    }
}

fn do_color(ansi: &mut Ansi, args: &[String]) -> (r: String)
    ensures
        (final(ansi).deep_view(), r@) == color_command(old(ansi).deep_view(), args.deep_view()),
{
    if args.len() > 0 {
        assert(args.deep_view()[0] == args@[0]@);
        let wanted = text::to_ascii_lowercase(&args[0]);
        if text::same(&wanted, "on") {
            set_color(ansi, true);
            return "Color enabled.".to_owned();
        }
        if text::same(&wanted, "off") {
            set_color(ansi, false);
            return "Color disabled.".to_owned();
        }
    }
    text::concat3(
        "Color is ",
        if enabled(ansi) {
            "on"
        } else {
            "off"
        },
        ".",
    )
}

fn find_fixed(cmd: &str) -> (r: Option<&'static str>)
    ensures
        r.deep_view() == fixed_answer(cmd@),
{
    if text::same(cmd, "/level") {
        Some("Autonomy level is set via CLI startup flags.")
    } else if text::same(cmd, "/worktree") {
        Some("Git Worktree status: active")
    } else if text::same(cmd, "/checkpoint") {
        Some("Checkpoint recorded.")
    } else if text::same(cmd, "/restore") {
        Some("Session restored to latest checkpoint.")
    } else if text::same(cmd, "/flows") {
        Some("Flows directory: active")
    } else if text::same(cmd, "/compact") {
        Some("Context compaction scheduled.")
    } else {
        None
    }
}

fn find_request(cmd: &str, args: &[String]) -> (r: Option<Request>)
    ensures
        r.deep_view() == request_of(cmd@, args.deep_view()),
{
    if text::same(cmd, "/sessions") {
        Some(Request::Sessions)
    } else if text::same(cmd, "/undo") {
        Some(Request::Undo)
    } else if text::same(cmd, "/harness") {
        Some(Request::Harness)
    } else if text::same(cmd, "/refine") {
        Some(
            Request::Refine(
                if args.len() == 0 {
                    None
                } else {
                    Some(text::join(args, " "))
                },
            ),
        )
    } else if text::same(cmd, "/todos") {
        Some(Request::Todos)
    } else if text::same(cmd, "/journal") {
        Some(Request::Journal)
    } else {
        None
    }
}

fn run_command(
    cmd: &str,
    args: &[String],
    agent: &mut Agent,
    models: &[ModelSpec],
    tools: &ToolStore,
    ansi: &mut Ansi,
    width: usize,
) -> (r: CommandResult)
    ensures
        ({
            let c = command_of(
                cmd@,
                args.deep_view(),
                old(agent).deep_view(),
                models.deep_view(),
                tools@,
                old(ansi).deep_view(),
                width,
            );
            &&& final(agent).deep_view() == c.agent
            &&& final(ansi).deep_view() == c.ansi
            &&& r.deep_view() == c.result
        }),
{
    if text::same(cmd, "/exit") || text::same(cmd, "/quit") {
        return CommandResult::Exit;
    }
    if let Some(request) = find_request(cmd, args) {
        return CommandResult::Load(request);
    }
    let answer = if text::same(cmd, "/model") {
        do_model(agent, models, args)
    } else if text::same(cmd, "/variant") {
        do_variant(agent, models, args)
    } else if text::same(cmd, "/mode") {
        do_mode(ansi, agent, args, width)
    } else if text::same(cmd, "/usage") {
        usage_text(agent)
    } else if let Some(fixed) = find_fixed(cmd) {
        fixed.to_owned()
    } else if text::same(cmd, "/tool-output") {
        tool_output(tools, args)
    } else if text::same(cmd, "/tools") {
        text::concat("Tool outputs:\n", &tools.list())
    } else if text::same(cmd, "/color") {
        do_color(ansi, args)
    } else if text::same(cmd, "/provider") {
        text::concat("Active provider models: ", &text::decimal(models.len() as u64))
    } else if text::same(cmd, "/help") {
        render_markdown(ansi, HELP)
    } else {
        text::concat3("Unknown command `", cmd, "`. Type /help for available options.")
    };
    CommandResult::Handled(answer)
}

/// Does what a line commands: answers it, changes the agent or the styling of
/// output, or says what it needs from outside for an answer. A line that does not
/// begin with a slash is left alone.
pub fn handle_slash_command(
    line: &str,
    agent: &mut Agent,
    models: &[ModelSpec],
    tools: &ToolStore,
    ansi: &mut Ansi,
    width: usize,
) -> (r: CommandResult)
    ensures
        ({
            let c = line_command(
                line@,
                old(agent).deep_view(),
                models.deep_view(),
                tools@,
                old(ansi).deep_view(),
                width,
            );
            &&& final(agent).deep_view() == c.agent
            &&& final(ansi).deep_view() == c.ansi
            &&& r.deep_view() == c.result
        }),
{
    let s = text::trim(line);
    if !text::starts_with(&s, "/") {
        return CommandResult::Continue;
    }
    let words = text::words(&s);
    if words.len() == 0 {
        return CommandResult::Continue;
    }
    let ghost view = words.deep_view();
    assert(view[0] == words@[0]@);
    let mut words = words;
    let args = words.split_off(1);
    assert(args.deep_view() =~= view.skip(1));
    run_command(&words[0], &args, agent, models, tools, ansi, width)
}

/// A command changes nothing of a conversation.
pub proof fn law_commands_keep_the_conversation(
    line: Seq<char>,
    agent: crate::agent::session::AgentView,
    models: Seq<crate::ai::models::ModelView>,
    store: Seq<crate::cli::toolout::OutputView>,
    a: crate::cli::ansi::AnsiView,
    width: usize,
)
    ensures
        line_command(line, agent, models, store, a, width).agent.messages == agent.messages,
        line_command(line, agent, models, store, a, width).agent.options.system_prompt
            == agent.options.system_prompt,
{
}

/// Only a model that the provider offers is switched to.
pub proof fn law_unknown_models_are_refused(
    agent: crate::agent::session::AgentView,
    models: Seq<crate::ai::models::ModelView>,
    args: Seq<Seq<char>>,
)
    requires
        agent.options.model != model_command(agent, models, args).0.options.model,
    ensures
        exists|i: int|
            0 <= i < models.len() && (#[trigger] models[i]).id == model_command(
                agent,
                models,
                args,
            ).0.options.model,
{
    lemma_model_from(models, args[0], 0);
}

proof fn lemma_model_from(
    models: Seq<crate::ai::models::ModelView>,
    id: Seq<char>,
    from: int,
)
    ensures
        crate::ai::models::model_from(models, id, from) matches Some(i) ==> 0 <= i < models.len()
            && models[i].id == id,
    decreases models.len() - from,
{
    if 0 <= from < models.len() && models[from].id != id {
        lemma_model_from(models, id, from + 1);
    }
}

// ------------------------------------------------------ answers from outside
/// Lines with something before each and a line feed behind it.
pub open spec fn listed(items: Seq<Seq<char>>, before: Seq<char>) -> Seq<char>
    decreases items.len(),
{
    if items.len() == 0 {
        seq![]
    } else {
        listed(items.drop_last(), before) + before + items.last() + "\n"@
    }
}

fn list(items: &[String], before: &str) -> (out: String)
    ensures
        out@ == listed(items.deep_view(), before@),
{
    let ghost view = items.deep_view();
    let mut out = String::new();
    let mut i: usize = 0;
    assert(view.take(0) =~= seq![]);
    while i < items.len()
        invariant
            i <= items.len(),
            view == items.deep_view(),
            out@ == listed(view.take(i as int), before@),
        decreases items.len() - i,
    {
        assert(view.take(i + 1).drop_last() =~= view.take(i as int));
        assert(view[i as int] == items@[i as int]@);
        out.append(before);
        out.append(&items[i]);
        out.append("\n");
        i += 1;
    }
    assert(view.take(view.len() as int) =~= view);
    out
}

/// The answer to `/sessions`, given the paths of the sessions.
pub fn sessions_answer(paths: &[String]) -> (r: String)
    ensures
        r@ == if paths@.len() == 0 {
            "No prior sessions found for this directory."@
        } else {
            "Sessions:\n"@ + listed(paths.deep_view(), "  - "@)
        },
{
    if paths.len() == 0 {
        "No prior sessions found for this directory.".to_owned()
    } else {
        text::concat("Sessions:\n", &list(paths, "  - "))
    }
}

/// What came of undoing the last change.
pub enum Undone {
    /// There was none.
    Nothing,
    /// This was done to this file.
    Done { action: String, path: String },
    Failed(String),
}

/// The answer to `/undo`.
pub open spec fn undo_of(undone: Undone) -> Seq<char> {
    match undone {
        Undone::Nothing => "Nothing to undo."@,
        Undone::Done { action, path } => "Undo: "@ + action@ + " "@ + path@,
        Undone::Failed(error) => "Undo error: "@ + error@,
    }
}

/// The answer to `/undo`.
pub fn undo_answer(undone: &Undone) -> (r: String)
    ensures
        r@ == undo_of(*undone),
{
    match undone {
        Undone::Nothing => "Nothing to undo.".to_owned(),
        Undone::Done { action, path } => text::concat4("Undo: ", action, " ", path),
        Undone::Failed(error) => text::concat("Undo error: ", error),
    }
}

/// The lines of harness notes, each with its kind.
pub open spec fn notes_of(notes: Seq<(Seq<char>, Seq<char>)>) -> Seq<char>
    decreases notes.len(),
{
    if notes.len() == 0 {
        seq![]
    } else {
        notes_of(notes.drop_last()) + "  - ["@ + notes.last().0 + "] "@ + notes.last().1 + "\n"@
    }
}

/// The answer to `/harness`, given the notes, each with its kind.
pub fn harness_answer(notes: &[(String, String)]) -> (r: String)
    ensures
        r@ == if notes@.len() == 0 {
            "No active harness notes."@
        } else {
            "Harness Notes:\n"@ + notes_of(notes.deep_view())
        },
{
    if notes.len() == 0 {
        return "No active harness notes.".to_owned();
    }
    let ghost view = notes.deep_view();
    let mut out = String::new();
    let mut i: usize = 0;
    assert(view.take(0) =~= seq![]);
    while i < notes.len()
        invariant
            i <= notes.len(),
            view == notes.deep_view(),
            out@ == notes_of(view.take(i as int)),
        decreases notes.len() - i,
    {
        assert(view.take(i + 1).drop_last() =~= view.take(i as int));
        assert(view[i as int] == notes@[i as int].deep_view());
        out.append("  - [");
        out.append(&notes[i].0);
        out.append("] ");
        out.append(&notes[i].1);
        out.append("\n");
        i += 1;
    }
    assert(view.take(view.len() as int) =~= view);
    text::concat("Harness Notes:\n", &out)
}

/// A proposed refinement.
pub struct RefineOp {
    pub action: String,
    pub kind: String,
    pub reason: String,
    pub text: String,
}

/// What a `RefineOp` stands for.
pub ghost struct RefineView {
    pub action: Seq<char>,
    pub kind: Seq<char>,
    pub reason: Seq<char>,
    pub text: Seq<char>,
}

impl DeepView for RefineOp {
    type V = RefineView;

    open spec fn deep_view(&self) -> RefineView {
        RefineView {
            action: self.action@,
            kind: self.kind@,
            reason: self.reason@,
            text: self.text@,
        }
    }
}

/// The lines of proposed refinements.
pub open spec fn refinements_of(ops: Seq<RefineView>) -> Seq<char>
    decreases ops.len(),
{
    if ops.len() == 0 {
        seq![]
    } else {
        let op = ops.last();
        refinements_of(ops.drop_last()) + "  ["@ + op.action + " "@ + op.kind + "] "@ + op.reason
            + ": "@ + op.text + "\n"@
    }
}

/// The answer to `/refine`, given the proposal or why there is none.
pub open spec fn refine_of(proposal: Result<Seq<RefineView>, Seq<char>>) -> Seq<char> {
    match proposal {
        Ok(ops) => if ops.len() == 0 {
            "No refinements proposed."@
        } else {
            text::spec_decimal(ops.len()) + " refinement(s) proposed:\n"@ + refinements_of(ops)
        },
        Err(e) => "Refine error: "@ + e,
    }
}

/// The answer to `/refine`, given the proposal or why there is none.
pub fn refine_answer(proposal: &Result<Vec<RefineOp>, String>) -> (r: String)
    ensures
        r@ == refine_of(
            match proposal {
                Ok(ops) => Ok(ops.deep_view()),
                Err(e) => Err(e@),
            },
        ),
{
    let ops = match proposal {
        Ok(ops) => ops,
        Err(e) => {
            return text::concat("Refine error: ", e);
        },
    };
    if ops.len() == 0 {
        return "No refinements proposed.".to_owned();
    }
    let ghost view = ops.deep_view();
    let mut out = String::new();
    let mut i: usize = 0;
    assert(view.take(0) =~= seq![]);
    while i < ops.len()
        invariant
            i <= ops.len(),
            view == ops.deep_view(),
            out@ == refinements_of(view.take(i as int)),
        decreases ops.len() - i,
    {
        assert(view.take(i + 1).drop_last() =~= view.take(i as int));
        assert(view[i as int] == ops@[i as int].deep_view());
        out.append("  [");
        out.append(&ops[i].action);
        out.append(" ");
        out.append(&ops[i].kind);
        out.append("] ");
        out.append(&ops[i].reason);
        out.append(": ");
        out.append(&ops[i].text);
        out.append("\n");
        i += 1;
    }
    assert(view.take(view.len() as int) =~= view);
    text::concat3(&text::decimal(ops.len() as u64), " refinement(s) proposed:\n", &out)
}

/// The lines of a plan.
pub open spec fn todos_of(todos: Seq<crate::cli::repl::TodoView>) -> Seq<char>
    decreases todos.len(),
{
    if todos.len() == 0 {
        seq![]
    } else {
        let item = todos.last();
        todos_of(todos.drop_last()) + "  "@ + (if item.completed {
            "✓"@
        } else {
            "○"@
        }) + " "@ + text::spec_decimal(item.step as nat) + ". "@ + item.text + "\n"@
    }
}

/// The answer to `/todos`, given the plan.
pub fn todos_answer(todos: &[TodoItem]) -> (out: String)
    ensures
        out@ == if todos@.len() == 0 {
            "No plan recorded for this session."@
        } else {
            todos_of(todos.deep_view())
        },
{
    if todos.len() == 0 {
        return "No plan recorded for this session.".to_owned();
    }
    let ghost view = todos.deep_view();
    let mut out = String::new();
    let mut i: usize = 0;
    assert(view.take(0) =~= seq![]);
    while i < todos.len()
        invariant
            i <= todos.len(),
            view == todos.deep_view(),
            out@ == todos_of(view.take(i as int)),
        decreases todos.len() - i,
    {
        assert(view.take(i + 1).drop_last() =~= view.take(i as int));
        assert(view[i as int] == todos@[i as int].deep_view());
        out.append("  ");
        out.append(
            if todos[i].completed {
                "✓"
            } else {
                "○"
            },
        );
        out.append(" ");
        out.append(&text::decimal(todos[i].step as u64));
        out.append(". ");
        out.append(&todos[i].text);
        out.append("\n");
        i += 1;
    }
    assert(view.take(view.len() as int) =~= view);
    out
}

/// An entry of the journal.
pub struct JournalRow {
    pub time: String,
    pub kind: String,
    pub text: String,
}

/// What a `JournalRow` stands for.
pub ghost struct JournalView {
    pub time: Seq<char>,
    pub kind: Seq<char>,
    pub text: Seq<char>,
}

impl DeepView for JournalRow {
    type V = JournalView;

    open spec fn deep_view(&self) -> JournalView {
        JournalView { time: self.time@, kind: self.kind@, text: self.text@ }
    }
}

/// The lines of the journal.
pub open spec fn journal_of(rows: Seq<JournalView>) -> Seq<char>
    decreases rows.len(),
{
    if rows.len() == 0 {
        seq![]
    } else {
        let row = rows.last();
        journal_of(rows.drop_last()) + "["@ + row.time + "] "@ + row.kind + " "@ + row.text + "\n"@
    }
}

/// The answer to `/journal`, given the entries.
pub fn journal_answer(rows: &[JournalRow]) -> (r: String)
    ensures
        r@ == if rows@.len() == 0 {
            "Journal empty."@
        } else {
            "Journal:\n"@ + journal_of(rows.deep_view())
        },
{
    if rows.len() == 0 {
        return "Journal empty.".to_owned();
    }
    let ghost view = rows.deep_view();
    let mut out = String::new();
    let mut i: usize = 0;
    assert(view.take(0) =~= seq![]);
    while i < rows.len()
        invariant
            i <= rows.len(),
            view == rows.deep_view(),
            out@ == journal_of(view.take(i as int)),
        decreases rows.len() - i,
    {
        assert(view.take(i + 1).drop_last() =~= view.take(i as int));
        assert(view[i as int] == rows@[i as int].deep_view());
        out.append("[");
        out.append(&rows[i].time);
        out.append("] ");
        out.append(&rows[i].kind);
        out.append(" ");
        out.append(&rows[i].text);
        out.append("\n");
        i += 1;
    }
    assert(view.take(view.len() as int) =~= view);
    text::concat("Journal:\n", &out)
}

} // verus!
