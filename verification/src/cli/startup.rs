//! What a session starts with: settings, provider, model, tools and prompt.
use crate::agent::context::{render_instructions, InstructionFile};
use crate::agent::risk::RiskPolicy;
use crate::agent::tool::{is_kept, AlwaysAllowGate, DangerousCommandGate};
use crate::agent::trust_policy::TrustMode;
use crate::ai::models::{find_model, ModelSpec};
use crate::ai::providers::ProviderConfig;
use crate::dup::Dup;
use crate::json::{self, Json};
use crate::mcp::registry::{matches_patterns, McpServerConfig};
use crate::mcp::tools::McpTool;
use crate::paths;
use crate::text;
use vstd::prelude::*;

verus! {

/// How many tools there may be before a warning.
pub const TOOL_BUDGET: usize = 80;

/// How long the first prompt may be before a warning, in characters.
pub const STARTUP_CONTEXT_MAX_CHARS: usize = 50_000;

/// The prompt of the system where none is given.
pub const DEFAULT_SYSTEM_PROMPT: &'static str = "You are agent-m, a coding agent running in a terminal. You have access to tools (bash, read, write, edit, grep, find, ls) for working with the user's codebase. Be concise and precise. Use tools when they help; do not invent file contents.";

// ---------------------------------------------------------------------- settings
/// The directory of the agent: below the one that the environment names, else below
/// the home directory.
pub open spec fn agent_dir_of(named: Option<Seq<char>>, home: Option<Seq<char>>) -> Seq<char> {
    match named {
        Some(dir) => paths::joined(dir, "agent"@),
        None => paths::joined(
            paths::joined(
                match home {
                    Some(home) => home,
                    None => "."@,
                },
                ".agent-m"@,
            ),
            "agent"@,
        ),
    }
}

/// The directory of the agent.
pub fn default_agent_dir(named: Option<&str>, home: Option<&str>) -> (r: String)
    ensures
        r@ == agent_dir_of(named.deep_view(), home.deep_view()),
{
    match named {
        Some(dir) => paths::join(dir, "agent"),
        None => {
            let home = match home {
                Some(home) => home,
                None => ".",
            };
            paths::join(&paths::join(home, ".agent-m"), "agent")
        },
    }
}

/// The settings in a file; none where there is no such file, or no JSON in it.
pub open spec fn settings_of(file: Option<Seq<char>>) -> json::JsonView {
    match file {
        Some(contents) => match json::parsed_json(contents) {
            Ok(j) => j,
            Err(_) => json::JsonView::Object(Map::empty()),
        },
        None => json::JsonView::Object(Map::empty()),
    }
}

/// The settings in a file.
pub fn load_settings(file: Option<&str>) -> (r: Json)
    ensures
        r.deep_view() == settings_of(file.deep_view()),
{
    match file {
        Some(contents) => match json::parse(contents) {
            Ok(j) => j,
            Err(_) => Json::object(),
        },
        None => Json::object(),
    }
}

/// The number of the level of autonomy: the one that is given, else the low byte of
/// that in the settings, else 3.
pub open spec fn level_of(given: Option<u8>, settings: json::JsonView) -> u8 {
    match given {
        Some(n) => n,
        None => match settings.field("level"@) {
            Some(level) => match level.unsigned() {
                Some(n) => (n % 256) as u8,
                None => 3,
            },
            None => 3,
        },
    }
}

/// The number of the level of autonomy.
pub fn resolve_level(given: Option<u8>, settings: &Json) -> (r: u8)
    ensures
        r == level_of(given, settings.deep_view()),
{
    match given {
        Some(n) => n,
        None => match settings.get("level") {
            Some(level) => match level.as_u64() {
                Some(n) => (n % 256) as u8,
                None => 3,
            },
            None => 3,
        },
    }
}

/// The tools whose every call is asked about: all of them below the level at which
/// calls are trusted, and from there on those of which nothing is known.
pub open spec fn asked_tools(
    level: u8,
    all: Seq<Seq<char>>,
    opaque: Seq<Seq<char>>,
) -> Seq<Seq<char>> {
    if level < 3 {
        all
    } else {
        opaque
    }
}

/// The tools whose every call is asked about, given all and those of which nothing
/// is known.
pub fn always_asked(level: u8, all: &[String], opaque: &[String]) -> (out: Vec<String>)
    ensures
        out.deep_view() == asked_tools(level, all.deep_view(), opaque.deep_view()),
{
    if level < 3 {
        crate::dup::dup_slice(all)
    } else {
        crate::dup::dup_slice(opaque)
    }
}

/// The strings among the items of an array.
pub open spec fn strings_in(items: Seq<json::JsonView>) -> Seq<Seq<char>>
    decreases items.len(),
{
    if items.len() == 0 {
        seq![]
    } else {
        match items.last().str() {
            Some(s) => strings_in(items.drop_last()).push(s),
            None => strings_in(items.drop_last()),
        }
    }
}

/// The paths that tools may touch: those that are given, and those in the settings.
pub open spec fn allowed_of(given: Seq<Seq<char>>, settings: json::JsonView) -> Seq<Seq<char>> {
    match settings.field("allowedPaths"@) {
        Some(v) => match v.items() {
            Some(items) => given + strings_in(items),
            None => given,
        },
        None => given,
    }
}

/// The paths that tools may touch.
pub fn allowed_paths(given: &[String], settings: &Json) -> (out: Vec<String>)
    ensures
        out.deep_view() == allowed_of(given.deep_view(), settings.deep_view()),
{
    let mut out = crate::dup::dup_slice(given);
    let ghost first = out.deep_view();
    if let Some(v) = settings.get("allowedPaths") {
        if let Some(items) = v.as_array() {
            let ghost view = items.deep_view();
            let mut i: usize = 0;
            assert(view.take(0) =~= seq![]);
            assert(first + strings_in(seq![]) =~= first);
            while i < items.len()
                invariant
                    i <= items.len(),
                    view == items.deep_view(),
                    out.deep_view() == first + strings_in(view.take(i as int)),
                decreases items.len() - i,
            {
                assert(view.take(i + 1).drop_last() =~= view.take(i as int));
                assert(view[i as int] == items@[i as int].deep_view());
                match items[i].as_str() {
                    Some(s) => {
                        text::put(&mut out, s.to_owned());
                        assert(out.deep_view() =~= first + strings_in(view.take(i + 1)));
                    },
                    None => {},
                }
                i += 1;
            }
            assert(view.take(view.len() as int) =~= view);
        }
    }
    out
}

// ---------------------------------------------------------------------- provider
/// What is said where there is no provider.
pub const NO_PROVIDERS: &'static str = "No LLM providers are configured in ~/.agent-m/agent/settings.json.\nPlease configure your providers in settings.json, for example:\n{\n  \"defaultProvider\": \"openai\",\n  \"defaultModel\": \"gpt-4o-mini\",\n  \"providers\": [\n    {\n      \"id\": \"openai\",\n      \"baseUrl\": \"https://api.openai.com/v1\",\n      \"model\": \"gpt-4o-mini\"\n    }\n  ]\n}";

/// The id of the provider: the one that is given, else that of the task, else the
/// default one, else the first, else `default`.
pub open spec fn provider_id_of(
    given: Option<Seq<char>>,
    task: Option<Seq<char>>,
    default_id: Option<Seq<char>>,
    configs: Seq<crate::ai::providers::ConfigView>,
) -> Seq<char> {
    if given is Some {
        given->0
    } else if task is Some {
        task->0
    } else if default_id is Some {
        default_id->0
    } else if configs.len() > 0 {
        configs[0].id
    } else {
        "default"@
    }
}

/// The id of the provider.
pub fn target_provider_id(
    given: Option<&str>,
    task: Option<&str>,
    default_id: Option<&str>,
    configs: &[ProviderConfig],
) -> (r: String)
    ensures
        r@ == provider_id_of(
            given.deep_view(),
            task.deep_view(),
            default_id.deep_view(),
            configs.deep_view(),
        ),
{
    if let Some(id) = given {
        id.to_owned()
    } else if let Some(id) = task {
        id.to_owned()
    } else if let Some(id) = default_id {
        id.to_owned()
    } else if configs.len() > 0 {
        assert(configs.deep_view()[0] == configs@[0].deep_view());
        configs[0].id.dup()
    } else {
        "default".to_owned()
    }
}

/// The position of the first provider with this id, from `from` on.
pub open spec fn provider_from(
    configs: Seq<crate::ai::providers::ConfigView>,
    id: Seq<char>,
    from: int,
) -> Option<int>
    decreases configs.len() - from,
{
    if from < 0 || from >= configs.len() {
        None
    } else if configs[from].id == id {
        Some(from)
    } else {
        provider_from(configs, id, from + 1)
    }
}

/// The ids of providers.
pub open spec fn ids_of(configs: Seq<crate::ai::providers::ConfigView>) -> Seq<Seq<char>> {
    configs.map_values(|c: crate::ai::providers::ConfigView| c.id)
}

/// What is said where the provider is not configured.
pub open spec fn not_configured(
    configs: Seq<crate::ai::providers::ConfigView>,
    id: Seq<char>,
) -> Seq<char> {
    "provider `"@ + id + "` is not configured in settings.json `providers`. Available: ["@
        + text::spec_join(ids_of(configs), ", "@) + "]"@
}

/// Finds the provider with this id, or says which there are.
pub fn find_provider(configs: &[ProviderConfig], id: &str) -> (r: Result<usize, String>)
    ensures
        match provider_from(configs.deep_view(), id@, 0) {
            Some(i) => r matches Ok(n) && n == i && n < configs@.len(),
            None => r matches Err(e) && e@ == not_configured(configs.deep_view(), id@),
        },
{
    let ghost view = configs.deep_view();
    let mut ids: Vec<String> = Vec::new();
    let mut i: usize = 0;
    while i < configs.len()
        invariant
            i <= configs@.len(),
            view == configs.deep_view(),
            provider_from(view, id@, 0) == provider_from(view, id@, i as int),
            ids@.len() == i,
            forall|k: int| 0 <= k < i ==> (#[trigger] ids@[k])@ == configs@[k].deep_view().id,
        decreases configs.len() - i,
    {
        assert(view[i as int] == configs@[i as int].deep_view());
        if text::same(&configs[i].id, id) {
            return Ok(i);
        }
        ids.push(configs[i].id.dup());
        i += 1;
    }
    assert(ids.deep_view() =~= ids_of(view));
    Err(
        text::concat5(
            "provider `",
            id,
            "` is not configured in settings.json `providers`. Available: [",
            &text::join(ids.as_slice(), ", "),
            "]",
        ),
    )
}

/// The model: the one that is given, else that of the task, else the default one,
/// else the first of the provider, else `default`.
pub open spec fn model_of(
    given: Option<Seq<char>>,
    task: Option<Seq<char>>,
    default_model: Option<Seq<char>>,
    models: Seq<crate::ai::models::ModelView>,
) -> Seq<char> {
    if given is Some {
        given->0
    } else if task is Some {
        task->0
    } else if default_model is Some {
        default_model->0
    } else if models.len() > 0 {
        models[0].id
    } else {
        "default"@
    }
}

/// The model.
pub fn resolve_model(
    given: Option<&str>,
    task: Option<&str>,
    default_model: Option<&str>,
    models: &[ModelSpec],
) -> (r: String)
    ensures
        r@ == model_of(
            given.deep_view(),
            task.deep_view(),
            default_model.deep_view(),
            models.deep_view(),
        ),
{
    if let Some(id) = given {
        id.to_owned()
    } else if let Some(id) = task {
        id.to_owned()
    } else if let Some(id) = default_model {
        id.to_owned()
    } else if models.len() > 0 {
        assert(models.deep_view()[0] == models@[0].deep_view());
        models[0].id.dup()
    } else {
        "default".to_owned()
    }
}

/// The context window of the model, where it is known.
pub fn window_of(models: &[ModelSpec], id: &str) -> (r: Option<u64>)
    ensures
        r == (match crate::ai::models::model_from(models.deep_view(), id@, 0) {
            Some(i) => models.deep_view()[i].context_window,
            None => None,
        }),
{
    match find_model(models, id) {
        Some(i) => {
            assert(models.deep_view()[i as int] == models@[i as int].deep_view());
            models[i].context_window
        },
        None => None,
    }
}

/// The line for a model in the list of models.
pub fn model_line(provider_id: &str, model: &ModelSpec) -> (r: String)
    ensures
        r@ == provider_id@ + "\t"@ + model.deep_view().id + "\t"@ + (
        match model.deep_view().name {
            Some(name) => name,
            None => ""@,
        }) + if model.deep_view().reasoning {
            " (reasoning)"@
        } else {
            ""@
        },
{
    let name = match &model.name {
        Some(name) => name.as_str(),
        None => "",
    };
    let mark = if model.reasoning {
        " (reasoning)"
    } else {
        ""
    };
    let mut r = text::concat5(provider_id, "\t", &model.id, "\t", name);
    r.append(mark);
    r
}

// -------------------------------------------------------------------------- tools
/// Whether tools are there: they are not switched off, and where nobody can be
/// asked the user has agreed to them.
pub fn tools_enabled(no_tools: bool, print_mode: bool, yes: bool) -> (r: bool)
    ensures
        r == (!no_tools && (!print_mode || yes)),
{
    !no_tools && (!print_mode || yes)
}

/// The warning that tools are switched off because nobody can be asked.
pub fn print_mode_warning(no_tools: bool, print_mode: bool, yes: bool) -> (r: Option<&'static str>)
    ensures
        r.deep_view() == if print_mode && !yes && !no_tools {
            Some("warning: print mode disables tools; pass --yes to enable them"@)
        } else {
            None
        },
{
    if print_mode && !yes && !no_tools {
        Some("warning: print mode disables tools; pass --yes to enable them")
    } else {
        None
    }
}

/// The warning that there are many tools.
pub fn budget_warning(count: usize) -> (r: Option<String>)
    ensures
        r.deep_view() == if count > TOOL_BUDGET {
            Some(
                "warning: "@ + text::spec_decimal(count as nat) + " tools active (budget "@
                    + text::spec_decimal(TOOL_BUDGET as nat)
                    + "); consider pruning tool schemas"@,
            )
        } else {
            None
        },
{
    if count > TOOL_BUDGET {
        Some(
            text::concat5(
                "warning: ",
                &text::decimal(count as u64),
                " tools active (budget ",
                &text::decimal(TOOL_BUDGET as u64),
                "); consider pruning tool schemas",
            ),
        )
    } else {
        None
    }
}

/// The tools that are active, in the order in which there are such tools: those
/// that are named, or those of the usual set, without those that are excluded.
pub open spec fn built(
    all: Seq<Seq<char>>,
    usual: Seq<Seq<char>>,
    named: Seq<Seq<char>>,
    excluded: Seq<Seq<char>>,
) -> Seq<Seq<char>>
    decreases all.len(),
{
    if all.len() == 0 {
        seq![]
    } else {
        let before = built(all.drop_last(), usual, named, excluded);
        let wanted = if named.len() == 0 {
            usual
        } else {
            named
        };
        if wanted.contains(all.last()) && !excluded.contains(all.last()) {
            before.push(all.last())
        } else {
            before
        }
    }
}

/// The tools that are active.
pub fn build_tools(
    no_tools: bool,
    all: &[String],
    usual: &[String],
    named: &[String],
    excluded: &[String],
) -> (out: Vec<String>)
    ensures
        out.deep_view() == if no_tools {
            seq![]
        } else {
            built(all.deep_view(), usual.deep_view(), named.deep_view(), excluded.deep_view())
        },
{
    let mut out: Vec<String> = Vec::new();
    assert(out.deep_view() =~= seq![]);
    if no_tools {
        return out;
    }
    assert(named.deep_view().len() == named@.len());
    let wanted = if named.len() == 0 {
        usual
    } else {
        named
    };
    let ghost view = all.deep_view();
    let mut i: usize = 0;
    assert(view.take(0) =~= seq![]);
    while i < all.len()
        invariant
            i <= all@.len(),
            view == all.deep_view(),
            wanted.deep_view() == if named.deep_view().len() == 0 {
                usual.deep_view()
            } else {
                named.deep_view()
            },
            out.deep_view() == built(
                view.take(i as int),
                usual.deep_view(),
                named.deep_view(),
                excluded.deep_view(),
            ),
        decreases all.len() - i,
    {
        assert(view.take(i + 1).drop_last() =~= view.take(i as int));
        assert(view[i as int] == all@[i as int]@);
        if text::contains_text(wanted, &all[i]) && !text::contains_text(excluded, &all[i]) {
            text::put(&mut out, all[i].dup());
        }
        i += 1;
    }
    assert(view.take(view.len() as int) =~= view);
    out
}

/// The tools of a plugin that are active. None of them is looked into.
pub open spec fn kept_of(
    names: Seq<Seq<char>>,
    named: Seq<Seq<char>>,
    excluded: Seq<Seq<char>>,
) -> Seq<Seq<char>> {
    names.filter(|name: Seq<char>| crate::agent::tool::keeps(name, named, excluded))
}

/// The tools of a plugin that are active.
pub fn plugin_tools(names: &[String], named: &[String], excluded: &[String]) -> (out: Vec<String>)
    ensures
        out.deep_view() == kept_of(names.deep_view(), named.deep_view(), excluded.deep_view()),
{
    let ghost keep = |name: Seq<char>|
        crate::agent::tool::keeps(name, named.deep_view(), excluded.deep_view());
    let ghost view = names.deep_view();
    let mut out: Vec<String> = Vec::new();
    let mut i: usize = 0;
    assert(view.take(0) =~= seq![]);
    proof {
        reveal(Seq::filter);
    }
    assert(out.deep_view() =~= seq![]);
    while i < names.len()
        invariant
            i <= names@.len(),
            view == names.deep_view(),
            keep == (|name: Seq<char>|
                crate::agent::tool::keeps(name, named.deep_view(), excluded.deep_view())),
            out.deep_view() == view.take(i as int).filter(keep),
        decreases names.len() - i,
    {
        proof {
            reveal(Seq::filter);
        }
        assert(view.take(i + 1).drop_last() =~= view.take(i as int));
        assert(view[i as int] == names@[i as int]@);
        if is_kept(&names[i], named, excluded) {
            text::put(&mut out, names[i].dup());
        }
        i += 1;
    }
    assert(view.take(view.len() as int) =~= view);
    out
}

/// Whether a tool of a server has to be approved whatever it is asked: unless the
/// server or the configuration says that it changes nothing.
pub open spec fn is_opaque(
    tool: crate::mcp::tools::McpToolView,
    hinted: Seq<Seq<char>>,
    patterns: Seq<Seq<char>>,
) -> bool {
    !hinted.contains(tool.name) && !(exists|i: int|
        0 <= i < patterns.len() && #[trigger] crate::mcp::registry::pattern_matches(
            tool.bare(),
            patterns[i],
        ))
}

/// The tools of a server that are active, and those among them that have to be
/// approved whatever they are asked.
pub open spec fn server_tools_of(
    tools: Seq<crate::mcp::tools::McpToolView>,
    hinted: Seq<Seq<char>>,
    patterns: Seq<Seq<char>>,
    named: Seq<Seq<char>>,
    excluded: Seq<Seq<char>>,
) -> (Seq<Seq<char>>, Seq<Seq<char>>)
    decreases tools.len(),
{
    if tools.len() == 0 {
        (seq![], seq![])
    } else {
        let (kept, opaque) = server_tools_of(
            tools.drop_last(),
            hinted,
            patterns,
            named,
            excluded,
        );
        let tool = tools.last();
        if !crate::agent::tool::keeps(tool.name, named, excluded) {
            (kept, opaque)
        } else if is_opaque(tool, hinted, patterns) {
            (kept.push(tool.name), opaque.push(tool.name))
        } else {
            (kept.push(tool.name), opaque)
        }
    }
}

/// The tools of a server that are active, and those among them that have to be
/// approved whatever they are asked.
pub fn server_tools(
    tools: &[McpTool],
    hinted: &[String],
    patterns: &[String],
    named: &[String],
    excluded: &[String],
) -> (r: (Vec<String>, Vec<String>))
    ensures
        (r.0.deep_view(), r.1.deep_view()) == server_tools_of(
            tools.deep_view(),
            hinted.deep_view(),
            patterns.deep_view(),
            named.deep_view(),
            excluded.deep_view(),
        ),
{
    let ghost view = tools.deep_view();
    let mut kept: Vec<String> = Vec::new();
    let mut opaque: Vec<String> = Vec::new();
    let mut i: usize = 0;
    assert(view.take(0) =~= seq![]);
    assert(kept.deep_view() =~= seq![]);
    assert(opaque.deep_view() =~= seq![]);
    while i < tools.len()
        invariant
            i <= tools@.len(),
            view == tools.deep_view(),
            (kept.deep_view(), opaque.deep_view()) == server_tools_of(
                view.take(i as int),
                hinted.deep_view(),
                patterns.deep_view(),
                named.deep_view(),
                excluded.deep_view(),
            ),
        decreases tools.len() - i,
    {
        assert(view.take(i + 1).drop_last() =~= view.take(i as int));
        assert(view[i as int] == tools@[i as int].deep_view());
        let name = tools[i].name.as_str();
        if is_kept(name, named, excluded) {
            let read_only = text::contains_text(hinted, name) || matches_patterns(
                &tools[i].bare_name(),
                patterns,
            );
            if !read_only {
                text::put(&mut opaque, name.to_owned());
            }
            text::put(&mut kept, name.to_owned());
        }
        i += 1;
    }
    assert(view.take(view.len() as int) =~= view);
    (kept, opaque)
}

/// Whether there is an active tool of this name, and one that has to be approved
/// whatever it is asked where `opaque` says so.
pub open spec fn is_active(
    tools: Seq<crate::mcp::tools::McpToolView>,
    hinted: Seq<Seq<char>>,
    patterns: Seq<Seq<char>>,
    named: Seq<Seq<char>>,
    excluded: Seq<Seq<char>>,
    name: Seq<char>,
    opaque: bool,
) -> bool {
    crate::agent::tool::keeps(name, named, excluded) && exists|i: int|
        0 <= i < tools.len() && (#[trigger] tools[i]).name == name && (opaque ==> is_opaque(
            tools[i],
            hinted,
            patterns,
        ))
}

/// The tools that have to be approved are the active tools that are not said to change
/// nothing.
pub proof fn law_unknown_tools_are_opaque(
    tools: Seq<crate::mcp::tools::McpToolView>,
    hinted: Seq<Seq<char>>,
    patterns: Seq<Seq<char>>,
    named: Seq<Seq<char>>,
    excluded: Seq<Seq<char>>,
    name: Seq<char>,
)
    ensures
        server_tools_of(tools, hinted, patterns, named, excluded).0.contains(name) == is_active(
            tools,
            hinted,
            patterns,
            named,
            excluded,
            name,
            false,
        ),
        server_tools_of(tools, hinted, patterns, named, excluded).1.contains(name) == is_active(
            tools,
            hinted,
            patterns,
            named,
            excluded,
            name,
            true,
        ),
    decreases tools.len(),
{
    if tools.len() > 0 {
        let fewer = tools.drop_last();
        let last = tools.last();
        law_unknown_tools_are_opaque(fewer, hinted, patterns, named, excluded, name);
        let (kept, opaque) = server_tools_of(fewer, hinted, patterns, named, excluded);
        crate::sorted::lemma_push_contains(kept, last.name, name);
        crate::sorted::lemma_push_contains(opaque, last.name, name);
        lemma_active_grows(tools, hinted, patterns, named, excluded, name, true);
        lemma_active_grows(tools, hinted, patterns, named, excluded, name, false);
    }
}

proof fn lemma_active_grows(
    tools: Seq<crate::mcp::tools::McpToolView>,
    hinted: Seq<Seq<char>>,
    patterns: Seq<Seq<char>>,
    named: Seq<Seq<char>>,
    excluded: Seq<Seq<char>>,
    name: Seq<char>,
    opaque: bool,
)
    requires
        tools.len() > 0,
    ensures
        is_active(tools, hinted, patterns, named, excluded, name, opaque) == (is_active(
            tools.drop_last(),
            hinted,
            patterns,
            named,
            excluded,
            name,
            opaque,
        ) || (tools.last().name == name && crate::agent::tool::keeps(name, named, excluded) && (opaque
            ==> is_opaque(tools.last(), hinted, patterns)))),
{
    let fewer = tools.drop_last();
    let n = tools.len() - 1;
    assert(tools[n] == tools.last());
    if exists|i: int|
        0 <= i < fewer.len() && (#[trigger] fewer[i]).name == name && (opaque ==> is_opaque(
            fewer[i],
            hinted,
            patterns,
        )) {
        let i = choose|i: int|
            0 <= i < fewer.len() && (#[trigger] fewer[i]).name == name && (opaque ==> is_opaque(
                fewer[i],
                hinted,
                patterns,
            ));
        assert(tools[i] == fewer[i]);
    }
    if is_active(tools, hinted, patterns, named, excluded, name, opaque) {
        let i = choose|i: int|
            0 <= i < tools.len() && (#[trigger] tools[i]).name == name && (opaque ==> is_opaque(
                tools[i],
                hinted,
                patterns,
            ));
        if i < n {
            assert(fewer[i] == tools[i]);
        }
    }
}

/// How a server is reached.
pub enum Connect {
    /// By this command.
    Stdio(String),
    /// At this address.
    Http(String),
    /// Not at all, which is said.
    Skip(String),
}

/// What a `Connect` stands for.
pub ghost enum ConnectView {
    Stdio(Seq<char>),
    Http(Seq<char>),
    Skip(Seq<char>),
}

impl DeepView for Connect {
    type V = ConnectView;

    open spec fn deep_view(&self) -> ConnectView {
        match self {
            Connect::Stdio(s) => ConnectView::Stdio(s@),
            Connect::Http(s) => ConnectView::Http(s@),
            Connect::Skip(s) => ConnectView::Skip(s@),
        }
    }
}

/// How a server is reached: by its command, else at its address.
pub fn how_to_connect(name: &str, config: &McpServerConfig) -> (r: Connect)
    ensures
        r.deep_view() == (match config.deep_view().command {
            Some(command) => ConnectView::Stdio(command),
            None => match config.deep_view().url {
                Some(url) => ConnectView::Http(url),
                None => ConnectView::Skip(
                    "mcp: server `"@ + name@ + "` has neither command nor url"@,
                ),
            },
        }),
{
    match &config.command {
        Some(command) => Connect::Stdio(command.dup()),
        None => match &config.url {
            Some(url) => Connect::Http(url.dup()),
            None => Connect::Skip(
                text::concat3("mcp: server `", name, "` has neither command nor url"),
            ),
        },
    }
}

/// How the connection to a server ended.
pub enum Connection {
    /// The server offers this many tools.
    Tools(usize),
    /// It could be reached, and then did not answer as it should.
    Handshake(String),
    Failed(String),
}

/// What is said of the connection to a server.
pub fn connection_text(name: &str, connection: &Connection) -> (r: String)
    ensures
        r@ == (match *connection {
            Connection::Tools(n) => "mcp: connected `"@ + name@ + "` ("@ + text::spec_decimal(
                n as nat,
            ) + " tool(s))"@,
            Connection::Handshake(e) => "mcp: `"@ + name@ + "` handshake failed: "@ + e@,
            Connection::Failed(e) => "mcp: `"@ + name@ + "` connect failed: "@ + e@,
        }),
{
    match connection {
        Connection::Tools(n) => text::concat5(
            "mcp: connected `",
            name,
            "` (",
            &text::decimal(*n as u64),
            " tool(s))",
        ),
        Connection::Handshake(e) => text::concat4("mcp: `", name, "` handshake failed: ", e),
        Connection::Failed(e) => text::concat4("mcp: `", name, "` connect failed: ", e),
    }
}

/// Who decides where nobody can be asked: all but risky calls are allowed where the
/// user has agreed, and else none is.
pub fn non_interactive_gate(yes: bool, policy: RiskPolicy) -> (r: Option<
    DangerousCommandGate<AlwaysAllowGate>,
>)
    ensures
        r is Some == yes,
        r matches Some(gate) ==> gate.policy == policy,
{
    if yes {
        Some(DangerousCommandGate::new(policy, AlwaysAllowGate))
    } else {
        None
    }
}

// ------------------------------------------------------------------------- prompt
/// The prompt of the system: the base, the instructions of the project, and what
/// the user prefers.
pub open spec fn system_prompt_of(
    base: Option<Seq<char>>,
    files: Seq<crate::agent::context::InstructionView>,
    preferences: Seq<char>,
) -> Seq<char> {
    (match base {
        Some(base) => base,
        None => DEFAULT_SYSTEM_PROMPT@,
    }) + crate::agent::context::instructions_text(files) + preferences
}

/// The prompt of the system.
pub fn system_prompt(base: Option<&str>, files: &[InstructionFile], preferences: &str) -> (r: String)
    ensures
        r@ == system_prompt_of(base.deep_view(), files.deep_view(), preferences@),
{
    let base = match base {
        Some(base) => base,
        None => DEFAULT_SYSTEM_PROMPT,
    };
    text::concat3(base, &render_instructions(files), preferences)
}

/// The warning that the prompt is long.
pub fn context_warning(prompt: &str) -> (r: Option<String>)
    ensures
        r.deep_view() == if prompt@.len() > STARTUP_CONTEXT_MAX_CHARS {
            Some(
                "warning: startup context is "@ + text::spec_decimal(prompt@.len())
                    + " chars (cap "@ + text::spec_decimal(STARTUP_CONTEXT_MAX_CHARS as nat)
                    + "); consider trimming AGENTS.md files"@,
            )
        } else {
            None
        },
{
    let n = text::count(prompt);
    if n > STARTUP_CONTEXT_MAX_CHARS {
        Some(
            text::concat5(
                "warning: startup context is ",
                &text::decimal(n as u64),
                " chars (cap ",
                &text::decimal(STARTUP_CONTEXT_MAX_CHARS as u64),
                "); consider trimming AGENTS.md files",
            ),
        )
    } else {
        None
    }
}

/// How strictly gaps are treated, by its name; `warn` for any other.
pub fn trust_mode(name: &str) -> (r: TrustMode)
    ensures
        r == if name@ == "off"@ {
            TrustMode::Off
        } else if name@ == "ask"@ {
            TrustMode::Ask
        } else if name@ == "block"@ {
            TrustMode::Block
        } else {
            TrustMode::Warn
        },
{
    if text::same(name, "off") {
        TrustMode::Off
    } else if text::same(name, "ask") {
        TrustMode::Ask
    } else if text::same(name, "block") {
        TrustMode::Block
    } else {
        TrustMode::Warn
    }
}

} // verus!
