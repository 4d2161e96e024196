//! The tools of servers as tools of the agent.
use crate::agent::call::{ToolCallInfo, ToolOutcome};
use crate::agent::tool::{tool_spec, Tool};
use crate::ai::types::ToolSpec;
use crate::dup::Dup;
use crate::json::{self, Json};
use crate::mcp::client::McpToolDef;
use crate::text;
use vstd::prelude::*;

verus! {

/// A tool of a server.
pub struct McpTool {
    /// The name of the server.
    pub server: String,
    /// The name, behind that of the server and two underscores.
    pub name: String,
    pub description: String,
    pub parameters: Json,
}

/// What a `McpTool` stands for.
pub ghost struct McpToolView {
    pub server: Seq<char>,
    pub name: Seq<char>,
    pub description: Seq<char>,
    pub parameters: json::JsonView,
}

impl DeepView for McpTool {
    type V = McpToolView;

    open spec fn deep_view(&self) -> McpToolView {
        McpToolView {
            server: self.server@,
            name: self.name@,
            description: self.description@,
            parameters: self.parameters.deep_view(),
        }
    }
}

/// The name of a tool, behind that of its server.
pub open spec fn qualified(server: Seq<char>, name: Seq<char>) -> Seq<char> {
    server + "__"@ + name
}

/// The tool of the agent for a tool of the server.
pub open spec fn tool_of(
    server: Seq<char>,
    def: crate::mcp::client::ToolDefView,
) -> McpToolView {
    McpToolView {
        server,
        name: qualified(server, def.name),
        description: "MCP tool from server `"@ + server + "`: "@ + text::spec_trim(
            def.description,
        ),
        parameters: def.input_schema,
    }
}

impl McpToolView {
    /// The name without that of the server and the underscores behind it.
    pub open spec fn bare(self) -> Seq<char> {
        match text::without_prefix(self.name, self.server + "__"@) {
            Some(name) => name,
            None => self.name,
        }
    }
}

impl McpTool {
    /// The tool of the agent for a tool of the server.
    pub fn new(server: &str, def: McpToolDef) -> (r: Self)
        ensures
            r.deep_view() == tool_of(server@, def.deep_view()),
    {
        McpTool {
            server: server.to_owned(),
            name: text::concat3(server, "__", &def.name),
            description: text::concat4(
                "MCP tool from server `",
                server,
                "`: ",
                &text::trim(&def.description),
            ),
            parameters: def.input_schema,
        }
    }

    /// The name without that of the server.
    pub fn bare_name(&self) -> (r: String)
        ensures
            r@ == self.deep_view().bare(),
    {
        match text::strip_prefix(&self.name, &text::concat(&self.server, "__")) {
            Some(name) => name,
            None => self.name.dup(),
        }
    }
}

/// The bare name of a tool is the name that its server gave it.
pub proof fn law_bare_name_undoes_qualifying(
    server: Seq<char>,
    def: crate::mcp::client::ToolDefView,
)
    ensures
        tool_of(server, def).bare() == def.name,
{
    let prefix = server + "__"@;
    let whole = qualified(server, def.name);
    assert(whole.subrange(0, prefix.len() as int) =~= prefix);
    assert(whole.skip(prefix.len() as int) =~= def.name);
    assert(whole.subrange(prefix.len() as int, whole.len() as int) =~= def.name);
}

/// What a call of a tool gives: its text, or the error as a result that says so.
pub open spec fn outcome_of(result: Result<Seq<char>, Seq<char>>) -> crate::agent::call::OutcomeView {
    match result {
        Ok(content) => crate::agent::call::OutcomeView { content, is_error: false },
        Err(error) => crate::agent::call::OutcomeView {
            content: "MCP tool failed: "@ + error,
            is_error: true,
        },
    }
}

/// What a call of a tool gives; an error is a result too.
pub fn outcome(result: Result<String, String>) -> (r: ToolOutcome)
    ensures
        r.deep_view() == outcome_of(crate::flow::executor::result_view(result)),
{
    match result {
        Ok(content) => ToolOutcome { content, is_error: false },
        Err(error) => ToolOutcome {
            content: text::concat("MCP tool failed: ", &error),
            is_error: true,
        },
    }
}

/// The tools of the agent for the tools of a server.
pub open spec fn tools_for(
    server: Seq<char>,
    defs: Seq<crate::mcp::client::ToolDefView>,
) -> Seq<McpToolView> {
    defs.map_values(|d: crate::mcp::client::ToolDefView| tool_of(server, d))
}

/// The names of the tools that the server says change nothing.
pub open spec fn read_only_names(
    server: Seq<char>,
    defs: Seq<crate::mcp::client::ToolDefView>,
) -> Seq<Seq<char>>
    decreases defs.len(),
{
    if defs.len() == 0 {
        seq![]
    } else {
        let before = read_only_names(server, defs.drop_last());
        if defs.last().read_only {
            before.push(qualified(server, defs.last().name))
        } else {
            before
        }
    }
}

/// The tools of the agent for the tools of a server, and the names of those that
/// the server says change nothing.
pub fn connect_tools(server: &str, defs: Vec<McpToolDef>) -> (r: (Vec<McpTool>, Vec<String>))
    ensures
        r.0.deep_view() == tools_for(server@, defs.deep_view()),
        r.1.deep_view() == read_only_names(server@, defs.deep_view()),
{
    let ghost view = defs.deep_view();
    let ghost all = defs@;
    let mut tools: Vec<McpTool> = Vec::new();
    let mut read_only: Vec<String> = Vec::new();
    assert(view.take(0) =~= seq![]);
    assert(read_only.deep_view() =~= seq![]);
    for def in it: defs
        invariant
            it.seq() == all,
            view.len() == all.len(),
            forall|k: int| 0 <= k < all.len() ==> #[trigger] view[k] == all[k].deep_view(),
            tools@.len() == it.index(),
            forall|k: int|
                0 <= k < tools@.len() ==> (#[trigger] tools@[k]).deep_view() == tool_of(
                    server@,
                    view[k],
                ),
            read_only.deep_view() == read_only_names(server@, view.take(it.index() as int)),
    {
        let ghost i = it.index() as int;
        assert(view.take(i + 1).drop_last() =~= view.take(i));
        assert(view[i] == def.deep_view());
        if def.read_only {
            text::put(&mut read_only, text::concat3(server, "__", &def.name));
        }
        tools.push(McpTool::new(server, def));
    }
    assert(view.take(view.len() as int) =~= view);
    assert(tools.deep_view() =~= tools_for(server@, view));
    (tools, read_only)
}

impl Dup for McpTool {
    fn dup(&self) -> (r: Self) {
        McpTool {
            server: self.server.dup(),
            name: self.name.dup(),
            description: self.description.dup(),
            parameters: self.parameters.dup(),
        }
    }
}

impl Tool for McpTool {
    open spec fn described(&self) -> crate::ai::types::ToolView {
        crate::ai::types::ToolView {
            name: self.name@,
            description: self.description@,
            parameters: self.parameters.deep_view(),
        }
    }

    fn name(&self) -> (r: &str) {
        self.name.as_str()
    }

    fn description(&self) -> (r: String) {
        self.description.dup()
    }

    fn parameters(&self) -> (r: Json) {
        self.parameters.dup()
    }
}

/// What the model is told of a tool of a server.
pub fn mcp_tool_spec(tool: &McpTool) -> (r: ToolSpec)
    ensures
        r.deep_view() == tool.described(),
{
    tool_spec(tool)
}

/// A call in one line.
pub fn describe_call(call: &ToolCallInfo) -> (r: String)
    ensures
        r@ == call.name@ + " "@ + json::json_text(call.arguments.deep_view()),
{
    text::concat3(&call.name, " ", &json::render(&call.arguments))
}

} // verus!
