//! Tool calls and their results.
use crate::dup::Dup;
use crate::json::Json;
use vstd::prelude::*;

verus! {

/// A tool call that the model asks for.
pub struct ToolCallInfo {
    pub tool_call_id: String,
    pub name: String,
    pub arguments: Json,
}

/// What a `ToolCallInfo` stands for.
pub ghost struct CallInfoView {
    pub tool_call_id: Seq<char>,
    pub name: Seq<char>,
    pub arguments: crate::json::JsonView,
}

impl DeepView for ToolCallInfo {
    type V = CallInfoView;

    open spec fn deep_view(&self) -> CallInfoView {
        CallInfoView {
            tool_call_id: self.tool_call_id@,
            name: self.name@,
            arguments: self.arguments.deep_view(),
        }
    }
}

impl Dup for ToolCallInfo {
    fn dup(&self) -> (r: Self) {
        ToolCallInfo {
            tool_call_id: self.tool_call_id.dup(),
            name: self.name.dup(),
            arguments: self.arguments.dup(),
        }
    }
}

/// The result of a tool.
pub struct ToolOutcome {
    pub content: String,
    pub is_error: bool,
}

/// What a `ToolOutcome` stands for.
pub ghost struct OutcomeView {
    pub content: Seq<char>,
    pub is_error: bool,
}

impl DeepView for ToolOutcome {
    type V = OutcomeView;

    open spec fn deep_view(&self) -> OutcomeView {
        OutcomeView { content: self.content@, is_error: self.is_error }
    }
}

impl Dup for ToolOutcome {
    fn dup(&self) -> (r: Self) {
        ToolOutcome { content: self.content.dup(), is_error: self.is_error }
    }
}

impl ToolOutcome {
    /// A success with this content.
    pub fn success(content: &str) -> (r: Self)
        ensures
            r.deep_view() == (OutcomeView { content: content@, is_error: false }),
    {
        ToolOutcome { content: content.to_owned(), is_error: false }
    }

    /// A failure that the tool reports with this content.
    pub fn error(content: &str) -> (r: Self)
        ensures
            r.deep_view() == (OutcomeView { content: content@, is_error: true }),
    {
        ToolOutcome { content: content.to_owned(), is_error: true }
    }
}

/// Why a tool did not run to its end.
pub enum ToolError {
    NotFound(String),
    Failed { name: String, message: String },
}

/// What a `ToolError` stands for.
pub ghost enum ToolErrorView {
    NotFound(Seq<char>),
    Failed { name: Seq<char>, message: Seq<char> },
}

impl DeepView for ToolError {
    type V = ToolErrorView;

    open spec fn deep_view(&self) -> ToolErrorView {
        match self {
            ToolError::NotFound(n) => ToolErrorView::NotFound(n@),
            ToolError::Failed { name, message } => ToolErrorView::Failed {
                name: name@,
                message: message@,
            },
        }
    }
}

impl ToolErrorView {
    /// The error in words.
    pub open spec fn message(self) -> Seq<char> {
        match self {
            ToolErrorView::NotFound(n) => "tool `"@ + n + "` is not registered"@,
            ToolErrorView::Failed { name, message } => "tool `"@ + name + "` failed: "@ + message,
        }
    }
}

impl ToolError {
    /// A failure of the tool of this name.
    pub fn failed(name: &str, message: &str) -> (r: Self)
        ensures
            r.deep_view() == (ToolErrorView::Failed { name: name@, message: message@ }),
    {
        ToolError::Failed { name: name.to_owned(), message: message.to_owned() }
    }

    /// The error in words.
    pub fn message(&self) -> (r: String)
        ensures
            r@ == self.deep_view().message(),
    {
        match self {
            ToolError::NotFound(n) => crate::text::concat3("tool `", n, "` is not registered"),
            ToolError::Failed { name, message } => crate::text::concat4(
                "tool `",
                name,
                "` failed: ",
                message,
            ),
        }
    }
}

} // verus!
