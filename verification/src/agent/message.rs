//! The messages of a session.
use crate::ai::trust::TrustData;
use crate::ai::types::{ContentPart, LlmMessage, StopReason, Usage};
use crate::dup::Dup;
use crate::text;
use vstd::prelude::*;

verus! {

/// A message of a session.
#[allow(inconsistent_fields)]
pub enum SessionMessage {
    /// What the user said, with images as data URIs.
    User { content: String, images: Vec<String> },
    /// What the model answered.
    Assistant {
        content: Vec<ContentPart>,
        usage: Option<Usage>,
        stop_reason: StopReason,
        model: String,
        trust: TrustData,
    },
    /// What a tool gave.
    ToolResult { tool_call_id: String, name: String, content: String, is_error: bool },
    /// What stands for older messages.
    Summary { text: String },
}

/// The kind of a message.
#[derive(Debug, Clone, Copy, PartialEq, Eq, Structural)]
pub enum SessionMessageKind {
    User,
    Assistant,
    ToolResult,
    Summary,
}

/// What a `SessionMessage` stands for.
#[allow(inconsistent_fields)]
pub ghost enum SessionView {
    User { content: Seq<char>, images: Seq<Seq<char>> },
    Assistant {
        content: Seq<crate::ai::types::ContentView>,
        usage: Option<Usage>,
        stop_reason: StopReason,
        model: Seq<char>,
        trust: crate::ai::trust::TrustView,
    },
    ToolResult { tool_call_id: Seq<char>, name: Seq<char>, content: Seq<char>, is_error: bool },
    Summary { text: Seq<char> },
}

impl DeepView for SessionMessage {
    type V = SessionView;

    open spec fn deep_view(&self) -> SessionView {
        match self {
            SessionMessage::User { content, images } => SessionView::User {
                content: content@,
                images: images.deep_view(),
            },
            SessionMessage::Assistant { content, usage, stop_reason, model, trust } =>
                SessionView::Assistant {
                content: content.deep_view(),
                usage: *usage,
                stop_reason: *stop_reason,
                model: model@,
                trust: trust.deep_view(),
            },
            SessionMessage::ToolResult { tool_call_id, name, content, is_error } =>
                SessionView::ToolResult {
                tool_call_id: tool_call_id@,
                name: name@,
                content: content@,
                is_error: *is_error,
            },
            SessionMessage::Summary { text } => SessionView::Summary { text: text@ },
        }
    }
}

impl Dup for SessionMessage {
    fn dup(&self) -> (r: Self) {
        match self {
            SessionMessage::User { content, images } => SessionMessage::User {
                content: content.dup(),
                images: images.dup(),
            },
            SessionMessage::Assistant { content, usage, stop_reason, model, trust } =>
                SessionMessage::Assistant {
                content: content.dup(),
                usage: *usage,
                stop_reason: *stop_reason,
                model: model.dup(),
                trust: trust.dup(),
            },
            SessionMessage::ToolResult { tool_call_id, name, content, is_error } =>
                SessionMessage::ToolResult {
                tool_call_id: tool_call_id.dup(),
                name: name.dup(),
                content: content.dup(),
                is_error: *is_error,
            },
            SessionMessage::Summary { text } => SessionMessage::Summary { text: text.dup() },
        }
    }
}

impl SessionView {
    /// The kind of the message.
    pub open spec fn kind(self) -> SessionMessageKind {
        match self {
            SessionView::User { .. } => SessionMessageKind::User,
            SessionView::Assistant { .. } => SessionMessageKind::Assistant,
            SessionView::ToolResult { .. } => SessionMessageKind::ToolResult,
            SessionView::Summary { .. } => SessionMessageKind::Summary,
        }
    }

    /// The message as it is put to the model. A summary is put as the user's,
    /// since it is history and not instruction.
    pub open spec fn to_llm(self) -> crate::ai::types::MessageView {
        match self {
            SessionView::User { content, images } => crate::ai::types::MessageView::User {
                content,
                images,
            },
            SessionView::Assistant { content, usage, stop_reason, .. } =>
                crate::ai::types::MessageView::Assistant {
                content,
                usage,
                stop_reason: Some(stop_reason),
            },
            SessionView::ToolResult { tool_call_id, name, content, .. } =>
                crate::ai::types::MessageView::Tool { tool_call_id, name, content },
            SessionView::Summary { text } => crate::ai::types::MessageView::User {
                content: "[Session summary]\n"@ + text,
                images: seq![],
            },
        }
    }
}

/// Messages as they are put to the model.
pub open spec fn to_llm_all(messages: Seq<SessionView>) -> Seq<crate::ai::types::MessageView> {
    messages.map_values(|m: SessionView| m.to_llm())
}

impl SessionMessage {
    /// The kind of the message.
    pub fn kind(&self) -> (r: SessionMessageKind)
        ensures
            r == self.deep_view().kind(),
    {
        match self {
            SessionMessage::User { .. } => SessionMessageKind::User,
            SessionMessage::Assistant { .. } => SessionMessageKind::Assistant,
            SessionMessage::ToolResult { .. } => SessionMessageKind::ToolResult,
            SessionMessage::Summary { .. } => SessionMessageKind::Summary,
        }
    }

    /// The message as it is put to the model.
    pub fn to_llm_message(&self) -> (r: LlmMessage)
        ensures
            r.deep_view() == self.deep_view().to_llm(),
    {
        match self {
            SessionMessage::User { content, images } => LlmMessage::User {
                content: content.dup(),
                images: images.dup(),
            },
            SessionMessage::Assistant { content, usage, stop_reason, .. } => LlmMessage::Assistant {
                content: content.dup(),
                usage: *usage,
                stop_reason: Some(*stop_reason),
            },
            SessionMessage::ToolResult { tool_call_id, name, content, .. } => LlmMessage::Tool {
                tool_call_id: tool_call_id.dup(),
                name: name.dup(),
                content: content.dup(),
            },
            SessionMessage::Summary { text } => {
                let images: Vec<String> = Vec::new();
                assert(images.deep_view() =~= seq![]);
                LlmMessage::User { content: text::concat("[Session summary]\n", text), images }
            },
        }
    }
}

/// Messages as they are put to the model.
pub fn to_llm_messages(messages: &[SessionMessage]) -> (out: Vec<LlmMessage>)
    ensures
        out.deep_view() == to_llm_all(messages.deep_view()),
{
    let ghost view = messages.deep_view();
    let mut out: Vec<LlmMessage> = Vec::new();
    assert(out.deep_view() =~= seq![]);
    let mut i: usize = 0;
    while i < messages.len()
        invariant
            i <= messages.len(),
            view == messages.deep_view(),
            out.deep_view() == to_llm_all(view.take(i as int)),
        decreases messages.len() - i,
    {
        text::put(&mut out, messages[i].to_llm_message());
        assert(out.deep_view() =~= to_llm_all(view.take(i + 1)));
        i += 1;
    }
    assert(view.take(view.len() as int) =~= view);
    out
}

/// A session that goes on is put to the model as what it went on from, and then
/// the rest.
pub proof fn law_history_is_append_only(first: Seq<SessionView>, more: Seq<SessionView>)
    ensures
        to_llm_all(first + more) == to_llm_all(first) + to_llm_all(more),
{
    assert(to_llm_all(first + more) =~= to_llm_all(first) + to_llm_all(more));
}

} // verus!
