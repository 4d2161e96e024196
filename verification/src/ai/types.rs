//! Messages, requests and stream events, shared by all providers.
use crate::ai::trust::{Evidence, TrustData};
use crate::dup::Dup;
use crate::json::{Json, Number};
use vstd::prelude::*;

verus! {

/// Why an assistant message finished.
#[derive(Debug, Clone, Copy, PartialEq, Eq, Structural)]
pub enum StopReason {
    Pending,
    Stop,
    Length,
    ToolUse,
    Error,
    Aborted,
}

/// Token counts of one assistant message, with what the provider's prefix
/// cache served and stored.
#[derive(Debug, Clone, Copy, PartialEq, Eq, Structural)]
pub struct Usage {
    pub input_tokens: u64,
    pub output_tokens: u64,
    pub cache_read_tokens: u64,
    pub cache_creation_tokens: u64,
    pub total_tokens: u64,
}

impl Default for Usage {
    fn default() -> (r: Self)
        ensures
            r == (Usage {
                input_tokens: 0,
                output_tokens: 0,
                cache_read_tokens: 0,
                cache_creation_tokens: 0,
                total_tokens: 0,
            }),
    {
        Usage {
            input_tokens: 0,
            output_tokens: 0,
            cache_read_tokens: 0,
            cache_creation_tokens: 0,
            total_tokens: 0,
        }
    }
}

/// One part of a message.
pub enum ContentPart {
    /// Text that the user sees.
    Text { text: String },
    /// Reasoning text.
    Thinking { thinking: String },
    /// An image, as a data URI.
    Image { url: String },
    /// A tool call that the assistant wants made.
    ToolCall { id: String, name: String, arguments: Json },
}

/// A message of the conversation.
#[allow(inconsistent_fields)]
pub enum LlmMessage {
    /// The system prompt.
    System { content: String },
    /// A user turn: text, and images as data URIs.
    User { content: String, images: Vec<String> },
    /// An assistant turn.
    Assistant { content: Vec<ContentPart>, usage: Option<Usage>, stop_reason: Option<StopReason> },
    /// The result of a tool call, tied to the call by its id.
    Tool { tool_call_id: String, name: String, content: String },
}

/// A tool that the model may call, with a JSON Schema for its arguments.
pub struct ToolSpec {
    pub name: String,
    pub description: String,
    pub parameters: Json,
}

/// A request to a provider.
pub struct ChatRequest {
    pub model: String,
    pub system: String,
    pub messages: Vec<LlmMessage>,
    pub tools: Vec<ToolSpec>,
    pub temperature: Option<Number>,
    pub variant: Option<String>,
}

/// A finished assistant message.
pub struct AssistantMessage {
    pub content: Vec<ContentPart>,
    pub usage: Option<Usage>,
    pub stop_reason: StopReason,
    pub error_message: Option<String>,
    pub model: String,
    pub trust: TrustData,
}

/// What a provider sends while a reply is made: `Start`, then deltas, then one
/// `Done` or `Error`.
#[allow(inconsistent_fields)]
pub enum StreamEvent {
    Start,
    TextDelta { delta: String },
    ThinkingDelta { delta: String },
    /// A delta of one tool call, with all that has been received of it.
    ToolCallDelta { index: usize, id: String, name: String, arguments: String },
    Done { message: AssistantMessage },
    Error { message: String },
}

// -------------------------------------------------------------------- views
/// What a `ContentPart` stands for.
pub ghost enum ContentView {
    Text { text: Seq<char> },
    Thinking { thinking: Seq<char> },
    Image { url: Seq<char> },
    ToolCall { id: Seq<char>, name: Seq<char>, arguments: crate::json::JsonView },
}

impl DeepView for ContentPart {
    type V = ContentView;

    open spec fn deep_view(&self) -> ContentView {
        match self {
            ContentPart::Text { text } => ContentView::Text { text: text@ },
            ContentPart::Thinking { thinking } => ContentView::Thinking { thinking: thinking@ },
            ContentPart::Image { url } => ContentView::Image { url: url@ },
            ContentPart::ToolCall { id, name, arguments } => ContentView::ToolCall {
                id: id@,
                name: name@,
                arguments: arguments.deep_view(),
            },
        }
    }
}

/// What an `LlmMessage` stands for.
#[allow(inconsistent_fields)]
pub ghost enum MessageView {
    System { content: Seq<char> },
    User { content: Seq<char>, images: Seq<Seq<char>> },
    Assistant {
        content: Seq<ContentView>,
        usage: Option<Usage>,
        stop_reason: Option<StopReason>,
    },
    Tool { tool_call_id: Seq<char>, name: Seq<char>, content: Seq<char> },
}

impl DeepView for LlmMessage {
    type V = MessageView;

    open spec fn deep_view(&self) -> MessageView {
        match self {
            LlmMessage::System { content } => MessageView::System { content: content@ },
            LlmMessage::User { content, images } => MessageView::User {
                content: content@,
                images: images.deep_view(),
            },
            LlmMessage::Assistant { content, usage, stop_reason } => MessageView::Assistant {
                content: content.deep_view(),
                usage: *usage,
                stop_reason: *stop_reason,
            },
            LlmMessage::Tool { tool_call_id, name, content } => MessageView::Tool {
                tool_call_id: tool_call_id@,
                name: name@,
                content: content@,
            },
        }
    }
}

/// What a `ToolSpec` stands for.
pub ghost struct ToolView {
    pub name: Seq<char>,
    pub description: Seq<char>,
    pub parameters: crate::json::JsonView,
}

impl DeepView for ToolSpec {
    type V = ToolView;

    open spec fn deep_view(&self) -> ToolView {
        ToolView {
            name: self.name@,
            description: self.description@,
            parameters: self.parameters.deep_view(),
        }
    }
}

/// What a `ChatRequest` stands for.
pub ghost struct RequestView {
    pub model: Seq<char>,
    pub system: Seq<char>,
    pub messages: Seq<MessageView>,
    pub tools: Seq<ToolView>,
    pub temperature: Option<crate::json::NumberView>,
    pub variant: Option<Seq<char>>,
}

impl DeepView for ChatRequest {
    type V = RequestView;

    open spec fn deep_view(&self) -> RequestView {
        RequestView {
            model: self.model@,
            system: self.system@,
            messages: self.messages.deep_view(),
            tools: self.tools.deep_view(),
            temperature: self.temperature.deep_view(),
            variant: self.variant.deep_view(),
        }
    }
}

/// What an `AssistantMessage` stands for.
pub ghost struct AssistantView {
    pub content: Seq<ContentView>,
    pub usage: Option<Usage>,
    pub stop_reason: StopReason,
    pub error_message: Option<Seq<char>>,
    pub model: Seq<char>,
    pub trust: crate::ai::trust::TrustView,
}

impl DeepView for AssistantMessage {
    type V = AssistantView;

    open spec fn deep_view(&self) -> AssistantView {
        AssistantView {
            content: self.content.deep_view(),
            usage: self.usage,
            stop_reason: self.stop_reason,
            error_message: self.error_message.deep_view(),
            model: self.model@,
            trust: self.trust.deep_view(),
        }
    }
}

/// What a `StreamEvent` stands for.
#[allow(inconsistent_fields)]
pub ghost enum StreamView {
    Start,
    TextDelta { delta: Seq<char> },
    ThinkingDelta { delta: Seq<char> },
    ToolCallDelta { index: usize, id: Seq<char>, name: Seq<char>, arguments: Seq<char> },
    Done { message: AssistantView },
    Error { message: Seq<char> },
}

impl DeepView for StreamEvent {
    type V = StreamView;

    open spec fn deep_view(&self) -> StreamView {
        match self {
            StreamEvent::Start => StreamView::Start,
            StreamEvent::TextDelta { delta } => StreamView::TextDelta { delta: delta@ },
            StreamEvent::ThinkingDelta { delta } => StreamView::ThinkingDelta { delta: delta@ },
            StreamEvent::ToolCallDelta { index, id, name, arguments } => StreamView::ToolCallDelta {
                index: *index,
                id: id@,
                name: name@,
                arguments: arguments@,
            },
            StreamEvent::Done { message } => StreamView::Done { message: message.deep_view() },
            StreamEvent::Error { message } => StreamView::Error { message: message@ },
        }
    }
}

// ------------------------------------------------------------------- copies
impl Dup for Json {
    fn dup(&self) -> (r: Self) {
        self.clone()
    }
}

impl Dup for Number {
    fn dup(&self) -> (r: Self) {
        self.clone()
    }
}

impl Dup for ContentPart {
    fn dup(&self) -> (r: Self) {
        match self {
            ContentPart::Text { text } => ContentPart::Text { text: text.dup() },
            ContentPart::Thinking { thinking } => ContentPart::Thinking { thinking: thinking.dup() },
            ContentPart::Image { url } => ContentPart::Image { url: url.dup() },
            ContentPart::ToolCall { id, name, arguments } => ContentPart::ToolCall {
                id: id.dup(),
                name: name.dup(),
                arguments: arguments.dup(),
            },
        }
    }
}

impl Dup for LlmMessage {
    fn dup(&self) -> (r: Self) {
        match self {
            LlmMessage::System { content } => LlmMessage::System { content: content.dup() },
            LlmMessage::User { content, images } => LlmMessage::User {
                content: content.dup(),
                images: images.dup(),
            },
            LlmMessage::Assistant { content, usage, stop_reason } => LlmMessage::Assistant {
                content: content.dup(),
                usage: *usage,
                stop_reason: *stop_reason,
            },
            LlmMessage::Tool { tool_call_id, name, content } => LlmMessage::Tool {
                tool_call_id: tool_call_id.dup(),
                name: name.dup(),
                content: content.dup(),
            },
        }
    }
}

impl Dup for ToolSpec {
    fn dup(&self) -> (r: Self) {
        ToolSpec {
            name: self.name.dup(),
            description: self.description.dup(),
            parameters: self.parameters.dup(),
        }
    }
}

impl Dup for Evidence {
    fn dup(&self) -> (r: Self) {
        Evidence { file: self.file.dup(), line: self.line, note: self.note.dup() }
    }
}

impl Dup for TrustData {
    fn dup(&self) -> (r: Self) {
        TrustData {
            confidence: self.confidence,
            reason: self.reason.dup(),
            expected_outcome: self.expected_outcome.dup(),
            evidence: self.evidence.dup(),
            uncertainty: self.uncertainty.dup(),
            plan: self.plan.dup(),
            estimated_time: self.estimated_time.dup(),
        }
    }
}

impl Dup for AssistantMessage {
    fn dup(&self) -> (r: Self) {
        AssistantMessage {
            content: self.content.dup(),
            usage: self.usage,
            stop_reason: self.stop_reason,
            error_message: self.error_message.dup(),
            model: self.model.dup(),
            trust: self.trust.dup(),
        }
    }
}

} // verus!
