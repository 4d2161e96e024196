//! The Messages API of Anthropic.
//!
//! The system prompt is a field of the request, tools have an `input_schema`,
//! and `cache_control` marks tell how far the prefix is to be cached.
use crate::ai::sse::{SseParser, ToolCallAccumulator};
use crate::ai::types::{
    ChatRequest, ContentPart, LlmMessage, StopReason, StreamEvent, ToolSpec, Usage,
};
use crate::dup::Dup;
use crate::json::{self, Json};
use crate::text;
use vstd::prelude::*;

verus! {

/// How many of the last user messages are marked for the cache.
pub const CACHE_LAST_N_USER_MESSAGES: usize = 3;

// ------------------------------------------------------------------ request
/// `s`, cut to `max` characters with an ellipsis where it is longer.
pub open spec fn truncated(s: Seq<char>, max: int) -> Seq<char> {
    if s.len() > max {
        s.take(max).push('…')
    } else {
        s
    }
}

/// `s`, cut to `max_chars` characters with an ellipsis where it is longer.
pub fn truncate(s: &str, max_chars: usize) -> (r: String)
    ensures
        r@ == truncated(s@, max_chars as int),
{
    let chars = text::chars_of(s);
    if chars.len() > max_chars {
        let mut r = text::slice_string(&chars, 0, max_chars);
        assert(r@ =~= s@.take(max_chars as int));
        r.push('…');
        r
    } else {
        s.to_owned()
    }
}

/// The parts of a `data:<media type>;base64,<data>` URI.
pub open spec fn data_uri(uri: Seq<char>) -> Option<(Seq<char>, Seq<char>)> {
    match text::without_prefix(uri, "data:"@) {
        None => None,
        Some(rest) => match text::find_set_from(rest, seq![','], 0) {
            None => None,
            Some(i) => Some((text::spec_split(rest.take(i), seq![';'])[0], rest.skip(i + 1))),
        },
    }
}

/// The media type and the data of a data URI.
pub fn parse_data_uri(uri: &str) -> (r: Option<(String, String)>)
    ensures
        r.deep_view() == data_uri(uri@),
{
    let rest = match text::strip_prefix(uri, "data:") {
        Some(r) => r,
        None => return None,
    };
    let comma: [char; 1] = [','];
    let semicolon: [char; 1] = [';'];
    assert(comma@ =~= seq![',']);
    assert(semicolon@ =~= seq![';']);
    match text::find_set(&rest, &comma, 0) {
        None => None,
        Some(i) => {
            let meta = text::sub_string(&rest, 0, i);
            let data = text::sub_string(&rest, i + 1, text::count(&rest));
            assert(meta@ =~= rest@.take(i as int));
            assert(data@ =~= rest@.skip(i + 1));
            let mut pieces = text::split(&meta, &semicolon);
            assert(pieces.deep_view()[0] == pieces@[0]@);
            let media = pieces.remove(0);
            Some((media, data))
        },
    }
}

/// The mark that asks for the cache.
pub open spec fn ephemeral() -> json::JsonView {
    crate::ai::wire::jo(map!["type"@ => crate::ai::wire::js("ephemeral"@)])
}

/// A text block, marked for the cache or not.
pub open spec fn text_block(content: Seq<char>, mark: bool) -> json::JsonView {
    let base = map![
        "type"@ => crate::ai::wire::js("text"@),
        "text"@ => crate::ai::wire::js(content),
    ];
    crate::ai::wire::jo(
        if mark {
            base.insert("cache_control"@, ephemeral())
        } else {
            base
        },
    )
}

/// An image block.
pub open spec fn image_block(media: Seq<char>, data: Seq<char>) -> json::JsonView {
    crate::ai::wire::jo(
        map![
        "type"@ => crate::ai::wire::js("image"@),
        "source"@ => crate::ai::wire::jo(map![
            "type"@ => crate::ai::wire::js("base64"@),
            "media_type"@ => crate::ai::wire::js(media),
            "data"@ => crate::ai::wire::js(data),
        ]),
    ],
    )
}

/// The image blocks of those images that are data URIs.
pub open spec fn image_blocks(images: Seq<Seq<char>>) -> Seq<json::JsonView>
    decreases images.len(),
{
    if images.len() == 0 {
        seq![]
    } else {
        let before = image_blocks(images.drop_last());
        match data_uri(images.last()) {
            Some(d) => before.push(image_block(d.0, d.1)),
            None => before,
        }
    }
}

/// The blocks of a user message: its text, unless that is empty, and its
/// images. The mark goes on the text, since image blocks take none.
pub open spec fn user_blocks(
    content: Seq<char>,
    images: Seq<Seq<char>>,
    mark: bool,
) -> Seq<json::JsonView> {
    (if content.len() > 0 {
        seq![text_block(content, mark)]
    } else {
        seq![]
    }) + image_blocks(images)
}

/// One part of an assistant message; image parts are left out.
pub open spec fn assistant_block(part: crate::ai::types::ContentView) -> Seq<json::JsonView> {
    match part {
        crate::ai::types::ContentView::Text { text } => seq![text_block(text, false)],
        crate::ai::types::ContentView::Thinking { thinking } => seq![
            crate::ai::wire::jo(
                map![
                "type"@ => crate::ai::wire::js("thinking"@),
                "thinking"@ => crate::ai::wire::js(thinking),
                "signature"@ => crate::ai::wire::js(""@),
            ],
            ),
        ],
        crate::ai::types::ContentView::Image { .. } => seq![],
        crate::ai::types::ContentView::ToolCall { id, name, arguments } => seq![
            crate::ai::wire::jo(
                map![
                "type"@ => crate::ai::wire::js("tool_use"@),
                "id"@ => crate::ai::wire::js(id),
                "name"@ => crate::ai::wire::js(name),
                "input"@ => arguments,
            ],
            ),
        ],
    }
}

/// The blocks of an assistant message.
pub open spec fn assistant_blocks(parts: Seq<crate::ai::types::ContentView>) -> Seq<json::JsonView>
    decreases parts.len(),
{
    if parts.len() == 0 {
        seq![]
    } else {
        assistant_blocks(parts.drop_last()) + assistant_block(parts.last())
    }
}

/// A message as it is sent. A system message among the others is sent as the
/// user's; a tool result is a block of a user message.
pub open spec fn message_json(
    message: crate::ai::types::MessageView,
    mark: bool,
) -> json::JsonView {
    match message {
        crate::ai::types::MessageView::System { content } => crate::ai::wire::jo(
            map![
            "role"@ => crate::ai::wire::js("user"@),
            "content"@ => crate::ai::wire::js(content),
        ],
        ),
        crate::ai::types::MessageView::User { content, images } => crate::ai::wire::jo(
            map![
            "role"@ => crate::ai::wire::js("user"@),
            "content"@ => crate::ai::wire::ja(user_blocks(content, images, mark)),
        ],
        ),
        crate::ai::types::MessageView::Assistant { content, .. } => crate::ai::wire::jo(
            map![
            "role"@ => crate::ai::wire::js("assistant"@),
            "content"@ => crate::ai::wire::ja(assistant_blocks(content)),
        ],
        ),
        crate::ai::types::MessageView::Tool { tool_call_id, name, content } => crate::ai::wire::jo(
            map![
            "role"@ => crate::ai::wire::js("user"@),
            "content"@ => crate::ai::wire::ja(seq![crate::ai::wire::jo(map![
                "type"@ => crate::ai::wire::js("tool_result"@),
                "tool_use_id"@ => crate::ai::wire::js(tool_call_id),
                "content"@ => crate::ai::wire::js(content),
            ])]),
        ],
        ),
    }
}

/// How many of `messages` are the user's.
pub open spec fn user_count(messages: Seq<crate::ai::types::MessageView>) -> nat
    decreases messages.len(),
{
    if messages.len() == 0 {
        0
    } else {
        user_count(messages.drop_last()) + (if messages.last() is User {
            1nat
        } else {
            0
        })
    }
}

/// Whether the message at `i` is marked: it is one of the last few of the user.
pub open spec fn is_marked(messages: Seq<crate::ai::types::MessageView>, i: int) -> bool {
    messages[i] is User && user_count(messages) - user_count(messages.take(i))
        <= CACHE_LAST_N_USER_MESSAGES
}

/// Messages as they are sent.
pub open spec fn messages_json(messages: Seq<crate::ai::types::MessageView>) -> Seq<json::JsonView> {
    Seq::new(messages.len(), |i: int| message_json(messages[i], is_marked(messages, i)))
}

/// A tool as it is sent.
pub open spec fn tool_json(tool: crate::ai::types::ToolView) -> json::JsonView {
    crate::ai::wire::jo(
        map![
        "name"@ => crate::ai::wire::js(tool.name),
        "description"@ => crate::ai::wire::js(tool.description),
        "input_schema"@ => tool.parameters,
    ],
    )
}

/// The body of a request.
pub open spec fn request_json(request: crate::ai::types::RequestView) -> json::JsonView {
    let base = map![
        "model"@ => crate::ai::wire::js(request.model),
        "max_tokens"@ => json::JsonView::Number(json::NumberView::Unsigned(8192)),
        "stream"@ => json::JsonView::Bool(true),
    ];
    let base = if request.system.len() > 0 {
        base.insert("system"@, crate::ai::wire::ja(seq![text_block(request.system, true)]))
    } else {
        base
    };
    let base = match request.temperature {
        Some(t) => base.insert("temperature"@, json::JsonView::Number(t)),
        None => base,
    };
    let base = if request.tools.len() > 0 {
        base.insert(
            "tools"@,
            crate::ai::wire::ja(
                request.tools.map_values(|t: crate::ai::types::ToolView| tool_json(t)),
            ),
        )
    } else {
        base
    };
    crate::ai::wire::jo(
        base.insert("messages"@, crate::ai::wire::ja(messages_json(request.messages))),
    )
}

fn mark_json() -> (r: Json)
    ensures
        r.deep_view() == ephemeral(),
{
    Json::object().with("type", Json::text("ephemeral"))
}

fn wire_text(content: &str, mark: bool) -> (r: Json)
    ensures
        r.deep_view() == text_block(content@, mark),
{
    let base = Json::object().with("type", Json::text("text")).with("text", Json::text(content));
    if mark {
        base.with("cache_control", mark_json())
    } else {
        base
    }
}

/// The body of a request.
pub fn build_request_body(request: &ChatRequest) -> (r: Json)
    ensures
        r.deep_view() == request_json(request.deep_view()),
{
    let body = Json::object().with("model", Json::text(&request.model)).with(
        "max_tokens",
        Json::number(8192),
    ).with("stream", Json::Bool(true));
    let body = if text::count(&request.system) > 0 {
        let mut system: Vec<Json> = Vec::new();
        system.push(wire_text(&request.system, true));
        assert(system.deep_view() =~= seq![text_block(request.system@, true)]);
        body.with("system", Json::array(system))
    } else {
        body
    };
    let body = match &request.temperature {
        Some(t) => body.with("temperature", Json::Number(t.dup())),
        None => body,
    };
    let body = if request.tools.len() > 0 {
        let mut tools: Vec<Json> = Vec::new();
        let ghost view = request.tools.deep_view();
        let mut i: usize = 0;
        assert(tools.deep_view() =~= seq![]);
        while i < request.tools.len()
            invariant
                i <= request.tools.len(),
                view == request.tools.deep_view(),
                tools.deep_view() == view.take(i as int).map_values(
                    |t: crate::ai::types::ToolView| tool_json(t),
                ),
            decreases request.tools.len() - i,
        {
            text::put(&mut tools, serialize_tool(&request.tools[i]));
            assert(tools.deep_view() =~= view.take(i + 1).map_values(
                |t: crate::ai::types::ToolView| tool_json(t),
            ));
            i += 1;
        }
        assert(view.take(view.len() as int) =~= view);
        body.with("tools", Json::array(tools))
    } else {
        body
    };
    body.with("messages", serialize_messages(&request.messages))
}

/// A tool as it is sent.
pub fn serialize_tool(tool: &ToolSpec) -> (r: Json)
    ensures
        r.deep_view() == tool_json(tool.deep_view()),
{
    Json::object().with("name", Json::text(&tool.name)).with(
        "description",
        Json::text(&tool.description),
    ).with("input_schema", tool.parameters.dup())
}

/// The messages as they are sent, the last few of the user marked for the
/// cache.
pub fn serialize_messages(messages: &[LlmMessage]) -> (r: Json)
    ensures
        r.deep_view() == crate::ai::wire::ja(messages_json(messages.deep_view())),
{
    let ghost view = messages.deep_view();
    let mut users: usize = 0;
    let mut i: usize = 0;
    while i < messages.len()
        invariant
            i <= messages.len(),
            view == messages.deep_view(),
            users == user_count(view.take(i as int)),
            users <= i,
        decreases messages.len() - i,
    {
        assert(view.take(i + 1).drop_last() =~= view.take(i as int));
        if let LlmMessage::User { .. } = &messages[i] {
            users += 1;
        }
        i += 1;
    }
    assert(view.take(view.len() as int) =~= view);
    let mut out: Vec<Json> = Vec::new();
    let mut seen: usize = 0;
    let mut k: usize = 0;
    assert(out.deep_view() =~= seq![]);
    while k < messages.len()
        invariant
            k <= messages.len(),
            view == messages.deep_view(),
            users == user_count(view),
            seen == user_count(view.take(k as int)),
            seen <= k,
            out.deep_view() == messages_json(view).take(k as int),
        decreases messages.len() - k,
    {
        assert(view.take(k + 1).drop_last() =~= view.take(k as int));
        proof {
            lemma_user_count_grows(view, k as int);
        }
        let is_user = match &messages[k] {
            LlmMessage::User { .. } => true,
            _ => false,
        };
        let mark = is_user && users - seen <= CACHE_LAST_N_USER_MESSAGES;
        text::put(&mut out, wire_message(&messages[k], mark));
        assert(out.deep_view() =~= messages_json(view).take(k + 1));
        if is_user {
            seen += 1;
        }
        k += 1;
    }
    assert(messages_json(view).take(view.len() as int) =~= messages_json(view));
    Json::array(out)
}

proof fn lemma_user_count_grows(messages: Seq<crate::ai::types::MessageView>, k: int)
    requires
        0 <= k <= messages.len(),
    ensures
        user_count(messages.take(k)) <= user_count(messages),
    decreases messages.len() - k,
{
    if k < messages.len() {
        lemma_user_count_grows(messages, k + 1);
        assert(messages.take(k + 1).drop_last() =~= messages.take(k));
    } else {
        assert(messages.take(k) =~= messages);
    }
}

fn wire_images(blocks: &mut Vec<Json>, images: &[String])
    ensures
        final(blocks).deep_view() == old(blocks).deep_view() + image_blocks(images.deep_view()),
{
    let ghost first = blocks.deep_view();
    let ghost view = images.deep_view();
    let mut i: usize = 0;
    assert(view.take(0) =~= seq![]);
    while i < images.len()
        invariant
            i <= images.len(),
            view == images.deep_view(),
            blocks.deep_view() == first + image_blocks(view.take(i as int)),
        decreases images.len() - i,
    {
        assert(view.take(i + 1).drop_last() =~= view.take(i as int));
        match parse_data_uri(&images[i]) {
            Some((media, data)) => text::put(
                blocks,
                Json::object().with("type", Json::text("image")).with(
                    "source",
                    Json::object().with("type", Json::text("base64")).with(
                        "media_type",
                        Json::text(&media),
                    ).with("data", Json::text(&data)),
                ),
            ),
            None => {},
        }
        i += 1;
    }
    assert(view.take(view.len() as int) =~= view);
}

fn wire_message(message: &LlmMessage, cache_mark: bool) -> (r: Json)
    ensures
        r.deep_view() == message_json(message.deep_view(), cache_mark),
{
    match message {
        LlmMessage::System { content } => Json::object().with("role", Json::text("user")).with(
            "content",
            Json::text(content),
        ),
        LlmMessage::User { content, images } => {
            let mut blocks: Vec<Json> = Vec::new();
            assert(blocks.deep_view() =~= seq![]);
            if text::count(content) > 0 {
                text::put(&mut blocks, wire_text(content, cache_mark));
            }
            wire_images(&mut blocks, images);
            assert(blocks.deep_view() =~= user_blocks(content@, images.deep_view(), cache_mark));
            Json::object().with("role", Json::text("user")).with("content", Json::array(blocks))
        },
        LlmMessage::Assistant { content, .. } => {
            let mut blocks: Vec<Json> = Vec::new();
            let ghost view = content.deep_view();
            let mut i: usize = 0;
            assert(blocks.deep_view() =~= seq![]);
            while i < content.len()
                invariant
                    i <= content.len(),
                    view == content.deep_view(),
                    blocks.deep_view() == assistant_blocks(view.take(i as int)),
                decreases content.len() - i,
            {
                assert(view.take(i + 1).drop_last() =~= view.take(i as int));
                match &content[i] {
                    ContentPart::Text { text } => text::put(&mut blocks, wire_text(text, false)),
                    ContentPart::Thinking { thinking } => text::put(
                        &mut blocks,
                        Json::object().with("type", Json::text("thinking")).with(
                            "thinking",
                            Json::text(thinking),
                        ).with("signature", Json::text("")),
                    ),
                    ContentPart::Image { .. } => {},
                    ContentPart::ToolCall { id, name, arguments } => text::put(
                        &mut blocks,
                        Json::object().with("type", Json::text("tool_use")).with(
                            "id",
                            Json::text(id),
                        ).with("name", Json::text(name)).with("input", arguments.dup()),
                    ),
                }
                assert(blocks.deep_view() =~= assistant_blocks(view.take(i + 1)));
                i += 1;
            }
            assert(view.take(view.len() as int) =~= view);
            Json::object().with("role", Json::text("assistant")).with("content", Json::array(blocks))
        },
        LlmMessage::Tool { tool_call_id, name: _, content } => {
            let mut blocks: Vec<Json> = Vec::new();
            assert(blocks.deep_view() =~= seq![]);
            text::put(
                &mut blocks,
                Json::object().with("type", Json::text("tool_result")).with(
                    "tool_use_id",
                    Json::text(tool_call_id),
                ).with("content", Json::text(content)),
            );
            Json::object().with("role", Json::text("user")).with("content", Json::array(blocks))
        },
    }
}

/// Where a user message is marked for the cache, so are all later ones.
pub proof fn law_marks_are_on_the_last_messages(
    messages: Seq<crate::ai::types::MessageView>,
    i: int,
    j: int,
)
    requires
        0 <= i <= j < messages.len(),
        is_marked(messages, i),
        messages[j] is User,
    ensures
        is_marked(messages, j),
{
    let shorter = messages.take(j);
    lemma_user_count_grows(shorter, i);
    assert(shorter.take(i) =~= messages.take(i));
}

// ------------------------------------------------------------------- stream
/// One event of the stream, as it was read.
pub struct WireEvent {
    pub event_type: String,
    pub index: Option<usize>,
    pub content_block: Option<WireContentBlock>,
    pub delta: Option<WireDelta>,
    pub message: Option<WireMessage>,
    pub error: Option<WireError>,
}

/// The block that an event opens.
pub struct WireContentBlock {
    pub block_type: String,
    pub id: Option<String>,
    pub name: Option<String>,
    pub input: Option<Json>,
}

/// What an event adds.
pub struct WireDelta {
    pub delta_type: String,
    pub text: Option<String>,
    pub thinking: Option<String>,
    pub partial_json: Option<String>,
    pub stop_reason: Option<String>,
}

/// What an event says of the message as a whole.
pub struct WireMessage {
    pub usage: Option<WireUsage>,
}

/// Token counts as they are sent.
#[derive(Debug, Clone, Copy, PartialEq, Eq, Structural)]
pub struct WireUsage {
    pub input_tokens: u64,
    pub output_tokens: u64,
    pub cache_read_input_tokens: u64,
    pub cache_creation_input_tokens: u64,
}

/// An error that the provider reports.
pub struct WireError {
    pub message: String,
}

/// What a `WireContentBlock` stands for.
pub ghost struct BlockView {
    pub block_type: Seq<char>,
    pub id: Option<Seq<char>>,
    pub name: Option<Seq<char>>,
    pub input: Option<json::JsonView>,
}

impl DeepView for WireContentBlock {
    type V = BlockView;

    open spec fn deep_view(&self) -> BlockView {
        BlockView {
            block_type: self.block_type@,
            id: self.id.deep_view(),
            name: self.name.deep_view(),
            input: self.input.deep_view(),
        }
    }
}

/// What a `WireDelta` stands for.
pub ghost struct WireDeltaView {
    pub delta_type: Seq<char>,
    pub text: Option<Seq<char>>,
    pub thinking: Option<Seq<char>>,
    pub partial_json: Option<Seq<char>>,
    pub stop_reason: Option<Seq<char>>,
}

impl DeepView for WireDelta {
    type V = WireDeltaView;

    open spec fn deep_view(&self) -> WireDeltaView {
        WireDeltaView {
            delta_type: self.delta_type@,
            text: self.text.deep_view(),
            thinking: self.thinking.deep_view(),
            partial_json: self.partial_json.deep_view(),
            stop_reason: self.stop_reason.deep_view(),
        }
    }
}

impl DeepView for WireMessage {
    type V = Option<WireUsage>;

    open spec fn deep_view(&self) -> Option<WireUsage> {
        self.usage
    }
}

impl DeepView for WireError {
    type V = Seq<char>;

    open spec fn deep_view(&self) -> Seq<char> {
        self.message@
    }
}

/// What a `WireEvent` stands for.
pub ghost struct EventView {
    pub event_type: Seq<char>,
    pub index: Option<usize>,
    pub content_block: Option<BlockView>,
    pub delta: Option<WireDeltaView>,
    pub message: Option<Option<WireUsage>>,
    pub error: Option<Seq<char>>,
}

impl DeepView for WireEvent {
    type V = EventView;

    open spec fn deep_view(&self) -> EventView {
        EventView {
            event_type: self.event_type@,
            index: self.index,
            content_block: self.content_block.deep_view(),
            delta: self.delta.deep_view(),
            message: self.message.deep_view(),
            error: self.error.deep_view(),
        }
    }
}

impl EventView {
    /// The token counts of the event.
    pub open spec fn usage(self) -> Option<WireUsage> {
        match self.message {
            Some(usage) => usage,
            None => None,
        }
    }
}

impl WireUsage {
    /// Whether the total fits.
    pub open spec fn fits(self) -> bool {
        self.input_tokens + self.output_tokens <= u64::MAX
    }

    /// The counts in the crate's own terms.
    pub open spec fn spec_usage(self) -> Usage {
        Usage {
            input_tokens: self.input_tokens,
            output_tokens: self.output_tokens,
            cache_read_tokens: self.cache_read_input_tokens,
            cache_creation_tokens: self.cache_creation_input_tokens,
            total_tokens: (self.input_tokens + self.output_tokens) as u64,
        }
    }

    /// The counts in the crate's own terms.
    pub fn into_usage(self) -> (r: Usage)
        requires
            self.fits(),
        ensures
            r == self.spec_usage(),
    {
        Usage {
            input_tokens: self.input_tokens,
            output_tokens: self.output_tokens,
            cache_read_tokens: self.cache_read_input_tokens,
            cache_creation_tokens: self.cache_creation_input_tokens,
            total_tokens: self.input_tokens + self.output_tokens,
        }
    }
}

/// Why the message finished. A reason that is not known counts as a tool call
/// where there is one.
pub open spec fn stop_reason_of(reason: Seq<char>, has_tool_calls: bool) -> StopReason {
    if reason == "end_turn"@ || reason == "stop_sequence"@ {
        StopReason::Stop
    } else if reason == "max_tokens"@ {
        StopReason::Length
    } else if reason == "tool_use"@ || has_tool_calls {
        StopReason::ToolUse
    } else {
        StopReason::Stop
    }
}

/// Why the message finished.
pub fn stop_reason_from_wire(reason: &str, has_tool_calls: bool) -> (r: StopReason)
    ensures
        r == stop_reason_of(reason@, has_tool_calls),
{
    if text::same(reason, "end_turn") || text::same(reason, "stop_sequence") {
        StopReason::Stop
    } else if text::same(reason, "max_tokens") {
        StopReason::Length
    } else if text::same(reason, "tool_use") || has_tool_calls {
        StopReason::ToolUse
    } else {
        StopReason::Stop
    }
}

/// The calls with an entry at `index`, and empty ones before it where they were
/// missing.
pub open spec fn grown(
    calls: Seq<(usize, crate::ai::sse::CallView)>,
    index: usize,
) -> Seq<(usize, crate::ai::sse::CallView)>
    decreases index + 1 - calls.len(),
{
    if calls.len() <= index {
        grown(calls.push((calls.len() as usize, crate::ai::sse::CallView::empty())), index)
    } else {
        calls
    }
}

/// The parser after the call at `index` has become `call`, which is told.
pub open spec fn call_changed(
    p: crate::ai::sse::ParserView,
    index: usize,
    call: crate::ai::sse::CallView,
) -> crate::ai::sse::ParserView {
    let calls = grown(p.state.tool_calls, index);
    p.with_state(
        crate::ai::sse::DeltaView {
            tool_calls: calls.update(index as int, (calls[index as int].0, call)),
            ..p.state
        },
    ).push(
        crate::ai::types::StreamView::ToolCallDelta {
            index,
            id: call.id,
            name: call.name,
            arguments: call.arguments,
        },
    )
}

/// A call after the block that opens it.
pub open spec fn opened_call(
    call: crate::ai::sse::CallView,
    block: BlockView,
) -> crate::ai::sse::CallView {
    crate::ai::sse::CallView {
        id: match block.id {
            Some(id) => id,
            None => call.id,
        },
        name: match block.name {
            Some(name) => name,
            None => call.name,
        },
        arguments: match block.input {
            Some(input) => json::json_text(input),
            None => call.arguments,
        },
    }
}

/// The counts after those of a `message_delta`: the input side came with
/// `message_start` and stays.
pub open spec fn merged_usage(known: Option<Usage>, added: WireUsage) -> Usage {
    match known {
        Some(u) => Usage {
            output_tokens: added.output_tokens,
            total_tokens: (u.input_tokens + u.cache_read_tokens + u.cache_creation_tokens
                + added.output_tokens) as u64,
            ..u
        },
        None => added.spec_usage(),
    }
}

/// Whether the sums that an event asks for fit, and its index can be reached.
pub open spec fn event_fits(p: crate::ai::sse::ParserView, event: EventView) -> bool {
    (event.usage() matches Some(u) ==> u.fits()) && (event.event_type == "message_delta"@ ==> (
    match (p.state.usage, event.usage()) {
        (Some(known), Some(added)) => known.input_tokens + known.cache_read_tokens
            + known.cache_creation_tokens + added.output_tokens <= u64::MAX,
        _ => true,
    })) && (event.index matches Some(i) ==> i < usize::MAX) && p.state.tool_calls.len()
        < usize::MAX
}

/// The parser after an addition to the message.
pub open spec fn delta_applied(
    p: crate::ai::sse::ParserView,
    index: Option<usize>,
    delta: WireDeltaView,
) -> crate::ai::sse::ParserView {
    if delta.delta_type == "text_delta"@ {
        match delta.text {
            Some(t) => p.with_state(
                crate::ai::sse::DeltaView { text: p.state.text + t, ..p.state },
            ).push(crate::ai::types::StreamView::TextDelta { delta: t }),
            None => p,
        }
    } else if delta.delta_type == "thinking_delta"@ {
        match delta.thinking {
            Some(t) => p.with_state(
                crate::ai::sse::DeltaView { thinking: p.state.thinking + t, ..p.state },
            ).push(crate::ai::types::StreamView::ThinkingDelta { delta: t }),
            None => p,
        }
    } else if delta.delta_type == "input_json_delta"@ {
        match delta.partial_json {
            Some(partial) => {
                let at = match index {
                    Some(i) => i,
                    None => 0,
                };
                let call = grown(p.state.tool_calls, at)[at as int].1;
                call_changed(
                    p,
                    at,
                    crate::ai::sse::CallView { arguments: call.arguments + partial, ..call },
                )
            },
            None => p,
        }
    } else {
        p
    }
}

/// The parser after an event.
pub open spec fn event_applied(
    p: crate::ai::sse::ParserView,
    event: EventView,
) -> crate::ai::sse::ParserView {
    if p.finished {
        p
    } else {
        event_taken(p.start(), event)
    }
}

/// The parser after an event, once the beginning of the reply was told.
pub open spec fn event_taken(
    p: crate::ai::sse::ParserView,
    event: EventView,
) -> crate::ai::sse::ParserView {
    if event.event_type == "message_start"@ {
        match event.usage() {
            Some(u) => p.with_state(
                crate::ai::sse::DeltaView { usage: Some(u.spec_usage()), ..p.state },
            ),
            None => p,
        }
    } else if event.event_type == "content_block_start"@ {
        match event.content_block {
            Some(block) => if block.block_type == "tool_use"@ {
                let at = match event.index {
                    Some(i) => i,
                    None => p.state.tool_calls.len() as usize,
                };
                call_changed(p, at, opened_call(grown(p.state.tool_calls, at)[at as int].1, block))
            } else {
                p
            },
            None => p,
        }
    } else if event.event_type == "content_block_delta"@ {
        match event.delta {
            Some(delta) => delta_applied(p, event.index, delta),
            None => p,
        }
    } else if event.event_type == "message_delta"@ {
        let p = match event.delta {
            Some(delta) => match delta.stop_reason {
                Some(reason) => p.with_state(
                    crate::ai::sse::DeltaView {
                        stop_reason: Some(
                            stop_reason_of(reason, p.state.tool_calls.len() > 0),
                        ),
                        ..p.state
                    },
                ),
                None => p,
            },
            None => p,
        };
        match event.usage() {
            Some(added) => p.with_state(
                crate::ai::sse::DeltaView {
                    usage: Some(merged_usage(p.state.usage, added)),
                    ..p.state
                },
            ),
            None => p,
        }
    } else if event.event_type == "message_stop"@ {
        crate::ai::sse::done_once(p)
    } else if event.event_type == "error"@ {
        crate::ai::sse::failed(
            p,
            match event.error {
                Some(m) => m,
                None => "unknown Anthropic error"@,
            },
        )
    } else {
        p
    }
}

/// The parser after data that could not be read, which ends the reply.
pub open spec fn malformed(
    p: crate::ai::sse::ParserView,
    what: Seq<char>,
    error: Seq<char>,
    data: Seq<char>,
) -> crate::ai::sse::ParserView {
    crate::ai::sse::failed(p, "malformed "@ + what + ": "@ + error + ": "@ + data)
}

fn grow(calls: &mut Vec<(usize, ToolCallAccumulator)>, index: usize)
    requires
        index < usize::MAX,
    ensures
        final(calls).deep_view() == grown(old(calls).deep_view(), index),
        final(calls)@.len() > index,
{
    let ghost first = calls.deep_view();
    while calls.len() <= index
        invariant
            index < usize::MAX,
            grown(first, index) == grown(calls.deep_view(), index),
        decreases index + 1 - calls.len(),
    {
        let n = calls.len();
        text::put(
            calls,
            (
                n,
                ToolCallAccumulator {
                    id: String::new(),
                    name: String::new(),
                    arguments: String::new(),
                },
            ),
        );
        assert(crate::ai::sse::CallView { id: seq![], name: seq![], arguments: seq![] }
            == crate::ai::sse::CallView::empty());
    }
}

impl SseParser {
    pub(crate) fn begin(&mut self)
        ensures
            final(self).deep_view() == old(self).deep_view().start(),
    {
        if !self.state.started {
            self.state.started = true;
            text::put_back(&mut self.queue, StreamEvent::Start);
        }
    }

    fn change_call(&mut self, index: usize, call: ToolCallAccumulator)
        requires
            old(self).deep_view().state.tool_calls.len() > index,
        ensures
            final(self).deep_view() == call_changed(
                old(self).deep_view(),
                index,
                call.deep_view(),
            ),
    {
        let ghost before = self.state.tool_calls.deep_view();
        let key = self.state.tool_calls[index].0;
        let event = StreamEvent::ToolCallDelta {
            index,
            id: call.id.clone(),
            name: call.name.clone(),
            arguments: call.arguments.clone(),
        };
        let ghost view = call.deep_view();
        self.state.tool_calls.set(index, (key, call));
        assert(self.state.tool_calls.deep_view() =~= before.update(index as int, (key, view)));
        text::put_back(&mut self.queue, event);
    }

    fn apply_delta(&mut self, index: Option<usize>, delta: &WireDelta)
        requires
            index matches Some(i) ==> i < usize::MAX,
        ensures
            final(self).deep_view() == delta_applied(
                old(self).deep_view(),
                index,
                delta.deep_view(),
            ),
    {
        if text::same(&delta.delta_type, "text_delta") {
            if let Some(t) = &delta.text {
                self.state.text.append(t);
                text::put_back(&mut self.queue, StreamEvent::TextDelta { delta: t.clone() });
            }
        } else if text::same(&delta.delta_type, "thinking_delta") {
            if let Some(t) = &delta.thinking {
                self.state.thinking.append(t);
                text::put_back(&mut self.queue, StreamEvent::ThinkingDelta { delta: t.clone() });
            }
        } else if text::same(&delta.delta_type, "input_json_delta") {
            if let Some(partial) = &delta.partial_json {
                let at: usize = match index {
                    Some(i) => i,
                    None => 0,
                };
                grow(&mut self.state.tool_calls, at);
                let call = &self.state.tool_calls[at].1;
                let changed = ToolCallAccumulator {
                    id: call.id.clone(),
                    name: call.name.clone(),
                    arguments: text::concat(&call.arguments, partial),
                };
                self.change_call(at, changed);
            }
        }
    }

    fn open_call(&mut self, index: Option<usize>, block: &WireContentBlock)
        requires
            index matches Some(i) ==> i < usize::MAX,
            old(self).deep_view().state.tool_calls.len() < usize::MAX,
        ensures
            ({
                let p = old(self).deep_view();
                let at = match index {
                    Some(i) => i,
                    None => p.state.tool_calls.len() as usize,
                };
                final(self).deep_view() == call_changed(
                    p,
                    at,
                    opened_call(grown(p.state.tool_calls, at)[at as int].1, block.deep_view()),
                )
            }),
    {
        let at: usize = match index {
            Some(i) => i,
            None => self.state.tool_calls.len(),
        };
        grow(&mut self.state.tool_calls, at);
        let call = &self.state.tool_calls[at].1;
        let changed = ToolCallAccumulator {
            id: match &block.id {
                Some(id) => id.clone(),
                None => call.id.clone(),
            },
            name: match &block.name {
                Some(name) => name.clone(),
                None => call.name.clone(),
            },
            arguments: match &block.input {
                Some(input) => json::render(input),
                None => call.arguments.clone(),
            },
        };
        self.change_call(at, changed);
    }

    fn apply_message_delta(&mut self, event: &WireEvent)
        requires
            event.deep_view().event_type == "message_delta"@,
            event_fits(old(self).deep_view(), event.deep_view()),
            old(self).deep_view().state.started,
        ensures
            final(self).deep_view() == event_taken(old(self).deep_view(), event.deep_view()),
    {
        proof {
            reveal_strlit("message_delta");
            reveal_strlit("message_start");
            reveal_strlit("content_block_start");
            reveal_strlit("content_block_delta");
            assert("message_delta"@[8] != "message_start"@[8]);
        }
        if let Some(delta) = &event.delta {
            if let Some(reason) = &delta.stop_reason {
                let known = stop_reason_from_wire(reason, self.state.tool_calls.len() > 0);
                self.state.stop_reason = Some(known);
            }
        }
        if let Some(message) = &event.message {
            if let Some(usage) = message.usage {
                let merged = match self.state.usage {
                    Some(known) => Usage {
                        input_tokens: known.input_tokens,
                        output_tokens: usage.output_tokens,
                        cache_read_tokens: known.cache_read_tokens,
                        cache_creation_tokens: known.cache_creation_tokens,
                        total_tokens: known.input_tokens + known.cache_read_tokens
                            + known.cache_creation_tokens + usage.output_tokens,
                    },
                    None => usage.into_usage(),
                };
                self.state.usage = Some(merged);
            }
        }
    }

    /// Whether the sums that an event asks for fit, and its index can be
    /// reached.
    pub fn can_take_event(&self, event: &WireEvent) -> (r: bool)
        ensures
            r == event_fits(self.deep_view(), event.deep_view()),
    {
        let index_ok = match event.index {
            Some(i) => i < usize::MAX,
            None => true,
        };
        let calls_ok = self.state.tool_calls.len() < usize::MAX;
        let usage = match &event.message {
            Some(message) => message.usage,
            None => None,
        };
        let usage_ok = match usage {
            Some(u) => {
                let total_ok = u.output_tokens <= u64::MAX - u.input_tokens;
                let merged_ok = if text::same(&event.event_type, "message_delta") {
                    match self.state.usage {
                        Some(known) => {
                            let sum: u128 = known.input_tokens as u128
                                + known.cache_read_tokens as u128
                                + known.cache_creation_tokens as u128 + u.output_tokens as u128;
                            sum <= u64::MAX as u128
                        },
                        None => true,
                    }
                } else {
                    true
                };
                total_ok && merged_ok
            },
            None => true,
        };
        index_ok && calls_ok && usage_ok
    }

    /// Takes the event that was read from the data of a line, or the message of
    /// the error that came instead. Once the reply has ended, nothing more is taken.
    pub fn handle_event(&mut self, data: &str, event: Result<WireEvent, String>)
        requires
            event matches Ok(e) ==> event_fits(old(self).deep_view(), e.deep_view()),
        ensures
            match event {
                Ok(e) => final(self).deep_view() == event_applied(
                    old(self).deep_view(),
                    e.deep_view(),
                ),
                Err(m) => final(self).deep_view() == malformed(
                    old(self).deep_view(),
                    "event"@,
                    m@,
                    data@,
                ),
            },
    {
        if self.finished {
            return;
        }
        let event = match event {
            Ok(e) => e,
            Err(m) => {
                let mut message = text::concat("malformed ", "event");
                message.append(": ");
                message.append(&m);
                message.append(": ");
                message.append(data);
                self.fail(&message);
                return;
            },
        };
        self.begin();
        if text::same(&event.event_type, "message_start") {
            if let Some(message) = &event.message {
                if let Some(usage) = message.usage {
                    self.state.usage = Some(usage.into_usage());
                }
            }
        } else if text::same(&event.event_type, "content_block_start") {
            if let Some(block) = &event.content_block {
                if text::same(&block.block_type, "tool_use") {
                    self.open_call(event.index, block);
                }
            }
        } else if text::same(&event.event_type, "content_block_delta") {
            if let Some(delta) = &event.delta {
                self.apply_delta(event.index, delta);
            }
        } else if text::same(&event.event_type, "message_delta") {
            self.apply_message_delta(&event);
        } else if text::same(&event.event_type, "message_stop") {
            self.finish_once();
        } else if text::same(&event.event_type, "error") {
            let message = match event.error {
                Some(e) => e.message,
                None => "unknown Anthropic error".to_owned(),
            };
            self.fail(&message);
        }
    }
}

} // verus!
