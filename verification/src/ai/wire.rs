//! Request bodies for OpenAI-compatible providers.
//!
//! The body is a function of the request, and each message is written without
//! regard to the others. Two requests that share the beginning of a
//! conversation therefore share the beginning of its text, which is what lets a
//! provider serve it from its prefix cache.
use crate::ai::types::{ChatRequest, ContentPart, LlmMessage, ToolSpec};
use crate::dup::Dup;
use crate::json::{self, Json};
use crate::text;
use vstd::prelude::*;

verus! {

/// A JSON string.
pub open spec fn js(s: Seq<char>) -> json::JsonView {
    json::JsonView::Str(s)
}

/// A JSON object.
pub open spec fn jo(fields: Map<Seq<char>, json::JsonView>) -> json::JsonView {
    json::JsonView::Object(fields)
}

/// A JSON array.
pub open spec fn ja(items: Seq<json::JsonView>) -> json::JsonView {
    json::JsonView::Array(items)
}

/// The texts of the parts, one after the other.
pub open spec fn joined_text(parts: Seq<crate::ai::types::ContentView>) -> Seq<char>
    decreases parts.len(),
{
    if parts.len() == 0 {
        seq![]
    } else {
        let before = joined_text(parts.drop_last());
        match parts.last() {
            crate::ai::types::ContentView::Text { text } => before + text,
            _ => before,
        }
    }
}

/// One entry of `tool_calls`; the arguments are sent as text.
pub open spec fn call_json(
    id: Seq<char>,
    name: Seq<char>,
    arguments: json::JsonView,
) -> json::JsonView {
    jo(
        map![
        "id"@ => js(id),
        "type"@ => js("function"@),
        "function"@ => jo(map![
            "name"@ => js(name),
            "arguments"@ => js(json::json_text(arguments)),
        ]),
    ],
    )
}

/// The tool calls among the parts, in order.
pub open spec fn calls_json(parts: Seq<crate::ai::types::ContentView>) -> Seq<json::JsonView>
    decreases parts.len(),
{
    if parts.len() == 0 {
        seq![]
    } else {
        let before = calls_json(parts.drop_last());
        match parts.last() {
            crate::ai::types::ContentView::ToolCall { id, name, arguments } => before.push(
                call_json(id, name, arguments),
            ),
            _ => before,
        }
    }
}

/// The content of a user message: its text, or parts where it has images.
pub open spec fn user_content(content: Seq<char>, images: Seq<Seq<char>>) -> json::JsonView {
    if images.len() == 0 {
        js(content)
    } else {
        ja(seq![text_part(content)] + images.map_values(|url: Seq<char>| image_part(url)))
    }
}

/// A text part.
pub open spec fn text_part(content: Seq<char>) -> json::JsonView {
    jo(map!["type"@ => js("text"@), "text"@ => js(content)])
}

/// An image part.
pub open spec fn image_part(url: Seq<char>) -> json::JsonView {
    jo(map!["type"@ => js("image_url"@), "image_url"@ => jo(map!["url"@ => js(url)])])
}

/// A message as it is sent. Reasoning is not sent back.
pub open spec fn message_json(message: crate::ai::types::MessageView) -> json::JsonView {
    match message {
        crate::ai::types::MessageView::System { content } => jo(
            map!["role"@ => js("system"@), "content"@ => js(content)],
        ),
        crate::ai::types::MessageView::User { content, images } => jo(
            map!["role"@ => js("user"@), "content"@ => user_content(content, images)],
        ),
        crate::ai::types::MessageView::Assistant { content, .. } => {
            let base = map!["role"@ => js("assistant"@), "content"@ => js(joined_text(content))];
            let calls = calls_json(content);
            if calls.len() > 0 {
                jo(base.insert("tool_calls"@, ja(calls)))
            } else {
                jo(base)
            }
        },
        crate::ai::types::MessageView::Tool { tool_call_id, name, content } => jo(
            map![
            "role"@ => js("tool"@),
            "tool_call_id"@ => js(tool_call_id),
            "name"@ => js(name),
            "content"@ => js(content),
        ],
        ),
    }
}

/// Messages as they are sent.
pub open spec fn messages_json(messages: Seq<crate::ai::types::MessageView>) -> Seq<json::JsonView> {
    messages.map_values(|m: crate::ai::types::MessageView| message_json(m))
}

/// A tool as it is sent.
pub open spec fn tool_json(tool: crate::ai::types::ToolView) -> json::JsonView {
    jo(
        map![
        "type"@ => js("function"@),
        "function"@ => jo(map![
            "name"@ => js(tool.name),
            "description"@ => js(tool.description),
            "parameters"@ => tool.parameters,
        ]),
    ],
    )
}

/// The messages of a request: the system prompt, unless it is empty, and then
/// the conversation.
pub open spec fn request_messages(request: crate::ai::types::RequestView) -> Seq<json::JsonView> {
    let rest = messages_json(request.messages);
    if request.system.len() > 0 {
        seq![jo(map!["role"@ => js("system"@), "content"@ => js(request.system)])] + rest
    } else {
        rest
    }
}

/// The body of a chat request.
pub open spec fn request_json(request: crate::ai::types::RequestView) -> json::JsonView {
    let base = map![
        "model"@ => js(request.model),
        "messages"@ => ja(request_messages(request)),
        "stream"@ => json::JsonView::Bool(true),
    ];
    let base = match request.temperature {
        Some(t) => base.insert("temperature"@, json::JsonView::Number(t)),
        None => base,
    };
    if request.tools.len() > 0 {
        jo(
            base.insert(
                "tools"@,
                ja(request.tools.map_values(|t: crate::ai::types::ToolView| tool_json(t))),
            ),
        )
    } else {
        jo(base)
    }
}

/// The messages as they are sent.
pub fn serialize_messages(messages: &[LlmMessage]) -> (r: Json)
    ensures
        r.deep_view() == ja(messages_json(messages.deep_view())),
{
    Json::array(wire_messages(messages))
}

fn wire_messages(messages: &[LlmMessage]) -> (out: Vec<Json>)
    ensures
        out.deep_view() == messages_json(messages.deep_view()),
{
    let mut out: Vec<Json> = Vec::new();
    let ghost view = messages.deep_view();
    let mut i: usize = 0;
    assert(out.deep_view() =~= seq![]);
    while i < messages.len()
        invariant
            i <= messages.len(),
            view == messages.deep_view(),
            out.deep_view() == messages_json(view.take(i as int)),
        decreases messages.len() - i,
    {
        text::put(&mut out, wire_message(&messages[i]));
        assert(out.deep_view() =~= messages_json(view.take(i + 1)));
        i += 1;
    }
    assert(view.take(view.len() as int) =~= view);
    out
}

/// A tool as it is sent.
pub fn serialize_tool(tool: &ToolSpec) -> (r: Json)
    ensures
        r.deep_view() == tool_json(tool.deep_view()),
{
    Json::object().with("type", Json::text("function")).with(
        "function",
        Json::object().with("name", Json::text(&tool.name)).with(
            "description",
            Json::text(&tool.description),
        ).with("parameters", tool.parameters.dup()),
    )
}

/// The body of a chat request, with the system prompt as its first message.
pub fn build_chat_request_body(request: &ChatRequest) -> (r: Json)
    ensures
        r.deep_view() == request_json(request.deep_view()),
{
    let mut messages: Vec<Json> = Vec::new();
    assert(messages.deep_view() =~= seq![]);
    if text::count(&request.system) > 0 {
        text::put(
            &mut messages,
            Json::object().with("role", Json::text("system")).with(
                "content",
                Json::text(&request.system),
            ),
        );
    }
    let rest = wire_messages(&request.messages);
    crate::dup::extend_dup(&mut messages, &rest);
    assert(messages.deep_view() =~= request_messages(request.deep_view()));
    let body = Json::object().with("model", Json::text(&request.model)).with(
        "messages",
        Json::array(messages),
    ).with("stream", Json::Bool(true));
    let body = match &request.temperature {
        Some(t) => body.with("temperature", Json::Number(t.dup())),
        None => body,
    };
    if request.tools.len() > 0 {
        let mut tools: Vec<Json> = Vec::new();
        let ghost view = request.tools.deep_view();
        let mut i: usize = 0;
        assert(tools.deep_view() =~= seq![]);
        while i < request.tools.len()
            invariant
                i <= request.tools.len(),
                view == request.tools.deep_view(),
                tools.deep_view() == view.take(i as int).map_values(
                    |t: crate::ai::types::ToolView| tool_json(t),
                ),
            decreases request.tools.len() - i,
        {
            text::put(&mut tools, serialize_tool(&request.tools[i]));
            assert(tools.deep_view() =~= view.take(i + 1).map_values(
                |t: crate::ai::types::ToolView| tool_json(t),
            ));
            i += 1;
        }
        assert(view.take(view.len() as int) =~= view);
        body.with("tools", Json::array(tools))
    } else {
        body
    }
}

fn wire_user_content(content: &str, images: &[String]) -> (r: Json)
    ensures
        r.deep_view() == user_content(content@, images.deep_view()),
{
    if images.len() == 0 {
        return Json::text(content);
    }
    let mut parts: Vec<Json> = Vec::new();
    assert(parts.deep_view() =~= seq![]);
    text::put(
        &mut parts,
        Json::object().with("type", Json::text("text")).with("text", Json::text(content)),
    );
    let ghost view = images.deep_view();
    let mut i: usize = 0;
    assert(parts.deep_view() =~= seq![text_part(content@)]);
    while i < images.len()
        invariant
            i <= images.len(),
            view == images.deep_view(),
            parts.deep_view() == seq![text_part(content@)] + view.take(i as int).map_values(
                |url: Seq<char>| image_part(url),
            ),
        decreases images.len() - i,
    {
        text::put(
            &mut parts,
            Json::object().with("type", Json::text("image_url")).with(
                "image_url",
                Json::object().with("url", Json::text(&images[i])),
            ),
        );
        assert(parts.deep_view() =~= seq![text_part(content@)] + view.take(i + 1).map_values(
            |url: Seq<char>| image_part(url),
        ));
        i += 1;
    }
    assert(view.take(view.len() as int) =~= view);
    Json::array(parts)
}

/// A message as it is sent.
fn wire_message(message: &LlmMessage) -> (r: Json)
    ensures
        r.deep_view() == message_json(message.deep_view()),
{
    match message {
        LlmMessage::System { content } => Json::object().with("role", Json::text("system")).with(
            "content",
            Json::text(content),
        ),
        LlmMessage::User { content, images } => Json::object().with(
            "role",
            Json::text("user"),
        ).with("content", wire_user_content(content, images)),
        LlmMessage::Assistant { content, .. } => {
            let mut said = String::new();
            let mut calls: Vec<Json> = Vec::new();
            let ghost view = content.deep_view();
            let mut i: usize = 0;
            assert(calls.deep_view() =~= seq![]);
            while i < content.len()
                invariant
                    i <= content.len(),
                    view == content.deep_view(),
                    said@ == joined_text(view.take(i as int)),
                    calls.deep_view() == calls_json(view.take(i as int)),
                decreases content.len() - i,
            {
                assert(view.take(i + 1).drop_last() =~= view.take(i as int));
                match &content[i] {
                    ContentPart::Text { text } => said.append(text),
                    ContentPart::Thinking { .. } => {},
                    ContentPart::Image { .. } => {},
                    ContentPart::ToolCall { id, name, arguments } => text::put(
                        &mut calls,
                        Json::object().with("id", Json::text(id)).with(
                            "type",
                            Json::text("function"),
                        ).with(
                            "function",
                            Json::object().with("name", Json::text(name)).with(
                                "arguments",
                                Json::text(&json::render(arguments)),
                            ),
                        ),
                    ),
                }
                i += 1;
            }
            assert(view.take(view.len() as int) =~= view);
            let base = Json::object().with("role", Json::text("assistant")).with(
                "content",
                Json::text(&said),
            );
            if calls.len() > 0 {
                base.with("tool_calls", Json::array(calls))
            } else {
                base
            }
        },
        LlmMessage::Tool { tool_call_id, name, content } => Json::object().with(
            "role",
            Json::text("tool"),
        ).with("tool_call_id", Json::text(tool_call_id)).with("name", Json::text(name)).with(
            "content",
            Json::text(content),
        ),
    }
}

// --------------------------------------------------------------------- laws
/// Messages are written one by one: a longer conversation is written as the
/// shorter one and then the rest.
pub proof fn law_messages_are_appended(
    first: Seq<crate::ai::types::MessageView>,
    more: Seq<crate::ai::types::MessageView>,
)
    ensures
        messages_json(first + more) == messages_json(first) + messages_json(more),
{
    assert(messages_json(first + more) =~= messages_json(first) + messages_json(more));
}

proof fn lemma_join_prefix(first: Seq<Seq<char>>, more: Seq<Seq<char>>, sep: Seq<char>)
    ensures
        text::spec_join(first, sep).is_prefix_of(text::spec_join(first + more, sep)),
    decreases more.len(),
{
    if more.len() == 0 {
        assert(first + more =~= first);
    } else {
        lemma_join_prefix(first, more.drop_last(), sep);
        assert((first + more).drop_last() =~= first + more.drop_last());
        if first.len() + more.len() == 1 {
            assert(text::spec_join(first, sep) =~= seq![]);
        }
        assert(text::spec_join(first, sep).is_prefix_of(text::spec_join(first + more, sep)));
    }
}

/// The texts of the items of an array.
spec fn item_texts(items: Seq<json::JsonView>) -> Seq<Seq<char>> {
    items.map_values(|j: json::JsonView| json::json_text(j))
}

proof fn lemma_array_text(items: Seq<json::JsonView>)
    ensures
        json::json_text(ja(items)) == seq!['['] + text::spec_join(item_texts(items), seq![','])
            + seq![']'],
{
    let normal = json::normalized(ja(items))->Array_0;
    assert(json::normalized(ja(items)) == ja(normal));
    assert(json::rendered_items(normal) =~= item_texts(items));
}

/// The text of a conversation that goes on begins with the text of what it goes
/// on from, up to the closing bracket.
pub proof fn law_shared_prefix_is_identical(
    first: Seq<crate::ai::types::MessageView>,
    more: Seq<crate::ai::types::MessageView>,
)
    ensures
        json::json_text(ja(messages_json(first))).drop_last().is_prefix_of(
            json::json_text(ja(messages_json(first + more))),
        ),
{
    law_messages_are_appended(first, more);
    let a = messages_json(first);
    let b = messages_json(more);
    lemma_array_text(a);
    lemma_array_text(a + b);
    assert(item_texts(a + b) =~= item_texts(a) + item_texts(b));
    lemma_join_prefix(item_texts(a), item_texts(b), seq![',']);
    let x = text::spec_join(item_texts(a), seq![',']);
    let y = text::spec_join(item_texts(a + b), seq![',']);
    let whole = seq!['['] + y + seq![']'];
    assert((seq!['['] + x + seq![']']).drop_last() =~= seq!['['] + x);
    assert(seq!['['] + x =~= whole.subrange(0, (seq!['['] + x).len() as int));
}

/// The system prompt, where there is one, is the first message that is sent,
/// and the rest of the request does not depend on it.
pub proof fn law_system_prompt_comes_first(request: crate::ai::types::RequestView)
    ensures
        request.system.len() > 0 ==> request_messages(request).len() == request.messages.len() + 1
            && request_messages(request)[0] == message_json(
            crate::ai::types::MessageView::System { content: request.system },
        ) && request_messages(request).skip(1) =~= messages_json(request.messages),
        request.system.len() == 0 ==> request_messages(request) == messages_json(request.messages),
{
}

} // verus!
