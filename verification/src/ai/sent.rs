//! What is sent to a provider says what the conversation says, in both formats.
use vstd::prelude::*;

verus! {

/// Whether an object holds this text under a key.
pub open spec fn holds_text(
    object: crate::json::JsonView,
    key: Seq<char>,
    value: Seq<char>,
) -> bool {
    object.field(key) == Some(crate::json::JsonView::Str(value))
}

/// The block at a position of a message.
pub open spec fn block_of(message: crate::json::JsonView, i: int) -> crate::json::JsonView {
    message.field("content"@)->0->Array_0[i]
}

/// How many blocks a message has.
pub open spec fn block_count(message: crate::json::JsonView) -> nat {
    message.field("content"@)->0->Array_0.len()
}

/// Whether the content of a message is a list of blocks.
pub open spec fn has_blocks(message: crate::json::JsonView) -> bool {
    message.field("content"@) is Some && message.field("content"@)->0 is Array
}

proof fn lemma_keys_differ()
    ensures
        "role"@ != "content"@,
        "role"@ != "tool_calls"@,
        "content"@ != "tool_calls"@,
        "role"@ != "tool_call_id"@,
        "content"@ != "tool_call_id"@,
        "role"@ != "name"@,
        "content"@ != "name"@,
        "tool_call_id"@ != "name"@,
        "type"@ != "text"@,
        "type"@ != "cache_control"@,
        "text"@ != "cache_control"@,
        "type"@ != "content"@,
        "type"@ != "tool_use_id"@,
        "tool_use_id"@ != "content"@,
        "type"@ != "id"@,
        "type"@ != "name"@,
        "type"@ != "input"@,
        "id"@ != "name"@,
        "id"@ != "input"@,
        "name"@ != "input"@,
        "type"@ != "thinking"@,
        "type"@ != "signature"@,
        "thinking"@ != "signature"@,
        "type"@ != "source"@,
        "type"@ != "media_type"@,
        "type"@ != "data"@,
        "media_type"@ != "data"@,
        "type"@ != "function"@,
        "id"@ != "function"@,
        "name"@ != "arguments"@,
        "type"@ != "image_url"@,
        "name"@ != "description"@,
        "name"@ != "input_schema"@,
        "description"@ != "input_schema"@,
        "name"@ != "parameters"@,
        "description"@ != "parameters"@,
        "model"@ != "max_tokens"@,
        "model"@ != "stream"@,
        "model"@ != "system"@,
        "model"@ != "temperature"@,
        "model"@ != "tools"@,
        "model"@ != "messages"@,
        "max_tokens"@ != "stream"@,
        "max_tokens"@ != "system"@,
        "max_tokens"@ != "temperature"@,
        "max_tokens"@ != "tools"@,
        "max_tokens"@ != "messages"@,
        "stream"@ != "system"@,
        "stream"@ != "temperature"@,
        "stream"@ != "tools"@,
        "stream"@ != "messages"@,
        "system"@ != "temperature"@,
        "system"@ != "tools"@,
        "system"@ != "messages"@,
        "temperature"@ != "tools"@,
        "temperature"@ != "messages"@,
        "tools"@ != "messages"@,
{
    reveal_strlit("role");
    reveal_strlit("content");
    reveal_strlit("tool_calls");
    reveal_strlit("tool_call_id");
    reveal_strlit("name");
    reveal_strlit("type");
    reveal_strlit("text");
    reveal_strlit("cache_control");
    reveal_strlit("tool_use_id");
    reveal_strlit("id");
    reveal_strlit("input");
    reveal_strlit("thinking");
    reveal_strlit("signature");
    reveal_strlit("source");
    reveal_strlit("media_type");
    reveal_strlit("data");
    reveal_strlit("function");
    reveal_strlit("arguments");
    reveal_strlit("image_url");
    reveal_strlit("description");
    reveal_strlit("input_schema");
    reveal_strlit("parameters");
    reveal_strlit("model");
    reveal_strlit("max_tokens");
    reveal_strlit("stream");
    reveal_strlit("system");
    reveal_strlit("temperature");
    reveal_strlit("tools");
    reveal_strlit("messages");
    assert("role"@.len() != "content"@.len());
    assert("role"@.len() != "tool_calls"@.len());
    assert("content"@.len() != "tool_calls"@.len());
    assert("role"@.len() != "tool_call_id"@.len());
    assert("content"@.len() != "tool_call_id"@.len());
    assert("role"@[0] != "name"@[0]);
    assert("content"@.len() != "name"@.len());
    assert("tool_call_id"@.len() != "name"@.len());
    assert("type"@[1] != "text"@[1]);
    assert("type"@.len() != "cache_control"@.len());
    assert("text"@.len() != "cache_control"@.len());
    assert("type"@.len() != "content"@.len());
    assert("type"@.len() != "tool_use_id"@.len());
    assert("tool_use_id"@.len() != "content"@.len());
    assert("type"@.len() != "id"@.len());
    assert("type"@[0] != "name"@[0]);
    assert("type"@.len() != "input"@.len());
    assert("id"@.len() != "name"@.len());
    assert("id"@.len() != "input"@.len());
    assert("name"@.len() != "input"@.len());
    assert("type"@.len() != "thinking"@.len());
    assert("type"@.len() != "signature"@.len());
    assert("thinking"@.len() != "signature"@.len());
    assert("type"@.len() != "source"@.len());
    assert("type"@.len() != "media_type"@.len());
    assert("type"@[0] != "data"@[0]);
    assert("media_type"@.len() != "data"@.len());
    assert("type"@.len() != "function"@.len());
    assert("id"@.len() != "function"@.len());
    assert("name"@.len() != "arguments"@.len());
    assert("type"@.len() != "image_url"@.len());
    assert("name"@.len() != "description"@.len());
    assert("name"@.len() != "input_schema"@.len());
    assert("description"@.len() != "input_schema"@.len());
    assert("name"@.len() != "parameters"@.len());
    assert("description"@.len() != "parameters"@.len());
    assert("model"@.len() != "max_tokens"@.len());
    assert("model"@.len() != "stream"@.len());
    assert("model"@.len() != "system"@.len());
    assert("model"@.len() != "temperature"@.len());
    assert("model"@[0] != "tools"@[0]);
    assert("model"@.len() != "messages"@.len());
    assert("max_tokens"@.len() != "stream"@.len());
    assert("max_tokens"@.len() != "system"@.len());
    assert("max_tokens"@.len() != "temperature"@.len());
    assert("max_tokens"@.len() != "tools"@.len());
    assert("max_tokens"@.len() != "messages"@.len());
    assert("stream"@[1] != "system"@[1]);
    assert("stream"@.len() != "temperature"@.len());
    assert("stream"@.len() != "tools"@.len());
    assert("stream"@.len() != "messages"@.len());
    assert("system"@.len() != "temperature"@.len());
    assert("system"@.len() != "tools"@.len());
    assert("system"@.len() != "messages"@.len());
    assert("temperature"@.len() != "tools"@.len());
    assert("temperature"@.len() != "messages"@.len());
    assert("tools"@.len() != "messages"@.len());
}

// ----------------------------------------------------------------- Messages API
/// The result of a tool answers its call: the block of the result bears the id of the
/// call and what the tool gave, whatever the tool is called.
pub proof fn law_results_answer_their_calls(
    id: Seq<char>,
    name: Seq<char>,
    content: Seq<char>,
    mark: bool,
)
    ensures
        ({
            let sent = crate::ai::anthropic::message_json(
                crate::ai::types::MessageView::Tool { tool_call_id: id, name, content },
                mark,
            );
            &&& holds_text(sent, "role"@, "user"@)
            &&& has_blocks(sent) && block_count(sent) == 1
            &&& holds_text(block_of(sent, 0), "type"@, "tool_result"@)
            &&& holds_text(block_of(sent, 0), "tool_use_id"@, id)
            &&& holds_text(block_of(sent, 0), "content"@, content)
        }),
{
    lemma_keys_differ();
}

/// A call that was made and its result bear the same id, whatever other parts the
/// message of the call has and whatever the tool is called.
pub proof fn law_calls_and_results_share_their_id(
    parts: Seq<crate::ai::types::ContentView>,
    k: int,
    called: crate::ai::types::MessageView,
    name: Seq<char>,
    content: Seq<char>,
)
    requires
        0 <= k < parts.len(),
        parts[k] is ToolCall,
        forall|i: int| 0 <= i < parts.len() ==> !(#[trigger] parts[i] is Image),
        called is Assistant,
        called->Assistant_content == parts,
    ensures
        ({
            let call = block_of(crate::ai::anthropic::message_json(called, false), k);
            let result = block_of(
                crate::ai::anthropic::message_json(
                    crate::ai::types::MessageView::Tool {
                        tool_call_id: parts[k]->ToolCall_id,
                        name,
                        content,
                    },
                    false,
                ),
                0,
            );
            &&& call.field("id"@) is Some
            &&& call.field("id"@) == result.field("tool_use_id"@)
        }),
{
    law_assistant_messages_keep_their_parts(called, k);
    law_results_answer_their_calls(parts[k]->ToolCall_id, name, content, false);
}

/// Whether a block says what a part of a message says.
pub open spec fn block_says(
    block: crate::json::JsonView,
    part: crate::ai::types::ContentView,
) -> bool {
    &&& part is Text ==> holds_text(block, "type"@, "text"@) && holds_text(
        block,
        "text"@,
        part->Text_text,
    )
    &&& part is Thinking ==> holds_text(block, "type"@, "thinking"@) && holds_text(
        block,
        "thinking"@,
        part->Thinking_thinking,
    )
    &&& part is ToolCall ==> holds_text(block, "type"@, "tool_use"@) && holds_text(
        block,
        "id"@,
        part->ToolCall_id,
    ) && holds_text(block, "name"@, part->ToolCall_name) && block.field("input"@) == Some(
        part->ToolCall_arguments,
    )
}

/// What the model said is sent part by part, in order: text as text, reasoning as
/// reasoning, a call with its id, its name and its arguments.
pub proof fn law_assistant_messages_keep_their_parts(
    message: crate::ai::types::MessageView,
    k: int,
)
    requires
        message is Assistant,
        forall|i: int|
            0 <= i < message->Assistant_content.len() ==> !(
            #[trigger] message->Assistant_content[i] is Image),
        0 <= k < message->Assistant_content.len(),
    ensures
        ({
            let sent = crate::ai::anthropic::message_json(message, false);
            &&& holds_text(sent, "role"@, "assistant"@)
            &&& has_blocks(sent) && block_count(sent) == message->Assistant_content.len()
            &&& block_says(block_of(sent, k), message->Assistant_content[k])
        }),
{
    lemma_keys_differ();
    lemma_assistant_blocks(message->Assistant_content, k);
}

proof fn lemma_assistant_blocks(parts: Seq<crate::ai::types::ContentView>, k: int)
    requires
        forall|i: int| 0 <= i < parts.len() ==> !(#[trigger] parts[i] is Image),
        0 <= k < parts.len(),
    ensures
        crate::ai::anthropic::assistant_blocks(parts).len() == parts.len(),
        block_says(crate::ai::anthropic::assistant_blocks(parts)[k], parts[k]),
    decreases parts.len(),
{
    lemma_keys_differ();
    let init = parts.drop_last();
    assert(!(parts[parts.len() - 1] is Image));
    assert forall|i: int| 0 <= i < init.len() implies !(#[trigger] init[i] is Image) by {
        assert(!(parts[i] is Image));
    }
    if init.len() == 0 {
        assert(crate::ai::anthropic::assistant_blocks(init) =~= seq![]);
    } else {
        lemma_assistant_blocks(init, if k < init.len() {
            k
        } else {
            0
        });
    }
}

/// What the user says is sent as the user's: the text where there is any, and behind it
/// an image for each that is a data URI, with its media type and its data.
pub proof fn law_user_messages_keep_their_text(
    content: Seq<char>,
    media: Seq<char>,
    data: Seq<char>,
    mark: bool,
)
    requires
        content.len() > 0,
        crate::ai::anthropic::data_uri("data:"@ + media + ";base64,"@ + data) == Some((media, data)),
    ensures
        ({
            let sent = crate::ai::anthropic::message_json(
                crate::ai::types::MessageView::User {
                    content,
                    images: seq!["data:"@ + media + ";base64,"@ + data],
                },
                mark,
            );
            let source = block_of(sent, 1).field("source"@)->0;
            &&& holds_text(sent, "role"@, "user"@)
            &&& has_blocks(sent) && block_count(sent) == 2
            &&& holds_text(block_of(sent, 0), "type"@, "text"@)
            &&& holds_text(block_of(sent, 0), "text"@, content)
            &&& block_of(sent, 0).field("cache_control"@) is Some == mark
            &&& holds_text(block_of(sent, 1), "type"@, "image"@)
            &&& holds_text(source, "media_type"@, media)
            &&& holds_text(source, "data"@, data)
        }),
{
    lemma_keys_differ();
    let uri = "data:"@ + media + ";base64,"@ + data;
    let images = seq![uri];
    assert(images.drop_last() =~= seq![]);
    assert(crate::ai::anthropic::image_blocks(images.drop_last()) =~= seq![]);
}

/// A message without images is sent with its text alone.
pub proof fn law_plain_user_messages_are_their_text(content: Seq<char>, mark: bool)
    requires
        content.len() > 0,
    ensures
        ({
            let sent = crate::ai::anthropic::message_json(
                crate::ai::types::MessageView::User { content, images: seq![] },
                mark,
            );
            &&& holds_text(sent, "role"@, "user"@)
            &&& has_blocks(sent) && block_count(sent) == 1
            &&& holds_text(block_of(sent, 0), "text"@, content)
        }),
{
    lemma_keys_differ();
}

// ------------------------------------------------------------- chat completions
/// The result of a tool answers its call: it bears the id of the call and what the tool
/// gave.
pub proof fn law_chat_results_answer_their_calls(
    id: Seq<char>,
    name: Seq<char>,
    content: Seq<char>,
)
    ensures
        ({
            let sent = crate::ai::wire::message_json(
                crate::ai::types::MessageView::Tool { tool_call_id: id, name, content },
            );
            &&& holds_text(sent, "role"@, "tool"@)
            &&& holds_text(sent, "tool_call_id"@, id)
            &&& holds_text(sent, "name"@, name)
            &&& holds_text(sent, "content"@, content)
        }),
{
    lemma_keys_differ();
}

/// The calls among the parts of a message.
pub open spec fn calls_among(
    parts: Seq<crate::ai::types::ContentView>,
) -> Seq<crate::ai::types::ContentView> {
    parts.filter(|p: crate::ai::types::ContentView| p is ToolCall)
}

/// The text that a part brings.
pub open spec fn text_in(part: crate::ai::types::ContentView) -> Seq<char> {
    if part is Text {
        part->Text_text
    } else {
        seq![]
    }
}

/// Whether an entry of `tool_calls` is this call.
pub open spec fn entry_says(
    entry: crate::json::JsonView,
    call: crate::ai::types::ContentView,
) -> bool {
    &&& holds_text(entry, "id"@, call->ToolCall_id)
    &&& holds_text(entry, "type"@, "function"@)
    &&& entry.field("function"@) is Some
    &&& holds_text(entry.field("function"@)->0, "name"@, call->ToolCall_name)
    &&& holds_text(
        entry.field("function"@)->0,
        "arguments"@,
        crate::json::json_text(call->ToolCall_arguments),
    )
}

/// What the model said is sent with all its text, and with its calls in order, each with
/// its id, its name and its arguments.
pub proof fn law_chat_messages_keep_their_parts(message: crate::ai::types::MessageView)
    requires
        message is Assistant,
    ensures
        ({
            let parts = message->Assistant_content;
            let sent = crate::ai::wire::message_json(message);
            let calls = calls_among(parts);
            let entries = sent.field("tool_calls"@)->0->Array_0;
            &&& holds_text(sent, "role"@, "assistant"@)
            &&& holds_text(
                sent,
                "content"@,
                parts.map_values(|p: crate::ai::types::ContentView| text_in(p)).flatten(),
            )
            &&& calls.len() == 0 ==> sent.field("tool_calls"@) is None
            &&& calls.len() > 0 ==> sent.field("tool_calls"@) is Some && entries.len()
                == calls.len() && forall|k: int|
                0 <= k < calls.len() ==> entry_says(#[trigger] entries[k], calls[k])
        }),
{
    lemma_keys_differ();
    lemma_chat_parts(message->Assistant_content);
}

proof fn lemma_chat_parts(parts: Seq<crate::ai::types::ContentView>)
    ensures
        crate::ai::wire::joined_text(parts) == parts.map_values(
            |p: crate::ai::types::ContentView| text_in(p),
        ).flatten(),
        crate::ai::wire::calls_json(parts).len() == calls_among(parts).len(),
        forall|k: int|
            0 <= k < calls_among(parts).len() ==> entry_says(
                #[trigger] crate::ai::wire::calls_json(parts)[k],
                calls_among(parts)[k],
            ),
    decreases parts.len(),
{
    broadcast use Seq::lemma_flatten_push;

    lemma_keys_differ();
    let f = |p: crate::ai::types::ContentView| text_in(p);
    reveal(Seq::filter);
    if parts.len() == 0 {
        assert(parts.map_values(f) =~= seq![]);
    } else {
        let init = parts.drop_last();
        lemma_chat_parts(init);
        assert(parts.map_values(f) =~= init.map_values(f).push(text_in(parts.last())));
        let joined = crate::ai::wire::joined_text(init);
        assert(joined + Seq::<char>::empty() =~= joined);
        let before = crate::ai::wire::calls_json(init);
        let now = crate::ai::wire::calls_json(parts);
        assert forall|k: int| 0 <= k < calls_among(parts).len() implies entry_says(
            #[trigger] now[k],
            calls_among(parts)[k],
        ) by {
            if k < before.len() {
                assert(now[k] == before[k]);
                assert(calls_among(parts)[k] == calls_among(init)[k]);
            }
        }
    }
}

/// What the user says is sent as the user's: the text, or where there are images the
/// text and then each image.
pub proof fn law_chat_user_messages_keep_their_content(
    content: Seq<char>,
    images: Seq<Seq<char>>,
)
    ensures
        ({
            let sent = crate::ai::wire::message_json(
                crate::ai::types::MessageView::User { content, images },
            );
            &&& holds_text(sent, "role"@, "user"@)
            &&& images.len() == 0 ==> holds_text(sent, "content"@, content)
            &&& images.len() > 0 ==> has_blocks(sent) && block_count(sent) == images.len() + 1
                && holds_text(block_of(sent, 0), "text"@, content) && forall|i: int|
                0 <= i < images.len() ==> holds_text(
                    block_of(sent, i + 1).field("image_url"@)->0,
                    "url"@,
                    #[trigger] images[i],
                ) && block_of(sent, i + 1).field("image_url"@) is Some
        }),
{
    lemma_keys_differ();
}

// --------------------------------------------------------------------- requests
/// Whether a tool is sent with its name, its description and its schema, the schema
/// under this key.
pub open spec fn tool_says(
    sent: crate::json::JsonView,
    schema: Seq<char>,
    tool: crate::ai::types::ToolView,
) -> bool {
    &&& holds_text(sent, "name"@, tool.name)
    &&& holds_text(sent, "description"@, tool.description)
    &&& sent.field(schema) == Some(tool.parameters)
}

/// Whether a message is sent, marked for the cache or not.
pub open spec fn is_sent(
    sent: crate::json::JsonView,
    message: crate::ai::types::MessageView,
) -> bool {
    sent == crate::ai::anthropic::message_json(message, true) || sent
        == crate::ai::anthropic::message_json(message, false)
}

/// A request is sent with its model, its system prompt, every message in order, and
/// every tool; the reply is asked for as a stream.
pub proof fn law_requests_are_sent_whole(request: crate::ai::types::RequestView)
    ensures
        ({
            let sent = crate::ai::anthropic::request_json(request);
            let messages = sent.field("messages"@)->0->Array_0;
            let system = sent.field("system"@)->0->Array_0;
            let tools = sent.field("tools"@)->0->Array_0;
            &&& holds_text(sent, "model"@, request.model)
            &&& sent.field("stream"@) == Some(crate::json::JsonView::Bool(true))
            &&& sent.field("messages"@) is Some && messages.len() == request.messages.len()
            &&& forall|i: int|
                0 <= i < messages.len() ==> is_sent(#[trigger] messages[i], request.messages[i])
            &&& request.system.len() > 0 ==> sent.field("system"@) is Some && system.len() == 1
                && holds_text(system[0], "text"@, request.system)
            &&& request.system.len() == 0 ==> sent.field("system"@) is None
            &&& request.tools.len() > 0 ==> sent.field("tools"@) is Some && tools.len()
                == request.tools.len()
            &&& forall|i: int|
                0 <= i < request.tools.len() ==> tool_says(
                    #[trigger] tools[i],
                    "input_schema"@,
                    request.tools[i],
                )
        }),
{
    lemma_keys_differ();
    let sent = crate::ai::anthropic::request_json(request);
    let messages = sent.field("messages"@)->0->Array_0;
    assert(messages == crate::ai::anthropic::messages_json(request.messages));
    if request.tools.len() > 0 {
        let tools = sent.field("tools"@)->0->Array_0;
        assert forall|i: int| 0 <= i < request.tools.len() implies tool_says(
            #[trigger] tools[i],
            "input_schema"@,
            request.tools[i],
        ) by {
            assert(tools[i] == crate::ai::anthropic::tool_json(request.tools[i]));
        }
    }
}

/// A chat request is sent with its model, the system prompt and then every message in
/// order, and every tool; the reply is asked for as a stream.
pub proof fn law_chat_requests_are_sent_whole(request: crate::ai::types::RequestView)
    ensures
        ({
            let sent = crate::ai::wire::request_json(request);
            let messages = sent.field("messages"@)->0->Array_0;
            let tools = sent.field("tools"@)->0->Array_0;
            let first: int = if request.system.len() > 0 {
                1
            } else {
                0
            };
            &&& holds_text(sent, "model"@, request.model)
            &&& sent.field("stream"@) == Some(crate::json::JsonView::Bool(true))
            &&& sent.field("messages"@) is Some && messages.len() == first + request.messages.len()
            &&& first == 1 ==> holds_text(messages[0], "role"@, "system"@) && holds_text(
                messages[0],
                "content"@,
                request.system,
            )
            &&& forall|i: int|
                0 <= i < request.messages.len() ==> messages[first + i]
                    == crate::ai::wire::message_json(#[trigger] request.messages[i])
            &&& request.tools.len() > 0 ==> sent.field("tools"@) is Some && tools.len()
                == request.tools.len()
            &&& forall|i: int|
                0 <= i < request.tools.len() ==> tool_says(
                    (#[trigger] tools[i]).field("function"@)->0,
                    "parameters"@,
                    request.tools[i],
                )
        }),
{
    lemma_keys_differ();
    let sent = crate::ai::wire::request_json(request);
    if request.tools.len() > 0 {
        let tools = sent.field("tools"@)->0->Array_0;
        assert forall|i: int| 0 <= i < request.tools.len() implies tool_says(
            (#[trigger] tools[i]).field("function"@)->0,
            "parameters"@,
            request.tools[i],
        ) by {
            assert(tools[i] == crate::ai::wire::tool_json(request.tools[i]));
        }
    }
}

} // verus!
