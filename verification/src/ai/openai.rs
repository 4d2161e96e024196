//! The chat-completions API of OpenAI, which DeepSeek and others speak too.
use crate::ai::models::{find_model, ModelSpec};
use crate::ai::provider::AiError;
use crate::ai::providers::ProviderPlan;
use crate::ai::sse::{SseParser, ToolCallAccumulator};
use crate::ai::types::{ChatRequest, LlmMessage, StopReason, StreamEvent, Usage};
use crate::indexed;
use crate::json::{self, Json};
use crate::text;
use vstd::prelude::*;

verus! {

// ------------------------------------------------------------------ request
/// The effort that a variant asks for; `max` is the widest that can be sent,
/// and the default asks for none.
pub open spec fn effort_of(variant: Option<Seq<char>>) -> Option<Seq<char>> {
    match variant {
        Some(v) => if v == "low"@ {
            Some("low"@)
        } else if v == "high"@ || v == "max"@ {
            Some("high"@)
        } else {
            None
        },
        None => None,
    }
}

/// The body with the reasoning effort that the variant asks for. Where the
/// model takes none the body stays as it is; the default takes the field out.
pub open spec fn with_effort(
    body: json::JsonView,
    supports_effort: bool,
    variant: Option<Seq<char>>,
) -> json::JsonView {
    if !supports_effort {
        body
    } else {
        match effort_of(variant) {
            Some(effort) => json::JsonView::Object(
                body.object_fields().insert("reasoning_effort"@, json::JsonView::Str(effort)),
            ),
            None => match body {
                json::JsonView::Object(m) => json::JsonView::Object(m.remove("reasoning_effort"@)),
                _ => body,
            },
        }
    }
}

/// Puts the reasoning effort that the variant asks for into the body.
pub fn apply_effort(body: Json, supports_effort: bool, variant: Option<&str>) -> (r: Json)
    requires
        body is Object || body is Null,
    ensures
        r.deep_view() == with_effort(
            body.deep_view(),
            supports_effort,
            match variant {
                Some(v) => Some(v@),
                None => None,
            },
        ),
{
    if !supports_effort {
        return body;
    }
    if let Some(v) = variant {
        if text::same(v, "low") {
            return body.with("reasoning_effort", Json::text("low"));
        } else if text::same(v, "high") || text::same(v, "max") {
            return body.with("reasoning_effort", Json::text("high"));
        }
    }
    body.without("reasoning_effort")
}

/// Whether a message brings an image.
pub open spec fn has_image(message: crate::ai::types::MessageView) -> bool {
    message matches crate::ai::types::MessageView::User { images, .. } && images.len() > 0
}

/// The error of a provider without key.
pub open spec fn missing_key(id: Seq<char>) -> crate::ai::provider::AiErrorView {
    crate::ai::provider::AiErrorView::MissingApiKey { provider: id, env_var: text::uppercased(id) + "_API_KEY"@ }
}

/// The error of a provider without key.
pub fn missing_api_key(id: &str) -> (r: AiError)
    ensures
        r.deep_view() == missing_key(id@),
{
    AiError::MissingApiKey {
        provider: id.to_owned(),
        env_var: text::concat(&text::to_uppercase(id), "_API_KEY"),
    }
}

/// Whether the model of this id takes images; one that is not listed does not.
pub open spec fn takes_images(
    models: Seq<crate::ai::models::ModelView>,
    id: Seq<char>,
) -> bool {
    match crate::ai::models::model_from(models, id, 0) {
        Some(i) => models[i].supports_images,
        None => false,
    }
}

/// Whether a listed model of this id takes a reasoning effort.
pub open spec fn takes_effort(
    models: Seq<crate::ai::models::ModelView>,
    id: Seq<char>,
) -> bool {
    exists|i: int|
        0 <= i < models.len() && (#[trigger] models[i]).id == id && models[i].supports_effort
}

/// The body of a chat request, or the reason why it is not sent: a provider
/// needs a key, and images need a model that takes them.
pub open spec fn chat_body(
    id: Seq<char>,
    has_key: bool,
    models: Seq<crate::ai::models::ModelView>,
    request: crate::ai::types::RequestView,
) -> Result<json::JsonView, crate::ai::provider::AiErrorView> {
    if !has_key {
        Err(missing_key(id))
    } else if !takes_images(models, request.model) && exists|i: int|
        0 <= i < request.messages.len() && has_image(#[trigger] request.messages[i]) {
        Err(
            crate::ai::provider::AiErrorView::Api(
                "model `"@ + request.model
                    + "` does not support image input; use a vision-capable model"@,
            ),
        )
    } else {
        Ok(
            with_effort(
                crate::ai::wire::request_json(request),
                takes_effort(models, request.model),
                request.variant,
            ),
        )
    }
}

fn any_image(messages: &[LlmMessage]) -> (r: bool)
    ensures
        r == exists|i: int|
            0 <= i < messages.deep_view().len() && has_image(#[trigger] messages.deep_view()[i]),
{
    let ghost view = messages.deep_view();
    let mut i: usize = 0;
    while i < messages.len()
        invariant
            i <= messages.len(),
            view == messages.deep_view(),
            forall|k: int| 0 <= k < i ==> !has_image(#[trigger] view[k]),
        decreases messages.len() - i,
    {
        if let LlmMessage::User { images, .. } = &messages[i] {
            if images.len() > 0 {
                assert(has_image(view[i as int]));
                return true;
            }
        }
        assert(!has_image(view[i as int]));
        i += 1;
    }
    false
}

fn any_effort(models: &[ModelSpec], id: &str) -> (r: bool)
    ensures
        r == takes_effort(models.deep_view(), id@),
{
    let ghost view = models.deep_view();
    let mut i: usize = 0;
    while i < models.len()
        invariant
            i <= models.len(),
            view == models.deep_view(),
            forall|k: int| 0 <= k < i ==> !((#[trigger] view[k]).id == id@ && view[k].supports_effort),
        decreases models.len() - i,
    {
        assert(view[i as int] == models@[i as int].deep_view());
        if text::same(&models[i].id, id) && models[i].supports_effort {
            return true;
        }
        i += 1;
    }
    false
}

/// The body of a chat request, or the reason why it is not sent.
pub fn prepare_chat(
    id: &str,
    has_key: bool,
    models: &[ModelSpec],
    request: &ChatRequest,
) -> (r: Result<Json, AiError>)
    ensures
        match r {
            Ok(body) => chat_body(id@, has_key, models.deep_view(), request.deep_view()) matches Ok(b)
                && b == body.deep_view(),
            Err(e) => chat_body(id@, has_key, models.deep_view(), request.deep_view()) matches Err(b)
                && b == e.deep_view(),
        },
{
    if !has_key {
        return Err(missing_api_key(id));
    }
    let supports_images = match find_model(models, &request.model) {
        Some(i) => models[i].supports_images,
        None => false,
    };
    if !supports_images && any_image(&request.messages) {
        return Err(
            AiError::Api(
                text::concat3(
                    "model `",
                    &request.model,
                    "` does not support image input; use a vision-capable model",
                ),
            ),
        );
    }
    let body = crate::ai::wire::build_chat_request_body(request);
    let effort = any_effort(models, &request.model);
    match &request.variant {
        Some(v) => Ok(apply_effort(body, effort, Some(v.as_str()))),
        None => Ok(apply_effort(body, effort, None)),
    }
}

/// A base URL without its trailing slashes, and a path.
pub fn endpoint(base_url: &str, path: &str) -> (r: String)
    ensures
        r@ == text::trim_end_set(base_url@, seq!['/']) + path@,
{
    let slash: [char; 1] = ['/'];
    assert(slash@ =~= seq!['/']);
    text::concat(&text::trim_end_chars(base_url, &slash), path)
}

/// What is said of an answer that is not a success; of its body the first 500
/// characters are told.
pub fn http_error(status: &str, display_name: &str, body: &str) -> (r: String)
    ensures
        r@ == "HTTP "@ + status@ + " from "@ + display_name@ + ": "@
            + crate::ai::anthropic::truncated(body@, 500),
{
    let mut r = text::concat4("HTTP ", status, " from ", display_name);
    r.append(": ");
    r.append(&crate::ai::anthropic::truncate(body, 500));
    r
}

/// The models of DeepSeek.
pub open spec fn deepseek_view() -> Seq<crate::ai::models::ModelView> {
    seq![
        deepseek_model("deepseek-chat"@, "DeepSeek Chat"@, false),
        deepseek_model("deepseek-reasoner"@, "DeepSeek Reasoner"@, true),
        deepseek_model("deepseek-v4-flash"@, "DeepSeek V4 Flash"@, true),
        deepseek_model("deepseek-v4-pro"@, "DeepSeek V4 Pro"@, true),
    ]
}

/// A model of DeepSeek, with a window of a million tokens.
pub open spec fn deepseek_model(
    id: Seq<char>,
    name: Seq<char>,
    reasoning: bool,
) -> crate::ai::models::ModelView {
    crate::ai::models::ModelView {
        name: Some(name),
        reasoning,
        context_window: Some(1_000_000),
        ..crate::ai::models::ModelView::plain(id)
    }
}

/// The models of DeepSeek.
pub fn deepseek_models() -> (r: Vec<ModelSpec>)
    ensures
        r.deep_view() == deepseek_view(),
{
    let mut r: Vec<ModelSpec> = Vec::new();
    assert(r.deep_view() =~= seq![]);
    text::put(
        &mut r,
        ModelSpec::new("deepseek-chat").name("DeepSeek Chat").context_window(1_000_000),
    );
    text::put(
        &mut r,
        ModelSpec::new("deepseek-reasoner").name("DeepSeek Reasoner").reasoning(true).context_window(
            1_000_000,
        ),
    );
    text::put(
        &mut r,
        ModelSpec::new("deepseek-v4-flash").name("DeepSeek V4 Flash").reasoning(true).context_window(
            1_000_000,
        ),
    );
    text::put(
        &mut r,
        ModelSpec::new("deepseek-v4-pro").name("DeepSeek V4 Pro").reasoning(true).context_window(
            1_000_000,
        ),
    );
    assert(r.deep_view() =~= deepseek_view());
    r
}

/// DeepSeek, with this key.
pub fn deepseek(api_key: Option<String>) -> (r: ProviderPlan)
    ensures
        r.id@ == "deepseek"@,
        r.display_name@ == "DeepSeek"@,
        r.base_url@ == "https://api.deepseek.com"@,
        r.api_key == api_key,
        r.models.deep_view() == deepseek_view(),
        !r.anthropic,
{
    ProviderPlan {
        id: "deepseek".to_owned(),
        display_name: "DeepSeek".to_owned(),
        base_url: "https://api.deepseek.com".to_owned(),
        api_key,
        models: deepseek_models(),
        anthropic: false,
    }
}

// ------------------------------------------------------------------- stream
/// One chunk of the stream, as it was read.
pub struct WireChunk {
    pub choices: Vec<WireChoice>,
    pub usage: Option<WireUsage>,
}

/// One choice of a chunk.
pub struct WireChoice {
    pub delta: WireDelta,
    pub finish_reason: Option<String>,
}

/// What a choice adds.
pub struct WireDelta {
    pub content: Option<String>,
    pub reasoning_content: Option<String>,
    pub tool_calls: Vec<WireToolCallDelta>,
}

/// What a choice adds to a tool call.
pub struct WireToolCallDelta {
    pub index: Option<usize>,
    pub id: Option<String>,
    pub function: Option<WireFunctionDelta>,
}

/// What a choice adds to the name and the arguments of a call.
pub struct WireFunctionDelta {
    pub name: Option<String>,
    pub arguments: Option<String>,
}

/// Token counts as they are sent. DeepSeek tells what its cache served in
/// fields of their own, OpenAI in `cached_tokens`.
#[derive(Debug, Clone, Copy, PartialEq, Eq, Structural)]
pub struct WireUsage {
    pub prompt_tokens: u64,
    pub completion_tokens: u64,
    pub prompt_cache_hit_tokens: u64,
    pub prompt_cache_miss_tokens: u64,
    pub total_tokens: u64,
    pub cached_tokens: u64,
}

impl WireUsage {
    /// The counts in the crate's own terms: what the cache served is the larger
    /// of the two counts.
    pub open spec fn spec_usage(self) -> Usage {
        Usage {
            input_tokens: self.prompt_tokens,
            output_tokens: self.completion_tokens,
            cache_read_tokens: if self.prompt_cache_hit_tokens >= self.cached_tokens {
                self.prompt_cache_hit_tokens
            } else {
                self.cached_tokens
            },
            cache_creation_tokens: self.prompt_cache_miss_tokens,
            total_tokens: self.total_tokens,
        }
    }

    /// The counts in the crate's own terms.
    pub fn into_usage(self) -> (r: Usage)
        ensures
            r == self.spec_usage(),
    {
        Usage {
            input_tokens: self.prompt_tokens,
            output_tokens: self.completion_tokens,
            cache_read_tokens: if self.prompt_cache_hit_tokens >= self.cached_tokens {
                self.prompt_cache_hit_tokens
            } else {
                self.cached_tokens
            },
            cache_creation_tokens: self.prompt_cache_miss_tokens,
            total_tokens: self.total_tokens,
        }
    }
}

/// What a `WireFunctionDelta` stands for.
pub ghost struct FunctionView {
    pub name: Option<Seq<char>>,
    pub arguments: Option<Seq<char>>,
}

impl DeepView for WireFunctionDelta {
    type V = FunctionView;

    open spec fn deep_view(&self) -> FunctionView {
        FunctionView { name: self.name.deep_view(), arguments: self.arguments.deep_view() }
    }
}

/// What a `WireToolCallDelta` stands for.
pub ghost struct CallDeltaView {
    pub index: Option<usize>,
    pub id: Option<Seq<char>>,
    pub function: Option<FunctionView>,
}

impl DeepView for WireToolCallDelta {
    type V = CallDeltaView;

    open spec fn deep_view(&self) -> CallDeltaView {
        CallDeltaView {
            index: self.index,
            id: self.id.deep_view(),
            function: self.function.deep_view(),
        }
    }
}

/// What a `WireChoice` stands for.
pub ghost struct ChoiceView {
    pub content: Option<Seq<char>>,
    pub reasoning_content: Option<Seq<char>>,
    pub tool_calls: Seq<CallDeltaView>,
    pub finish_reason: Option<Seq<char>>,
}

impl DeepView for WireChoice {
    type V = ChoiceView;

    open spec fn deep_view(&self) -> ChoiceView {
        ChoiceView {
            content: self.delta.content.deep_view(),
            reasoning_content: self.delta.reasoning_content.deep_view(),
            tool_calls: self.delta.tool_calls.deep_view(),
            finish_reason: self.finish_reason.deep_view(),
        }
    }
}

/// What a `WireChunk` stands for.
pub ghost struct ChunkView {
    pub choices: Seq<ChoiceView>,
    pub usage: Option<WireUsage>,
}

impl DeepView for WireChunk {
    type V = ChunkView;

    open spec fn deep_view(&self) -> ChunkView {
        ChunkView { choices: self.choices.deep_view(), usage: self.usage }
    }
}

/// Why the message finished. A reason that is not known counts as a tool call
/// where there is one.
pub open spec fn stop_reason_of(reason: Seq<char>, has_tool_calls: bool) -> StopReason {
    if reason == "stop"@ {
        StopReason::Stop
    } else if reason == "length"@ {
        StopReason::Length
    } else if reason == "tool_calls"@ || reason == "function_call"@ || has_tool_calls {
        StopReason::ToolUse
    } else {
        StopReason::Stop
    }
}

/// Why the message finished.
pub fn stop_reason_from_wire(reason: &str, has_tool_calls: bool) -> (r: StopReason)
    ensures
        r == stop_reason_of(reason@, has_tool_calls),
{
    if text::same(reason, "stop") {
        StopReason::Stop
    } else if text::same(reason, "length") {
        StopReason::Length
    } else if text::same(reason, "tool_calls") || text::same(reason, "function_call")
        || has_tool_calls {
        StopReason::ToolUse
    } else {
        StopReason::Stop
    }
}

/// The calls with an entry for this index, empty where there was none.
pub open spec fn entered(
    calls: Seq<(usize, crate::ai::sse::CallView)>,
    index: usize,
) -> Seq<(usize, crate::ai::sse::CallView)> {
    let slot = indexed::slot_from(calls, index, 0);
    if slot < calls.len() && calls[slot].0 == index {
        calls
    } else {
        calls.insert(slot, (index, crate::ai::sse::CallView::empty()))
    }
}

/// A call after an addition.
pub open spec fn added_to(
    call: crate::ai::sse::CallView,
    delta: CallDeltaView,
) -> crate::ai::sse::CallView {
    crate::ai::sse::CallView {
        id: match delta.id {
            Some(id) => id,
            None => call.id,
        },
        name: match delta.function {
            Some(f) => match f.name {
                Some(n) => call.name + n,
                None => call.name,
            },
            None => call.name,
        },
        arguments: match delta.function {
            Some(f) => match f.arguments {
                Some(a) => call.arguments + a,
                None => call.arguments,
            },
            None => call.arguments,
        },
    }
}

/// The parser after an addition to a tool call.
pub open spec fn call_added(
    p: crate::ai::sse::ParserView,
    delta: CallDeltaView,
) -> crate::ai::sse::ParserView {
    let index = match delta.index {
        Some(i) => i,
        None => 0,
    };
    let slot = indexed::slot_from(p.state.tool_calls, index, 0);
    let calls = entered(p.state.tool_calls, index);
    let call = added_to(calls[slot].1, delta);
    p.with_state(
        crate::ai::sse::DeltaView { tool_calls: calls.update(slot, (index, call)), ..p.state },
    ).push(
        crate::ai::types::StreamView::ToolCallDelta {
            index,
            id: call.id,
            name: call.name,
            arguments: call.arguments,
        },
    )
}

/// The parser after additions to tool calls.
pub open spec fn calls_added(
    p: crate::ai::sse::ParserView,
    deltas: Seq<CallDeltaView>,
) -> crate::ai::sse::ParserView
    decreases deltas.len(),
{
    if deltas.len() == 0 {
        p
    } else {
        call_added(calls_added(p, deltas.drop_last()), deltas.last())
    }
}

/// The parser after the text of a choice.
pub open spec fn content_applied(
    p: crate::ai::sse::ParserView,
    content: Option<Seq<char>>,
) -> crate::ai::sse::ParserView {
    match content {
        Some(t) => if t.len() > 0 {
            p.with_state(crate::ai::sse::DeltaView { text: p.state.text + t, ..p.state }).push(
                crate::ai::types::StreamView::TextDelta { delta: t },
            )
        } else {
            p
        },
        None => p,
    }
}

/// The parser after the reasoning of a choice.
pub open spec fn reasoning_applied(
    p: crate::ai::sse::ParserView,
    reasoning: Option<Seq<char>>,
) -> crate::ai::sse::ParserView {
    match reasoning {
        Some(t) => if t.len() > 0 {
            p.with_state(
                crate::ai::sse::DeltaView { thinking: p.state.thinking + t, ..p.state },
            ).push(crate::ai::types::StreamView::ThinkingDelta { delta: t })
        } else {
            p
        },
        None => p,
    }
}

/// The parser after the reason why a choice finished.
pub open spec fn finish_applied(
    p: crate::ai::sse::ParserView,
    reason: Option<Seq<char>>,
) -> crate::ai::sse::ParserView {
    match reason {
        Some(r) => p.with_state(
            crate::ai::sse::DeltaView {
                stop_reason: Some(stop_reason_of(r, p.state.tool_calls.len() > 0)),
                ..p.state
            },
        ),
        None => p,
    }
}

/// The parser after a choice.
pub open spec fn choice_applied(
    p: crate::ai::sse::ParserView,
    choice: ChoiceView,
) -> crate::ai::sse::ParserView {
    let said = reasoning_applied(content_applied(p, choice.content), choice.reasoning_content);
    finish_applied(calls_added(said, choice.tool_calls), choice.finish_reason)
}

/// The parser after choices.
pub open spec fn choices_applied(
    p: crate::ai::sse::ParserView,
    choices: Seq<ChoiceView>,
) -> crate::ai::sse::ParserView
    decreases choices.len(),
{
    if choices.len() == 0 {
        p
    } else {
        choice_applied(choices_applied(p, choices.drop_last()), choices.last())
    }
}

/// The parser after a chunk.
pub open spec fn chunk_applied(
    p: crate::ai::sse::ParserView,
    chunk: ChunkView,
) -> crate::ai::sse::ParserView {
    if p.finished {
        p
    } else {
        let p = match chunk.usage {
            Some(u) => p.with_state(
                crate::ai::sse::DeltaView { usage: Some(u.spec_usage()), ..p.state },
            ),
            None => p,
        };
        choices_applied(p.start(), chunk.choices)
    }
}

impl SseParser {
    fn add_to_call(&mut self, delta: &WireToolCallDelta)
        ensures
            final(self).deep_view() == call_added(old(self).deep_view(), delta.deep_view()),
    {
        let index: usize = match delta.index {
            Some(i) => i,
            None => 0,
        };
        let ghost before = self.state.tool_calls.deep_view();
        let slot = indexed::find_slot(&self.state.tool_calls, index);
        let n = self.state.tool_calls.len();
        assert(slot < n ==> before[slot as int].0 == self.state.tool_calls@[slot as int].0);
        if !(slot < n && self.state.tool_calls[slot].0 == index) {
            self.state.tool_calls.insert(
                slot,
                (
                    index,
                    ToolCallAccumulator {
                        id: String::new(),
                        name: String::new(),
                        arguments: String::new(),
                    },
                ),
            );
            assert(crate::ai::sse::CallView { id: seq![], name: seq![], arguments: seq![] }
                == crate::ai::sse::CallView::empty());
            assert(self.state.tool_calls.deep_view() =~= before.insert(
                slot as int,
                (index, crate::ai::sse::CallView::empty()),
            ));
        }
        let ghost calls = self.state.tool_calls.deep_view();
        assert(calls == entered(before, index));
        let call = &self.state.tool_calls[slot].1;
        assert(call.deep_view() == calls[slot as int].1);
        let changed = ToolCallAccumulator {
            id: match &delta.id {
                Some(id) => id.clone(),
                None => call.id.clone(),
            },
            name: match &delta.function {
                Some(f) => match &f.name {
                    Some(n) => text::concat(&call.name, n),
                    None => call.name.clone(),
                },
                None => call.name.clone(),
            },
            arguments: match &delta.function {
                Some(f) => match &f.arguments {
                    Some(a) => text::concat(&call.arguments, a),
                    None => call.arguments.clone(),
                },
                None => call.arguments.clone(),
            },
        };
        let ghost view = changed.deep_view();
        assert(view == added_to(calls[slot as int].1, delta.deep_view()));
        let event = StreamEvent::ToolCallDelta {
            index,
            id: changed.id.clone(),
            name: changed.name.clone(),
            arguments: changed.arguments.clone(),
        };
        self.state.tool_calls.set(slot, (index, changed));
        assert(self.state.tool_calls.deep_view() =~= calls.update(slot as int, (index, view)));
        text::put_back(&mut self.queue, event);
    }

    fn apply_content(&mut self, content: &Option<String>)
        ensures
            final(self).deep_view() == content_applied(old(self).deep_view(), content.deep_view()),
    {
        if let Some(t) = content {
            if text::count(t) > 0 {
                self.state.text.append(t);
                text::put_back(&mut self.queue, StreamEvent::TextDelta { delta: t.clone() });
            }
        }
    }

    fn apply_reasoning(&mut self, reasoning: &Option<String>)
        ensures
            final(self).deep_view() == reasoning_applied(
                old(self).deep_view(),
                reasoning.deep_view(),
            ),
    {
        if let Some(t) = reasoning {
            if text::count(t) > 0 {
                self.state.thinking.append(t);
                text::put_back(&mut self.queue, StreamEvent::ThinkingDelta { delta: t.clone() });
            }
        }
    }

    fn apply_finish(&mut self, reason: &Option<String>)
        ensures
            final(self).deep_view() == finish_applied(old(self).deep_view(), reason.deep_view()),
    {
        if let Some(r) = reason {
            let known = stop_reason_from_wire(r, self.state.tool_calls.len() > 0);
            self.state.stop_reason = Some(known);
        }
    }

    fn apply_choice(&mut self, choice: &WireChoice)
        ensures
            final(self).deep_view() == choice_applied(old(self).deep_view(), choice.deep_view()),
    {
        self.apply_content(&choice.delta.content);
        self.apply_reasoning(&choice.delta.reasoning_content);
        let ghost p = self.deep_view();
        let ghost deltas = choice.delta.tool_calls.deep_view();
        let mut i: usize = 0;
        assert(deltas.take(0) =~= seq![]);
        while i < choice.delta.tool_calls.len()
            invariant
                i <= choice.delta.tool_calls.len(),
                deltas == choice.delta.tool_calls.deep_view(),
                self.deep_view() == calls_added(p, deltas.take(i as int)),
            decreases choice.delta.tool_calls.len() - i,
        {
            assert(deltas.take(i + 1).drop_last() =~= deltas.take(i as int));
            self.add_to_call(&choice.delta.tool_calls[i]);
            i += 1;
        }
        assert(deltas.take(deltas.len() as int) =~= deltas);
        self.apply_finish(&choice.finish_reason);
    }

    /// Takes the chunk that was read from the data of a line, or the message of
    /// the error that came instead. Once the reply has ended, nothing more is taken.
    pub fn handle_chunk(&mut self, data: &str, chunk: Result<WireChunk, String>)
        ensures
            match chunk {
                Ok(c) => final(self).deep_view() == chunk_applied(
                    old(self).deep_view(),
                    c.deep_view(),
                ),
                Err(m) => final(self).deep_view() == crate::ai::anthropic::malformed(
                    old(self).deep_view(),
                    "chunk"@,
                    m@,
                    data@,
                ),
            },
    {
        if self.finished {
            return;
        }
        let chunk = match chunk {
            Ok(c) => c,
            Err(m) => {
                let mut message = text::concat("malformed ", "chunk");
                message.append(": ");
                message.append(&m);
                message.append(": ");
                message.append(data);
                self.fail(&message);
                return;
            },
        };
        if let Some(usage) = chunk.usage {
            self.state.usage = Some(usage.into_usage());
        }
        self.begin();
        let ghost p = self.deep_view();
        let ghost choices = chunk.choices.deep_view();
        let mut i: usize = 0;
        assert(choices.take(0) =~= seq![]);
        while i < chunk.choices.len()
            invariant
                i <= chunk.choices.len(),
                choices == chunk.choices.deep_view(),
                self.deep_view() == choices_applied(p, choices.take(i as int)),
            decreases chunk.choices.len() - i,
        {
            assert(choices.take(i + 1).drop_last() =~= choices.take(i as int));
            self.apply_choice(&chunk.choices[i]);
            i += 1;
        }
        assert(choices.take(choices.len() as int) =~= choices);
    }
}

// --------------------------------------------------------------------- laws
/// Additions keep the calls in the order of their indices, so that the finished
/// message lists them in that order whatever order they came in.
pub proof fn law_calls_stay_sorted(p: crate::ai::sse::ParserView, delta: CallDeltaView)
    requires
        indexed::sorted(p.state.tool_calls),
    ensures
        indexed::sorted(call_added(p, delta).state.tool_calls),
{
    let index = match delta.index {
        Some(i) => i,
        None => 0,
    };
    let calls = p.state.tool_calls;
    indexed::lemma_slot(calls, index, 0);
    let slot = indexed::slot_from(calls, index, 0);
    let after = call_added(p, delta).state.tool_calls;
    if slot < calls.len() && calls[slot].0 == index {
        assert forall|i: int, j: int| 0 <= i < j < after.len() implies (#[trigger] after[i]).0 < (
        #[trigger] after[j]).0 by {
            assert(calls[i].0 < calls[j].0);
        }
    } else {
        assert forall|i: int, j: int| 0 <= i < j < after.len() implies (#[trigger] after[i]).0 < (
        #[trigger] after[j]).0 by {
            let x = if i < slot {
                i
            } else {
                i - 1
            };
            let y = if j < slot {
                j
            } else {
                j - 1
            };
            if i != slot && j != slot {
                assert(calls[x].0 < calls[y].0);
            }
            if i == slot && slot < calls.len() && j > slot + 1 {
                assert(calls[slot].0 < calls[j - 1].0);
            }
        }
    }
}

/// Asking for no effort takes out what asking for one put in.
pub proof fn law_default_effort_undoes(body: json::JsonView, variant: Option<Seq<char>>)
    requires
        body matches json::JsonView::Object(m) && !m.contains_key("reasoning_effort"@),
    ensures
        with_effort(with_effort(body, true, variant), true, None) == body,
{
    let m = body->Object_0;
    match effort_of(variant) {
        Some(effort) => {
            assert(m.insert("reasoning_effort"@, json::JsonView::Str(effort)).remove(
                "reasoning_effort"@,
            ) =~= m);
        },
        None => {
            assert(m.remove("reasoning_effort"@) =~= m);
            assert(m.remove("reasoning_effort"@).remove("reasoning_effort"@) =~= m);
        },
    }
}

} // verus!
