//! What a client asks of a server and makes of the replies.
use crate::ai::sse::slice_bytes;
use crate::json::{self, Json};
use crate::mcp::jsonrpc::{buffer_is_recoverable, parse_response, request, unframe};
use crate::text;
use vstd::prelude::*;

verus! {

/// A tool that a server offers.
pub struct McpToolDef {
    pub name: String,
    pub description: String,
    pub input_schema: Json,
    /// Whether the server says that the tool changes nothing.
    pub read_only: bool,
}

/// What a `McpToolDef` stands for.
pub ghost struct ToolDefView {
    pub name: Seq<char>,
    pub description: Seq<char>,
    pub input_schema: json::JsonView,
    pub read_only: bool,
}

impl DeepView for McpToolDef {
    type V = ToolDefView;

    open spec fn deep_view(&self) -> ToolDefView {
        ToolDefView {
            name: self.name@,
            description: self.description@,
            input_schema: self.input_schema.deep_view(),
            read_only: self.read_only,
        }
    }
}

// ----------------------------------------------------------------- requests
/// The requests of a client: each has an id of its own.
pub struct McpClient {
    next_id: u64,
}

impl View for McpClient {
    type V = u64;

    closed spec fn view(&self) -> u64 {
        self.next_id
    }
}

/// The parameters of the first request.
pub open spec fn initialize_of() -> json::JsonView {
    crate::ai::wire::jo(
        map![
            "protocolVersion"@ => crate::ai::wire::js("2025-06-18"@),
            "capabilities"@ => crate::ai::wire::jo(Map::empty()),
            "clientInfo"@ => crate::ai::wire::jo(
                map![
                    "name"@ => crate::ai::wire::js("agent-m"@),
                    "version"@ => crate::ai::wire::js("0.1.0"@),
                ],
            ),
        ],
    )
}

/// The parameters of the first request.
pub fn initialize_params() -> (r: Json)
    ensures
        r.deep_view() == initialize_of(),
{
    let info = Json::object().with("name", Json::text("agent-m")).with(
        "version",
        Json::text("0.1.0"),
    );
    assert(info.deep_view()->Object_0 =~= map![
        "name"@ => crate::ai::wire::js("agent-m"@),
        "version"@ => crate::ai::wire::js("0.1.0"@),
    ]);
    let r = Json::object().with("protocolVersion", Json::text("2025-06-18")).with(
        "capabilities",
        Json::object(),
    ).with("clientInfo", info);
    assert(r.deep_view()->Object_0 =~= initialize_of()->Object_0);
    r
}

/// The protocol version that a server answered with, else the client's own.
pub open spec fn protocol_of(result: json::JsonView) -> Seq<char> {
    match result.text_field("protocolVersion"@) {
        Some(v) => v,
        None => "2025-06-18"@,
    }
}

/// The protocol version that a server answered with, else the client's own.
pub fn protocol(result: &Json) -> (r: String)
    ensures
        r@ == protocol_of(result.deep_view()),
{
    match result.get_str("protocolVersion") {
        Some(v) => v.to_owned(),
        None => "2025-06-18".to_owned(),
    }
}

/// A message that wants no reply.
pub open spec fn notification_of(method: Seq<char>, params: json::JsonView) -> json::JsonView {
    crate::ai::wire::jo(
        map![
            "jsonrpc"@ => crate::ai::wire::js("2.0"@),
            "method"@ => crate::ai::wire::js(method),
            "params"@ => params,
        ],
    )
}

/// Builds a message that wants no reply.
pub fn notification(method: &str, params: Json) -> (r: Json)
    ensures
        r.deep_view() == notification_of(method@, params.deep_view()),
{
    let ghost p = params.deep_view();
    let r = Json::object().with("jsonrpc", Json::text("2.0")).with(
        "method",
        Json::text(method),
    ).with("params", params);
    assert(r.deep_view()->Object_0 =~= notification_of(method@, p)->Object_0);
    r
}

/// The parameters of a tool call.
pub open spec fn call_of(name: Seq<char>, arguments: json::JsonView) -> json::JsonView {
    crate::ai::wire::jo(
        map!["name"@ => crate::ai::wire::js(name), "arguments"@ => arguments],
    )
}

/// The parameters of a tool call.
pub fn call_params(name: &str, arguments: Json) -> (r: Json)
    ensures
        r.deep_view() == call_of(name@, arguments.deep_view()),
{
    let ghost a = arguments.deep_view();
    let r = Json::object().with("name", Json::text(name)).with("arguments", arguments);
    assert(r.deep_view()->Object_0 =~= call_of(name@, a)->Object_0);
    r
}

// ------------------------------------------------------------------ results
/// The tool that an entry of a tool list describes; an entry without a name
/// describes none.
pub open spec fn tool_of(entry: json::JsonView) -> Option<ToolDefView> {
    match entry.text_field("name"@) {
        None => None,
        Some(name) => Some(
            ToolDefView {
                name,
                description: match entry.text_field("description"@) {
                    Some(d) => d,
                    None => ""@,
                },
                input_schema: match entry.field("inputSchema"@) {
                    Some(schema) => schema,
                    None => crate::ai::wire::jo(map!["type"@ => crate::ai::wire::js("object"@)]),
                },
                read_only: match entry.field("annotations"@) {
                    Some(a) => match a.field("readOnlyHint"@) {
                        Some(hint) => hint.bool() == Some(true),
                        None => false,
                    },
                    None => false,
                },
            },
        ),
    }
}

/// The tools that the entries describe.
pub open spec fn tools_of(entries: Seq<json::JsonView>) -> Seq<ToolDefView>
    decreases entries.len(),
{
    if entries.len() == 0 {
        seq![]
    } else {
        match tool_of(entries.last()) {
            Some(tool) => tools_of(entries.drop_last()).push(tool),
            None => tools_of(entries.drop_last()),
        }
    }
}

/// The tools in the result of a list request.
pub open spec fn listed(result: json::JsonView) -> Seq<ToolDefView> {
    match result.field("tools"@) {
        Some(json::JsonView::Array(entries)) => tools_of(entries),
        _ => seq![],
    }
}

fn read_tool(entry: &Json) -> (r: Option<McpToolDef>)
    ensures
        r.deep_view() == tool_of(entry.deep_view()),
{
    let name = match entry.get_str("name") {
        Some(name) => name.to_owned(),
        None => {
            return None;
        },
    };
    let description = match entry.get_str("description") {
        Some(d) => d.to_owned(),
        None => "".to_owned(),
    };
    let input_schema = match entry.get("inputSchema") {
        Some(schema) => schema.clone(),
        None => {
            let plain = Json::object().with("type", Json::text("object"));
            assert(plain.deep_view()->Object_0 =~= map!["type"@ => crate::ai::wire::js("object"@)]);
            plain
        },
    };
    let hint = match entry.get("annotations") {
        Some(a) => match a.get("readOnlyHint") {
            Some(hint) => hint.as_bool(),
            None => None,
        },
        None => None,
    };
    let read_only = match hint {
        Some(b) => b,
        None => false,
    };
    Some(McpToolDef { name, description, input_schema, read_only })
}

/// The text of a content block, where it is one of text.
pub open spec fn block_text(block: json::JsonView) -> Option<Seq<char>> {
    if block.text_field("type"@) == Some("text"@) {
        block.text_field("text"@)
    } else {
        None
    }
}

/// The texts of content blocks.
pub open spec fn block_texts(blocks: Seq<json::JsonView>) -> Seq<Seq<char>>
    decreases blocks.len(),
{
    if blocks.len() == 0 {
        seq![]
    } else {
        match block_text(blocks.last()) {
            Some(t) => block_texts(blocks.drop_last()).push(t),
            None => block_texts(blocks.drop_last()),
        }
    }
}

/// The text of a tool result, a line to each block.
pub open spec fn result_text(result: json::JsonView) -> Seq<char> {
    match result.field("content"@) {
        Some(json::JsonView::Array(blocks)) => text::spec_join(block_texts(blocks), "\n"@),
        _ => ""@,
    }
}

fn extract_text(result: &Json) -> (r: String)
    ensures
        r@ == result_text(result.deep_view()),
{
    let blocks = match result.get("content") {
        Some(content) => match content.as_array() {
            Some(blocks) => blocks,
            None => {
                return "".to_owned();
            },
        },
        None => {
            return "".to_owned();
        },
    };
    let ghost view = blocks.deep_view();
    let mut texts: Vec<String> = Vec::new();
    let mut i: usize = 0;
    assert(view.take(0) =~= seq![]);
    assert(texts.deep_view() =~= seq![]);
    while i < blocks.len()
        invariant
            i <= blocks.len(),
            view == blocks.deep_view(),
            texts.deep_view() == block_texts(view.take(i as int)),
        decreases blocks.len() - i,
    {
        assert(view.take(i + 1).drop_last() =~= view.take(i as int));
        assert(view[i as int] == blocks@[i as int].deep_view());
        if let Some(kind) = blocks[i].get_str("type") {
            if text::same(kind, "text") {
                if let Some(t) = blocks[i].get_str("text") {
                    text::put(&mut texts, t.to_owned());
                }
            }
        }
        i += 1;
    }
    assert(view.take(view.len() as int) =~= view);
    text::join(texts.as_slice(), "\n")
}

/// What a tool call gave: its text, or the text as an error where the server
/// says that it is one.
pub open spec fn call_result(name: Seq<char>, result: json::JsonView) -> Result<
    Seq<char>,
    Seq<char>,
> {
    let failed = match result.field("isError"@) {
        Some(flag) => flag.bool() == Some(true),
        None => false,
    };
    if failed {
        Err("MCP tool "@ + name + " errored: "@ + result_text(result))
    } else {
        Ok(result_text(result))
    }
}

impl McpClient {
    /// A client that has asked for nothing.
    pub fn new() -> (r: Self)
        ensures
            r@ == 1,
    {
        McpClient { next_id: 1 }
    }

    /// The next request, with its id.
    pub fn request(&mut self, method: &str, params: Json) -> (r: (u64, Json))
        requires
            old(self)@ < u64::MAX,
        ensures
            final(self)@ == old(self)@ + 1,
            r.0 == old(self)@,
            r.1.deep_view() == crate::mcp::jsonrpc::request_of(
                method@,
                params.deep_view(),
                old(self)@,
            ),
    {
        let id = self.next_id;
        self.next_id = self.next_id + 1;
        (id, request(method, params, id))
    }

    /// The tools in the result of a `tools/list` request.
    pub fn list_tools(result: &Json) -> (out: Vec<McpToolDef>)
        ensures
            out.deep_view() == listed(result.deep_view()),
    {
        let mut out: Vec<McpToolDef> = Vec::new();
        assert(out.deep_view() =~= seq![]);
        let entries = match result.get("tools") {
            Some(tools) => match tools.as_array() {
                Some(entries) => entries,
                None => {
                    return out;
                },
            },
            None => {
                return out;
            },
        };
        let ghost view = entries.deep_view();
        let mut i: usize = 0;
        assert(view.take(0) =~= seq![]);
        while i < entries.len()
            invariant
                i <= entries.len(),
                view == entries.deep_view(),
                out.deep_view() == tools_of(view.take(i as int)),
            decreases entries.len() - i,
        {
            assert(view.take(i + 1).drop_last() =~= view.take(i as int));
            assert(view[i as int] == entries@[i as int].deep_view());
            if let Some(tool) = read_tool(&entries[i]) {
                text::put(&mut out, tool);
            }
            i += 1;
        }
        assert(view.take(view.len() as int) =~= view);
        out
    }

    /// What a `tools/call` request for the tool `name` gave.
    pub fn call_tool(name: &str, result: &Json) -> (r: Result<String, String>)
        ensures
            crate::flow::executor::result_view(r) == call_result(name@, result.deep_view()),
    {
        let flag = match result.get("isError") {
            Some(flag) => flag.as_bool(),
            None => None,
        };
        let t = extract_text(result);
        match flag {
            Some(true) => Err(text::concat4("MCP tool ", name, " errored: ", &t)),
            _ => Ok(t),
        }
    }
}

/// No two requests of a client have one id, and ids are counted up.
pub proof fn law_request_ids_differ(first: u64, later: u64)
    requires
        first < later,
    ensures
        forall|m: Seq<char>, n: Seq<char>, p: json::JsonView, q: json::JsonView|
            crate::mcp::jsonrpc::request_of(m, p, first).field("id"@)
                != crate::mcp::jsonrpc::request_of(n, q, later).field("id"@),
{
    reveal_strlit("id");
    reveal_strlit("jsonrpc");
    reveal_strlit("method");
    reveal_strlit("params");
    assert("id"@.len() != "method"@.len());
    assert("id"@.len() != "params"@.len());
    assert forall|m: Seq<char>, n: Seq<char>, p: json::JsonView, q: json::JsonView|
        crate::mcp::jsonrpc::request_of(m, p, first).field("id"@)
            != crate::mcp::jsonrpc::request_of(n, q, later).field("id"@) by {
        assert(crate::mcp::jsonrpc::request_of(m, p, first).field("id"@) == Some(
            json::JsonView::Number(json::NumberView::Unsigned(first)),
        ));
        assert(crate::mcp::jsonrpc::request_of(n, q, later).field("id"@) == Some(
            json::JsonView::Number(json::NumberView::Unsigned(later)),
        ));
    }
}

// ----------------------------------------------------- replies on a byte stream
/// A reply, by the id of its request.
pub struct Response {
    pub id: u64,
    pub result: Result<Json, String>,
}

/// What a `Response` stands for.
pub ghost struct ResponseView {
    pub id: u64,
    pub result: Result<json::JsonView, Seq<char>>,
}

impl DeepView for Response {
    type V = ResponseView;

    open spec fn deep_view(&self) -> ResponseView {
        ResponseView { id: self.id, result: crate::mcp::jsonrpc::outcome_view(self.result) }
    }
}

/// What a server has sent and has not been read.
pub struct StdioReader {
    buf: Vec<u8>,
    broken: bool,
}

/// What a `StdioReader` stands for.
pub ghost struct ReaderView {
    pub buf: Seq<u8>,
    pub broken: bool,
}

impl View for StdioReader {
    type V = ReaderView;

    closed spec fn view(&self) -> ReaderView {
        ReaderView { buf: self.buf@, broken: self.broken }
    }
}

/// The reply that a message is; a message without an id is none.
pub open spec fn response_in(message: json::JsonView) -> Seq<ResponseView> {
    match message.field("id"@) {
        Some(json::JsonView::Number(json::NumberView::Unsigned(id))) => seq![
            ResponseView { id, result: crate::mcp::jsonrpc::response_of(message) },
        ],
        _ => seq![],
    }
}

/// The replies in a buffer.
pub open spec fn responses_in(buf: Seq<u8>) -> Seq<ResponseView>
    decreases buf.len(),
{
    match crate::mcp::jsonrpc::unframed(buf) {
        Some((message, n)) => if 0 < n <= buf.len() {
            response_in(message) + responses_in(buf.skip(n))
        } else {
            seq![]
        },
        None => seq![],
    }
}

/// What the messages leave of a buffer.
pub open spec fn left_in(buf: Seq<u8>) -> Seq<u8>
    decreases buf.len(),
{
    match crate::mcp::jsonrpc::unframed(buf) {
        Some((message, n)) => if 0 < n <= buf.len() {
            left_in(buf.skip(n))
        } else {
            buf
        },
        None => buf,
    }
}

impl StdioReader {
    /// A reader of a server that has sent nothing.
    pub fn new() -> (r: Self)
        ensures
            r@ == (ReaderView { buf: seq![], broken: false }),
    {
        StdioReader { buf: Vec::new(), broken: false }
    }

    /// Whether the server sent too much that is not a message.
    pub fn is_broken(&self) -> (r: bool)
        ensures
            r == self@.broken,
    {
        self.broken
    }

    /// Takes what the server sent, and gives the replies in it.
    pub fn feed(&mut self, chunk: &[u8]) -> (out: Vec<Response>)
        ensures
            ({
                let all = old(self)@.buf + chunk@;
                if old(self)@.broken {
                    final(self)@ == old(self)@ && out@.len() == 0
                } else if all.len() > crate::mcp::jsonrpc::MAX_FRAME_BYTES {
                    final(self)@ == (ReaderView { buf: all, broken: true }) && out@.len() == 0
                } else {
                    &&& final(self)@ == (ReaderView { buf: left_in(all), broken: false })
                    &&& out.deep_view() == responses_in(all)
                }
            }),
    {
        let mut out: Vec<Response> = Vec::new();
        if self.broken {
            return out;
        }
        let ghost all = self.buf@ + chunk@;
        let mut i: usize = 0;
        assert(chunk@.take(0) =~= seq![]);
        let ghost first = self.buf@;
        while i < chunk.len()
            invariant
                i <= chunk@.len(),
                self.buf@ == first + chunk@.take(i as int),
                !self.broken,
            decreases chunk.len() - i,
        {
            self.buf.push(chunk[i]);
            assert(chunk@.take(i + 1) =~= chunk@.take(i as int).push(chunk@[i as int]));
            i += 1;
        }
        assert(chunk@.take(chunk@.len() as int) =~= chunk@);
        if !buffer_is_recoverable(&self.buf) {
            self.broken = true;
            return out;
        }
        assert(out.deep_view() + responses_in(self.buf@) =~= responses_in(all));
        loop
            invariant
                !self.broken,
                out.deep_view() + responses_in(self.buf@) == responses_in(all),
                left_in(self.buf@) == left_in(all),
            ensures
                !self.broken,
                out.deep_view() == responses_in(all),
                self.buf@ == left_in(all),
            decreases self.buf@.len(),
        {
            let (message, consumed) = match unframe(&self.buf) {
                Some(found) => found,
                None => {
                    assert(out.deep_view() + responses_in(self.buf@) =~= out.deep_view());
                    break;
                },
            };
            let rest = slice_bytes(&self.buf, consumed, self.buf.len());
            assert(rest@ =~= self.buf@.skip(consumed as int));
            let ghost before = out.deep_view();
            let id = match message.get("id") {
                Some(id) => id.as_u64(),
                None => None,
            };
            if let Some(id) = id {
                text::put(&mut out, Response { id, result: parse_response(&message) });
            }
            assert(out.deep_view() =~= before + response_in(message.deep_view()));
            assert(before + (response_in(message.deep_view()) + responses_in(rest@))
                =~= out.deep_view() + responses_in(rest@));
            self.buf = rest;
        }
        out
    }
}

/// The first reply from `from` on to the request `id`.
pub open spec fn reply_from(
    responses: Seq<ResponseView>,
    id: u64,
    from: int,
) -> Option<Result<json::JsonView, Seq<char>>>
    decreases responses.len() - from,
{
    if from < 0 || from >= responses.len() {
        None
    } else if responses[from].id == id {
        Some(responses[from].result)
    } else {
        reply_from(responses, id, from + 1)
    }
}

/// What the reply to the request `id` is, if there is one yet.
pub open spec fn maybe_outcome(r: Option<Result<Json, String>>) -> Option<
    Result<json::JsonView, Seq<char>>,
> {
    match r {
        Some(r) => Some(crate::mcp::jsonrpc::outcome_view(r)),
        None => None,
    }
}

/// The reply to the request `id` among the replies, which are passed over up to
/// it; `None` where it is not among them.
pub fn find_response(responses: Vec<Response>, id: u64) -> (r: Option<Result<Json, String>>)
    ensures
        maybe_outcome(r) == reply_from(responses.deep_view(), id, 0),
{
    let ghost view = responses.deep_view();
    let ghost all = responses@;
    for response in it: responses
        invariant
            it.seq() == all,
            view == responses.deep_view(),
            view.len() == all.len(),
            forall|k: int| 0 <= k < all.len() ==> #[trigger] view[k] == all[k].deep_view(),
            reply_from(view, id, 0) == reply_from(view, id, it.index() as int),
    {
        assert(view[it.index() as int] == response.deep_view());
        if response.id == id {
            return Some(response.result);
        }
    }
    None
}

// ---------------------------------------------------------- replies over HTTP
/// What has been read of an event stream: the data lines of the event that is
/// under way, and the last document with an id.
pub ghost struct StreamView {
    pub data: Seq<Seq<char>>,
    pub last: Option<json::JsonView>,
}

/// The stream once the event that is under way is through.
pub open spec fn flushed(s: StreamView) -> StreamView {
    if s.data.len() == 0 {
        s
    } else {
        StreamView {
            data: seq![],
            last: match json::parsed_json(text::spec_join(s.data, ""@)) {
                Ok(j) => if j.field("id"@) is Some {
                    Some(j)
                } else {
                    s.last
                },
                Err(_) => s.last,
            },
        }
    }
}

/// The stream after these lines.
pub open spec fn streamed(lines: Seq<Seq<char>>) -> StreamView
    decreases lines.len(),
{
    if lines.len() == 0 {
        StreamView { data: seq![], last: None }
    } else {
        let before = streamed(lines.drop_last());
        match text::without_prefix(lines.last(), "data:"@) {
            Some(data) => StreamView { data: before.data.push(text::spec_trim(data)), ..before },
            None => flushed(before),
        }
    }
}

/// The document that an event stream carries: the last with an id.
pub open spec fn stream_json(bytes: Seq<u8>) -> Option<json::JsonView> {
    if vstd::utf8::valid_utf8(bytes) {
        flushed(streamed(text::spec_lines(vstd::utf8::decode_utf8(bytes)))).last
    } else {
        None
    }
}

fn flush_sse(data_lines: &mut Vec<String>, last_with_id: &mut Option<Json>)
    ensures
        ({
            let s = flushed(
                StreamView {
                    data: old(data_lines).deep_view(),
                    last: old(last_with_id).deep_view(),
                },
            );
            &&& final(data_lines).deep_view() == s.data
            &&& final(last_with_id).deep_view() == s.last
        }),
{
    if data_lines.len() == 0 {
        return;
    }
    let joined = text::join(data_lines.as_slice(), "");
    *data_lines = Vec::new();
    assert(data_lines.deep_view() =~= seq![]);
    if let Ok(value) = json::parse(&joined) {
        if value.get("id").is_some() {
            *last_with_id = Some(value);
        }
    }
}

/// Reads an event stream: the data lines of an event are joined, and the last
/// document that carries an id counts.
pub fn parse_sse(bytes: &[u8]) -> (r: Option<Json>)
    ensures
        r.deep_view() == stream_json(bytes@),
{
    let decoded = text::decode_utf8(bytes)?;
    let lines = text::lines(&decoded);
    let ghost view = lines.deep_view();
    let mut data: Vec<String> = Vec::new();
    let mut last: Option<Json> = None;
    let mut i: usize = 0;
    assert(view.take(0) =~= seq![]);
    assert(data.deep_view() =~= seq![]);
    while i < lines.len()
        invariant
            i <= lines.len(),
            view == lines.deep_view(),
            data.deep_view() == streamed(view.take(i as int)).data,
            last.deep_view() == streamed(view.take(i as int)).last,
        decreases lines.len() - i,
    {
        assert(view.take(i + 1).drop_last() =~= view.take(i as int));
        assert(view[i as int] == lines@[i as int]@);
        match text::strip_prefix(&lines[i], "data:") {
            Some(rest) => {
                text::put(&mut data, text::trim(&rest));
            },
            None => {
                flush_sse(&mut data, &mut last);
            },
        }
        i += 1;
    }
    assert(view.take(view.len() as int) =~= view);
    flush_sse(&mut data, &mut last);
    last
}

/// The document in the body of a reply, null where there is none.
pub open spec fn body_json(content_type: Seq<char>, bytes: Seq<u8>) -> json::JsonView {
    let found = if text::has(content_type, "text/event-stream"@) {
        stream_json(bytes)
    } else if !vstd::utf8::valid_utf8(bytes) {
        None
    } else {
        match json::parsed_json(vstd::utf8::decode_utf8(bytes)) {
            Ok(j) => Some(j),
            Err(_) => None,
        }
    };
    match found {
        Some(j) => j,
        None => json::JsonView::Null,
    }
}

/// What the reply to a request is, given its content type and its body.
pub open spec fn http_outcome(content_type: Seq<char>, bytes: Seq<u8>) -> Result<
    json::JsonView,
    Seq<char>,
> {
    let body = body_json(content_type, bytes);
    if body is Null {
        Err("MCP HTTP returned an unparseable response"@)
    } else {
        crate::mcp::jsonrpc::response_of(body)
    }
}

/// Reads the reply to a request from its content type and its body.
pub fn http_response(content_type: &str, bytes: &[u8]) -> (r: Result<Json, String>)
    ensures
        crate::mcp::jsonrpc::outcome_view(r) == http_outcome(content_type@, bytes@),
{
    let body = if text::contains(content_type, "text/event-stream") {
        parse_sse(bytes)
    } else {
        match text::decode_utf8(bytes) {
            Some(s) => match json::parse(&s) {
                Ok(j) => Some(j),
                Err(_) => None,
            },
            None => None,
        }
    };
    match body {
        None => Err("MCP HTTP returned an unparseable response".to_owned()),
        Some(Json::Null) => Err("MCP HTTP returned an unparseable response".to_owned()),
        Some(j) => parse_response(&j),
    }
}

} // verus!
