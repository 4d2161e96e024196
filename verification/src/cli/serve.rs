//! An agent behind JSON-RPC on the standard input and output.
use crate::agent::session::AgentEvent;
use crate::cli::print::event_to_json;
use crate::json::{self, Json};
use crate::mcp::jsonrpc::{frame, unframe};
use crate::text;
use vstd::prelude::*;

verus! {

/// What comes next.
pub enum Serve {
    /// More input is read.
    Read,
    /// The agent is prompted; its answer goes out under this id.
    Prompt { id: Json, text: String },
    /// This goes out.
    Reply(Vec<u8>),
    /// The end, after this went out.
    Exit(Vec<u8>),
}

/// What a `Serve` stands for.
pub ghost enum ServeView {
    Read,
    Prompt { id: json::JsonView, text: Seq<char> },
    Reply(Seq<u8>),
    Exit(Seq<u8>),
}

impl DeepView for Serve {
    type V = ServeView;

    open spec fn deep_view(&self) -> ServeView {
        match self {
            Serve::Read => ServeView::Read,
            Serve::Prompt { id, text } => ServeView::Prompt { id: id.deep_view(), text: text@ },
            Serve::Reply(bytes) => ServeView::Reply(bytes@),
            Serve::Exit(bytes) => ServeView::Exit(bytes@),
        }
    }
}

/// A response with one field of its own.
pub open spec fn response_with(
    id: json::JsonView,
    key: Seq<char>,
    value: json::JsonView,
) -> json::JsonView {
    crate::ai::wire::jo(
        map!["jsonrpc"@ => crate::ai::wire::js("2.0"@), "id"@ => id, key => value],
    )
}

/// The response to `exit`.
pub open spec fn exit_of(id: json::JsonView) -> json::JsonView {
    response_with(
        id,
        "result"@,
        crate::ai::wire::jo(map!["ok"@ => json::JsonView::Bool(true)]),
    )
}

/// The response to a method that there is not.
pub open spec fn unknown_of(id: json::JsonView, method: Seq<char>) -> json::JsonView {
    response_with(
        id,
        "error"@,
        crate::ai::wire::jo(
            map!["message"@ => crate::ai::wire::js("unknown method `"@ + method + "`"@)],
        ),
    )
}

/// The response to a prompt that ended, with its error if there was one.
pub open spec fn prompted_of(id: json::JsonView, error: Option<Seq<char>>) -> json::JsonView {
    response_with(
        id,
        "result"@,
        crate::ai::wire::jo(
            map![
                "ok"@ => json::JsonView::Bool(error is None),
                "error"@ => match error {
                    Some(e) => crate::ai::wire::js(e),
                    None => json::JsonView::Null,
                },
            ],
        ),
    )
}

/// What a message asks for; a notification gets no response, and only that to exit
/// asks for anything.
pub open spec fn asked_by(message: json::JsonView) -> Option<ServeView> {
    let method = crate::cli::slack::text_or_empty(message, "method"@);
    let id = crate::cli::slack::field_or_null(message, "id"@);
    if id is Null {
        if method == "exit"@ {
            Some(ServeView::Exit(seq![]))
        } else {
            None
        }
    } else if method == "prompt"@ {
        Some(
            ServeView::Prompt {
                id,
                text: crate::cli::slack::text_or_empty(
                    crate::cli::slack::field_or_null(message, "params"@),
                    "text"@,
                ),
            },
        )
    } else if method == "exit"@ {
        Some(ServeView::Exit(crate::mcp::jsonrpc::framed(exit_of(id))))
    } else {
        Some(ServeView::Reply(crate::mcp::jsonrpc::framed(unknown_of(id, method))))
    }
}

/// What the first message in a buffer that asks for something asks for, and what
/// is left of the buffer.
pub open spec fn served(buffer: Seq<u8>) -> (ServeView, Seq<u8>)
    decreases buffer.len(),
{
    match crate::mcp::jsonrpc::unframed(buffer) {
        Some((message, n)) => if 0 < n <= buffer.len() {
            match asked_by(message) {
                Some(next) => (next, buffer.skip(n)),
                None => served(buffer.skip(n)),
            }
        } else {
            (ServeView::Read, buffer)
        },
        None => (ServeView::Read, buffer),
    }
}

fn respond(id: Json, key: &str, value: Json) -> (r: Json)
    ensures
        r.deep_view() == response_with(id.deep_view(), key@, value.deep_view()),
{
    let ghost whole = response_with(id.deep_view(), key@, value.deep_view());
    let r = Json::object().with("jsonrpc", Json::text("2.0")).with("id", id).with(key, value);
    assert(r.deep_view()->Object_0 =~= whole->Object_0);
    r
}

fn get_or_empty(j: Option<&Json>, key: &str) -> (r: String)
    ensures
        r@ == (match j {
            Some(j) => crate::cli::slack::text_or_empty(j.deep_view(), key@),
            None => ""@,
        }),
{
    match j {
        Some(j) => match j.get_str(key) {
            Some(t) => t.to_owned(),
            None => "".to_owned(),
        },
        None => "".to_owned(),
    }
}

fn ask_of(message: &Json) -> (r: Option<Serve>)
    ensures
        r.deep_view() == asked_by(message.deep_view()),
{
    let method = get_or_empty(Some(message), "method");
    let id = match message.get("id") {
        Some(id) => id.clone(),
        None => Json::Null,
    };
    match id {
        Json::Null => {
            return if text::same(&method, "exit") {
                let nothing: Vec<u8> = Vec::new();
                assert(nothing@ =~= seq![]);
                Some(Serve::Exit(nothing))
            } else {
                None
            };
        },
        _ => {},
    }
    assert(!(id.deep_view() is Null));
    if text::same(&method, "prompt") {
        Some(Serve::Prompt { id, text: get_or_empty(message.get("params"), "text") })
    } else if text::same(&method, "exit") {
        let ok = Json::object().with("ok", Json::Bool(true));
        assert(ok.deep_view()->Object_0 =~= map!["ok"@ => json::JsonView::Bool(true)]);
        Some(Serve::Exit(frame(&respond(id, "result", ok))))
    } else {
        let said = text::concat3("unknown method `", &method, "`");
        let error = Json::object().with("message", Json::text(&said));
        assert(error.deep_view()->Object_0 =~= map!["message"@ => crate::ai::wire::js(said@)]);
        Some(Serve::Reply(frame(&respond(id, "error", error))))
    }
}

/// What was read of the input and not used yet.
pub struct Server {
    buffer: Vec<u8>,
}

impl View for Server {
    type V = Seq<u8>;

    closed spec fn view(&self) -> Seq<u8> {
        self.buffer@
    }
}

impl Server {
    /// A server that has read nothing.
    pub fn new() -> (r: Self)
        ensures
            r@ == Seq::<u8>::empty(),
    {
        Server { buffer: Vec::new() }
    }

    /// Takes a piece of the input.
    pub fn feed(&mut self, chunk: &[u8])
        ensures
            final(self)@ == old(self)@ + chunk@,
    {
        let ghost first = self.buffer@;
        let mut i: usize = 0;
        assert(chunk@.take(0) =~= seq![]);
        assert(first + chunk@.take(0) =~= first);
        while i < chunk.len()
            invariant
                i <= chunk@.len(),
                self.buffer@ == first + chunk@.take(i as int),
            decreases chunk.len() - i,
        {
            self.buffer.push(chunk[i]);
            assert(self.buffer@ =~= first + chunk@.take(i + 1));
            i += 1;
        }
        assert(chunk@.take(i as int) =~= chunk@);
    }

    /// What comes next, by the messages that were read.
    pub fn serve_loop(&mut self) -> (r: Serve)
        ensures
            (r.deep_view(), final(self)@) == served(old(self)@),
    {
        let ghost first = self.buffer@;
        loop
            invariant
                first == old(self)@,
                served(first) == served(self.buffer@),
            decreases self.buffer@.len(),
        {
            match unframe(self.buffer.as_slice()) {
                None => {
                    return Serve::Read;
                },
                Some((message, n)) => {
                    let ghost before = self.buffer@;
                    let len = self.buffer.len();
                    let rest = crate::ai::sse::slice_bytes(self.buffer.as_slice(), n, len);
                    assert(rest@ =~= before.skip(n as int));
                    self.buffer = rest;
                    match ask_of(&message) {
                        Some(next) => {
                            return next;
                        },
                        None => {},
                    }
                },
            }
        }
    }
}

/// What goes out when a prompt ended.
pub fn prompt_response(id: Json, error: Option<&str>) -> (r: Vec<u8>)
    ensures
        r@ == crate::mcp::jsonrpc::framed(
            prompted_of(
                id.deep_view(),
                match error {
                    Some(e) => Some(e@),
                    None => None,
                },
            ),
        ),
{
    let shown = match error {
        Some(e) => Json::text(e),
        None => Json::Null,
    };
    let result = Json::object().with("ok", Json::Bool(error.is_none())).with("error", shown);
    assert(result.deep_view()->Object_0 =~= map![
        "ok"@ => json::JsonView::Bool(error is None),
        "error"@ => shown.deep_view(),
    ]);
    frame(&respond(id, "result", result))
}

/// A notification of an event.
pub open spec fn notification_of(
    event: crate::agent::session::EventView,
    message: Seq<char>,
) -> json::JsonView {
    crate::ai::wire::jo(
        map![
            "jsonrpc"@ => crate::ai::wire::js("2.0"@),
            "method"@ => crate::ai::wire::js("event"@),
            "params"@ => crate::cli::print::event_json(event, message),
        ],
    )
}

/// What goes out of an event; `message` is how the message of a `MessageEnd` is
/// written.
pub fn event_notification(event: &AgentEvent, message: &str) -> (r: Vec<u8>)
    ensures
        r@ == crate::mcp::jsonrpc::framed(notification_of(event.deep_view(), message@)),
{
    let j = Json::object().with("jsonrpc", Json::text("2.0")).with(
        "method",
        Json::text("event"),
    ).with("params", event_to_json(event, message));
    assert(j.deep_view()->Object_0 =~= notification_of(
        event.deep_view(),
        message@,
    )->Object_0);
    frame(&j)
}

/// A notification, which has no id, gets no response: but for `exit`, it is as if
/// it had not come.
pub proof fn law_notifications_get_no_response(buffer: Seq<u8>, message: json::JsonView, n: int)
    requires
        crate::mcp::jsonrpc::unframed(buffer) == Some((message, n)),
        0 < n <= buffer.len(),
        crate::cli::slack::field_or_null(message, "id"@) is Null,
        crate::cli::slack::text_or_empty(message, "method"@) != "exit"@,
    ensures
        served(buffer) == served(buffer.skip(n)),
{
}

/// Every request, which has an id, is answered: by the agent where it is a prompt,
/// else at once.
pub proof fn law_requests_are_answered(message: json::JsonView)
    requires
        !(crate::cli::slack::field_or_null(message, "id"@) is Null),
    ensures
        asked_by(message) matches Some(next) && match next {
            ServeView::Read => false,
            ServeView::Prompt { id, .. } => id == crate::cli::slack::field_or_null(
                message,
                "id"@,
            ),
            ServeView::Reply(bytes) => exists|j: json::JsonView|
                bytes == crate::mcp::jsonrpc::framed(j) && j.field("id"@) == message.field("id"@),
            ServeView::Exit(bytes) => exists|j: json::JsonView|
                bytes == crate::mcp::jsonrpc::framed(j) && j.field("id"@) == message.field("id"@),
        },
{
    reveal_strlit("result");
    reveal_strlit("error");
    reveal_strlit("jsonrpc");
    reveal_strlit("id");
    let id = crate::cli::slack::field_or_null(message, "id"@);
    let method = crate::cli::slack::text_or_empty(message, "method"@);
    assert("result"@.len() != "id"@.len() && "error"@.len() != "id"@.len());
    assert(exit_of(id).field("id"@) == Some(id));
    assert(unknown_of(id, method).field("id"@) == Some(id));
}

} // verus!
