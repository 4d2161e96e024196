//! Reading a reply from a stream of server-sent events.
//!
//! A parser is fed the bytes of the stream and hands out events. The data of a
//! line is handed out as text first; the provider's module takes what was read
//! from it and changes the parser accordingly.
use crate::ai::trust;
use crate::ai::types::{AssistantMessage, ContentPart, StopReason, StreamEvent, Usage};
use crate::json::{self, Json};
use crate::text;
use std::collections::VecDeque;
use vstd::prelude::*;

verus! {

/// What `String::from_utf8_lossy` of std makes of bytes.
pub uninterp spec fn lossy_text(bytes: Seq<u8>) -> Seq<char>;

/// `String::from_utf8_lossy` of std, as an owned string. The result is named
/// `lossy_text`; bytes that are valid UTF-8 are decoded.
#[verifier::external_body]
pub(crate) fn decode_lossy(bytes: &[u8]) -> (r: String)
    ensures
        r@ == lossy_text(bytes@),
        vstd::utf8::valid_utf8(bytes@) ==> r@ == vstd::utf8::decode_utf8(bytes@),
{
    String::from_utf8_lossy(bytes).into_owned()
}

/// What has been received of one tool call.
pub struct ToolCallAccumulator {
    pub id: String,
    pub name: String,
    pub arguments: String,
}

/// What has been received of a reply.
pub struct DeltaState {
    pub started: bool,
    pub text: String,
    pub thinking: String,
    /// The tool calls with their indices.
    pub tool_calls: Vec<(usize, ToolCallAccumulator)>,
    pub stop_reason: Option<StopReason>,
    pub usage: Option<Usage>,
}

/// A reader of a stream.
pub struct SseParser {
    /// The bytes that have not been read yet.
    pub buffer: Vec<u8>,
    pub model: String,
    pub state: DeltaState,
    /// The events that have not been handed out yet.
    pub queue: VecDeque<StreamEvent>,
    pub finished: bool,
    /// The lines in the buffer are being read.
    pub draining: bool,
    /// The stream has ended, and its last line has been taken.
    pub ending: bool,
}

/// What comes next from a parser.
pub enum Next {
    /// An event of the reply.
    Event(StreamEvent),
    /// The data of a line, which is to be read and handed back.
    Parse(String),
    /// More bytes are needed.
    Read,
    /// The reply is over.
    End,
}

/// What a line of the stream holds.
pub enum Line {
    /// Nothing of interest.
    Skip,
    /// The end of the reply.
    Done,
    /// Data.
    Data(String),
}

// -------------------------------------------------------------------- views
/// What a `ToolCallAccumulator` stands for.
pub ghost struct CallView {
    pub id: Seq<char>,
    pub name: Seq<char>,
    pub arguments: Seq<char>,
}

impl DeepView for ToolCallAccumulator {
    type V = CallView;

    open spec fn deep_view(&self) -> CallView {
        CallView { id: self.id@, name: self.name@, arguments: self.arguments@ }
    }
}

impl CallView {
    /// Nothing received yet.
    pub open spec fn empty() -> CallView {
        CallView { id: seq![], name: seq![], arguments: seq![] }
    }
}

/// What a `DeltaState` stands for.
pub ghost struct DeltaView {
    pub started: bool,
    pub text: Seq<char>,
    pub thinking: Seq<char>,
    pub tool_calls: Seq<(usize, CallView)>,
    pub stop_reason: Option<StopReason>,
    pub usage: Option<Usage>,
}

impl DeepView for DeltaState {
    type V = DeltaView;

    open spec fn deep_view(&self) -> DeltaView {
        DeltaView {
            started: self.started,
            text: self.text@,
            thinking: self.thinking@,
            tool_calls: self.tool_calls.deep_view(),
            stop_reason: self.stop_reason,
            usage: self.usage,
        }
    }
}

/// What an `SseParser` stands for.
pub ghost struct ParserView {
    pub buffer: Seq<u8>,
    pub model: Seq<char>,
    pub state: DeltaView,
    pub queue: Seq<crate::ai::types::StreamView>,
    pub finished: bool,
    pub draining: bool,
    pub ending: bool,
}

impl DeepView for SseParser {
    type V = ParserView;

    open spec fn deep_view(&self) -> ParserView {
        ParserView {
            buffer: self.buffer@,
            model: self.model@,
            state: self.state.deep_view(),
            queue: self.queue.deep_view(),
            finished: self.finished,
            draining: self.draining,
            ending: self.ending,
        }
    }
}

impl DeltaView {
    /// Nothing received yet.
    pub open spec fn fresh() -> DeltaView {
        DeltaView {
            started: false,
            text: seq![],
            thinking: seq![],
            tool_calls: seq![],
            stop_reason: None,
            usage: None,
        }
    }
}

impl ParserView {
    /// A parser at the beginning of a stream.
    pub open spec fn fresh(model: Seq<char>) -> ParserView {
        ParserView {
            buffer: seq![],
            model,
            state: DeltaView::fresh(),
            queue: seq![],
            finished: false,
            draining: false,
            ending: false,
        }
    }

    /// This parser with one more event.
    pub open spec fn push(self, event: crate::ai::types::StreamView) -> ParserView {
        ParserView { queue: self.queue.push(event), ..self }
    }

    /// This parser with another state.
    pub open spec fn with_state(self, state: DeltaView) -> ParserView {
        ParserView { state, ..self }
    }

    /// This parser, finished.
    pub open spec fn finish(self) -> ParserView {
        ParserView { finished: true, ..self }
    }

    /// This parser, having told that the reply begins.
    pub open spec fn start(self) -> ParserView {
        if self.state.started {
            self
        } else {
            self.with_state(DeltaView { started: true, ..self.state }).push(
                crate::ai::types::StreamView::Start,
            )
        }
    }
}

/// What a `Line` stands for.
pub ghost enum LineView {
    Skip,
    Done,
    Data(Seq<char>),
}

impl DeepView for Line {
    type V = LineView;

    open spec fn deep_view(&self) -> LineView {
        match self {
            Line::Skip => LineView::Skip,
            Line::Done => LineView::Done,
            Line::Data(d) => LineView::Data(d@),
        }
    }
}

/// What a `Next` stands for.
pub ghost enum NextView {
    Event(crate::ai::types::StreamView),
    Parse(Seq<char>),
    Read,
    End,
}

impl DeepView for Next {
    type V = NextView;

    open spec fn deep_view(&self) -> NextView {
        match self {
            Next::Event(e) => NextView::Event(e.deep_view()),
            Next::Parse(d) => NextView::Parse(d@),
            Next::Read => NextView::Read,
            Next::End => NextView::End,
        }
    }
}

// -------------------------------------------------------------------- lines
/// What a line holds: data follows `data:`, and `[DONE]` ends the reply.
pub open spec fn line_of(bytes: Seq<u8>) -> LineView {
    match text::without_prefix(text::spec_trim(lossy_text(bytes)), "data:"@) {
        None => LineView::Skip,
        Some(rest) => if text::spec_trim(rest) == "[DONE]"@ {
            LineView::Done
        } else {
            LineView::Data(text::spec_trim(rest))
        },
    }
}

/// Reads a line, without its line feed.
pub fn read_line(bytes: &[u8]) -> (r: Line)
    ensures
        r.deep_view() == line_of(bytes@),
{
    let line = text::trim(&decode_lossy(bytes));
    match text::strip_prefix(&line, "data:") {
        None => Line::Skip,
        Some(rest) => {
            let data = text::trim(&rest);
            if text::same(&data, "[DONE]") {
                Line::Done
            } else {
                Line::Data(data)
            }
        },
    }
}

/// The position of the first line feed, from `from` on.
pub open spec fn newline_from(bytes: Seq<u8>, from: int) -> Option<int>
    decreases bytes.len() - from,
{
    if from < 0 || from >= bytes.len() {
        None
    } else if bytes[from] == 10u8 {
        Some(from)
    } else {
        newline_from(bytes, from + 1)
    }
}

/// The position of the first line feed.
pub fn find_newline(bytes: &[u8]) -> (r: Option<usize>)
    ensures
        text::at(r) == newline_from(bytes@, 0),
        r matches Some(i) ==> i < bytes@.len() && i < usize::MAX,
{
    let mut i: usize = 0;
    while i < bytes.len()
        invariant
            i <= bytes.len(),
            newline_from(bytes@, 0) == newline_from(bytes@, i as int),
        decreases bytes.len() - i,
    {
        if bytes[i] == 10 {
            return Some(i);
        }
        i += 1;
    }
    None
}

/// The bytes from `from` up to, not including, `to`.
pub fn slice_bytes(bytes: &[u8], from: usize, to: usize) -> (r: Vec<u8>)
    requires
        from <= to <= bytes@.len(),
    ensures
        r@ == bytes@.subrange(from as int, to as int),
{
    let mut r: Vec<u8> = Vec::new();
    let mut i: usize = from;
    while i < to
        invariant
            from <= i <= to <= bytes@.len(),
            r@ == bytes@.subrange(from as int, i as int),
        decreases to - i,
    {
        r.push(bytes[i]);
        i += 1;
    }
    r
}

// ----------------------------------------------------------- end of a reply
/// The arguments of a call: the document that the text writes, or the text
/// itself where it writes none.
pub open spec fn call_arguments(arguments: Seq<char>) -> json::JsonView {
    match json::parsed_json(arguments) {
        Ok(j) => j,
        Err(_) => json::JsonView::Str(arguments),
    }
}

/// A received call as a part of the message.
pub open spec fn call_part(call: CallView) -> crate::ai::types::ContentView {
    crate::ai::types::ContentView::ToolCall {
        id: call.id,
        name: call.name,
        arguments: call_arguments(call.arguments),
    }
}

/// The parts of the message: text, reasoning, tool calls.
pub open spec fn done_content(state: DeltaView) -> Seq<crate::ai::types::ContentView> {
    (if state.text.len() > 0 {
        seq![crate::ai::types::ContentView::Text { text: state.text }]
    } else {
        seq![]
    }) + (if state.thinking.len() > 0 {
        seq![crate::ai::types::ContentView::Thinking { thinking: state.thinking }]
    } else {
        seq![]
    }) + state.tool_calls.map_values(|c: (usize, CallView)| call_part(c.1))
}

/// The message that the state amounts to.
pub open spec fn done_message(
    state: DeltaView,
    model: Seq<char>,
) -> crate::ai::types::AssistantView {
    crate::ai::types::AssistantView {
        content: done_content(state),
        usage: state.usage,
        stop_reason: match state.stop_reason {
            Some(reason) => reason,
            None => if state.tool_calls.len() > 0 {
                StopReason::ToolUse
            } else {
                StopReason::Stop
            },
        },
        error_message: None,
        model,
        trust: trust::trust_extracted(state.text).0,
    }
}

/// The parser once it has told that the reply is complete.
pub open spec fn pushed_done(p: ParserView) -> ParserView {
    p.with_state(
        DeltaView {
            text: seq![],
            thinking: seq![],
            tool_calls: seq![],
            usage: None,
            ..p.state
        },
    ).push(crate::ai::types::StreamView::Done { message: done_message(p.state, p.model) })
}

/// The parser once the reply is complete. This is told unless the reply has ended
/// already.
pub open spec fn done_once(p: ParserView) -> ParserView {
    if p.finished {
        p
    } else {
        pushed_done(p).finish()
    }
}

/// The parser once the reply has failed. This is told unless the reply has ended
/// already.
pub open spec fn failed(p: ParserView, message: Seq<char>) -> ParserView {
    if p.finished {
        p
    } else {
        p.push(crate::ai::types::StreamView::Error { message }).finish()
    }
}

/// The parser after the lines in its buffer, up to the first that holds data. Nothing
/// is read once the reply has ended.
pub open spec fn drained(p: ParserView) -> (ParserView, Option<Seq<char>>)
    decreases p.buffer.len(),
{
    match newline_from(p.buffer, 0) {
        None => (ParserView { draining: false, ..p }, None),
        Some(i) => if p.finished {
            (ParserView { draining: false, ..p }, None)
        } else {
            let rest = ParserView { buffer: p.buffer.skip(i + 1), ..p };
            if 0 <= i < p.buffer.len() {
                match line_of(p.buffer.take(i)) {
                    LineView::Skip => drained(rest),
                    LineView::Done => drained(done_once(rest)),
                    LineView::Data(data) => (rest, Some(data)),
                }
            } else {
                (p, None)
            }
        },
    }
}

/// What a parser that is not reading lines hands out.
pub open spec fn handed_out(p: ParserView) -> Option<(ParserView, NextView)> {
    if p.queue.len() > 0 {
        Some((ParserView { queue: p.queue.skip(1), ..p }, NextView::Event(p.queue[0])))
    } else if p.finished {
        Some((p, NextView::End))
    } else {
        None
    }
}

/// What comes next, and the parser after it. Events are handed out only when
/// all complete lines have been read, and bytes are asked for only when there
/// are no events.
pub open spec fn advanced(p: ParserView) -> (ParserView, NextView) {
    let p = if p.ending {
        done_once(ParserView { ending: false, ..p })
    } else {
        p
    };
    let early = if p.draining {
        None
    } else {
        handed_out(p)
    };
    match early {
        Some(out) => out,
        None => {
            let (after, data) = drained(ParserView { draining: true, ..p });
            match data {
                Some(d) => (after, NextView::Parse(d)),
                None => match handed_out(after) {
                    Some(out) => out,
                    None => (after, NextView::Read),
                },
            }
        },
    }
}

impl DeltaState {
    /// Nothing received yet.
    pub fn new() -> (r: Self)
        ensures
            r.deep_view() == DeltaView::fresh(),
    {
        let r = DeltaState {
            started: false,
            text: String::new(),
            thinking: String::new(),
            tool_calls: Vec::new(),
            stop_reason: None,
            usage: None,
        };
        assert(r.tool_calls.deep_view() =~= seq![]);
        r
    }
}

impl SseParser {
    /// A parser at the beginning of a stream.
    pub fn new(model: &str) -> (r: Self)
        ensures
            r.deep_view() == ParserView::fresh(model@),
    {
        let r = SseParser {
            buffer: Vec::new(),
            model: model.to_owned(),
            state: DeltaState::new(),
            queue: VecDeque::new(),
            finished: false,
            draining: false,
            ending: false,
        };
        assert(r.queue.deep_view() =~= seq![]);
        r
    }

    /// Appends bytes of the stream.
    pub fn feed(&mut self, bytes: &[u8])
        ensures
            final(self).deep_view() == (ParserView {
                buffer: old(self).deep_view().buffer + bytes@,
                ..old(self).deep_view()
            }),
    {
        let ghost first = self.deep_view();
        let mut i: usize = 0;
        while i < bytes.len()
            invariant
                i <= bytes.len(),
                self.deep_view() == (ParserView {
                    buffer: first.buffer + bytes@.take(i as int),
                    ..first
                }),
            decreases bytes.len() - i,
        {
            self.buffer.push(bytes[i]);
            assert(self.buffer@ =~= first.buffer + bytes@.take(i + 1));
            i += 1;
        }
        assert(bytes@.take(bytes@.len() as int) =~= bytes@);
    }

    /// Tells that the stream has failed, unless the reply has ended already.
    pub fn fail(&mut self, message: &str)
        ensures
            final(self).deep_view() == failed(old(self).deep_view(), message@),
    {
        if !self.finished {
            text::put_back(&mut self.queue, StreamEvent::Error { message: message.to_owned() });
            self.finished = true;
        }
    }

    /// Tells that the stream has ended. The data of a last line without line
    /// feed is handed out, to be read and handed back.
    pub fn end(&mut self) -> (r: Option<String>)
        ensures
            ({
                let p = ParserView { buffer: seq![], ending: true, ..old(self).deep_view() };
                if old(self).deep_view().buffer.len() == 0 {
                    final(self).deep_view() == p && r is None
                } else {
                    match line_of(old(self).deep_view().buffer) {
                        LineView::Skip => final(self).deep_view() == p && r is None,
                        LineView::Done => final(self).deep_view() == done_once(p) && r is None,
                        LineView::Data(d) => final(self).deep_view() == p && r.deep_view() == Some(d),
                    }
                }
            }),
    {
        let mut tail: Vec<u8> = Vec::new();
        std::mem::swap(&mut tail, &mut self.buffer);
        self.ending = true;
        assert(self.buffer@ =~= seq![]);
        if tail.len() == 0 {
            return None;
        }
        match read_line(&tail) {
            Line::Skip => None,
            Line::Done => {
                self.finish_once();
                None
            },
            Line::Data(d) => Some(d),
        }
    }

    fn push_done(&mut self)
        ensures
            final(self).deep_view() == pushed_done(old(self).deep_view()),
    {
        let ghost before = self.deep_view();
        let (found, _) = trust::extract_trust_block(&self.state.text);
        let has_tool_calls = self.state.tool_calls.len() > 0;
        let mut content: Vec<ContentPart> = Vec::new();
        assert(content.deep_view() =~= seq![]);
        if text::count(&self.state.text) > 0 {
            text::put(&mut content, ContentPart::Text { text: self.state.text.clone() });
        }
        if text::count(&self.state.thinking) > 0 {
            text::put(&mut content, ContentPart::Thinking { thinking: self.state.thinking.clone() });
        }
        let ghost head = content.deep_view();
        let ghost calls = before.state.tool_calls;
        let mut i: usize = 0;
        while i < self.state.tool_calls.len()
            invariant
                i <= self.state.tool_calls.len(),
                calls == self.state.tool_calls.deep_view(),
                self.deep_view() == before,
                content.deep_view() == head + calls.take(i as int).map_values(
                    |c: (usize, CallView)| call_part(c.1),
                ),
            decreases self.state.tool_calls.len() - i,
        {
            let call = &self.state.tool_calls[i].1;
            let arguments = match json::parse(&call.arguments) {
                Ok(j) => j,
                Err(_) => Json::Str(call.arguments.clone()),
            };
            text::put(
                &mut content,
                ContentPart::ToolCall { id: call.id.clone(), name: call.name.clone(), arguments },
            );
            assert(calls[i as int].1 == call.deep_view());
            assert(content.deep_view() =~= head + calls.take(i + 1).map_values(
                |c: (usize, CallView)| call_part(c.1),
            ));
            i += 1;
        }
        assert(calls.take(calls.len() as int) =~= calls);
        assert(content.deep_view() =~= done_content(before.state));
        let stop_reason = match self.state.stop_reason {
            Some(reason) => reason,
            None => {
                if has_tool_calls {
                    StopReason::ToolUse
                } else {
                    StopReason::Stop
                }
            },
        };
        let message = AssistantMessage {
            content,
            usage: self.state.usage,
            stop_reason,
            error_message: None,
            model: self.model.clone(),
            trust: found,
        };
        self.state.text = String::new();
        self.state.thinking = String::new();
        self.state.tool_calls = Vec::new();
        self.state.usage = None;
        assert(self.state.tool_calls.deep_view() =~= seq![]);
        text::put_back(&mut self.queue, StreamEvent::Done { message });
    }

    /// Tells that the reply is complete, unless it has ended already.
    pub fn finish_once(&mut self)
        ensures
            final(self).deep_view() == done_once(old(self).deep_view()),
    {
        if !self.finished {
            self.push_done();
            self.finished = true;
        }
    }

    /// Reads the complete lines in the buffer, up to the first that holds data.
    pub fn drain_buffer(&mut self) -> (r: Option<String>)
        ensures
            final(self).deep_view() == drained(old(self).deep_view()).0,
            r.deep_view() == drained(old(self).deep_view()).1,
    {
        let ghost first = self.deep_view();
        loop
            invariant
                first == old(self).deep_view(),
                drained(first) == drained(self.deep_view()),
            decreases self.buffer@.len(),
        {
            let newline = match find_newline(&self.buffer) {
                Some(i) => i,
                None => {
                    self.draining = false;
                    return None;
                },
            };
            if self.finished {
                self.draining = false;
                return None;
            }
            let line = slice_bytes(&self.buffer, 0, newline);
            let rest = slice_bytes(&self.buffer, newline + 1, self.buffer.len());
            assert(line@ =~= self.buffer@.take(newline as int));
            assert(rest@ =~= self.buffer@.skip(newline + 1));
            self.buffer = rest;
            match read_line(&line) {
                Line::Skip => {},
                Line::Done => {
                    self.finish_once();
                },
                Line::Data(d) => {
                    return Some(d);
                },
            }
        }
    }

    fn hand_out(&mut self) -> (r: Option<Next>)
        ensures
            match handed_out(old(self).deep_view()) {
                Some(out) => final(self).deep_view() == out.0 && r.deep_view() == Some(out.1),
                None => final(self).deep_view() == old(self).deep_view() && r is None,
            },
    {
        let ghost before = self.queue.deep_view();
        match self.queue.pop_front() {
            Some(event) => {
                assert(self.queue.deep_view() =~= before.skip(1));
                Some(Next::Event(event))
            },
            None => {
                assert(self.queue.deep_view() =~= before);
                if self.finished {
                    Some(Next::End)
                } else {
                    None
                }
            },
        }
    }

    /// What comes next.
    pub fn next(&mut self) -> (r: Next)
        ensures
            final(self).deep_view() == advanced(old(self).deep_view()).0,
            r.deep_view() == advanced(old(self).deep_view()).1,
    {
        if self.ending {
            self.ending = false;
            self.finish_once();
        }
        if !self.draining {
            match self.hand_out() {
                Some(out) => {
                    return out;
                },
                None => {},
            }
        }
        self.draining = true;
        match self.drain_buffer() {
            Some(data) => {
                return Next::Parse(data);
            },
            None => {},
        }
        match self.hand_out() {
            Some(out) => out,
            None => Next::Read,
        }
    }
}

} // verus!
