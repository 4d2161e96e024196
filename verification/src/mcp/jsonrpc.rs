//! JSON-RPC messages, one to a line.
use crate::ai::sse::{find_newline, slice_bytes};
use crate::json::{self, Json};
use crate::text;
use vstd::prelude::*;

verus! {

/// A request.
pub open spec fn request_of(method: Seq<char>, params: json::JsonView, id: u64) -> json::JsonView {
    crate::ai::wire::jo(
        map![
            "jsonrpc"@ => crate::ai::wire::js("2.0"@),
            "id"@ => json::JsonView::Number(json::NumberView::Unsigned(id)),
            "method"@ => crate::ai::wire::js(method),
            "params"@ => params,
        ],
    )
}

/// Builds a request.
pub fn request(method: &str, params: Json, id: u64) -> (r: Json)
    ensures
        r.deep_view() == request_of(method@, params.deep_view(), id),
{
    let ghost p = params.deep_view();
    let r = Json::object().with("jsonrpc", Json::text("2.0")).with("id", Json::number(id)).with(
        "method",
        Json::text(method),
    ).with("params", params);
    assert(r.deep_view()->Object_0 =~= request_of(method@, p, id)->Object_0);
    r
}

/// What a response carries: its result, or the message of its error.
pub open spec fn response_of(body: json::JsonView) -> Result<json::JsonView, Seq<char>> {
    match body.field("error"@) {
        Some(error) => Err(
            match error.text_field("message"@) {
                Some(m) => m,
                None => "JSON-RPC error"@,
            },
        ),
        None => match body.field("result"@) {
            Some(result) => Ok(result),
            None => Err("JSON-RPC response has no result"@),
        },
    }
}

/// What a document or an error stands for.
pub open spec fn outcome_view(r: Result<Json, String>) -> Result<json::JsonView, Seq<char>> {
    match r {
        Ok(j) => Ok(j.deep_view()),
        Err(e) => Err(e@),
    }
}

/// Takes the result out of a response, or the message of its error.
pub fn parse_response(body: &Json) -> (r: Result<Json, String>)
    ensures
        outcome_view(r) == response_of(body.deep_view()),
{
    if let Some(error) = body.get("error") {
        return match error.get_str("message") {
            Some(message) => Err(message.to_owned()),
            None => Err("JSON-RPC error".to_owned()),
        };
    }
    match body.get("result") {
        Some(result) => Ok(result.clone()),
        None => Err("JSON-RPC response has no result".to_owned()),
    }
}

/// The length in bytes up to which input is held.
pub const MAX_FRAME_BYTES: usize = 32 * 1024 * 1024;

/// A message as it is sent: its compact text on a line of its own.
pub open spec fn framed(j: json::JsonView) -> Seq<u8> {
    vstd::utf8::encode_utf8(json::json_text(j).push('\n'))
}

/// Frames a message. Whatever follows it in a buffer, it is what is read from
/// the buffer first, provided that it holds no real number and is not nested
/// deeper than is read; and no beginning of it is read as a message.
pub fn frame(j: &Json) -> (r: Vec<u8>)
    ensures
        r@ == framed(j.deep_view()),
        j.deep_view().canonical() && j.deep_view().no_reals() && j.deep_view().within_depth(127)
            ==> forall|rest: Seq<u8>|
            unframed(#[trigger] (r@ + rest)) == Some((j.deep_view(), r@.len() as int)),
        forall|n: int| 0 <= n < r@.len() ==> unframed(#[trigger] r@.take(n)) is None,
{
    let mut body = json::render(j);
    let ghost t = body@;
    body.push('\n');
    let bytes = body.as_str().as_bytes();
    let r = slice_bytes(bytes, 0, bytes.len());
    proof {
        assert(r@ =~= vstd::utf8::encode_utf8(t.push('\n')));
        lemma_line(t);
        assert forall|rest: Seq<u8>|
            json::parsed_json(t) matches Ok(d) ==> unframed(#[trigger] (r@ + rest)) == Some(
                (d, r@.len() as int),
            ) by {
            lemma_line_first(t, rest);
        }
        assert forall|n: int| 0 <= n < r@.len() implies unframed(#[trigger] r@.take(n)) is None by {
            lemma_no_newline(r@.take(n), 0);
        }
    }
    r
}

/// What a line holds: nothing where it is blank, else the document on it.
pub open spec fn line_json(line: Seq<u8>) -> Option<json::JsonView> {
    if !vstd::utf8::valid_utf8(line) {
        None
    } else {
        let s = text::spec_trim(vstd::utf8::decode_utf8(line));
        if s.len() == 0 {
            Some(json::JsonView::Null)
        } else {
            match json::parsed_json(s) {
                Ok(j) => Some(j),
                Err(_) => None,
            }
        }
    }
}

/// The first message in a buffer, and how many bytes it takes with its line
/// feed.
pub open spec fn unframed(buf: Seq<u8>) -> Option<(json::JsonView, int)> {
    match crate::ai::sse::newline_from(buf, 0) {
        None => None,
        Some(i) => match line_json(buf.take(i)) {
            Some(j) => Some((j, i + 1)),
            None => None,
        },
    }
}

/// What a message and its length stand for.
pub open spec fn message_view(r: Option<(Json, usize)>) -> Option<(json::JsonView, int)> {
    match r {
        Some((j, n)) => Some((j.deep_view(), n as int)),
        None => None,
    }
}

/// Reads the first message in a buffer; null stands for a blank line.
pub fn unframe(buf: &[u8]) -> (r: Option<(Json, usize)>)
    ensures
        message_view(r) == unframed(buf@),
        r matches Some((j, n)) ==> 0 < n <= buf@.len(),
{
    let newline = find_newline(buf)?;
    let line = slice_bytes(buf, 0, newline);
    assert(line@ =~= buf@.take(newline as int));
    let decoded = text::decode_utf8(&line)?;
    let s = text::trim(&decoded);
    if text::count(&s) == 0 {
        return Some((Json::Null, newline + 1));
    }
    match json::parse(&s) {
        Ok(j) => Some((j, newline + 1)),
        Err(_) => None,
    }
}

/// Whether input of this length is still held.
pub fn buffer_is_recoverable(buf: &[u8]) -> (r: bool)
    ensures
        r == (buf@.len() <= MAX_FRAME_BYTES),
{
    buf.len() <= MAX_FRAME_BYTES
}

// --------------------------------------------------------------------- laws
proof fn lemma_scalar_without_feed(c: char)
    requires
        c != '\n',
    ensures
        forall|i: int|
            0 <= i < vstd::utf8::encode_scalar(c as u32).len()
                ==> #[trigger] vstd::utf8::encode_scalar(c as u32)[i] != 10,
{
    let v = c as u32;
    assert(v != 10);
    vstd::utf8::char_is_scalar(c);
    assert(v <= 0x7f && v != 10 ==> (v & 0x7F) as u8 != 10) by (bit_vector);
    assert((0xC0 | ((v >> 6) & 0x1F) as u8) != 10) by (bit_vector);
    assert((0xE0 | ((v >> 12) & 0x0F) as u8) != 10) by (bit_vector);
    assert((0xF0 | ((v >> 18) & 0x7) as u8) != 10) by (bit_vector);
    assert((0x80 | (v & 0x3F) as u8) != 10) by (bit_vector);
    assert((0x80 | ((v >> 6) & 0x3F) as u8) != 10) by (bit_vector);
    assert((0x80 | ((v >> 12) & 0x3F) as u8) != 10) by (bit_vector);
}

proof fn lemma_text_without_feed(s: Seq<char>)
    requires
        forall|i: int| 0 <= i < s.len() ==> #[trigger] s[i] != '\n',
    ensures
        forall|i: int|
            0 <= i < vstd::utf8::encode_utf8(s).len() ==> #[trigger] vstd::utf8::encode_utf8(s)[i]
                != 10,
    decreases s.len(),
{
    if s.len() > 0 {
        lemma_scalar_without_feed(s[0]);
        let rest = s.drop_first();
        assert forall|i: int| 0 <= i < rest.len() implies #[trigger] rest[i] != '\n' by {
            assert(rest[i] == s[i + 1]);
        }
        lemma_text_without_feed(rest);
        let head = vstd::utf8::encode_scalar(s[0] as u32);
        let tail = vstd::utf8::encode_utf8(rest);
        assert forall|i: int| 0 <= i < (head + tail).len() implies #[trigger] (head + tail)[i]
            != 10 by {
            if i < head.len() {
                assert((head + tail)[i] == head[i]);
            } else {
                assert((head + tail)[i] == tail[i - head.len()]);
            }
        }
    }
}

proof fn lemma_encode_push(s: Seq<char>, c: char)
    ensures
        vstd::utf8::encode_utf8(s.push(c)) == vstd::utf8::encode_utf8(s)
            + vstd::utf8::encode_scalar(c as u32),
    decreases s.len(),
{
    if s.len() == 0 {
        assert(s.push(c).drop_first() =~= seq![]);
        assert(vstd::utf8::encode_utf8(s.push(c).drop_first()) =~= seq![]);
    } else {
        lemma_encode_push(s.drop_first(), c);
        assert(s.push(c).drop_first() =~= s.drop_first().push(c));
    }
}

proof fn lemma_newline_at(bytes: Seq<u8>, from: int, at: int)
    requires
        0 <= from <= at < bytes.len(),
        bytes[at] == 10,
        forall|i: int| from <= i < at ==> #[trigger] bytes[i] != 10,
    ensures
        crate::ai::sse::newline_from(bytes, from) == Some(at),
    decreases at - from,
{
    if from < at {
        lemma_newline_at(bytes, from + 1, at);
    }
}

proof fn lemma_no_newline(bytes: Seq<u8>, from: int)
    requires
        0 <= from,
        forall|i: int| 0 <= i < bytes.len() ==> #[trigger] bytes[i] != 10,
    ensures
        crate::ai::sse::newline_from(bytes, from) is None,
    decreases bytes.len() - from,
{
    if from < bytes.len() {
        lemma_no_newline(bytes, from + 1);
    }
}

/// A line is its text and one line feed.
proof fn lemma_line(t: Seq<char>)
    requires
        forall|i: int| 0 <= i < t.len() ==> #[trigger] t[i] != '\n',
    ensures
        ({
            let e = vstd::utf8::encode_utf8(t);
            &&& vstd::utf8::encode_utf8(t.push('\n')) == e.push(10u8)
            &&& forall|i: int| 0 <= i < e.len() ==> #[trigger] e[i] != 10
        }),
{
    lemma_encode_push(t, '\n');
    lemma_text_without_feed(t);
    assert((10u32 & 0x7F) as u8 == 10) by (bit_vector);
    assert(vstd::utf8::encode_scalar('\n' as u32) =~= seq![10u8]);
    assert(vstd::utf8::encode_utf8(t.push('\n')) =~= vstd::utf8::encode_utf8(t).push(10u8));
}

/// A line that stands first in a buffer is what is read first.
proof fn lemma_line_first(t: Seq<char>, rest: Seq<u8>)
    requires
        forall|i: int| 0 <= i < t.len() ==> #[trigger] t[i] != '\n',
        t.len() > 0,
        !text::is_white(t[0]),
        !text::is_white(t.last()),
    ensures
        ({
            let line = vstd::utf8::encode_utf8(t.push('\n'));
            json::parsed_json(t) matches Ok(d) ==> unframed(line + rest) == Some(
                (d, line.len() as int),
            )
        }),
{
    lemma_line(t);
    let e = vstd::utf8::encode_utf8(t);
    let line = vstd::utf8::encode_utf8(t.push('\n'));
    let buf = line + rest;
    assert(buf[e.len() as int] == 10);
    assert forall|i: int| 0 <= i < e.len() implies #[trigger] buf[i] != 10 by {
        assert(buf[i] == e[i]);
    }
    lemma_newline_at(buf, 0, e.len() as int);
    assert(buf.take(e.len() as int) =~= e);
    vstd::utf8::encode_utf8_valid_utf8(t);
    vstd::utf8::encode_utf8_decode_utf8(t);
    assert(text::spec_trim(t) == t);
}

} // verus!
