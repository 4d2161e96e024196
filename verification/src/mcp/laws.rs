//! What holds of the talk with tool servers: requests and replies, lists of tools, and
//! what the tools give.
use vstd::prelude::*;

verus! {

proof fn lemma_keys_differ()
    ensures
        "jsonrpc"@ != "id"@,
        "jsonrpc"@ != "method"@,
        "jsonrpc"@ != "params"@,
        "id"@ != "method"@,
        "id"@ != "params"@,
        "method"@ != "params"@,
        "name"@ != "arguments"@,
        "error"@ != "result"@,
        "jsonrpc"@ != "error"@,
        "jsonrpc"@ != "result"@,
        "id"@ != "error"@,
        "id"@ != "result"@,
{
    reveal_strlit("jsonrpc");
    reveal_strlit("id");
    reveal_strlit("method");
    reveal_strlit("params");
    reveal_strlit("name");
    reveal_strlit("arguments");
    reveal_strlit("error");
    reveal_strlit("result");
    assert("jsonrpc"@.len() == 7);
    assert("id"@.len() == 2);
    assert("method"@[0] != "params"@[0]);
    assert("method"@[0] != "result"@[0]);
    assert("name"@.len() == 4);
    assert("arguments"@.len() == 9);
    assert("error"@.len() == 5);
    assert("result"@.len() == 6);
    assert("method"@.len() == 6);
    assert("params"@.len() == 6);
}

/// A request bears its id, its method and its parameters; a message that wants no reply
/// bears the same but no id. A tool call names the tool and hands over its arguments.
pub proof fn law_requests_say_what_is_wanted(
    method: Seq<char>,
    params: crate::json::JsonView,
    id: u64,
)
    ensures
        ({
            let request = crate::mcp::jsonrpc::request_of(method, params, id);
            &&& crate::ai::sent::holds_text(request, "jsonrpc"@, "2.0"@)
            &&& crate::ai::sent::holds_text(request, "method"@, method)
            &&& request.field("params"@) == Some(params)
            &&& request.field("id"@) == Some(
                crate::json::JsonView::Number(crate::json::NumberView::Unsigned(id)),
            )
        }),
        ({
            let message = crate::mcp::client::notification_of(method, params);
            &&& crate::ai::sent::holds_text(message, "method"@, method)
            &&& message.field("params"@) == Some(params)
            &&& message.field("id"@) is None
        }),
        ({
            let call = crate::mcp::client::call_of(method, params);
            crate::ai::sent::holds_text(call, "name"@, method) && call.field("arguments"@) == Some(
                params,
            )
        }),
{
    lemma_keys_differ();
}

/// A reply with an error fails with its message; one without gives its result.
pub proof fn law_replies_give_their_result(body: crate::json::JsonView)
    ensures
        body.field("error"@) is Some ==> crate::mcp::jsonrpc::response_of(body) is Err,
        body.field("error"@) is Some && body.field("error"@)->0.field("message"@) is Some
            && body.field("error"@)->0.field("message"@)->0 is Str
            ==> crate::mcp::jsonrpc::response_of(body) == Err::<crate::json::JsonView, Seq<char>>(
            body.field("error"@)->0.field("message"@)->0->Str_0,
        ),
        body.field("error"@) is None && body.field("result"@) is Some
            ==> crate::mcp::jsonrpc::response_of(body) == Ok::<crate::json::JsonView, Seq<char>>(
            body.field("result"@)->0,
        ),
        body.field("error"@) is None && body.field("result"@) is None
            ==> crate::mcp::jsonrpc::response_of(body) is Err,
{
}

/// A request gets the first reply that bears its id, and none that bears another.
pub proof fn law_replies_find_their_request(
    responses: Seq<crate::mcp::client::ResponseView>,
    id: u64,
)
    ensures
        match crate::mcp::client::reply_from(responses, id, 0) {
            Some(result) => exists|i: int|
                0 <= i < responses.len() && (#[trigger] responses[i]).id == id
                    && responses[i].result == result && forall|k: int|
                    0 <= k < i ==> (#[trigger] responses[k]).id != id,
            None => forall|i: int|
                0 <= i < responses.len() ==> (#[trigger] responses[i]).id != id,
        },
{
    lemma_reply_from(responses, id, 0);
}

proof fn lemma_reply_from(
    responses: Seq<crate::mcp::client::ResponseView>,
    id: u64,
    from: int,
)
    requires
        0 <= from <= responses.len(),
    ensures
        match crate::mcp::client::reply_from(responses, id, from) {
            Some(result) => exists|i: int|
                from <= i < responses.len() && (#[trigger] responses[i]).id == id
                    && responses[i].result == result && forall|k: int|
                    from <= k < i ==> (#[trigger] responses[k]).id != id,
            None => forall|i: int|
                from <= i < responses.len() ==> (#[trigger] responses[i]).id != id,
        },
    decreases responses.len() - from,
{
    if from < responses.len() && responses[from].id != id {
        lemma_reply_from(responses, id, from + 1);
    }
}

/// A reply bears the id of its message and what the message gives; a message without an
/// id is none.
pub proof fn law_replies_bear_their_id(message: crate::json::JsonView, id: u64)
    ensures
        message.field("id"@) == Some(
            crate::json::JsonView::Number(crate::json::NumberView::Unsigned(id)),
        ) ==> crate::mcp::client::response_in(message).len() == 1
            && crate::mcp::client::response_in(message)[0].id == id
            && crate::mcp::client::response_in(message)[0].result
            == crate::mcp::jsonrpc::response_of(message),
        message.field("id"@) is None ==> crate::mcp::client::response_in(message).len() == 0,
{
}

/// All messages in a buffer are read, in order: first the first, and then those behind
/// it.
pub proof fn law_messages_are_read_in_order(
    buf: Seq<u8>,
    message: crate::json::JsonView,
    n: int,
)
    ensures
        crate::mcp::jsonrpc::unframed(buf) == Some((message, n)) && 0 < n <= buf.len()
            ==> crate::mcp::client::responses_in(buf) == crate::mcp::client::response_in(message)
            + crate::mcp::client::responses_in(buf.skip(n)) && crate::mcp::client::left_in(buf)
            == crate::mcp::client::left_in(buf.skip(n)),
        crate::mcp::jsonrpc::unframed(buf) is None ==> crate::mcp::client::responses_in(buf).len()
            == 0 && crate::mcp::client::left_in(buf) == buf,
{
}

/// Whether a listed tool is the one that an entry describes.
pub open spec fn is_described(
    tool: crate::mcp::client::ToolDefView,
    entry: crate::json::JsonView,
) -> bool {
    &&& crate::ai::sent::holds_text(entry, "name"@, tool.name)
    &&& entry.field("description"@) == Some(crate::json::JsonView::Str(tool.description))
        || tool.description.len() == 0
    &&& entry.field("inputSchema"@) is Some ==> tool.input_schema == entry.field("inputSchema"@)->0
}

/// The tools of a server are those of its entries, in order, each with its own name,
/// description and schema; only an entry without a name is passed over.
pub proof fn law_tools_are_listed_in_order(
    entries: Seq<crate::json::JsonView>,
    entry: crate::json::JsonView,
)
    ensures
        entry.text_field("name"@) is None ==> crate::mcp::client::tools_of(entries.push(entry))
            == crate::mcp::client::tools_of(entries),
        entry.text_field("name"@) is Some ==> {
            let more = crate::mcp::client::tools_of(entries.push(entry));
            more.len() == crate::mcp::client::tools_of(entries).len() + 1 && more.drop_last()
                == crate::mcp::client::tools_of(entries) && is_described(more.last(), entry)
        },
        crate::mcp::client::tools_of(seq![]).len() == 0,
{
    reveal_strlit("");
    assert(entries.push(entry).drop_last() =~= entries);
    assert(entries.push(entry).last() == entry);
    if entry.text_field("name"@) is Some {
        let more = crate::mcp::client::tools_of(entries.push(entry));
        assert(more.drop_last() =~= crate::mcp::client::tools_of(entries));
    }
}

/// What a tool gives is the text of all its blocks, in order: one more block of text
/// stands behind those before it, and a block of another kind adds nothing.
pub proof fn law_results_are_all_their_texts(
    blocks: Seq<crate::json::JsonView>,
    block: crate::json::JsonView,
)
    ensures
        block.text_field("type"@) == Some("text"@) && block.text_field("text"@) is Some
            ==> crate::mcp::client::block_texts(blocks.push(block))
            == crate::mcp::client::block_texts(blocks).push(block.text_field("text"@)->0),
        block.text_field("type"@) != Some("text"@) ==> crate::mcp::client::block_texts(
            blocks.push(block),
        ) == crate::mcp::client::block_texts(blocks),
        crate::mcp::client::block_texts(seq![]).len() == 0,
{
    assert(blocks.push(block).drop_last() =~= blocks);
    assert(blocks.push(block).last() == block);
}

/// What a tool gives is its text, and an error exactly where the server says so; the
/// error holds the text.
pub proof fn law_failed_calls_are_errors(name: Seq<char>, result: crate::json::JsonView)
    ensures
        (result.field("isError"@) == Some(crate::json::JsonView::Bool(true)))
            == crate::mcp::client::call_result(name, result) is Err,
        crate::mcp::client::call_result(name, result) matches Ok(t) ==> t
            == crate::mcp::client::result_text(result),
        crate::mcp::client::call_result(name, result) matches Err(e)
            ==> crate::mcp::client::result_text(result).is_suffix_of(e),
{
    if let Err(e) = crate::mcp::client::call_result(name, result) {
        let t = crate::mcp::client::result_text(result);
        assert(t =~= e.subrange(e.len() - t.len(), e.len() as int));
    }
}

/// A tool of a server is a tool of the agent: its schema is the same, its description
/// ends with what the server says, and the names tell whose it is. None is left out.
pub proof fn law_server_tools_are_tools(
    server: Seq<char>,
    defs: Seq<crate::mcp::client::ToolDefView>,
    i: int,
)
    requires
        0 <= i < defs.len(),
    ensures
        ({
            let tools = crate::mcp::tools::tools_for(server, defs);
            &&& tools.len() == defs.len()
            &&& tools[i].name == server + "__"@ + defs[i].name
            &&& tools[i].parameters == defs[i].input_schema
            &&& crate::text::spec_trim(defs[i].description).is_suffix_of(tools[i].description)
        }),
{
    let said = crate::text::spec_trim(defs[i].description);
    let whole = crate::mcp::tools::tools_for(server, defs)[i].description;
    assert(said =~= whole.subrange(whole.len() - said.len(), whole.len() as int));
}

/// The tools that a server says change nothing are exactly those that are known as such.
pub proof fn law_read_only_tools_are_known(
    server: Seq<char>,
    defs: Seq<crate::mcp::client::ToolDefView>,
    name: Seq<char>,
)
    ensures
        crate::mcp::tools::read_only_names(server, defs).contains(server + "__"@ + name) <==> exists|
            i: int,
        |
            0 <= i < defs.len() && (#[trigger] defs[i]).read_only && defs[i].name == name,
    decreases defs.len(),
{
    if defs.len() > 0 {
        let init = defs.drop_last();
        let last = defs.last();
        law_read_only_tools_are_known(server, init, name);
        let before = crate::mcp::tools::read_only_names(server, init);
        let full = server + "__"@ + name;
        let other = server + "__"@ + last.name;
        crate::sorted::lemma_push_contains(before, other, full);
        if full == other {
            assert(name =~= full.skip(server.len() as int + "__"@.len() as int));
            assert(last.name =~= other.skip(server.len() as int + "__"@.len() as int));
        }
        if exists|i: int| 0 <= i < init.len() && (#[trigger] init[i]).read_only && init[i].name == name {
            let i = choose|i: int|
                0 <= i < init.len() && (#[trigger] init[i]).read_only && init[i].name == name;
            assert(defs[i].read_only);
        }
        if exists|i: int| 0 <= i < defs.len() && (#[trigger] defs[i]).read_only && defs[i].name == name {
            let i = choose|i: int|
                0 <= i < defs.len() && (#[trigger] defs[i]).read_only && defs[i].name == name;
            if i < init.len() {
                assert(init[i].read_only);
            } else {
                assert(defs[i] == last);
            }
        }
        assert(defs[defs.len() - 1] == last);
    }
}

/// A pattern that ends in its only star matches the names that begin with what stands
/// before the star, and a pattern without a star its own name alone.
pub proof fn law_patterns_match_beginnings(name: Seq<char>, beginning: Seq<char>)
    requires
        !beginning.contains('*'),
    ensures
        crate::mcp::registry::pattern_matches(name, beginning.push('*'))
            == beginning.is_prefix_of(name),
        crate::mcp::registry::pattern_matches(name, beginning) == (name == beginning),
{
    reveal_strlit("*");
    let pattern = beginning.push('*');
    let star = "*"@;
    crate::text::law_find_is_first(pattern, star);
    crate::text::law_find_is_first(beginning, star);
    let n = beginning.len() as int;
    assert(pattern.subrange(n, n + 1) =~= star);
    assert(crate::text::matches_at(pattern, star, n));
    assert forall|j: int| 0 <= j < n implies !#[trigger] crate::text::matches_at(pattern, star, j) by {
        if crate::text::matches_at(pattern, star, j) {
            assert(pattern.subrange(j, j + 1)[0] == '*');
            assert(beginning[j] == '*');
        }
    }
    assert forall|j: int| !#[trigger] crate::text::matches_at(beginning, star, j) by {
        if crate::text::matches_at(beginning, star, j) {
            assert(beginning.subrange(j, j + 1)[0] == '*');
            assert(beginning[j] == '*');
        }
    }
    assert(crate::text::spec_find(pattern, star) == Some(n));
    assert(pattern.take(n) =~= beginning);
    assert(pattern.skip(n + 1) =~= seq![]);
    let l = name.len() as int;
    assert(name.subrange(l, l) =~= Seq::<char>::empty());
    if beginning.is_prefix_of(name) {
        assert(name.subrange(0, n) =~= beginning);
    }
    if crate::mcp::registry::pattern_matches(name, pattern) {
        assert(name.subrange(0, n) =~= beginning);
    }
}

/// A server is set up as its configuration says: its command, its arguments, its
/// variables and its address.
pub proof fn law_servers_are_set_up_as_written(
    config: Map<Seq<char>, crate::json::JsonView>,
    command: Seq<char>,
    url: Seq<char>,
)
    ensures
        ({
            let server = crate::mcp::registry::server_of(crate::json::JsonView::Object(config));
            &&& server is Some && config.contains_key("command"@) && config["command"@]
                == crate::json::JsonView::Str(command) ==> server->0.command == Some(command)
            &&& server is Some && !config.contains_key("command"@) ==> server->0.command is None
            &&& server is Some && config.contains_key("url"@) && config["url"@]
                == crate::json::JsonView::Str(url) ==> server->0.url == Some(url)
            &&& server is Some && !config.contains_key("url"@) ==> server->0.url is None
            &&& server is Some && config.contains_key("args"@) ==> config["args"@] is Array
                && server->0.args.len() == config["args"@]->Array_0.len() && forall|i: int|
                0 <= i < server->0.args.len() ==> config["args"@]->Array_0[i]
                    == crate::json::JsonView::Str(#[trigger] server->0.args[i])
            &&& server is Some && config.contains_key("env"@) ==> config["env"@] is Object
                && forall|k: Seq<char>|
                config["env"@]->Object_0.contains_key(k) ==> #[trigger] server->0.env.contains_key(k)
                    && config["env"@]->Object_0[k] == crate::json::JsonView::Str(server->0.env[k])
        }),
{
    if config.contains_key("args"@) && config["args"@] is Array {
        lemma_all_texts(config["args"@]->Array_0);
    }
    let server = crate::mcp::registry::server_of(crate::json::JsonView::Object(config));
    if server is Some && config.contains_key("env"@) {
        let m = config["env"@]->Object_0;
        assert forall|k: Seq<char>| m.contains_key(k) implies #[trigger] server->0.env.contains_key(k)
            && m[k] == crate::json::JsonView::Str(server->0.env[k]) by {
            assert(m.contains_key(k));
        }
    }
}

proof fn lemma_all_texts(items: Seq<crate::json::JsonView>)
    ensures
        crate::mcp::registry::all_texts(items) matches Some(texts) ==> texts.len() == items.len()
            && forall|i: int|
            0 <= i < texts.len() ==> items[i] == crate::json::JsonView::Str(#[trigger] texts[i]),
    decreases items.len(),
{
    if items.len() > 0 {
        lemma_all_texts(items.drop_last());
    }
}

/// A program is taken from the first place where it is a file, and by its bare name
/// where it is in none.
pub proof fn law_programs_are_found_in_the_first_place(
    candidates: Seq<Seq<char>>,
    are_files: Seq<bool>,
    name: Seq<char>,
    i: int,
)
    requires
        are_files.len() == candidates.len(),
        0 <= i <= candidates.len(),
        forall|k: int| 0 <= k < i ==> !(#[trigger] are_files[k]),
    ensures
        i < candidates.len() && are_files[i] ==> crate::mcp::registry::found_from(
            candidates,
            are_files,
            name,
            0,
        ) == candidates[i],
        i == candidates.len() ==> crate::mcp::registry::found_from(candidates, are_files, name, 0)
            == name,
{
    lemma_found_from(candidates, are_files, name, i, 0);
}

proof fn lemma_found_from(
    candidates: Seq<Seq<char>>,
    are_files: Seq<bool>,
    name: Seq<char>,
    i: int,
    from: int,
)
    requires
        are_files.len() == candidates.len(),
        0 <= from <= i <= candidates.len(),
        forall|k: int| 0 <= k < i ==> !(#[trigger] are_files[k]),
    ensures
        i < candidates.len() && are_files[i] ==> crate::mcp::registry::found_from(
            candidates,
            are_files,
            name,
            from,
        ) == candidates[i],
        i == candidates.len() ==> crate::mcp::registry::found_from(
            candidates,
            are_files,
            name,
            from,
        ) == name,
    decreases i - from,
{
    if from < i {
        lemma_found_from(candidates, are_files, name, i, from + 1);
    }
}

/// An event of a stream carries the document that its data lines write together.
pub proof fn law_events_carry_their_data(
    before: Seq<Seq<char>>,
    pieces: Seq<Seq<char>>,
)
    requires
        crate::mcp::client::streamed(before).data.len() == 0,
    ensures
        ({
            let lines = before + pieces.map_values(|p: Seq<char>| "data:"@ + p);
            let s = crate::mcp::client::streamed(lines);
            &&& s.data == pieces.map_values(|p: Seq<char>| crate::text::spec_trim(p))
            &&& s.last == crate::mcp::client::streamed(before).last
        }),
    decreases pieces.len(),
{
    let f = |p: Seq<char>| "data:"@ + p;
    let g = |p: Seq<char>| crate::text::spec_trim(p);
    let lines = before + pieces.map_values(f);
    if pieces.len() == 0 {
        assert(lines =~= before);
        assert(pieces.map_values(g) =~= crate::mcp::client::streamed(before).data);
    } else {
        let init = pieces.drop_last();
        law_events_carry_their_data(before, init);
        assert(lines.drop_last() =~= before + init.map_values(f));
        let last = lines.last();
        let word = "data:"@;
        assert(last == word + pieces.last());
        assert(last.subrange(0, word.len() as int) =~= word);
        assert(last.skip(word.len() as int) =~= pieces.last());
        assert(pieces.map_values(g) =~= init.map_values(g).push(
            crate::text::spec_trim(pieces.last()),
        ));
    }
}

/// The document of an event counts where it has an id, and the last one that does is
/// what a stream carries.
pub proof fn law_streams_carry_the_last_reply(
    s: crate::mcp::client::StreamView,
    document: crate::json::JsonView,
)
    ensures
        s.data.len() > 0 && crate::json::parsed_json(crate::text::spec_join(s.data, ""@)) == Ok::<
            crate::json::JsonView,
            Seq<char>,
        >(document) ==> crate::mcp::client::flushed(s).data.len() == 0
            && crate::mcp::client::flushed(s).last == if document.field("id"@) is Some {
            Some(document)
        } else {
            s.last
        },
        s.data.len() == 0 ==> crate::mcp::client::flushed(s) == s,
{
}

} // verus!
