//! What is said to servers, and what is made of their replies.
use agent_m::agent::tool::Tool;
use agent_m::json::{self, Json};
use agent_m::mcp::client::{
    call_params, find_response, http_response, initialize_params, notification, parse_sse,
    protocol, McpClient, McpToolDef, StdioReader,
};
use agent_m::mcp::jsonrpc::{
    buffer_is_recoverable, frame, parse_response, request, unframe, MAX_FRAME_BYTES,
};
use agent_m::mcp::registry::{
    bin_candidates, ensure_default_mcp, find_bin, load_servers, matches_patterns,
};
use agent_m::mcp::tools::{connect_tools, mcp_tool_spec, outcome};

fn doc(text: &str) -> Json {
    match json::parse(text) {
        Ok(j) => j,
        Err(e) => panic!("{e}"),
    }
}

#[test]
fn frames_and_unframes_roundtrip() {
    let j = request("tools/list", Json::object(), 1);
    let framed = frame(&j);
    assert!(framed.ends_with(b"\n"));
    let (parsed, consumed) = unframe(&framed).expect("complete frame");
    assert_eq!(consumed, framed.len());
    assert_eq!(json::render(&parsed), json::render(&j));
    assert!(unframe(&framed[..framed.len() - 1]).is_none());
}

#[test]
fn unframe_skips_blank_lines() {
    let buf = b"\n{\"jsonrpc\":\"2.0\",\"id\":1,\"result\":{}}\n";
    let (first, n) = unframe(buf).unwrap();
    assert!(matches!(first, Json::Null));
    let (second, _) = unframe(&buf[n..]).unwrap();
    assert_eq!(second.get("id").and_then(|v| v.as_u64()), Some(1));
}

#[test]
fn buffer_recoverable_rejects_oversized() {
    let huge = vec![b'x'; MAX_FRAME_BYTES + 1];
    assert!(!buffer_is_recoverable(&huge));
    assert!(buffer_is_recoverable(b"partial line"));
}

#[test]
fn parse_response_extracts_result_and_errors() {
    let ok = doc("{\"jsonrpc\": \"2.0\", \"id\": 1, \"result\": {\"tools\": []}}");
    match parse_response(&ok) {
        Ok(result) => assert_eq!(json::render(&result), "{\"tools\":[]}"),
        Err(e) => panic!("{e}"),
    }
    let err = doc("{\"jsonrpc\": \"2.0\", \"id\": 1, \"error\": {\"message\": \"boom\"}}");
    assert_eq!(parse_response(&err).err().as_deref(), Some("boom"));
    assert!(parse_response(&doc("{}")).is_err());
}

#[test]
fn sse_picks_last_object_with_an_id_and_joins_multiline_data() {
    let body = b"event: message\ndata: {\"jsonrpc\":\"2.0\",\"method\":\"ping\"}\n\n\
                 event: message\ndata: {\"jsonrpc\":\"2.0\",\"id\":1,\n\
                 data: \"result\":{\"tools\":[]}}\n\n";
    let parsed = parse_sse(body).expect("parsed");
    let tools = parsed.get("result").and_then(|r| r.get("tools")).expect("tools");
    assert_eq!(json::render(tools), "[]");
    assert_eq!(parsed.get("id").and_then(|v| v.as_u64()), Some(1));
}

#[test]
fn loads_servers_from_mcp_json_and_settings() {
    let servers = load_servers(
        Some("{\"mcpServers\": {\"filesystem\": {\"command\": \"npx\", \"args\": [\"-y\", \"server-fs\"]}}}"),
        None,
    );
    assert_eq!(servers.names().len(), 1);
    let server = servers.get("filesystem").expect("filesystem");
    assert_eq!(server.command.as_deref(), Some("npx"));
    assert_eq!(server.args, vec!["-y", "server-fs"]);
}

#[test]
fn servers_come_in_the_order_of_their_names() {
    let text = "{\"mcpServers\": {\"b\": {\"url\": \"2\"}, \"c\": {\"url\": 3}, \"a\": {\"url\": \"1\"}}}";
    let servers = load_servers(Some(text), None);
    assert_eq!(servers.names(), vec!["a", "b"], "what cannot be read is left out");
    let urls: Vec<&str> = servers.iter().iter().filter_map(|s| s.url.as_deref()).collect();
    assert_eq!(urls, vec!["1", "2"]);
    assert!(!servers.is_empty());
}

#[test]
fn settings_json_fallback_and_http_url() {
    let settings = "{\"mcpServers\": {\"remote\": {\"url\": \"https://mcp.example.com/mcp\"}}}";
    let servers = load_servers(None, Some(settings));
    assert_eq!(servers.names().len(), 1);
    assert_eq!(
        servers.get("remote").expect("remote").url.as_deref(),
        Some("https://mcp.example.com/mcp")
    );
    let servers =
        load_servers(Some("{\"mcpServers\": {\"local\": {\"command\": \"echo\"}}}"), Some(settings));
    assert_eq!(servers.names().len(), 1);
    assert!(servers.get("local").is_some());
}

#[test]
fn registry_missing_config_yields_empty() {
    assert!(load_servers(None, None).is_empty());
    assert!(load_servers(Some("not json"), None).is_empty());
}

#[test]
fn matches_exact_and_wildcard_patterns() {
    let patterns = vec!["get-*".to_string(), "search_repos".to_string(), "*".to_string()];
    assert!(matches_patterns("get-issue", &patterns));
    assert!(matches_patterns("search_repos", &patterns));
    assert!(matches_patterns("anything", &patterns));
    let only_wild = vec!["read_*".to_string(), "list_*".to_string()];
    assert!(matches_patterns("read_file", &only_wild));
    assert!(matches_patterns("list_tools", &only_wild));
    assert!(!matches_patterns("write_file", &only_wild));
}

#[test]
fn ensure_default_mcp_uses_rust_servers() {
    let text = ensure_default_mcp("/bin/a", "/bin/b", "/bin/c", "/bin/d");
    let servers = load_servers(Some(&text), None);
    assert_eq!(servers.names(), vec!["filesystem", "github", "jira", "postgres"]);
    for server in servers.iter() {
        let command = server.command.as_deref().unwrap();
        assert!(!command.contains("npx"), "command should not be npx-based: {command}");
    }
}

#[test]
fn binaries_are_looked_for_in_order() {
    let candidates = bin_candidates("/home/u/.cargo", "mcp-github");
    assert!(!candidates.is_empty());
    let none = vec![false; candidates.len()];
    assert_eq!(find_bin("mcp-github", &candidates, &none), "mcp-github");
    let mut last = none.clone();
    *last.last_mut().unwrap() = true;
    assert_eq!(&find_bin("mcp-github", &candidates, &last), candidates.last().unwrap());
}

/// A server that answers as the requests ask.
fn answer(sent: &Json) -> Option<Json> {
    let id = sent.get("id")?.as_u64()?;
    let result = match sent.get_str("method")? {
        "initialize" => doc(
            "{\"protocolVersion\":\"2025-06-18\",\"capabilities\":{\"tools\":{}},\"serverInfo\":{\"name\":\"fake\",\"version\":\"1.0\"}}",
        ),
        "tools/list" => doc(
            "{\"tools\":[{\"name\":\"echo\",\"description\":\"Echo the input\",\"annotations\":{\"readOnlyHint\":true},\"inputSchema\":{\"type\":\"object\",\"properties\":{\"text\":{\"type\":\"string\"}}}}]}",
        ),
        "tools/call" => {
            let text = sent.get("params")?.get("arguments")?.get_str("text").unwrap_or_default();
            doc(&format!(
                "{{\"content\":[{{\"type\":\"text\",\"text\":\"echoed: {text}\"}}],\"isError\":false}}"
            ))
        }
        _ => return None,
    };
    Some(Json::object().with("jsonrpc", Json::text("2.0")).with("id", Json::number(id)).with("result", result))
}

/// Puts a request to the server over lines, and gives the result.
fn put(client: &mut McpClient, reader: &mut StdioReader, method: &str, params: Json) -> Json {
    let (id, sent) = client.request(method, params);
    let (read, _) = unframe(&frame(&sent)).expect("a line");
    let line = frame(&answer(&read).expect("an answer"));
    let (first, second) = line.split_at(line.len() / 2);
    assert!(reader.feed(first).is_empty(), "half a line is no response");
    match find_response(reader.feed(second), id) {
        Some(Ok(result)) => result,
        _ => panic!("the response to {id}"),
    }
}

#[test]
fn stdio_handshake_list_and_call() {
    let mut client = McpClient::new();
    let mut reader = StdioReader::new();
    let hello = put(&mut client, &mut reader, "initialize", initialize_params());
    assert_eq!(protocol(&hello), "2025-06-18");
    let note = notification("notifications/initialized", Json::object());
    assert!(note.get("id").is_none());
    let listed = put(&mut client, &mut reader, "tools/list", Json::object());
    let tools = McpClient::list_tools(&listed);
    assert_eq!(tools.len(), 1);
    assert_eq!(tools[0].name, "echo");
    let params = call_params("echo", doc("{\"text\":\"hello mcp\"}"));
    let result = put(&mut client, &mut reader, "tools/call", params);
    assert_eq!(McpClient::call_tool("echo", &result), Ok("echoed: hello mcp".to_string()));
    assert!(!reader.is_broken());
}

#[test]
fn read_only_hint_surfaces_through_connect_tools() {
    let mut client = McpClient::new();
    let mut reader = StdioReader::new();
    let listed = put(&mut client, &mut reader, "tools/list", Json::object());
    let (tools, read_only) = connect_tools("fake", McpClient::list_tools(&listed));
    assert_eq!(read_only, vec!["fake__echo"]);
    assert_eq!(tools.len(), 1);
    assert_eq!(tools[0].name(), "fake__echo");
    assert_eq!(tools[0].bare_name(), "echo");
}

#[test]
fn bare_names_are_those_that_the_server_gave() {
    for server in ["s", "s_", "a__b"] {
        for name in ["read__file", "echo", "__x", "_y"] {
            let def = McpToolDef {
                name: name.to_string(),
                description: String::new(),
                input_schema: Json::object(),
                read_only: false,
            };
            let (tools, _) = connect_tools(server, vec![def]);
            assert_eq!(tools[0].name(), format!("{server}__{name}"));
            assert_eq!(tools[0].bare_name(), name);
        }
    }
}

#[test]
fn mcp_tool_adapter_executes_through_the_tool_trait() {
    let mut client = McpClient::new();
    let mut reader = StdioReader::new();
    let listed = put(&mut client, &mut reader, "tools/list", Json::object());
    let (tools, _) = connect_tools("fake", McpClient::list_tools(&listed));
    assert!(tools[0].parameters().get("properties").is_some());
    assert_eq!(mcp_tool_spec(&tools[0]).name, "fake__echo");
    let params = call_params(&tools[0].bare_name(), doc("{\"text\":\"via trait\"}"));
    let result = put(&mut client, &mut reader, "tools/call", params);
    let shown = outcome(McpClient::call_tool("echo", &result));
    assert!(!shown.is_error);
    assert_eq!(shown.content, "echoed: via trait");
}

#[test]
fn http_transport_calls_a_wiremock_mcp_server() {
    let body = "{\"jsonrpc\":\"2.0\",\"id\":3,\"result\":{\"content\":[{\"type\":\"text\",\"text\":\"pong\"}],\"isError\":false}}";
    for (kind, bytes) in [
        ("application/json", body.to_string()),
        ("text/event-stream", format!("data: {body}\n\n")),
    ] {
        match http_response(kind, bytes.as_bytes()) {
            Ok(result) => {
                assert_eq!(McpClient::call_tool("ping", &result), Ok("pong".to_string()))
            }
            Err(e) => panic!("{e}"),
        }
    }
    assert!(http_response("application/json", b"not json").is_err());
}

#[test]
fn mcp_tool_errors_fold_into_outcome() {
    let failed = outcome(Err("boom".to_string()));
    assert!(failed.is_error);
    assert!(failed.content.contains("boom"));
    let refused = doc("{\"content\":[{\"type\":\"text\",\"text\":\"no\"}],\"isError\":true}");
    assert!(McpClient::call_tool("echo", &refused).is_err());
}
