use ctxpack::mcp::{IMPLEMENTED_MCP_TOOL_NAMES, PLANNED_MCP_TOOL_NAMES};
use ctxpack::protocol::{
    decide_request, error_envelope, handle_line, resource_contents, result_envelope, prompt_by_name, prompt_message, rpc_method, tool_by_name,
    Decision, Json, JsonShape, LineOutcome, Method, PromptKind, Reply, RequestView, ToolName, Work,
    INVALID_PARAMS, INVALID_REQUEST, METHOD_NOT_FOUND, PARSE_ERROR,
};
use ctxpack::schemas::MCP_PROTOCOL_VERSION;
use serde_json::Value;

fn to_value(json: Json) -> Value {
    match json {
        Json::Null => Value::Null,
        Json::Bool(b) => Value::Bool(b),
        Json::Number(text) => serde_json::from_str(&text).unwrap(),
        Json::Text(text) => Value::String(text),
        Json::Array(items) => Value::Array(items.into_iter().map(to_value).collect()),
        Json::Object(members) => {
            Value::Object(members.into_iter().map(|(k, v)| (k, to_value(v))).collect())
        }
    }
}

fn reply_of(line: &str) -> Value {
    to_value(handle_line(line).reply().unwrap())
}

#[test]
fn planned_mcp_tool_surface_stays_small() {
    assert_eq!(PLANNED_MCP_TOOL_NAMES.len(), 6);
}

#[test]
fn implemented_tool_surface_stays_small() {
    assert_eq!(IMPLEMENTED_MCP_TOOL_NAMES, PLANNED_MCP_TOOL_NAMES);
}

#[test]
fn initialize_public_capabilities_are_stable() {
    let response = reply_of(r#"{"jsonrpc":"2.0","id":1,"method":"initialize","params":{}}"#);

    assert_eq!(response["result"]["serverInfo"]["name"], "ctxpack");
    assert_eq!(
        response["result"]["capabilities"]["tools"]["listChanged"],
        false
    );
    assert_eq!(
        response["result"]["capabilities"]["resources"]["listChanged"],
        false
    );
    assert_eq!(
        response["result"]["capabilities"]["prompts"]["listChanged"],
        false
    );
}

#[test]
fn initialize_returns_tool_capability() {
    let response = reply_of(r#"{"jsonrpc":"2.0","id":1,"method":"initialize","params":{}}"#);

    assert_eq!(response["result"]["serverInfo"]["name"], "ctxpack");
    assert_eq!(
        response["result"]["capabilities"]["tools"]["listChanged"],
        false
    );
    assert_eq!(
        response["result"]["capabilities"]["resources"]["listChanged"],
        false
    );
    assert_eq!(
        response["result"]["capabilities"]["prompts"]["listChanged"],
        false
    );
}

#[test]
fn initialized_notification_returns_no_response() {
    let response = handle_line(r#"{"jsonrpc":"2.0","method":"notifications/initialized","params":{}}"#)
        .reply();

    assert!(response.is_none());
}

#[test]
fn tools_list_only_exposes_implemented_tools() {
    let response = reply_of(r#"{"jsonrpc":"2.0","id":"tools","method":"tools/list","params":{}}"#);
    let tools = response["result"]["tools"].as_array().unwrap();

    assert_eq!(tools.len(), 6);
    assert_eq!(tools[0]["name"], "prepare_task");
    assert_eq!(tools[0]["inputSchema"]["required"][0], "task");
    assert_eq!(
        tools[0]["inputSchema"]["properties"]["paths"]["items"]["type"],
        "string"
    );
    assert_eq!(
        tools[0]["inputSchema"]["properties"]["includeCurrentDiff"]["type"],
        "boolean"
    );
    assert_eq!(
        tools[0]["inputSchema"]["properties"]["recordTrace"]["type"],
        "boolean"
    );
    assert_eq!(
        tools[0]["inputSchema"]["properties"]["semanticProvider"]["type"],
        "string"
    );
    assert_eq!(tools[1]["name"], "search");
    assert_eq!(
        tools[1]["inputSchema"]["properties"]["semanticDimensions"]["maximum"],
        4096
    );
    assert_eq!(tools[2]["name"], "related");
    assert_eq!(
        tools[2]["inputSchema"]["properties"]["includeCurrentDiff"]["type"],
        "boolean"
    );
    assert_eq!(tools[3]["name"], "get_pack");
    assert_eq!(tools[3]["inputSchema"]["required"][0], "task");
    assert_eq!(
        tools[3]["inputSchema"]["properties"]["paths"]["items"]["type"],
        "string"
    );
    assert_eq!(
        tools[3]["inputSchema"]["properties"]["includeCurrentDiff"]["type"],
        "boolean"
    );
    assert_eq!(
        tools[3]["inputSchema"]["properties"]["recordTrace"]["type"],
        "boolean"
    );
    assert_eq!(
        tools[3]["inputSchema"]["properties"]["semanticModel"]["type"],
        "string"
    );
    assert_eq!(tools[4]["name"], "related_tests");
    assert_eq!(tools[5]["name"], "current_diff");
}

#[test]
fn tools_list_public_surface_is_exact() {
    let expected_tools = [
        "prepare_task",
        "search",
        "related",
        "get_pack",
        "related_tests",
        "current_diff",
    ];
    assert_eq!(IMPLEMENTED_MCP_TOOL_NAMES, expected_tools);

    let response = reply_of(r#"{"jsonrpc":"2.0","id":"tools","method":"tools/list","params":{}}"#);
    let tool_names = response["result"]["tools"]
        .as_array()
        .unwrap()
        .iter()
        .map(|tool| tool["name"].as_str().unwrap())
        .collect::<Vec<_>>();

    assert_eq!(tool_names, expected_tools);
    for tool in response["result"]["tools"].as_array().unwrap() {
        assert_eq!(tool["inputSchema"]["type"], "object");
        assert_eq!(tool["inputSchema"]["additionalProperties"], false);
    }
    assert_eq!(
        response["result"]["tools"][0]["inputSchema"]["required"][0],
        "task"
    );
    assert_eq!(
        response["result"]["tools"][4]["inputSchema"]["required"][0],
        "paths"
    );
}

#[test]
fn resources_list_exposes_repo_resources() {
    let response =
        reply_of(r#"{"jsonrpc":"2.0","id":"resources","method":"resources/list","params":{}}"#);
    let resources = response["result"]["resources"].as_array().unwrap();

    assert_eq!(resources.len(), 7);
    assert_eq!(resources[0]["uri"], "ctxpack://repo/summary");
    assert_eq!(resources[1]["uri"], "ctxpack://repo/test-map");
    assert_eq!(resources[2]["uri"], "ctxpack://repo/dependency-graph");
    assert_eq!(resources[3]["uri"], "ctxpack://repo/memory");
    assert_eq!(resources[4]["uri"], "ctxpack://workspace/status");
    assert_eq!(resources[5]["uri"], "ctxpack://workspace/shared-artifacts");
    assert_eq!(resources[6]["uri"], "ctxpack://pack/guide");
}

#[test]
fn prompts_list_exposes_workflow_prompts() {
    let response =
        reply_of(r#"{"jsonrpc":"2.0","id":"prompts","method":"prompts/list","params":{}}"#);
    let prompts = response["result"]["prompts"].as_array().unwrap();

    assert_eq!(prompts.len(), 6);
    assert_eq!(prompts[0]["name"], "bugfix");
    assert_eq!(prompts[5]["name"], "explain_area");
}

#[test]
fn prompts_public_surface_is_stable() {
    let list = reply_of(r#"{"jsonrpc":"2.0","id":"prompts","method":"prompts/list","params":{}}"#);
    let prompt_names = list["result"]["prompts"]
        .as_array()
        .unwrap()
        .iter()
        .map(|prompt| prompt["name"].as_str().unwrap())
        .collect::<Vec<_>>();

    assert_eq!(
        prompt_names,
        vec![
            "bugfix",
            "feature",
            "refactor",
            "review_diff",
            "write_tests",
            "explain_area",
        ]
    );
    for prompt in list["result"]["prompts"].as_array().unwrap() {
        assert_eq!(prompt["arguments"][0]["name"], "task");
        assert_eq!(prompt["arguments"][0]["description"].is_string(), true);
    }

    let get = reply_of(
        r#"{"jsonrpc":"2.0","id":36,"method":"prompts/get","params":{"name":"review_diff","arguments":{"task":"review current branch"}}}"#,
    );
    let message = &get["result"]["messages"][0];
    assert_eq!(message["role"], "user");
    assert_eq!(message["content"]["type"], "text");
    assert!(message["content"]["text"]
        .as_str()
        .unwrap()
        .contains("ctxpack.current_diff"));
}

#[test]
fn prepare_task_requires_task_argument() {
    let response = reply_of(
        r#"{"jsonrpc":"2.0","id":3,"method":"tools/call","params":{"name":"prepare_task","arguments":{"mode":"explain"}}}"#,
    );

    assert_eq!(response["error"]["code"], -32602);
    assert!(response["error"]["message"]
        .as_str()
        .unwrap()
        .contains("missing field `task`"));
}

#[test]
fn prompts_get_returns_agent_workflow_instruction() {
    let response = reply_of(
        r#"{"jsonrpc":"2.0","id":14,"method":"prompts/get","params":{"name":"bugfix","arguments":{"task":"fix auth redirect"}}}"#,
    );
    let text = response["result"]["messages"][0]["content"]["text"]
        .as_str()
        .unwrap();

    assert!(text.contains("Task: fix auth redirect"));
    assert!(text.contains("ctxpack.prepare_task"));
    assert!(text.contains("host agent's native tools"));
}

#[test]
fn related_call_requires_path_or_symbol() {
    let response = reply_of(
        r#"{"jsonrpc":"2.0","id":23,"method":"tools/call","params":{"name":"related","arguments":{"limit":3}}}"#,
    );

    assert_eq!(response["error"]["code"], -32602);
    assert!(response["error"]["message"]
        .as_str()
        .unwrap()
        .contains("path, symbol, or current diff"));
}

#[test]
fn unknown_method_returns_method_not_found() {
    let response =
        reply_of(r#"{"jsonrpc":"2.0","id":4,"method":"sampling/createMessage","params":{}}"#);

    assert_eq!(response["error"]["code"], -32601);
}

#[test]
fn json_rpc_error_codes_are_stable() {
    let parse = reply_of(r#"{"jsonrpc":"2.0","id":null,"method":"initialize""#);
    let missing_method =
        reply_of(r#"{"jsonrpc":"2.0","id":60,"method":"sampling/createMessage","params":{}}"#);
    let invalid_params = reply_of(
        r#"{"jsonrpc":"2.0","id":61,"method":"tools/call","params":{"name":"prepare_task","arguments":{"task":""}}}"#,
    );
    let unsupported_resource = reply_of(
        r#"{"jsonrpc":"2.0","id":62,"method":"resources/read","params":{"uri":"ctxpack://unknown/resource"}}"#,
    );

    assert_eq!(parse["error"]["code"], -32700);
    assert_eq!(missing_method["error"]["code"], -32601);
    assert_eq!(invalid_params["error"]["code"], -32602);
    assert_eq!(unsupported_resource["error"]["code"], -32602);
    assert!(missing_method["error"]["message"]
        .as_str()
        .unwrap()
        .contains("method not found"));
    assert!(invalid_params["error"]["message"]
        .as_str()
        .unwrap()
        .contains("task must not be empty"));
}

// ---------------------------------------------------------------------
// Further cases of the protocol
// ---------------------------------------------------------------------
fn blank_request() -> RequestView {
    RequestView {
        has_id: true,
        method: None,
        params_object: false,
        name: None,
        uri: None,
        arguments_object: false,
        task: None,
        query: None,
        paths: None,
        path: None,
        symbol: None,
        include_current_diff: None,
    }
}

#[test]
fn replies_echo_the_request_id_and_protocol_version() {
    let response = reply_of(r#"{"jsonrpc":"2.0","id":"abc","method":"initialize"}"#);
    assert_eq!(response["jsonrpc"], "2.0");
    assert_eq!(response["id"], "abc");
    assert_eq!(response["result"]["protocolVersion"], MCP_PROTOCOL_VERSION);
    let parse = reply_of("not json");
    assert_eq!(parse["id"], Value::Null);
    assert!(parse["error"]["message"]
        .as_str()
        .unwrap()
        .starts_with("parse error: "));
}

#[test]
fn notifications_of_any_method_get_no_reply() {
    assert!(matches!(
        handle_line(r#"{"jsonrpc":"2.0","method":"tools/list"}"#),
        LineOutcome::Silent
    ));
    let mut request = blank_request();
    request.has_id = false;
    request.method = Some("initialize".to_string());
    assert!(matches!(decide_request(&request), Decision::Silent));
}

#[test]
fn request_without_method_is_invalid() {
    let response = reply_of(r#"{"jsonrpc":"2.0","id":9}"#);
    assert_eq!(response["error"]["code"], INVALID_REQUEST);
    assert_eq!(
        response["error"]["message"],
        "invalid request: method must be a string"
    );
}

#[test]
fn method_names_route_to_methods() {
    assert_eq!(rpc_method("initialize"), Method::Initialize);
    assert_eq!(rpc_method("tools/call"), Method::ToolsCall);
    assert_eq!(rpc_method("resources/read"), Method::ResourcesRead);
    assert_eq!(rpc_method("prompts/get"), Method::PromptsGet);
    assert_eq!(rpc_method("tools/List"), Method::Unknown);
    assert_eq!(tool_by_name("related_tests"), Some(ToolName::RelatedTests));
    assert_eq!(tool_by_name("delete_repo"), None);
    assert_eq!(prompt_by_name("write_tests"), Some(PromptKind::WriteTests));
    assert_eq!(prompt_by_name("poem"), None);
    for name in IMPLEMENTED_MCP_TOOL_NAMES {
        assert!(tool_by_name(name).is_some());
    }
}

#[test]
fn unknown_tool_is_refused_with_its_name() {
    let response = reply_of(
        r#"{"jsonrpc":"2.0","id":5,"method":"tools/call","params":{"name":"delete_repo","arguments":{}}}"#,
    );
    assert_eq!(response["error"]["code"], INVALID_PARAMS);
    assert_eq!(
        response["error"]["message"],
        "tool is not implemented: delete_repo"
    );
    let missing = reply_of(r#"{"jsonrpc":"2.0","id":6,"method":"tools/call","params":{}}"#);
    assert_eq!(
        missing["error"]["message"],
        "invalid tools/call params: missing field `name`"
    );
}

#[test]
fn well_formed_tool_calls_become_work() {
    let outcome = handle_line(
        r#"{"jsonrpc":"2.0","id":7,"method":"tools/call","params":{"name":"search","arguments":{"query":"session"}}}"#,
    );
    match outcome {
        LineOutcome::Work { work, id, params } => {
            assert!(matches!(work, Work::Tool(ToolName::Search)));
            assert_eq!(to_value(id), 7);
            assert_eq!(to_value(params)["arguments"]["query"], "session");
        }
        _ => panic!("expected work"),
    }
    let typed = handle_line(
        r#"{"jsonrpc":"2.0","id":8,"method":"tools/call","params":{"name":5}}"#,
    );
    assert!(matches!(
        typed,
        LineOutcome::Work {
            work: Work::ToolParams,
            ..
        }
    ));
}

#[test]
fn required_arguments_are_checked_per_tool() {
    let search = reply_of(
        r#"{"jsonrpc":"2.0","id":1,"method":"tools/call","params":{"name":"search","arguments":{"query":"   "}}}"#,
    );
    assert_eq!(search["error"]["message"], "query must not be empty");
    let pack = reply_of(
        r#"{"jsonrpc":"2.0","id":1,"method":"tools/call","params":{"name":"get_pack","arguments":{}}}"#,
    );
    assert_eq!(
        pack["error"]["message"],
        "invalid get_pack arguments: missing field `task`"
    );
    let tests = reply_of(
        r#"{"jsonrpc":"2.0","id":1,"method":"tools/call","params":{"name":"related_tests","arguments":{"paths":[]}}}"#,
    );
    assert_eq!(tests["error"]["message"], "paths must not be empty");
    let no_paths = reply_of(
        r#"{"jsonrpc":"2.0","id":1,"method":"tools/call","params":{"name":"related_tests","arguments":{}}}"#,
    );
    assert_eq!(
        no_paths["error"]["message"],
        "invalid related_tests arguments: missing field `paths`"
    );
    let diff_anchor = handle_line(
        r#"{"jsonrpc":"2.0","id":1,"method":"tools/call","params":{"name":"related","arguments":{"includeCurrentDiff":true}}}"#,
    );
    assert!(matches!(
        diff_anchor,
        LineOutcome::Work {
            work: Work::Tool(ToolName::Related),
            ..
        }
    ));
}

#[test]
fn resource_reads_route_by_address() {
    let guide = reply_of(
        r#"{"jsonrpc":"2.0","id":33,"method":"resources/read","params":{"uri":"ctxpack://pack/guide"}}"#,
    );
    assert_eq!(guide["result"]["contents"][0]["mimeType"], "text/markdown");
    assert_eq!(guide["result"]["contents"][0]["uri"], "ctxpack://pack/guide");
    assert!(guide["result"]["contents"][0]["text"]
        .as_str()
        .unwrap()
        .contains("ctxpack.get_pack"));
    let file = handle_line(
        r#"{"jsonrpc":"2.0","id":34,"method":"resources/read","params":{"uri":"ctxpack://file/src/a.ts?lines=1-2"}}"#,
    );
    match file {
        LineOutcome::Work {
            work: Work::Resource { uri, .. },
            ..
        } => assert_eq!(uri, "ctxpack://file/src/a.ts?lines=1-2"),
        _ => panic!("expected a resource read"),
    }
    let unsupported = reply_of(
        r#"{"jsonrpc":"2.0","id":62,"method":"resources/read","params":{"uri":"ctxpack://unknown/resource"}}"#,
    );
    assert_eq!(
        unsupported["error"]["message"],
        "unsupported resource URI: ctxpack://unknown/resource"
    );
    let missing = reply_of(r#"{"jsonrpc":"2.0","id":63,"method":"resources/read","params":{}}"#);
    assert_eq!(
        missing["error"]["message"],
        "invalid resources/read params: missing field `uri`"
    );
}

#[test]
fn prompt_requests_are_checked() {
    let unknown = reply_of(
        r#"{"jsonrpc":"2.0","id":1,"method":"prompts/get","params":{"name":"poem"}}"#,
    );
    assert_eq!(unknown["error"]["code"], INVALID_PARAMS);
    assert_eq!(unknown["error"]["message"], "unknown prompt: poem");
    let nameless = reply_of(r#"{"jsonrpc":"2.0","id":1,"method":"prompts/get"}"#);
    assert_eq!(
        nameless["error"]["message"],
        "prompts/get requires a prompt name"
    );
    let text = prompt_message(PromptKind::ExplainArea, "auth");
    assert!(text.starts_with("Task: auth\n\n"));
    assert!(text.contains("ctxpack.get_pack"));
    let mut request = blank_request();
    request.method = Some("prompts/get".to_string());
    request.params_object = true;
    request.name = Some(JsonShape::Text("feature".to_string()));
    request.task = Some(JsonShape::Text("  add billing  ".to_string()));
    match decide_request(&request) {
        Decision::Reply(Reply::Prompt { kind, task }) => {
            assert_eq!(kind, PromptKind::Feature);
            assert_eq!(task, "add billing");
        }
        _ => panic!("expected a prompt"),
    }
}

#[test]
fn error_codes_follow_json_rpc() {
    assert_eq!(PARSE_ERROR, -32700);
    assert_eq!(INVALID_REQUEST, -32600);
    assert_eq!(METHOD_NOT_FOUND, -32601);
    assert_eq!(INVALID_PARAMS, -32602);
}

fn parsed(text: &str) -> Value {
    serde_json::from_str(text).unwrap()
}

#[test]
fn envelopes_are_written_as_json_rpc() {
    assert_eq!(
        to_value(result_envelope(Json::Number("3".to_string()), Json::Bool(true))),
        parsed(r#"{"jsonrpc":"2.0","id":3,"result":true}"#)
    );
    assert_eq!(
        to_value(error_envelope(Json::Text("a".to_string()), INVALID_PARAMS, "bad".to_string())),
        parsed(r#"{"jsonrpc":"2.0","id":"a","error":{"code":-32602,"message":"bad"}}"#)
    );
    assert_eq!(
        to_value(resource_contents(
            "ctxpack://pack/x".to_string(),
            "text/markdown".to_string(),
            "body".to_string()
        )),
        parsed(r#"{"contents":[{"uri":"ctxpack://pack/x","mimeType":"text/markdown","text":"body"}]}"#)
    );
}

#[test]
fn replies_keep_the_request_id() {
    let reply = reply_of(r#"{"jsonrpc":"2.0","id":"req-9","method":"nope"}"#);
    assert_eq!(reply["id"], "req-9");
    assert_eq!(reply["jsonrpc"], "2.0");
    assert_eq!(reply["error"]["code"], METHOD_NOT_FOUND);
    assert_eq!(reply["error"]["message"], "method not found: nope");
    let listed = reply_of(r#"{"jsonrpc":"2.0","id":4,"method":"tools/list"}"#);
    assert_eq!(listed["id"], 4);
    assert_eq!(listed["result"]["tools"].as_array().unwrap().len(), 6);
}

#[test]
fn public_surface_compatibility_guards_cover_all_protocol_descriptors() {
    initialize_public_capabilities_are_stable();
    tools_list_public_surface_is_exact();
    resources_list_exposes_repo_resources();
    prompts_public_surface_is_stable();
    let guide = reply_of(
        r#"{"jsonrpc":"2.0","id":"guide","method":"resources/read","params":{"uri":"ctxpack://pack/guide"}}"#,
    );
    let text = guide["result"]["contents"][0]["text"].as_str().unwrap();
    assert!(text.contains("MCP-session scoped"));
    assert!(text.contains("get_pack"));
    assert!(text.contains("reconnect-safe"));
}

#[test]
fn missing_pack_resources_are_invalid_params() {
    let mut cache = ctxpack::mcp::PackResourceCache::new();
    let missing = to_value(ctxpack::protocol::pack_resource_reply(
        &cache,
        Json::Number("9".to_string()),
        "ctxpack://pack/not-yet-created/brief",
    ));
    assert_eq!(missing["id"], 9);
    assert_eq!(missing["error"]["code"], -32602);
    let message = missing["error"]["message"].as_str().unwrap();
    assert!(message.contains("session-scoped"));
    assert!(message.contains("same MCP server process"));
    assert!(message.contains("call prepare_task first"));
    cache.insert(
        "ctxpack://pack/p1".to_string(),
        ctxpack::mcp::CachedResource {
            mime_type: "text/markdown".to_string(),
            text: "# Context Pack".to_string(),
        },
    );
    let found = to_value(ctxpack::protocol::pack_resource_reply(
        &cache,
        Json::Number("10".to_string()),
        "ctxpack://pack/p1",
    ));
    assert_eq!(found["id"], 10);
    assert_eq!(found["result"]["contents"][0]["uri"], "ctxpack://pack/p1");
    assert_eq!(found["result"]["contents"][0]["mimeType"], "text/markdown");
    assert_eq!(found["result"]["contents"][0]["text"], "# Context Pack");
}
