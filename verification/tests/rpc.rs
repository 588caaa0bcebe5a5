use agent_cockpit::error::CockpitError;
use agent_cockpit::json::{document_line, Json};
use agent_cockpit::rpc::{
    dispatch, find_tool, health_reply, invalid_arguments_reply, kill_reply, list_reply, notice,
    receive, request_text, tool_failure_reply, tool_success_reply, Directive, JsonRpcRequest, Tool,
};
use serde_json::Value;

fn value(text: &str) -> Value {
    serde_json::from_str(text).expect("JSON")
}

fn line(json: &Json) -> String {
    let line = document_line(json).expect("a line");
    assert!(!line.contains('\n'));
    line
}

fn request(method: &str, id: Option<Json>, params: Option<Json>) -> JsonRpcRequest {
    JsonRpcRequest { jsonrpc: Some("2.0".to_string()), id, method: method.to_string(), params }
}

fn reply(request: JsonRpcRequest) -> Value {
    match dispatch(request) {
        Directive::Reply(json) => value(&line(&json)),
        other => panic!("{:?}", other),
    }
}

#[test]
fn initialize_shakes_hands() {
    assert_eq!(
        reply(request("initialize", Some(Json::integer(1)), None)),
        value(
            r#"{"jsonrpc":"2.0","id":1,"result":{"protocolVersion":"2024-11-05",
                "capabilities":{"tools":{"listChanged":false}},
                "serverInfo":{"name":"agent_cockpit","version":"0.1.0"}}}"#
        )
    );
}

#[test]
fn acknowledgements_are_not_answered() {
    for method in ["notifications/initialized", "initialized"] {
        assert!(matches!(dispatch(request(method, None, None)), Directive::Silent));
        assert!(matches!(
            dispatch(request(method, Some(Json::integer(4)), None)),
            Directive::Silent
        ));
    }
}

#[test]
fn probes_are_answered_with_and_without_an_id() {
    for method in ["server/discover", "ping"] {
        assert_eq!(
            reply(request(method, Some(Json::text("a\"b\nc")), None)),
            value(
                r#"{"jsonrpc":"2.0","id":"a\"b\nc","result":{"status":"ready",
                    "server":"agent_cockpit","version":"0.1.0"}}"#
            )
        );
        assert_eq!(reply(request(method, None, None)).get("id"), Some(&Value::Null));
    }
}

#[test]
fn ids_are_echoed_whatever_they_are() {
    let number = serde_json::Number::from_f64(1.5).expect("finite");
    let id = Json::array().and(Json::Number(number)).and(Json::Bool(true)).and(
        Json::object().with("k", Json::Null).with("k", Json::integer(-7)),
    );
    assert_eq!(
        reply(request("ping", Some(id), None)).get("id"),
        Some(&value(r#"[1.5,true,{"k":-7}]"#))
    );
}

#[test]
fn the_catalogue_lists_four_tools() {
    assert_eq!(
        reply(request("tools/list", Some(Json::integer(2)), None)),
        value(
            r#"{"jsonrpc":"2.0","id":2,"result":{"tools":[
            {"name":"inspect_locks",
             "description":"Scans for active processes holding locks on workspace target executables, zombie test runners, orphaned cargo processes, and shadow antigravity_mcp_runs instances.",
             "inputSchema":{"type":"object","properties":{
                "process_name":{"type":"string","description":"Optional case-insensitive substring filter for process name (e.g. 'cargo', 'antigravity')"},
                "path_filter":{"type":"string","description":"Optional substring filter matching process executable path"}}}},
            {"name":"kill_process_lock",
             "description":"Safely terminates target locking processes by PID to eliminate 'os error 5 (Access is denied)' without an IDE reboot.",
             "inputSchema":{"type":"object","properties":{
                "pid":{"type":"integer","description":"The target process ID (PID) to terminate"},
                "force":{"type":"boolean","description":"Optional flag to force immediate termination"}},
                "required":["pid"]}},
            {"name":"inspect_async_tasks",
             "description":"Inspects real-time Tokio async task execution metrics and flags starved futures (poll times > 50ms) across workspace daemons (pushframe, vta) without terminal noise.",
             "inputSchema":{"type":"object","properties":{
                "process_name":{"type":"string","description":"Optional filter by daemon process name (e.g. 'pushframe')"},
                "target_pid":{"type":"integer","description":"Optional target process ID"},
                "min_poll_duration_ms":{"type":"integer","description":"Threshold in milliseconds to flag a task as starved (default: 50)"},
                "limit":{"type":"integer","description":"Maximum number of starved tasks to return to protect LLM context (default: 20, max: 50)"}}}},
            {"name":"get_runtime_health",
             "description":"Returns high-level Tokio async runtime health metrics: tracked tasks, starved task counts, mean poll latency, and memory footprint.",
             "inputSchema":{"type":"object","properties":{}}}
            ]}}"#
        )
    );
}

#[test]
fn listed_tools_can_be_called() {
    let listed = reply(request("tools/list", None, None));
    let tools = listed["result"]["tools"].as_array().expect("tools");
    let expected = [
        Tool::InspectLocks,
        Tool::KillProcessLock,
        Tool::InspectAsyncTasks,
        Tool::GetRuntimeHealth,
    ];
    assert_eq!(tools.len(), expected.len());
    for (entry, tool) in tools.iter().zip(expected) {
        let name = entry["name"].as_str().expect("a name").to_string();
        assert_eq!(find_tool(&name), Some(tool));
    }
    assert_eq!(find_tool(&"inspect_lock".to_string()), None);
}

#[test]
fn calls_hand_over_their_arguments() {
    let params = Json::object().with("name", Json::text("kill_process_lock")).with(
        "arguments",
        Json::object().with("pid", Json::integer(12)),
    );
    match dispatch(request("tools/call", Some(Json::integer(3)), Some(params))) {
        Directive::CallTool { id, tool, arguments } => {
            assert_eq!(line(&id), "3");
            assert_eq!(tool, Tool::KillProcessLock);
            assert_eq!(line(&arguments), r#"{"pid":12}"#);
        }
        other => panic!("{:?}", other),
    }

    let params = Json::object().with("name", Json::text("get_runtime_health"));
    match dispatch(request("tools/call", None, Some(params))) {
        Directive::CallTool { id, tool, arguments } => {
            assert_eq!(line(&id), "null");
            assert_eq!(tool, Tool::GetRuntimeHealth);
            assert_eq!(line(&arguments), "{}");
        }
        other => panic!("{:?}", other),
    }
}

#[test]
fn calls_of_unknown_tools_fail() {
    let failed = |text: &str| {
        value(&format!(
            r#"{{"jsonrpc":"2.0","id":5,"isError":true,
                "result":{{"content":[{{"type":"text","text":"{}"}}]}}}}"#,
            text
        ))
    };
    let call = |params: Option<Json>| reply(request("tools/call", Some(Json::integer(5)), params));
    let named = |name: Json| Some(Json::object().with("name", name));
    assert_eq!(call(named(Json::text("reboot"))), failed("Unknown tool 'reboot'"));
    assert_eq!(call(named(Json::integer(1))), failed("Unknown tool ''"));
    assert_eq!(call(Some(Json::array().and(Json::text("name")))), failed("Unknown tool ''"));
    assert_eq!(call(None), failed("Unknown tool ''"));
}

#[test]
fn unknown_methods_are_answered_under_an_id_only() {
    assert_eq!(
        reply(request("resources/list", Some(Json::integer(6)), None)),
        value(
            r#"{"jsonrpc":"2.0","id":6,
                "error":{"code":-32601,"message":"Method 'resources/list' not implemented"}}"#
        )
    );
    assert!(matches!(dispatch(request("resources/list", None, None)), Directive::Silent));
    assert!(matches!(dispatch(request("x", Some(Json::Null), None)), Directive::Silent));
}

#[test]
fn acknowledgements_and_unknown_methods_are_logged() {
    for method in ["notifications/initialized", "initialized"] {
        assert_eq!(
            notice(&request(method, None, None)),
            Some("Client handshake acknowledged.".to_string())
        );
    }
    for id in [None, Some(Json::integer(4))] {
        assert_eq!(
            notice(&request("resources/list", id, None)),
            Some("Received unhandled method: resources/list".to_string())
        );
    }
    for method in ["initialize", "server/discover", "ping", "tools/list", "tools/call"] {
        assert_eq!(notice(&request(method, None, None)), None);
    }
}

#[test]
fn stated_version_is_not_read() {
    for jsonrpc in [None, Some("1.0".to_string())] {
        let mut given = request("ping", Some(Json::integer(1)), None);
        given.jsonrpc = jsonrpc;
        assert_eq!(reply(given), reply(request("ping", Some(Json::integer(1)), None)));
    }
}

#[test]
fn malformed_lines_are_answered() {
    match receive(None) {
        Directive::Reply(json) => assert_eq!(
            line(&json),
            r#"{"error":{"code":-32700,"message":"Parse error"},"id":null,"jsonrpc":"2.0"}"#
        ),
        other => panic!("{:?}", other),
    }
    assert!(matches!(
        receive(Some(request("initialized", None, None))),
        Directive::Silent
    ));
}

#[test]
fn blank_lines_hold_no_request() {
    assert_eq!(request_text(""), None);
    assert_eq!(request_text(" \t\r\u{3000}\u{a0}"), None);
    assert_eq!(request_text("  {\"a\": 1}\r\n"), Some("{\"a\": 1}"));
    assert_eq!(request_text("x"), Some("x"));
    assert_eq!(request_text("\u{200b}"), Some("\u{200b}"));
}

#[test]
fn white_space_is_the_unicode_property() {
    let listed = |code: u32| {
        matches!(code, 0x9..=0xd | 0x20 | 0x85 | 0xa0 | 0x1680 | 0x2000..=0x200a | 0x2028 | 0x2029
            | 0x202f | 0x205f | 0x3000)
    };
    for code in 0..=0x10ffff {
        if let Some(c) = char::from_u32(code) {
            assert_eq!(request_text(&c.to_string()).is_none(), listed(code), "{:x}", code);
        }
    }
}

#[test]
fn tool_replies_carry_their_text() {
    assert_eq!(
        line(&tool_success_reply(Json::integer(8), "done\nnow")),
        r#"{"id":8,"jsonrpc":"2.0","result":{"content":[{"text":"done\nnow","type":"text"}]}}"#
    );
    assert_eq!(
        line(&tool_failure_reply(Json::Null, "no")),
        r#"{"id":null,"isError":true,"jsonrpc":"2.0","result":{"content":[{"text":"no","type":"text"}]}}"#
    );
}

fn text_of(reply: &Json) -> String {
    let reply = value(&line(reply));
    reply["result"]["content"][0]["text"].as_str().expect("a text").to_string()
}

#[test]
fn results_that_cannot_be_rendered_are_shown_as_empty() {
    assert_eq!(text_of(&list_reply(Json::Null, Some("[1]".to_string()))), "[1]");
    assert_eq!(text_of(&list_reply(Json::Null, None)), "[]");
    assert_eq!(text_of(&health_reply(Json::Null, Some("{\"a\":1}".to_string()))), "{\"a\":1}");
    assert_eq!(text_of(&health_reply(Json::Null, None)), "{}");
}

#[test]
fn termination_replies_show_the_outcome() {
    let done = kill_reply(Json::integer(1), Ok("gone".to_string()));
    assert_eq!(text_of(&done), "gone");
    assert!(value(&line(&done)).get("isError").is_none());

    let failed = kill_reply(Json::integer(1), Err(CockpitError::ProcessNotFound(42)));
    assert_eq!(text_of(&failed), "Error terminating process: Process not found: PID 42");
    assert_eq!(value(&line(&failed)).get("isError"), Some(&Value::Bool(true)));

    let invalid = invalid_arguments_reply(Json::integer(1), "missing field `pid`");
    assert_eq!(text_of(&invalid), "Invalid tool arguments: missing field `pid`");
    assert_eq!(value(&line(&invalid)).get("isError"), Some(&Value::Bool(true)));
}

#[test]
fn members_are_found_by_key() {
    let object = Json::object().with("a", Json::integer(1)).with("b", Json::Null).with(
        "a",
        Json::integer(2),
    );
    assert_eq!(line(object.get("a").expect("a member")), "2");
    assert!(object.get("c").is_none());
    assert!(Json::array().get("a").is_none());
    assert_eq!(line(&object), r#"{"a":2,"b":null}"#);
    assert_eq!(line(&object.into_member("a").expect("a member")), "2");
    assert!(Json::object().into_member("a").is_none());
    assert_eq!(line(&Json::Null.with("a", Json::Null)), "null");
    assert_eq!(line(&Json::Bool(true).and(Json::Null)), "true");
}
