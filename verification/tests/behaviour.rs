use mcpi::client::{
    initialize_params, method_not_found_json, new_request, response_outcome, route_message, tools_from_result,
    CapabilityHandlers, Incoming, RequestError,
};
use mcpi::commands::{
    cmd_help, connected_over_http, connected_over_stdio, handle_command, http_failure_message, raw_json_arg,
    set_handler, split_command_line, stdio_failure_message, tools_listed, Action, Next, Step,
};
use mcpi::config::{CompleterState, ReplState, TransportType, DEFAULT_TIMEOUT_SECS};
use mcpi::display::{
    print_capabilities, print_notifications, print_prompt_messages, print_prompts, print_resource_result,
    print_tool_result, Output, Shade,
};
use mcpi::json::JsonValue;
use mcpi::protocol::{
    FromJson, JsonRpcResponse, McpContent, McpPrompt, McpPromptArgument, McpPromptMessage, McpTool, Notification, ServerCapabilities,
};
use mcpi::repl::{complete, enter_line, receive_notification};
use mcpi::startup::{
    apply_env_flags, apply_header_flags, check_server_flags, start_command_for, batch_not_connected,
};
use mcpi::table::Table;
use mcpi::transport::HttpTransport;

fn to_value(v: &serde_json::Value) -> JsonValue {
    match v {
        serde_json::Value::Null => JsonValue::Null,
        serde_json::Value::Bool(b) => JsonValue::Bool(*b),
        serde_json::Value::Number(n) => JsonValue::Number(n.to_string()),
        serde_json::Value::String(s) => JsonValue::Str(s.clone()),
        serde_json::Value::Array(a) => JsonValue::Array(a.iter().map(to_value).collect()),
        serde_json::Value::Object(o) => {
            JsonValue::Object(o.iter().map(|(k, v)| (k.clone(), to_value(v))).collect())
        }
    }
}

fn json(text: &str) -> JsonValue {
    to_value(&serde_json::from_str::<serde_json::Value>(text).unwrap())
}

fn new_state() -> ReplState {
    ReplState::new(CompleterState::new())
}

fn run(state: &mut ReplState, handlers: &mut CapabilityHandlers, line: &str) -> Step {
    handle_command(state, handlers, line)
}

fn line_text(o: &Output) -> String {
    match o {
        Output::Line(spans) => spans.iter().map(|s| s.text.as_str()).collect::<Vec<_>>().join(""),
        Output::Error(s) | Output::Success(s) | Output::Info(s) => s.clone(),
        _ => String::new(),
    }
}

fn error_of(step: &Step) -> Option<String> {
    match &step.next {
        Next::Fail(m) => Some(m.clone()),
        _ => None,
    }
}

fn tool(name: &str) -> McpTool {
    McpTool { name: name.to_string(), description: format!("{name} tool"), input_schema: json(r#"{"type":"object"}"#) }
}

// ---------------------------------------------------------------------------------------------
// Command lines
// ---------------------------------------------------------------------------------------------

#[test]
fn empty_line_does_nothing() {
    let mut state = new_state();
    let mut handlers = Table::new();
    let step = run(&mut state, &mut handlers, "   ");
    assert!(step.outputs.is_empty());
    assert!(matches!(step.next, Next::Continue));
}

#[test]
fn quit_and_exit_leave() {
    let mut state = new_state();
    let mut handlers = Table::new();
    assert!(matches!(run(&mut state, &mut handlers, "quit").next, Next::Quit));
    assert!(matches!(run(&mut state, &mut handlers, "  exit  ").next, Next::Quit));
}

#[test]
fn unknown_command_is_reported() {
    let mut state = new_state();
    let mut handlers = Table::new();
    let step = run(&mut state, &mut handlers, "frobnicate now");
    assert_eq!(step.outputs.len(), 1);
    assert!(matches!(&step.outputs[0], Output::Error(m) if m == "Unknown command: 'frobnicate'. Type 'help' for available commands."));
}

#[test]
fn shell_quotes_group_words() {
    let parts = split_command_line("connect 'my server' --flag \"two words\"");
    assert_eq!(parts, vec!["connect", "my server", "--flag", "two words"]);
}

#[test]
fn unclosed_quote_falls_back_to_white_space() {
    let parts = split_command_line("call tool \"unclosed");
    assert_eq!(parts, vec!["call", "tool", "\"unclosed"]);
}

#[test]
fn raw_json_arg_keeps_quotes() {
    let line = r#"call echo {"text": "hi there"}"#;
    assert_eq!(raw_json_arg(line, 2), Some(r#"{"text": "hi there"}"#));
    assert_eq!(raw_json_arg("  call   echo   ", 2), None);
    assert_eq!(raw_json_arg("cap-set roots/list  [1, 2]  ", 2), Some("[1, 2]"));
    assert_eq!(raw_json_arg("a b c", 0), Some("a b c"));
}

// ---------------------------------------------------------------------------------------------
// Session settings
// ---------------------------------------------------------------------------------------------

#[test]
fn set_timeout_accepts_positive_seconds() {
    let mut state = new_state();
    let mut handlers = Table::new();
    assert_eq!(state.timeout_secs, DEFAULT_TIMEOUT_SECS);
    let step = run(&mut state, &mut handlers, "set-timeout 30");
    assert_eq!(state.timeout_secs, 30);
    assert!(matches!(&step.outputs[0], Output::Success(m) if m == "Request timeout set to 30s"));
    run(&mut state, &mut handlers, "set-timeout +5");
    assert_eq!(state.timeout_secs, 5);
}

#[test]
fn set_timeout_rejects_zero_and_garbage() {
    let mut state = new_state();
    let mut handlers = Table::new();
    let step = run(&mut state, &mut handlers, "set-timeout 0");
    assert_eq!(error_of(&step).as_deref(), Some("Timeout must be at least 1 second"));
    let step = run(&mut state, &mut handlers, "set-timeout soon");
    assert_eq!(error_of(&step).as_deref(), Some("Invalid timeout 'soon': must be a positive integer"));
    let step = run(&mut state, &mut handlers, "set-timeout");
    assert!(matches!(&step.outputs[0], Output::Error(m) if m == "Usage: set-timeout <seconds>"));
    assert_eq!(state.timeout_secs, DEFAULT_TIMEOUT_SECS);
}

#[test]
fn set_name_and_env_change_the_configuration() {
    let mut state = new_state();
    let mut handlers = Table::new();
    let step = run(&mut state, &mut handlers, "set-name my-fs");
    assert_eq!(state.server_name, "my-fs");
    assert_eq!(line_text(&step.outputs[0]), "Server name set to 'my-fs'");
    let step = run(&mut state, &mut handlers, "set-env API_KEY sk-abc123");
    assert_eq!(state.config.env.get("API_KEY").map(|s| s.as_str()), Some("sk-abc123"));
    assert_eq!(line_text(&step.outputs[0]), "Set env API_KEY=sk-abc123");
    let step = run(&mut state, &mut handlers, "set-env ONLY_KEY");
    assert!(matches!(&step.outputs[0], Output::Error(m) if m == "Usage: set-env <key> <value>"));
}

#[test]
fn history_is_numbered_and_aligned() {
    let mut state = new_state();
    let mut handlers = Table::new();
    let step = run(&mut state, &mut handlers, "history");
    assert_eq!(line_text(&step.outputs[0]), "No history.");
    enter_line(&mut state, &mut handlers, "tools");
    enter_line(&mut state, &mut handlers, "");
    let step = enter_line(&mut state, &mut handlers, "history");
    assert_eq!(state.history, vec!["tools", "history"]);
    assert_eq!(line_text(&step.outputs[0]), "   1  tools");
    assert_eq!(line_text(&step.outputs[1]), "   2  history");
}

#[test]
fn log_shows_then_forgets() {
    let mut state = new_state();
    let mut handlers = Table::new();
    let note = receive_notification(&mut state, Notification::ToolListChanged, false);
    assert_eq!(note, "[1 new notification(s) — type 'log' to view]");
    receive_notification(
        &mut state,
        Notification::Log { level: "error".to_string(), message: "\"disk full\"".to_string() },
        false,
    );
    let step = run(&mut state, &mut handlers, "log");
    assert_eq!(step.outputs.len(), 2);
    assert_eq!(line_text(&step.outputs[0]), "[1] tools/list_changed");
    assert_eq!(line_text(&step.outputs[1]), "[2] error: \"disk full\"");
    assert!(state.pending_notifications.is_empty());
    let step = run(&mut state, &mut handlers, "log");
    assert_eq!(line_text(&step.outputs[0]), "No notifications.");
}

#[test]
fn live_notifications_are_not_kept() {
    let mut state = new_state();
    let text = receive_notification(
        &mut state,
        Notification::ServerRequest { method: "roots/list".to_string(), params: None, responded: false },
        true,
    );
    assert_eq!(text, "[server→client] roots/list (no handler — replied method-not-found)");
    assert!(state.pending_notifications.is_empty());
}

// ---------------------------------------------------------------------------------------------
// Help
// ---------------------------------------------------------------------------------------------

#[test]
fn full_help_lists_every_section() {
    let step = cmd_help(&vec![]);
    let lines: Vec<String> = step.outputs.iter().map(line_text).collect();
    assert_eq!(lines[0], "MCP Inspector Commands");
    assert!(lines.contains(&"  connect <cmd> [args...]        Connect via stdio transport".to_string()));
    assert!(lines.contains(&"Client Capabilities:".to_string()));
    assert_eq!(lines.last().unwrap(), "Tip: Tab completion works for commands, tool names, resource URIs, and prompt names.");
}

#[test]
fn help_for_one_command() {
    let step = cmd_help(&vec!["call".to_string()]);
    let lines: Vec<String> = step.outputs.iter().map(line_text).collect();
    assert_eq!(lines, vec![
        "call <tool_name> [json_args]",
        "  Execute a tool with optional JSON arguments.",
        "  Example: call read_file {\"path\":\"/tmp/test.txt\"}",
    ]);
    let step = cmd_help(&vec!["tools".to_string()]);
    assert_eq!(line_text(&step.outputs[0]), "No specific help for 'tools'. Type 'help' for all commands.");
}

// ---------------------------------------------------------------------------------------------
// Connections
// ---------------------------------------------------------------------------------------------

#[test]
fn connect_begins_a_stdio_connection() {
    let mut state = new_state();
    let mut handlers = Table::new();
    let step = run(&mut state, &mut handlers, "connect npx -y @modelcontextprotocol/server-filesystem /tmp");
    assert_eq!(line_text(&step.outputs[0]), "Connecting to 'npx'...");
    match step.next {
        Next::Perform(Action::Connect { command, args }) => {
            assert_eq!(command, "npx");
            assert_eq!(args, vec!["-y", "@modelcontextprotocol/server-filesystem", "/tmp"]);
        }
        other => panic!("unexpected step {other:?}"),
    }
    let step = run(&mut state, &mut handlers, "connect");
    assert!(matches!(&step.outputs[0], Output::Error(m) if m == "Usage: connect <command> [args...]"));
}

#[test]
fn connected_session_is_recorded_and_dropped() {
    let mut state = new_state();
    let mut handlers = Table::new();
    let caps = ServerCapabilities { tools: Some(json("{}")), resources: None, prompts: None, logging: None };
    let out = connected_over_stdio(
        &mut state,
        "npx".to_string(),
        vec!["server".to_string()],
        caps,
        &vec![tool("echo"), tool("add")],
        &vec![],
        &vec![],
    );
    assert!(matches!(&out[0], Output::Success(m) if m == "Connected!"));
    assert!(state.is_connected());
    assert_eq!(state.completer_state.tools, vec!["echo", "add"]);
    let status = run(&mut state, &mut handlers, "status");
    let lines: Vec<String> = status.outputs.iter().map(line_text).collect();
    assert_eq!(lines[0], "Status: Connected");
    assert_eq!(lines[1], "Server: mcp-server");
    assert_eq!(lines[2], "Transport: stdio");
    assert_eq!(lines[3], "Command: npx server");
    assert_eq!(lines[5], "Capabilities:");
    assert_eq!(lines[7], "Timeout: 10s");
    let step = run(&mut state, &mut handlers, "connect other");
    assert_eq!(line_text(&step.outputs[0]), "Disconnected.");
    assert!(!state.is_connected());
    assert!(state.completer_state.tools.is_empty());
    assert!(state.capabilities.is_none());
}

#[test]
fn disconnect_without_connection() {
    let mut state = new_state();
    let mut handlers = Table::new();
    let step = run(&mut state, &mut handlers, "disconnect");
    assert!(matches!(&step.outputs[0], Output::Info(m) if m == "Not connected."));
    let step = run(&mut state, &mut handlers, "status");
    assert_eq!(line_text(&step.outputs[0]), "Status: Disconnected");
}

#[test]
fn reconnect_uses_the_last_connection() {
    let mut state = new_state();
    let mut handlers = Table::new();
    let step = run(&mut state, &mut handlers, "reconnect");
    assert!(matches!(&step.outputs[0], Output::Error(m) if m == "No previous stdio connection to reconnect to."));
    connected_over_http(&mut state, "http://localhost:3000/mcp".to_string(), ServerCapabilities::default());
    let step = run(&mut state, &mut handlers, "reconnect");
    assert_eq!(line_text(&step.outputs[0]), "Disconnected.");
    assert_eq!(line_text(&step.outputs[1]), "Connecting to 'http://localhost:3000/mcp'...");
    assert!(matches!(step.next, Next::Perform(Action::ConnectHttp { url }) if url == "http://localhost:3000/mcp"));
    assert_eq!(state.config.transport_type, TransportType::Http);
}

#[test]
fn failure_messages() {
    assert_eq!(stdio_failure_message("boom", "  \n "), "boom");
    assert_eq!(stdio_failure_message("boom", "trace line\n"), "boom\n\nServer stderr:\ntrace line");
    assert_eq!(http_failure_message("refused"), "Initialization failed: refused");
}

// ---------------------------------------------------------------------------------------------
// Requests
// ---------------------------------------------------------------------------------------------

#[test]
fn requests_need_a_connection() {
    let mut state = new_state();
    let mut handlers = Table::new();
    for line in ["tools", "resources", "prompts", "call echo", "read file:///x", "prompt p"] {
        let step = run(&mut state, &mut handlers, line);
        assert_eq!(error_of(&step).as_deref(), Some("Not connected"), "{line}");
    }
    let step = run(&mut state, &mut handlers, "call");
    assert!(matches!(&step.outputs[0], Output::Error(m) if m == "Usage: call <tool_name> [json_args]"));
}

#[test]
fn call_takes_raw_json() {
    let mut state = new_state();
    let mut handlers = Table::new();
    state.connected = true;
    let step = run(&mut state, &mut handlers, r#"call echo {"text": "hi there"}"#);
    match step.next {
        Next::Perform(Action::CallTool { name, arguments }) => {
            assert_eq!(name, "echo");
            assert_eq!(arguments.as_deref(), Some(r#"{"text": "hi there"}"#));
        }
        other => panic!("unexpected step {other:?}"),
    }
    let step = run(&mut state, &mut handlers, "call get_current_time");
    assert!(matches!(step.next, Next::Perform(Action::CallTool { arguments: None, .. })));
}

#[test]
fn listed_tools_are_completed() {
    let mut state = new_state();
    let out = tools_listed(&mut state, &vec![tool("read_file"), tool("write_file"), tool("list")]);
    assert!(matches!(&out[0], Output::Table { header, rows, .. } if header.len() == 3 && rows.len() == 3));
    let c = complete("call re", &state.completer_state);
    assert_eq!(c.prefix, "re");
    assert_eq!(c.candidates, vec!["read_file"]);
    let c = complete("call ", &state.completer_state);
    assert_eq!(c.candidates, vec!["read_file", "write_file", "list"]);
}

#[test]
fn command_names_are_completed() {
    let state = CompleterState::new();
    let c = complete("con", &state);
    assert_eq!(c.prefix, "con");
    assert_eq!(c.candidates, vec!["connect", "connect-http"]);
    let c = complete("", &state);
    assert_eq!(c.candidates.len(), 24);
    let c = complete("status ", &state);
    assert!(c.candidates.is_empty());
    assert_eq!(c.prefix, "");
}

// ---------------------------------------------------------------------------------------------
// Capability handlers
// ---------------------------------------------------------------------------------------------

#[test]
fn cap_set_then_server_request_is_answered() {
    let mut state = new_state();
    let mut handlers = Table::new();
    let line = r#"cap-set roots/list {"roots":[{"uri":"file:///home/user/repos","name":"repos"}]}"#;
    let step = run(&mut state, &mut handlers, line);
    let payload = match step.next {
        Next::Perform(Action::SetHandler { method, payload }) => {
            assert_eq!(method, "roots/list");
            payload
        }
        other => panic!("unexpected step {other:?}"),
    };
    let out = set_handler(&mut handlers, "roots/list", json(&payload), false);
    assert!(matches!(&out[0], Output::Success(m) if m == "Capability handler set for 'roots/list'"));
    let request = json(r#"{"jsonrpc":"2.0","id":42,"method":"roots/list","params":{}}"#);
    match route_message(&request, &handlers) {
        Incoming::ServerRequest { reply, notification } => {
            assert_eq!(reply.to_compact_string(), r#"{"jsonrpc":"2.0","id":42,"result":{"roots":[{"uri":"file:///home/user/repos","name":"repos"}]}}"#);
            assert!(matches!(notification, Notification::ServerRequest { responded: true, .. }));
        }
        other => panic!("unexpected routing {other:?}"),
    }
    let step = run(&mut state, &mut handlers, "cap-remove roots/list");
    assert!(matches!(&step.outputs[0], Output::Success(m) if m == "Removed capability handler for 'roots/list'"));
    match route_message(&request, &handlers) {
        Incoming::ServerRequest { reply, notification } => {
            assert_eq!(reply.to_compact_string(), r#"{"jsonrpc":"2.0","id":42,"error":{"code":-32601,"message":"Method not found"}}"#);
            assert!(matches!(notification, Notification::ServerRequest { responded: false, .. }));
        }
        other => panic!("unexpected routing {other:?}"),
    }
    let step = run(&mut state, &mut handlers, "cap-remove roots/list");
    assert!(matches!(&step.outputs[0], Output::Info(m) if m == "No handler registered for 'roots/list'"));
}

#[test]
fn cap_set_without_json() {
    let mut state = new_state();
    let mut handlers = Table::new();
    let step = run(&mut state, &mut handlers, "cap-set roots/list");
    assert_eq!(error_of(&step).as_deref(), Some("Missing JSON response argument"));
    let step = run(&mut state, &mut handlers, "cap-set");
    assert_eq!(step.outputs.len(), 2);
    let step = run(&mut state, &mut handlers, "cap-list");
    assert_eq!(line_text(&step.outputs[0]), "No client capability handlers configured.");
}

#[test]
fn handlers_are_advertised_by_namespace() {
    let mut handlers = Table::new();
    handlers.insert("sampling/createMessage".to_string(), json("{}"));
    handlers.insert("roots/list".to_string(), json("{}"));
    let params = initialize_params(&handlers);
    assert_eq!(
        params.to_compact_string(),
        r#"{"protocolVersion":"2024-11-05","capabilities":{"roots":{"listChanged":true},"sampling":{}},"clientInfo":{"name":"mcpinspector","version":"0.1.0"}}"#
    );
}

#[test]
fn responses_and_notifications_are_routed() {
    let handlers = Table::new();
    match route_message(&json(r#"{"jsonrpc":"2.0","id":"abc","result":{"tools":[]}}"#), &handlers) {
        Incoming::Response(resp) => {
            assert_eq!(resp.id_text().map(|s| s.as_str()), Some("abc"));
            assert!(resp.result.is_some());
        }
        other => panic!("unexpected routing {other:?}"),
    }
    assert!(matches!(
        route_message(&json(r#"{"jsonrpc":"2.0","method":"notifications/tools/list_changed"}"#), &handlers),
        Incoming::Notification(Notification::ToolListChanged)
    ));
    assert!(matches!(route_message(&json(r#"{"hello":1}"#), &handlers), Incoming::Ignored));
    assert_eq!(
        method_not_found_json(&json(r#""req-1""#)).to_compact_string(),
        r#"{"jsonrpc":"2.0","id":"req-1","error":{"code":-32601,"message":"Method not found"}}"#
    );
}

#[test]
fn request_ids_are_fresh() {
    let a = new_request("tools/list", None);
    let b = new_request("tools/list", None);
    assert_eq!(a.id.len(), 36);
    assert_ne!(a.id, b.id);
    assert_eq!(a.method, "tools/list");
}

#[test]
fn request_error_texts() {
    assert_eq!(RequestError::TimedOut(7).message(), "Request timed out after 7s");
    assert_eq!(
        RequestError::Server { code: -32601, message: "Method not found".to_string() }.message(),
        "Server error -32601: Method not found"
    );
    assert_eq!(RequestError::ServerExited.message(), "Server process exited without responding");
}

// ---------------------------------------------------------------------------------------------
// Display
// ---------------------------------------------------------------------------------------------

#[test]
fn tool_results_are_shown_by_kind() {
    let result = json(r#"{"content":[{"type":"text","text":"hello"},{"type":"image","mimeType":"png","data":"..."},{"type":"audio","x":1},{"text":"untyped"}]}"#);
    let out = print_tool_result(&result);
    assert_eq!(out.len(), 4);
    assert_eq!(line_text(&out[0]), "hello");
    assert_eq!(line_text(&out[1]), "[image/png]");
    assert!(matches!(&out[2], Output::Json(v) if v.to_compact_string() == r#"{"type":"audio","x":1}"#));
    assert_eq!(line_text(&out[3]), "untyped");
    let out = print_tool_result(&json(r#"{"other":true}"#));
    assert!(matches!(&out[0], Output::Json(_)));
}

#[test]
fn resource_results_are_shown() {
    let out = print_resource_result(&json(r#"{"contents":[{"text":"line"},{"blob":"AAEC"},{"uri":"x"}]}"#));
    assert_eq!(out.len(), 2);
    assert_eq!(line_text(&out[0]), "line");
    assert_eq!(line_text(&out[1]), "[binary data: \"AAEC\"]");
    assert!(print_resource_result(&json(r#"{"contents":"odd"}"#)).is_empty());
}

#[test]
fn notifications_are_shown_with_numbers() {
    let notes = vec![
        Notification::Log { level: "warning".to_string(), message: "low".to_string() },
        Notification::ServerRequest {
            method: "roots/list".to_string(),
            params: Some(json(r#"{"a":1}"#)),
            responded: true,
        },
        Notification::Unknown { method: "x/y".to_string(), params: None },
    ];
    let out = print_notifications(&notes);
    assert_eq!(line_text(&out[0]), "[1] warning: low");
    assert!(matches!(&out[0], Output::Line(spans) if spans[2].shade == Shade::Yellow));
    assert_eq!(line_text(&out[1]), "[2] server→client: roots/list params={\"a\":1} — responded");
    assert_eq!(line_text(&out[2]), "[3] x/y ");
    assert_eq!(line_text(&print_notifications(&vec![])[0]), "No notifications.");
}

#[test]
fn prompts_and_messages_are_shown() {
    let prompts = vec![McpPrompt {
        name: "summarize".to_string(),
        description: "Summarize".to_string(),
        arguments: vec![
            McpPromptArgument { name: "topic".to_string(), description: String::new(), required: true },
            McpPromptArgument { name: "style".to_string(), description: String::new(), required: false },
        ],
    }];
    match &print_prompts(&prompts)[0] {
        Output::Table { rows, .. } => assert_eq!(rows[0][2].text, "topic*, style"),
        other => panic!("unexpected output {other:?}"),
    }
    let messages = vec![
        McpPromptMessage { role: "user".to_string(), content: McpContent::Text { text: "hi".to_string() } },
        McpPromptMessage {
            role: "assistant".to_string(),
            content: McpContent::Image { data: "..".to_string(), mime_type: "image/png".to_string() },
        },
    ];
    let out = print_prompt_messages(&messages);
    assert_eq!(out.len(), 4);
    assert_eq!(line_text(&out[0]), "user: hi");
    assert_eq!(line_text(&out[2]), "assistant: [image/image/png]");
    assert_eq!(line_text(&out[3]), "");
}

#[test]
fn capabilities_table_says_yes_and_no() {
    let caps = ServerCapabilities { tools: Some(json("{}")), resources: None, prompts: Some(json("{}")), logging: None };
    match &print_capabilities(&caps)[0] {
        Output::Table { rows, dynamic, .. } => {
            assert!(!dynamic);
            let cells: Vec<(String, String)> = rows.iter().map(|r| (r[0].text.clone(), r[1].text.clone())).collect();
            assert_eq!(cells, vec![
                ("tools".to_string(), "yes".to_string()),
                ("resources".to_string(), "no".to_string()),
                ("prompts".to_string(), "yes".to_string()),
                ("logging".to_string(), "no".to_string()),
            ]);
        }
        other => panic!("unexpected output {other:?}"),
    }
}

// ---------------------------------------------------------------------------------------------
// Event streams
// ---------------------------------------------------------------------------------------------

#[test]
fn event_stream_is_drained_event_by_event() {
    let mut buffer = "event: message\r\ndata: {\"a\":1}\r\n\r\n".to_string();
    assert!(HttpTransport::drain_events(&mut buffer).is_empty());
    let mut buffer = "event: message\ndata: {\"a\":1}\n\ndata: second\n\ndata: partial".to_string();
    let data = HttpTransport::drain_events(&mut buffer);
    assert_eq!(data, vec!["{\"a\":1}", "second"]);
    assert_eq!(buffer, "data: partial");
    assert!(HttpTransport::drain_events(&mut buffer).is_empty());
    buffer.push_str("\n\n");
    assert_eq!(HttpTransport::drain_events(&mut buffer), vec!["partial"]);
    assert_eq!(buffer, "");
}

#[test]
fn event_lines_drop_carriage_returns() {
    let mut buffer = "data: one\r\ndata: two\r\n\n".to_string();
    // the event ends at the first blank line, so its last line keeps a lone carriage return
    assert_eq!(HttpTransport::drain_events(&mut buffer), vec!["one", "two\r"]);
    let mut buffer = "data: one\r\ndata: two\n\n".to_string();
    assert_eq!(HttpTransport::drain_events(&mut buffer), vec!["one", "two"]);
    let mut buffer = "data:no-space\n\n".to_string();
    assert!(HttpTransport::drain_events(&mut buffer).is_empty());
}

// ---------------------------------------------------------------------------------------------
// Start-up flags
// ---------------------------------------------------------------------------------------------

#[test]
fn env_and_header_flags() {
    let mut state = new_state();
    let warnings = apply_env_flags(&mut state.config.env, &vec!["A=1".to_string(), "B".to_string(), "C=x=y".to_string()]);
    assert_eq!(warnings, vec!["Warning: ignoring malformed -e value (expected KEY=VALUE): B"]);
    assert_eq!(state.config.env.get("A").map(|s| s.as_str()), Some("1"));
    assert_eq!(state.config.env.get("C").map(|s| s.as_str()), Some("x=y"));
    let warnings = apply_header_flags(&mut state.config.headers, &vec![" X-Key :  v1 ".to_string(), "bad".to_string()], Some("tok"));
    assert_eq!(warnings.len(), 1);
    assert_eq!(state.config.headers.get("X-Key").map(|s| s.as_str()), Some("v1"));
    assert_eq!(state.config.headers.get("Authorization").map(|s| s.as_str()), Some("Bearer tok"));
}

#[test]
fn server_flag_rules() {
    assert_eq!(check_server_flags(false, true, false), Err("--server requires --mcp-config".to_string()));
    assert_eq!(
        check_server_flags(true, false, true),
        Err("--server is required when using --tool with --mcp-config".to_string())
    );
    assert_eq!(check_server_flags(true, true, false), Ok(true));
    assert_eq!(check_server_flags(false, false, true), Ok(false));
    assert_eq!(batch_not_connected(), "Not connected — use --connect, --connect-http, or --mcp-config with --server");
}

#[test]
fn start_command_from_flags() {
    let state = new_state();
    let c = start_command_for(Some("npx -y server"), None, false, true, &state.config).unwrap();
    assert_eq!(c.line, "connect npx -y server");
    assert!(c.fatal);
    assert!(start_command_for(Some("   "), None, false, false, &state.config).is_none());
    let mut config_state = new_state();
    config_state.config.command = "my server".to_string();
    config_state.config.args = vec!["--dir".to_string(), "/tmp".to_string()];
    let c = start_command_for(None, None, true, false, &config_state.config).unwrap();
    assert_eq!(c.line, "connect 'my server' --dir /tmp");
    assert!(c.fatal);
    assert!(start_command_for(None, None, false, false, &state.config).is_none());
}

// ---------------------------------------------------------------------------------------------
// Configuration files and laws on concrete values
// ---------------------------------------------------------------------------------------------

#[test]
fn servers_are_found_in_a_configuration() {
    let doc = json(r#"{"mcpServers":{"fs":{"command":"npx","args":["-y","server-fs","/tmp"]},"web":{"url":"http://x"}}}"#);
    let servers = mcpi::config::servers_from_document("mcp.json", &doc).unwrap();
    assert_eq!(servers.len(), 2);
    assert!(mcpi::config::find_server(&servers, "fs", "mcp.json").is_ok());
    assert_eq!(
        mcpi::config::find_server(&servers, "nope", "mcp.json").err(),
        Some("Server 'nope' not found in 'mcp.json'".to_string())
    );
    let missing = mcpi::config::servers_from_document("other.json", &json(r#"{"other":{}}"#));
    assert_eq!(missing.err(), Some("'other.json' has no 'mcpServers' object".to_string()));
}

#[test]
fn export_then_apply_gives_the_same_server() {
    let mut state = new_state();
    let mut handlers = Table::new();
    run(&mut state, &mut handlers, "set-name fs");
    run(&mut state, &mut handlers, "set-env KEY val");
    state.config.command = "npx".to_string();
    state.config.args = vec!["-y".to_string(), "server-fs".to_string()];
    let exported = mcpi::config::export_config(&state);
    let entry = exported.get("mcpServers").unwrap().get("fs").unwrap();
    let mut other = new_state();
    mcpi::config::apply_server_entry(&mut other, "fs", entry).unwrap();
    assert_eq!(other.server_name, "fs");
    assert_eq!(other.config.command, "npx");
    assert_eq!(other.config.args, vec!["-y", "server-fs"]);
    assert_eq!(other.config.env.get("KEY").map(|s| s.as_str()), Some("val"));
    assert_eq!(other.config.transport_type, TransportType::Stdio);
}

#[test]
fn table_gives_back_what_was_stored() {
    let mut t: Table<u64> = Table::new();
    assert_eq!(t.insert("a".to_string(), 1), None);
    assert_eq!(t.insert("b".to_string(), 2), None);
    assert_eq!(t.insert("a".to_string(), 3), Some(1));
    assert_eq!(t.get("a"), Some(&3));
    assert_eq!(t.get("b"), Some(&2));
    assert_eq!(t.len(), 2);
    assert_eq!(t.remove("a"), Some(3));
    assert_eq!(t.get("a"), None);
    assert_eq!(t.get("b"), Some(&2));
    let keys: Vec<&str> = t.as_slice().iter().map(|(k, _)| k.as_str()).collect();
    assert_eq!(keys, vec!["b"]);
}

#[test]
fn only_connection_commands_change_the_connection() {
    let mut state = new_state();
    let mut handlers = Table::new();
    connected_over_http(&mut state, "http://localhost:1".to_string(), ServerCapabilities::default());
    for line in ["status", "tools", "set-name x", "set-timeout 3", "log", "history", "help", "cap-list", "bogus"] {
        run(&mut state, &mut handlers, line);
        assert!(state.is_connected(), "{line}");
        assert!(state.capabilities.is_some(), "{line}");
    }
    let step = run(&mut state, &mut handlers, "connect-http http://elsewhere");
    assert!(!state.is_connected());
    assert!(matches!(step.next, Next::Perform(Action::ConnectHttp { .. })));
    let step = run(&mut state, &mut handlers, "disconnect");
    assert!(matches!(&step.outputs[0], Output::Info(m) if m == "Not connected."));
}

#[test]
fn export_command_hands_over_the_configuration() {
    let mut state = new_state();
    let mut handlers = Table::new();
    let step = run(&mut state, &mut handlers, "export out.json");
    match step.next {
        Next::Perform(Action::Export { filename, config }) => {
            assert_eq!(filename.as_deref(), Some("out.json"));
            assert_eq!(config.to_compact_string(), r#"{"mcpServers":{"mcp-server":{"command":"","args":[]}}}"#);
        }
        other => panic!("unexpected step {other:?}"),
    }
    let step = run(&mut state, &mut handlers, "clear");
    assert!(matches!(step.outputs[0], Output::ClearScreen));
}

#[test]
fn response_outcomes() {
    let ok = JsonRpcResponse::from_json(&json(r#"{"jsonrpc":"2.0","id":"1","result":{"x":1}}"#)).unwrap();
    assert!(matches!(response_outcome(ok), Ok(v) if v.to_compact_string() == r#"{"x":1}"#));
    let empty = JsonRpcResponse::from_json(&json(r#"{"jsonrpc":"2.0","id":"1","result":null}"#)).unwrap();
    let e = response_outcome(empty).err().unwrap();
    assert!(matches!(e, RequestError::EmptyResult));
    assert_eq!(e.message(), "Empty result");
    let failed = JsonRpcResponse::from_json(&json(r#"{"jsonrpc":"2.0","id":"1","error":{"code":-1,"message":"bad"}}"#)).unwrap();
    assert_eq!(response_outcome(failed).err().unwrap().message(), "Server error -1: bad");
    let tools = tools_from_result(&json(r#"{"tools":[{"name":"a","inputSchema":{}}]}"#)).unwrap();
    assert_eq!(tools[0].name, "a");
    assert_eq!(tools[0].description, "");
    assert!(tools_from_result(&json(r#"{}"#)).unwrap().is_empty());
    let bad = tools_from_result(&json(r#"{"tools":[{"description":"no name"}]}"#)).err().unwrap();
    assert!(matches!(bad, RequestError::InvalidResult));
    assert_eq!(RequestError::SendFailed.message(), "Transport send failed");
}

#[test]
fn unicode_white_space_separates_words() {
    assert_eq!(raw_json_arg("call\u{a0}echo\u{3000}{\"msg\": \"hello world\"}\u{2028}", 2), Some("{\"msg\": \"hello world\"}"));
    assert_eq!(raw_json_arg(r#"call echo {"msg": "hello world"}"#, 2), Some(r#"{"msg": "hello world"}"#));
    assert_eq!(raw_json_arg("call echo\u{200b}x", 2), None);
}

#[test]
fn request_ids_are_version_four_uuids() {
    let id = new_request("ping", None).id;
    let cs: Vec<char> = id.chars().collect();
    assert_eq!(cs.len(), 36);
    for (i, c) in cs.iter().enumerate() {
        if [8, 13, 18, 23].contains(&i) {
            assert_eq!(*c, '-');
        } else {
            assert!(c.is_ascii_hexdigit() && !c.is_ascii_uppercase());
        }
    }
    assert_eq!(cs[14], '4');
    assert!(['8', '9', 'a', 'b'].contains(&cs[19]));
}

#[test]
fn requests_carry_their_methods() {
    let r = mcpi::client::call_tool_request("echo", None);
    assert_eq!(r.method, "tools/call");
    assert_eq!(r.to_json().get("params").unwrap().to_compact_string(), r#"{"name":"echo","arguments":{}}"#);
    assert_eq!(mcpi::client::list_resource_templates_request().method, "resources/templates/list");
    assert_eq!(mcpi::client::read_resource_request("file:///a").to_json().get("params").unwrap().to_compact_string(), r#"{"uri":"file:///a"}"#);
    let handlers: CapabilityHandlers = Table::new();
    assert_eq!(mcpi::client::initialize_request(&handlers).method, "initialize");
}

#[test]
fn responses_find_their_waiters() {
    let mut pending: Table<u32> = Table::new();
    pending.insert("abc".to_string(), 7);
    let other = JsonRpcResponse::from_json(&json(r#"{"jsonrpc":"2.0","id":5,"result":{}}"#)).unwrap();
    assert_eq!(mcpi::client::take_waiter(&mut pending, &other), None);
    assert_eq!(pending.len(), 1);
    let resp = JsonRpcResponse::from_json(&json(r#"{"jsonrpc":"2.0","id":"abc","result":{}}"#)).unwrap();
    assert_eq!(mcpi::client::take_waiter(&mut pending, &resp), Some(7));
    assert!(pending.is_empty());
    assert_eq!(mcpi::client::take_waiter(&mut pending, &resp), None);
}
