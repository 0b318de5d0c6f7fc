use mcpi::config::{
    apply_server_entry, export_config, CompleterState, ConnectionConfig, ReplState, TransportType,
};
use mcpi::display::{extract_schema_keys, print_resource_templates, print_tools};
use mcpi::json::JsonValue;
use mcpi::protocol::{
    FromJson, JsonRpcNotification, JsonRpcRequest, JsonRpcResponse, McpResourceTemplate, McpTool, Notification,
    ServerCapabilities,
};

fn to_value(v: &serde_json::Value) -> JsonValue {
    match v {
        serde_json::Value::Null => JsonValue::Null,
        serde_json::Value::Bool(b) => JsonValue::Bool(*b),
        serde_json::Value::Number(n) => JsonValue::Number(n.to_string()),
        serde_json::Value::String(s) => JsonValue::Str(s.clone()),
        serde_json::Value::Array(a) => JsonValue::Array(a.iter().map(to_value).collect()),
        serde_json::Value::Object(o) => {
            JsonValue::Object(o.iter().map(|(k, v)| (k.clone(), to_value(v))).collect())
        }
    }
}

fn json(text: &str) -> JsonValue {
    to_value(&serde_json::from_str::<serde_json::Value>(text).unwrap())
}

fn text_of(v: Option<&JsonValue>) -> Option<&str> {
    v.and_then(|x| x.as_str()).map(|s| s.as_str())
}

fn make_state() -> ReplState {
    ReplState::new(CompleterState::new())
}

fn server_entry(v: &JsonValue, name: &str) -> Option<JsonValue> {
    v.get("mcpServers").and_then(|s| s.get(name)).map(|e| e.duplicate())
}

#[test]
fn export_config_stdio_no_env() {
    let state = make_state();
    let v = export_config(&state);
    let entry = server_entry(&v, "mcp-server").unwrap();
    assert!(entry.get("command").is_some());
    assert!(entry.get("args").is_some());
    assert!(entry.get("env").is_none());
}

#[test]
fn export_config_stdio_with_env() {
    let mut state = make_state();
    state.config.env.insert("MY_VAR".to_string(), "val".to_string());
    let v = export_config(&state);
    let entry = server_entry(&v, "mcp-server").unwrap();
    assert!(entry.get("env").is_some());
    assert_eq!(text_of(entry.get("env").unwrap().get("MY_VAR")), Some("val"));
}

#[test]
fn export_config_http_no_env() {
    let mut state = make_state();
    state.config.transport_type = TransportType::Http;
    state.config.url = "http://localhost:3000".to_string();
    let v = export_config(&state);
    let entry = server_entry(&v, "mcp-server").unwrap();
    assert!(entry.get("url").is_some());
    assert!(entry.get("command").is_none());
    assert!(entry.get("env").is_none());
    assert!(entry.get("headers").is_none());
}

#[test]
fn export_config_http_with_env() {
    let mut state = make_state();
    state.config.transport_type = TransportType::Http;
    state.config.url = "http://localhost:3000".to_string();
    state.config.env.insert("API_KEY".to_string(), "secret".to_string());
    let v = export_config(&state);
    let entry = server_entry(&v, "mcp-server").unwrap();
    assert!(entry.get("env").is_some());
    assert_eq!(text_of(entry.get("env").unwrap().get("API_KEY")), Some("secret"));
}

#[test]
fn export_config_http_with_headers() {
    let mut state = make_state();
    state.config.transport_type = TransportType::Http;
    state.config.url = "http://localhost:3000".to_string();
    state.config.headers.insert("X-Custom".to_string(), "value".to_string());
    let v = export_config(&state);
    let entry = server_entry(&v, "mcp-server").unwrap();
    assert!(entry.get("headers").is_some());
    assert_eq!(text_of(entry.get("headers").unwrap().get("X-Custom")), Some("value"));
}

#[test]
fn export_config_uses_server_name_as_key() {
    let mut state = make_state();
    state.server_name = "my-custom-server".to_string();
    let v = export_config(&state);
    assert!(v.get("mcpServers").unwrap().get("my-custom-server").is_some());
    assert!(v.get("mcpServers").unwrap().get("mcp-server").is_none());
}

#[test]
fn connection_config_default_values() {
    let cfg = ConnectionConfig::default();
    assert_eq!(cfg.transport_type, TransportType::Stdio);
    assert!(cfg.command.is_empty());
    assert!(cfg.args.is_empty());
    assert!(cfg.env.is_empty());
    assert!(cfg.url.is_empty());
    assert!(cfg.headers.is_empty());
}

#[test]
fn repl_state_is_connected_false() {
    let state = make_state();
    assert!(!state.is_connected());
}

#[test]
fn repl_state_is_connected_true() {
    let mut state = make_state();
    mcpi::commands::connected_over_http(&mut state, "http://localhost:10".to_string(), ServerCapabilities::default());
    assert!(state.is_connected());
}

#[test]
fn completer_state_new_empty() {
    let cs = CompleterState::new();
    assert!(cs.tools.is_empty());
    assert!(cs.resources.is_empty());
    assert!(cs.prompts.is_empty());
}

#[test]
fn apply_server_entry_stdio() {
    let mut state = make_state();
    let entry = json(r#"{"command": "npx", "args": ["-y", "server-fs", "/tmp"], "env": {"KEY": "val"}}"#);
    apply_server_entry(&mut state, "myserver", &entry).unwrap();
    assert_eq!(state.server_name, "myserver");
    assert_eq!(state.config.transport_type, TransportType::Stdio);
    assert_eq!(state.config.command, "npx");
    assert_eq!(state.config.args, vec!["-y", "server-fs", "/tmp"]);
    assert_eq!(state.config.env.get("KEY").map(|s| s.as_str()), Some("val"));
}

#[test]
fn apply_server_entry_http() {
    let mut state = make_state();
    let entry = json(r#"{"url": "http://localhost:3000/mcp", "headers": {"Authorization": "Bearer tok"}}"#);
    apply_server_entry(&mut state, "httpserver", &entry).unwrap();
    assert_eq!(state.server_name, "httpserver");
    assert_eq!(state.config.transport_type, TransportType::Http);
    assert_eq!(state.config.url, "http://localhost:3000/mcp");
    assert_eq!(state.config.headers.get("Authorization").map(|s| s.as_str()), Some("Bearer tok"));
}

#[test]
fn apply_server_entry_missing_command_and_url() {
    let mut state = make_state();
    let entry = json(r#"{"env": {"X": "1"}}"#);
    assert!(apply_server_entry(&mut state, "bad", &entry).is_err());
}

#[test]
fn extract_schema_keys_with_properties() {
    let schema = json(r#"{"properties": {"a": {}, "b": {}}}"#);
    let keys = extract_schema_keys(&schema);
    assert!(keys.contains('a'));
    assert!(keys.contains('b'));
    assert!(keys.contains(", "));
}

#[test]
fn extract_schema_keys_no_properties_key() {
    let schema = json(r#"{"type": "object"}"#);
    assert_eq!(extract_schema_keys(&schema), "");
}

#[test]
fn extract_schema_keys_empty_properties() {
    let schema = json(r#"{"properties": {}}"#);
    assert_eq!(extract_schema_keys(&schema), "");
}

#[test]
fn print_tools_empty_no_panic() {
    print_tools(&vec![]);
}

#[test]
fn print_resource_templates_empty_no_panic() {
    print_resource_templates(&vec![]);
}

#[test]
fn print_resource_templates_with_entries_no_panic() {
    let templates = vec![
        McpResourceTemplate {
            uri_template: "weather://{location}".to_string(),
            name: "Weather".to_string(),
            mime_type: "text/plain".to_string(),
            description: "Weather data".to_string(),
        },
        McpResourceTemplate {
            uri_template: "file://{path}".to_string(),
            name: String::new(),
            mime_type: String::new(),
            description: String::new(),
        },
    ];
    print_resource_templates(&templates);
}

#[test]
fn mcp_resource_template_deserialization() {
    let v = json(r#"{"uriTemplate":"weather://{location}","name":"Weather","mimeType":"text/plain","description":"Weather data"}"#);
    let t = McpResourceTemplate::from_json(&v).unwrap();
    assert_eq!(t.uri_template, "weather://{location}");
    assert_eq!(t.name, "Weather");
    assert_eq!(t.mime_type, "text/plain");
}

#[test]
fn mcp_resource_template_defaults() {
    let v = json(r#"{"uriTemplate":"foo://{id}"}"#);
    let t = McpResourceTemplate::from_json(&v).unwrap();
    assert_eq!(t.uri_template, "foo://{id}");
    assert!(t.name.is_empty());
    assert!(t.mime_type.is_empty());
    assert!(t.description.is_empty());
}

#[test]
fn notification_log_message() {
    let notif = JsonRpcNotification {
        jsonrpc: "2.0".to_string(),
        method: "notifications/message".to_string(),
        params: Some(json(r#"{"level": "error", "data": "something went wrong"}"#)),
    };
    match Notification::from_jsonrpc(&notif) {
        Notification::Log { level, message } => {
            assert_eq!(level, "error");
            assert!(message.contains("something went wrong"));
        }
        _ => panic!("Expected Notification::Log"),
    }
}

#[test]
fn notification_log_missing_params() {
    let notif = JsonRpcNotification {
        jsonrpc: "2.0".to_string(),
        method: "notifications/message".to_string(),
        params: None,
    };
    assert!(matches!(Notification::from_jsonrpc(&notif), Notification::Unknown { .. }));
}

#[test]
fn notification_tools_list_changed() {
    let notif = JsonRpcNotification {
        jsonrpc: "2.0".to_string(),
        method: "notifications/tools/list_changed".to_string(),
        params: None,
    };
    assert!(matches!(Notification::from_jsonrpc(&notif), Notification::ToolListChanged));
}

#[test]
fn notification_resources_list_changed() {
    let notif = JsonRpcNotification {
        jsonrpc: "2.0".to_string(),
        method: "notifications/resources/list_changed".to_string(),
        params: None,
    };
    assert!(matches!(Notification::from_jsonrpc(&notif), Notification::ResourceListChanged));
}

#[test]
fn notification_prompts_list_changed() {
    let notif = JsonRpcNotification {
        jsonrpc: "2.0".to_string(),
        method: "notifications/prompts/list_changed".to_string(),
        params: None,
    };
    assert!(matches!(Notification::from_jsonrpc(&notif), Notification::PromptListChanged));
}

#[test]
fn notification_unknown_method() {
    let notif = JsonRpcNotification {
        jsonrpc: "2.0".to_string(),
        method: "notifications/custom/event".to_string(),
        params: Some(json(r#"{"key": "value"}"#)),
    };
    match Notification::from_jsonrpc(&notif) {
        Notification::Unknown { method, .. } => {
            assert_eq!(method, "notifications/custom/event");
        }
        _ => panic!("Expected Notification::Unknown"),
    }
}

#[test]
fn jsonrpc_request_serde_roundtrip() {
    let req = JsonRpcRequest {
        jsonrpc: "2.0".to_string(),
        id: "test-id".to_string(),
        method: "tools/list".to_string(),
        params: None,
    };
    let val = req.to_json();
    assert_eq!(text_of(val.get("jsonrpc")), Some("2.0"));
    assert_eq!(text_of(val.get("id")), Some("test-id"));
    assert_eq!(text_of(val.get("method")), Some("tools/list"));
    // params is left out when there are none
    assert!(val.get("params").is_none());
}

#[test]
fn jsonrpc_response_error_deserialization() {
    let v = json(r#"{"jsonrpc":"2.0","id":"1","result":null,"error":{"code":-32601,"message":"Method not found","data":null}}"#);
    let resp = JsonRpcResponse::from_json(&v).unwrap();
    assert!(resp.error.is_some());
    let err = resp.error.unwrap();
    assert_eq!(err.code, -32601);
    assert_eq!(err.message, "Method not found");
}

#[test]
fn mcp_tool_input_schema_rename() {
    let v = json(r#"{"name":"my_tool","description":"A tool","inputSchema":{"type":"object","properties":{"x":{}}}}"#);
    let tool = McpTool::from_json(&v).unwrap();
    assert_eq!(tool.name, "my_tool");
    assert_eq!(text_of(tool.input_schema.get("type")), Some("object"));
    assert!(tool.input_schema.get("properties").unwrap().get("x").is_some());
}

#[test]
fn server_capabilities_default_all_none() {
    let caps = ServerCapabilities::default();
    assert!(caps.tools.is_none());
    assert!(caps.resources.is_none());
    assert!(caps.prompts.is_none());
    assert!(caps.logging.is_none());
}
