use agent_session::adapter::CliProfile;
use agent_session::command::{parse_cursor_args, CliSpawnConfig};
use agent_session::json::{parse_json, Json};
use agent_session::profile::{
    extract_cursor_session_id, extract_gemini_session_id, extract_session_id_from_line,
    extract_tool_name_from_cursor_event, parse_cursor_stream_line, parse_gemini_stream_line,
    parse_stream_json_line,
};

fn method(ev: &Json) -> Option<&str> {
    ev.get("method").and_then(|v| v.as_str())
}

fn param<'a>(ev: &'a Json, key: &str) -> Option<&'a Json> {
    ev.get("params").and_then(|p| p.get(key))
}

fn config(bin: &str) -> CliSpawnConfig {
    CliSpawnConfig {
        cli_type: bin.to_string(),
        cli_bin: Some(bin.to_string()),
        cli_args: None,
        cli_home: None,
    }
}

#[test]
fn build_claude_command_basic() {
    let result = CliProfile::ContentBlocks.build_turn_command(&config("blocks"), None, "hello world", "/tmp");
    assert!(result.is_ok());
    let c = result.unwrap();
    assert_eq!(c.program, "blocks");
    assert_eq!(c.args, vec!["-p", "--output-format", "stream-json", "--verbose", "hello world"]);
    assert_eq!(c.cwd, "/tmp");
}

#[test]
fn build_claude_command_with_resume() {
    let result = CliProfile::ContentBlocks.build_turn_command(&config("blocks"), Some("session-123"), "hello", "/tmp");
    assert!(result.is_ok());
    let c = result.unwrap();
    assert_eq!(
        c.args,
        vec!["-p", "--output-format", "stream-json", "--verbose", "--resume", "session-123", "hello"]
    );
}

#[test]
fn build_cursor_command_basic() {
    let result = CliProfile::Cursor.build_turn_command(&config("cursor"), None, "hello", "/tmp");
    assert!(result.is_ok());
    assert_eq!(result.unwrap().args, vec!["-p", "--output-format", "stream-json", "hello"]);
}

#[test]
fn build_cursor_command_with_resume() {
    let result = CliProfile::Cursor.build_turn_command(&config("cursor"), Some("sess-1"), "hello", "/tmp");
    assert!(result.is_ok());
    assert_eq!(
        result.unwrap().args,
        vec!["-p", "--output-format", "stream-json", "--resume", "sess-1", "hello"]
    );
}

#[test]
fn build_gemini_command_basic() {
    let result = CliProfile::Gemini.build_turn_command(&config("gemini"), None, "hello", "/tmp");
    assert!(result.is_ok());
    assert_eq!(result.unwrap().args, vec!["--output-format", "stream-json", "-p", "hello"]);
}

#[test]
fn build_gemini_command_with_resume() {
    let result = CliProfile::Gemini.build_turn_command(&config("gemini"), Some("sess-1"), "hello", "/tmp");
    assert!(result.is_ok());
    assert_eq!(
        result.unwrap().args,
        vec!["--output-format", "stream-json", "-p", "--resume", "sess-1", "hello"]
    );
}

#[test]
fn build_command_with_home_and_extra_args() {
    let cfg = CliSpawnConfig {
        cli_type: "gemini".to_string(),
        cli_bin: Some("  ".to_string()),
        cli_args: Some(" --profile 'a b' ".to_string()),
        cli_home: Some("/home/g".to_string()),
    };
    let c = CliProfile::Gemini.build_turn_command(&cfg, None, "hi", "/w").unwrap();
    assert_eq!(c.program, "codex");
    assert_eq!(c.args, vec!["--profile", "a b", "--output-format", "stream-json", "-p", "hi"]);
    assert_eq!(c.env, vec![("GEMINI_HOME".to_string(), "/home/g".to_string())]);
}

#[test]
fn build_command_with_unclosed_quote_fails() {
    let cfg = CliSpawnConfig {
        cli_type: "blocks".to_string(),
        cli_bin: None,
        cli_args: Some("--x \"open".to_string()),
        cli_home: None,
    };
    assert_eq!(
        CliProfile::ContentBlocks.build_turn_command(&cfg, None, "hi", "/w").unwrap_err(),
        "missing closing quote"
    );
}

#[test]
fn parse_stream_json_init() {
    let line = r#"{"type":"system","subtype":"init","session_id":"s1","tools":[],"model":"m-4"}"#;
    let event = parse_stream_json_line(line, "t1", "turn1");
    assert!(event.is_some());
    let event = event.unwrap();
    assert_eq!(method(&event), Some("turn/started"));
}

#[test]
fn parse_stream_json_text_delta() {
    let line = r#"{"type":"content_block_delta","index":0,"delta":{"type":"text_delta","text":"hello"}}"#;
    let event = parse_stream_json_line(line, "t1", "turn1");
    assert!(event.is_some());
    let event = event.unwrap();
    assert_eq!(method(&event), Some("item/agentMessage/delta"));
    assert_eq!(param(&event, "delta").and_then(|d| d.as_str()), Some("hello"));
    assert_eq!(param(&event, "itemId").and_then(|d| d.as_str()), Some("msg_turn1"));
}

#[test]
fn parse_stream_json_tool_use_start() {
    let line = r#"{"type":"content_block_start","content_block":{"type":"tool_use","name":"Read","id":"tool-1"}}"#;
    let event = parse_stream_json_line(line, "t1", "turn1");
    assert!(event.is_some());
    let event = event.unwrap();
    assert_eq!(method(&event), Some("item/started"));
    let item = param(&event, "item").unwrap();
    assert_eq!(item.get("id").and_then(|i| i.as_str()), Some("tool-1"));
    assert_eq!(item.get("name").and_then(|n| n.as_str()), Some("Read"));
}

#[test]
fn parse_stream_json_tool_input_delta() {
    let line = r#"{"type":"content_block_delta","index":1,"delta":{"type":"input_json_delta","partial_json":"{\"path\":"}}"#;
    let event = parse_stream_json_line(line, "t1", "turn1");
    assert!(event.is_none());
}

#[test]
fn parse_stream_json_tool_result() {
    let line = r#"{"type":"tool_result","tool_use_id":"tool-1","content":"done"}"#;
    let event = parse_stream_json_line(line, "t1", "turn1");
    assert!(event.is_some());
    let event = event.unwrap();
    assert_eq!(method(&event), Some("item/completed"));
    let item = param(&event, "item").unwrap();
    assert_eq!(item.get("id").and_then(|i| i.as_str()), Some("tool-1"));
}

#[test]
fn parse_stream_json_result() {
    let line = r#"{"type":"result","subtype":"success","cost_usd":0.05,"duration_ms":1200,"session_id":"s1"}"#;
    let event = parse_stream_json_line(line, "t1", "turn1");
    assert!(event.is_some());
    let event = event.unwrap();
    assert_eq!(method(&event), Some("turn/completed"));
    assert_eq!(param(&event, "durationMs").and_then(|d| d.as_number_text()), Some("1200"));
    assert_eq!(param(&event, "costUsd").and_then(|d| d.as_number_text()), Some("0.05"));
}

#[test]
fn parse_stream_json_unknown_type() {
    let line = r#"{"type":"unknown_event"}"#;
    let event = parse_stream_json_line(line, "t1", "turn1");
    assert!(event.is_none());
}

#[test]
fn parse_stream_json_not_json() {
    assert!(parse_stream_json_line("not json at all", "t1", "turn1").is_none());
    assert!(parse_stream_json_line("", "t1", "turn1").is_none());
}

#[test]
fn extract_session_id_from_init_line() {
    let line = r#"{"type":"system","subtype":"init","session_id":"abc-123","tools":[]}"#;
    assert_eq!(extract_session_id_from_line(line), Some("abc-123".to_string()));
}

#[test]
fn extract_session_id_from_non_init_line() {
    let line = r#"{"type":"content_block_delta","delta":{"type":"text_delta","text":"hi"}}"#;
    assert_eq!(extract_session_id_from_line(line), None);
}

#[test]
fn parse_system_init() {
    let line = r#"{"type":"system","subtype":"init","session_id":"cs-1"}"#;
    let event = parse_cursor_stream_line(line, "t1", "turn1").unwrap();
    assert_eq!(method(&event), Some("turn/started"));
}

#[test]
fn parse_system_non_init_is_dropped() {
    let line = r#"{"type":"system","subtype":"config","data":{}}"#;
    assert!(parse_cursor_stream_line(line, "t1", "turn1").is_none());
}

#[test]
fn cursor_adapter_parse_assistant_message() {
    let line = r#"{"type":"assistant","message":{"content":[{"text":"Hello world"}]}}"#;
    let event = parse_cursor_stream_line(line, "t1", "turn1").unwrap();
    assert_eq!(method(&event), Some("item/agentMessage/delta"));
    assert_eq!(param(&event, "delta").and_then(|d| d.as_str()), Some("Hello world"));
    assert!(param(&event, "itemId").is_some());
}

#[test]
fn parse_assistant_message_empty_content_is_dropped() {
    let line = r#"{"type":"assistant","message":{"content":[]}}"#;
    assert!(parse_cursor_stream_line(line, "t1", "turn1").is_none());
}

#[test]
fn parse_tool_call_started() {
    let line = r#"{"type":"tool_call","subtype":"started","call_id":"c1","ReadToolCall":{"path":"test.rs"}}"#;
    let event = parse_cursor_stream_line(line, "t1", "turn1").unwrap();
    assert_eq!(method(&event), Some("item/started"));
    let item = param(&event, "item").unwrap();
    assert_eq!(item.get("id").and_then(|i| i.as_str()), Some("c1"));
    assert_eq!(item.get("name").and_then(|n| n.as_str()), Some("Read"));
}

#[test]
fn parse_tool_call_completed() {
    let line = r#"{"type":"tool_call","subtype":"completed","call_id":"c1"}"#;
    let event = parse_cursor_stream_line(line, "t1", "turn1").unwrap();
    assert_eq!(method(&event), Some("item/completed"));
}

#[test]
fn cursor_adapter_parse_result_event() {
    let line = r#"{"type":"result","duration_ms":1500}"#;
    let event = parse_cursor_stream_line(line, "t1", "turn1").unwrap();
    assert_eq!(method(&event), Some("turn/completed"));
    assert_eq!(
        param(&event, "durationMs")
            .and_then(|d| d.as_number_text())
            .and_then(|t| t.parse::<u64>().ok()),
        Some(1500)
    );
}

#[test]
fn cursor_adapter_parse_unknown_event() {
    let line = r#"{"type":"internal_debug","data":{}}"#;
    assert!(parse_cursor_stream_line(line, "t1", "turn1").is_none());
}

#[test]
fn cursor_adapter_extract_session_id_from_init() {
    let line = r#"{"type":"system","subtype":"init","session_id":"cs-42"}"#;
    assert_eq!(extract_cursor_session_id(line), Some("cs-42".to_string()));
}

#[test]
fn cursor_adapter_extract_session_id_from_non_init() {
    let line = r#"{"type":"assistant","message":{"content":[{"text":"hi"}]}}"#;
    assert_eq!(extract_cursor_session_id(line), None);
}

#[test]
fn extract_tool_name_from_tool_call_key() {
    let event = parse_json(r#"{"type":"tool_call","subtype":"started","call_id":"c1","EditToolCall":{"path":"x"}}"#)
        .unwrap();
    assert_eq!(extract_tool_name_from_cursor_event(&event), "Edit");
}

#[test]
fn extract_tool_name_fallback() {
    let event = parse_json(r#"{"type":"tool_call","subtype":"started","call_id":"c1","tool_name":"Bash"}"#).unwrap();
    assert_eq!(extract_tool_name_from_cursor_event(&event), "Bash");
}

#[test]
fn extract_tool_name_default_is_tool() {
    let event = parse_json(r#"{"type":"tool_call","subtype":"started","call_id":"c1"}"#).unwrap();
    assert_eq!(extract_tool_name_from_cursor_event(&event), "tool");
}

const SUPPORTED_METHODS: &[&str] = &[
    "item/agentMessage/delta",
    "item/completed",
    "item/started",
    "turn/completed",
    "turn/started",
];

#[test]
fn cursor_adapter_all_emitted_methods_are_supported_by_frontend() {
    let test_lines = vec![
        r#"{"type":"system","subtype":"init","session_id":"s1"}"#,
        r#"{"type":"assistant","message":{"content":[{"text":"hi"}]}}"#,
        r#"{"type":"tool_call","subtype":"started","call_id":"c1","ReadToolCall":{}}"#,
        r#"{"type":"tool_call","subtype":"completed","call_id":"c1"}"#,
        r#"{"type":"result","duration_ms":100}"#,
    ];
    for line in test_lines {
        if let Some(event) = parse_cursor_stream_line(line, "thread1", "turn1") {
            let m = method(&event).unwrap();
            assert!(SUPPORTED_METHODS.contains(&m), "Emitted method '{m}' is not supported");
        }
    }
}

#[test]
fn parse_init_event() {
    let line = r#"{"type":"init","session_id":"gs-1","model":"gemini-2.5-flash"}"#;
    let event = parse_gemini_stream_line(line, "t1", "turn1").unwrap();
    assert_eq!(method(&event), Some("turn/started"));
}

#[test]
fn gemini_adapter_parse_assistant_message() {
    let line = r#"{"type":"message","role":"assistant","content":"Hello!","delta":true}"#;
    let event = parse_gemini_stream_line(line, "t1", "turn1").unwrap();
    assert_eq!(method(&event), Some("item/agentMessage/delta"));
    assert_eq!(param(&event, "delta").and_then(|d| d.as_str()), Some("Hello!"));
    assert!(param(&event, "itemId").is_some());
}

#[test]
fn parse_user_message_is_dropped() {
    let line = r#"{"type":"message","role":"user","content":"hi","delta":true}"#;
    assert!(parse_gemini_stream_line(line, "t1", "turn1").is_none());
}

#[test]
fn parse_tool_use_event() {
    let line = r#"{"type":"tool_use","tool_name":"ReadFile","tool_id":"tu-1"}"#;
    let event = parse_gemini_stream_line(line, "t1", "turn1").unwrap();
    assert_eq!(method(&event), Some("item/started"));
    let item = param(&event, "item").unwrap();
    assert_eq!(item.get("name").and_then(|n| n.as_str()), Some("ReadFile"));
    assert_eq!(item.get("id").and_then(|i| i.as_str()), Some("tu-1"));
}

#[test]
fn parse_tool_result_event() {
    let line = r#"{"type":"tool_result","tool_id":"tu-1","status":"success"}"#;
    let event = parse_gemini_stream_line(line, "t1", "turn1").unwrap();
    assert_eq!(method(&event), Some("item/completed"));
}

#[test]
fn gemini_adapter_parse_result_event() {
    let line = r#"{"type":"result","status":"success","stats":{"duration_ms":500}}"#;
    let event = parse_gemini_stream_line(line, "t1", "turn1").unwrap();
    assert_eq!(method(&event), Some("turn/completed"));
    assert_eq!(param(&event, "durationMs").and_then(|d| d.as_number_text()), Some("500"));
}

#[test]
fn gemini_adapter_parse_unknown_event() {
    let line = r#"{"type":"debug","msg":"internal"}"#;
    assert!(parse_gemini_stream_line(line, "t1", "turn1").is_none());
}

#[test]
fn gemini_adapter_extract_session_id_from_init() {
    let line = r#"{"type":"init","session_id":"gs-42","model":"gemini-2.5-pro"}"#;
    assert_eq!(extract_gemini_session_id(line), Some("gs-42".to_string()));
}

#[test]
fn gemini_adapter_extract_session_id_from_non_init() {
    let line = r#"{"type":"message","role":"assistant","content":"hi"}"#;
    assert_eq!(extract_gemini_session_id(line), None);
}

#[test]
fn gemini_adapter_all_emitted_methods_are_supported_by_frontend() {
    let test_lines = vec![
        r#"{"type":"init","session_id":"s1","model":"gemini-2.5-flash"}"#,
        r#"{"type":"message","role":"assistant","content":"hi","delta":true}"#,
        r#"{"type":"tool_use","tool_name":"Read","tool_id":"t1"}"#,
        r#"{"type":"tool_result","tool_id":"t1","status":"success"}"#,
        r#"{"type":"result","status":"success","stats":{"duration_ms":100}}"#,
    ];
    for line in test_lines {
        if let Some(event) = parse_gemini_stream_line(line, "thread1", "turn1") {
            let m = method(&event).unwrap();
            assert!(SUPPORTED_METHODS.contains(&m), "Emitted method '{m}' is not supported");
        }
    }
}

#[test]
fn parses_empty_args() {
    assert!(parse_cursor_args(None).expect("parse none").is_empty());
    assert!(parse_cursor_args(Some("   ")).expect("parse blanks").is_empty());
}

#[test]
fn parses_simple_args() {
    let args = parse_cursor_args(Some("--profile personal --flag")).expect("parse args");
    assert_eq!(args, vec!["--profile", "personal", "--flag"]);
}

#[test]
fn parses_quoted_args() {
    let args = parse_cursor_args(Some("--path \"a b\" --name='c d'")).expect("parse args");
    assert_eq!(args, vec!["--path", "a b", "--name=c d"]);
}

#[test]
fn parses_unclosed_quote_is_an_error() {
    assert_eq!(
        parse_cursor_args(Some("--path \"a b")).unwrap_err(),
        "Invalid Cursor args: missing closing quote"
    );
}
