use agent_session::compat::{chunk_output, output_preview, CompatibleSessionState};
use agent_session::json::{parse_json, Json};
use agent_session::workspace::{compatible_exit_result, probe_failure_message, select_mode, ProbeFailure, SessionMode};
use agent_session::rpc::{
    build_compatible_cli_invocation, build_initialize_params, classify_rpc_line, extract_thread_id,
    extract_user_text_from_turn_input, RpcLine,
};

fn p(text: &str) -> Json {
    parse_json(text).unwrap()
}

#[test]
fn extract_thread_id_reads_camel_case() {
    let value = p(r#"{ "params": { "threadId": "thread-123" } }"#);
    assert_eq!(extract_thread_id(&value), Some("thread-123".to_string()));
}

#[test]
fn extract_thread_id_reads_snake_case() {
    let value = p(r#"{ "params": { "thread_id": "thread-456" } }"#);
    assert_eq!(extract_thread_id(&value), Some("thread-456".to_string()));
}

#[test]
fn extract_thread_id_returns_none_when_missing() {
    let value = p(r#"{ "params": {} }"#);
    assert_eq!(extract_thread_id(&value), None);
}

#[test]
fn extract_thread_id_reads_nested_thread() {
    let value = p(r#"{ "params": { "thread": { "id": "thread-789" } } }"#);
    assert_eq!(extract_thread_id(&value), Some("thread-789".to_string()));
}

#[test]
fn build_initialize_params_enables_experimental_api() {
    let params = build_initialize_params("1.2.3");
    assert!(matches!(
        params.get("capabilities").and_then(|caps| caps.get("experimentalApi")),
        Some(Json::Bool(true))
    ));
    assert_eq!(
        params.get("clientInfo").and_then(|c| c.get("version")).and_then(|v| v.as_str()),
        Some("1.2.3")
    );
}

#[test]
fn compatible_cli_invocation_replaces_prompt_template() {
    let (args, use_stdin_prompt) =
        build_compatible_cli_invocation(&vec!["-p".to_string(), "{prompt}".to_string()], "hello");
    assert_eq!(args, vec!["-p".to_string(), "hello".to_string()]);
    assert!(!use_stdin_prompt);
}

#[test]
fn compatible_cli_invocation_falls_back_to_stdin() {
    let (args, use_stdin_prompt) =
        build_compatible_cli_invocation(&vec!["--format".to_string(), "text".to_string()], "hello");
    assert_eq!(args, vec!["--format".to_string(), "text".to_string()]);
    assert!(use_stdin_prompt);
}

#[test]
fn compatible_cli_invocation_replaces_every_occurrence() {
    let (args, use_stdin_prompt) =
        build_compatible_cli_invocation(&vec!["--q={prompt}/{prompt}".to_string()], "x");
    assert_eq!(args, vec!["--q=x/x".to_string()]);
    assert!(!use_stdin_prompt);
}

#[test]
fn extracts_user_text_from_turn_input_items() {
    let params = p(r#"{
        "input": [
            { "type": "text", "text": " first " },
            { "type": "localImage", "path": "/tmp/example.png" },
            { "type": "text", "text": "second" }
        ]
    }"#);
    assert_eq!(extract_user_text_from_turn_input(&params), Some("first\n\nsecond".to_string()));
    assert_eq!(extract_user_text_from_turn_input(&p(r#"{"input": [{"type": "text", "text": "  "}]}"#)), None);
}

#[test]
fn classifies_transport_lines() {
    assert!(matches!(classify_rpc_line("   "), RpcLine::Blank));
    assert!(matches!(classify_rpc_line("{oops"), RpcLine::Unparsable(_)));
    assert!(matches!(classify_rpc_line(r#"{"id": 7, "result": {}}"#), RpcLine::Response(7, _)));
    match classify_rpc_line(r#"{"id": 3, "method": "item/tool/requestApproval", "params": {"threadId": "t9"}}"#) {
        RpcLine::Notification(Some(t), _) => assert_eq!(t, "t9"),
        other => panic!("unexpected {other:?}"),
    }
    assert!(matches!(classify_rpc_line(r#"{"method": "turn/started", "params": {}}"#), RpcLine::Notification(None, _)));
    assert!(matches!(classify_rpc_line(r#"{"other": 1}"#), RpcLine::Ignored));
}

#[test]
fn compatible_session_threads_and_listing() {
    let mut s = CompatibleSessionState::new("tool".to_string(), vec!["{prompt}".to_string()], "/w".to_string());
    let a = s.send_request_compatible("thread/start", &p("{}"), 100);
    assert_eq!(a.events.len(), 1);
    let reply = a.reply.unwrap();
    assert_eq!(reply.get("result").and_then(|r| r.get("threadId")).and_then(|t| t.as_str()), Some("compat-thread-1"));
    s.send_request_compatible("thread/start", &p("{}"), 200);
    s.send_request_compatible("thread/start", &p("{}"), 200);
    let list = s.send_request_compatible("thread/list", &p(r#"{"limit": 2}"#), 300).reply.unwrap();
    let data = list.get("result").and_then(|r| r.get("data")).and_then(|d| d.as_array()).unwrap();
    let ids: Vec<&str> = data.iter().map(|t| t.get("id").and_then(|i| i.as_str()).unwrap()).collect();
    assert_eq!(ids, vec!["compat-thread-2", "compat-thread-3"]);
    assert_eq!(
        list.get("result").and_then(|r| r.get("nextCursor")).and_then(|c| c.as_str()),
        Some("2")
    );
    let rest = s.send_request_compatible("thread/list", &p(r#"{"cursor": "2"}"#), 300).reply.unwrap();
    let data = rest.get("result").and_then(|r| r.get("data")).and_then(|d| d.as_array()).unwrap();
    assert_eq!(data.len(), 1);
    assert!(matches!(rest.get("result").and_then(|r| r.get("nextCursor")), Some(Json::Null)));
    s.send_request_compatible("thread/archive", &p(r#"{"threadId": "compat-thread-2"}"#), 400);
    let by_created = s.send_request_compatible("thread/list", &p(r#"{"sortKey": "created_at"}"#), 500).reply.unwrap();
    let data = by_created.get("result").and_then(|r| r.get("data")).and_then(|d| d.as_array()).unwrap();
    let ids: Vec<&str> = data.iter().map(|t| t.get("id").and_then(|i| i.as_str()).unwrap()).collect();
    assert_eq!(ids, vec!["compat-thread-3", "compat-thread-1"]);
    let renamed = s.send_request_compatible("thread/name/set", &p(r#"{"thread_id": "compat-thread-1", "name": "  "}"#), 600);
    assert_eq!(renamed.reply.unwrap_err(), "name is required");
    let fork = s.send_request_compatible("thread/fork", &p(r#"{"threadId": "missing"}"#), 600);
    assert_eq!(fork.reply.unwrap_err(), "thread not found");
    let fork = s.send_request_compatible("thread/fork", &p(r#"{"threadId": "compat-thread-1"}"#), 700);
    assert_eq!(fork.events.len(), 1);
    let thread = fork.reply.unwrap();
    let thread = thread.get("result").and_then(|r| r.get("thread")).unwrap();
    assert_eq!(thread.get("id").and_then(|i| i.as_str()), Some("compat-thread-4"));
    assert_eq!(thread.get("title").and_then(|i| i.as_str()), Some("New Agent (fork)"));
    let resumed = s.send_request_compatible("thread/resume", &p(r#"{"threadId": "compat-thread-2"}"#), 800);
    assert!(resumed.reply.is_ok());
}

#[test]
fn compatible_session_turn_lifecycle() {
    let mut s = CompatibleSessionState::new("tool".to_string(), vec!["-p".to_string(), "{prompt}".to_string()], "/w".to_string());
    s.send_request_compatible("thread/start", &p("{}"), 1);
    let no_text = s.send_request_compatible("turn/start", &p(r#"{"threadId": "compat-thread-1", "input": []}"#), 2);
    assert_eq!(no_text.reply.unwrap_err(), "No text input provided for compatible CLI turn");
    let out = s.send_request_compatible(
        "turn/start",
        &p(r#"{"threadId": "compat-thread-1", "input": [{"type": "text", "text": "hi"}]}"#),
        3,
    );
    assert_eq!(out.events.len(), 2);
    let launch = out.launch.unwrap();
    assert_eq!(launch.turn_id, "compat-turn-1");
    assert_eq!(launch.item_id, "compat-item-1");
    assert_eq!(launch.args, vec!["-p".to_string(), "hi".to_string()]);
    assert!(!launch.use_stdin_prompt);
    let interrupt = s.send_request_compatible("turn/interrupt", &p(r#"{"turnId": "compat-turn-1"}"#), 4);
    assert_eq!(interrupt.interrupt.as_deref(), Some("compat-turn-1"));
    let events = s.turn_finished("compat-thread-1", "compat-turn-1", "compat-item-1", Ok("\n  answer line \nmore"), 9);
    assert_eq!(events.len(), 3);
    assert_eq!(events[2].get("method").and_then(|m| m.as_str()), Some("turn/completed"));
    let after = s.send_request_compatible("turn/interrupt", &p(r#"{"turnId": "compat-turn-1"}"#), 10);
    assert!(after.interrupt.is_none());
    let failed = s.turn_finished("compat-thread-1", "compat-turn-2", "compat-item-2", Err("boom"), 11);
    assert_eq!(failed.len(), 1);
    assert_eq!(failed[0].get("method").and_then(|m| m.as_str()), Some("error"));
}

#[test]
fn compatible_session_static_and_unknown_methods() {
    let mut s = CompatibleSessionState::new("tool".to_string(), vec![], "/w".to_string());
    assert!(s.send_request_compatible("model/list", &p("{}"), 1).reply.is_ok());
    assert_eq!(
        s.send_request_compatible("review/start", &p("{}"), 1).reply.unwrap_err(),
        "Method `review/start` is not available in compatible CLI mode."
    );
    assert_eq!(
        s.send_request_compatible("account/login/cancel", &p("{}"), 1).reply.unwrap_err(),
        "Method `account/login/cancel` is not available in compatible CLI mode."
    );
    assert!(s.send_request_compatible("account/read", &p("{}"), 1).reply.is_ok());
    assert_eq!(
        s.send_request_compatible("thread/rollback", &p("{}"), 1).reply.unwrap_err(),
        "Method `thread/rollback` is not available in compatible CLI mode."
    );
}

#[test]
fn output_is_chunked_and_previewed() {
    let long = "é".repeat(600);
    let chunks = chunk_output(&long);
    assert_eq!(chunks.len(), 2);
    assert_eq!(chunks.concat(), long);
    assert_eq!(output_preview("\n  \n  first line  \nsecond"), "first line");
    assert_eq!(output_preview("   "), "Response completed");
    assert_eq!(output_preview(&"x".repeat(200)).len(), 120);
}

#[test]
fn compatible_exit_and_probe_decisions() {
    use_decisions();
}

fn use_decisions() {
    assert_eq!(compatible_exit_result(true, false, 3, "out".to_string()), Ok("out".to_string()));
    assert_eq!(compatible_exit_result(false, true, 3, "out".to_string()), Ok("out".to_string()));
    assert_eq!(
        compatible_exit_result(false, false, 2, "  \n".to_string()),
        Err("Compatible CLI exited with code 2".to_string())
    );
    assert_eq!(
        compatible_exit_result(false, false, 17, " bad flag \n".to_string()),
        Err("Compatible CLI exited with code 17: bad flag".to_string())
    );
    assert_eq!(select_mode(true), SessionMode::JsonRpc);
    assert_eq!(select_mode(false), SessionMode::CompatiblePty);
    assert_eq!(
        probe_failure_message(ProbeFailure::Failed("denied".to_string())),
        "Failed to start selected CLI: denied"
    );
    assert_eq!(
        probe_failure_message(ProbeFailure::TimedOut),
        "Timed out while checking selected CLI availability."
    );
}
