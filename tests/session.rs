use agent_session::adapter::{now_epoch, AdapterSession, CliProfile, TurnStream};
use agent_session::command::CliSpawnConfig;
use agent_session::json::{parse_json, Json};
use agent_session::thread_store::{ThreadMetadata, ThreadStore};

fn to_serde(j: &Json) -> serde_json::Value {
    match j {
        Json::Null => serde_json::Value::Null,
        Json::Bool(b) => serde_json::Value::Bool(*b),
        Json::Number(t) => serde_json::from_str(t).unwrap(),
        Json::Str(s) => serde_json::Value::String(s.clone()),
        Json::Array(a) => serde_json::Value::Array(a.iter().map(to_serde).collect()),
        Json::Object(m) => {
            let mut map = serde_json::Map::new();
            for (k, v) in m {
                map.insert(k.clone(), to_serde(v));
            }
            serde_json::Value::Object(map)
        }
    }
}

fn params(text: &str) -> Json {
    parse_json(text).unwrap()
}

fn session(profile: CliProfile) -> AdapterSession {
    let config = CliSpawnConfig {
        cli_type: "blocks".to_string(),
        cli_bin: None,
        cli_args: None,
        cli_home: None,
    };
    AdapterSession::new(profile, "test-ws".to_string(), "/tmp".to_string(), config, ThreadStore::new())
}

fn result_str<'a>(reply: &'a Json, key: &str) -> Option<&'a str> {
    reply.get("result").and_then(|r| r.get(key)).and_then(|v| v.as_str())
}

#[test]
fn adapter_base_thread_store_roundtrip() {
    let mut store = ThreadStore::new();
    store.insert_new(
        "t1".to_string(),
        ThreadMetadata {
            cli_session_id: Some("s1".to_string()),
            name: Some("Test Thread".to_string()),
            created_at: 1000,
            updated_at: 2000,
            archived: false,
        },
    );
    let text = serde_json::to_string_pretty(&to_serde(&store.to_json())).unwrap();
    let loaded = ThreadStore::load_from_text(&text);
    assert!(loaded.contains("t1"));
    let meta = loaded.get("t1").unwrap();
    assert_eq!(meta.cli_session_id.as_deref(), Some("s1"));
    assert_eq!(meta.name.as_deref(), Some("Test Thread"));
    assert_eq!(meta.created_at, 1000);
    assert_eq!(meta.updated_at, 2000);
    assert!(!meta.archived);
}

#[test]
fn claude_adapter_thread_store_roundtrip() {
    let mut store = ThreadStore::new();
    store.insert_new("t1".to_string(), ThreadMetadata::fresh(1000));
    store.insert_new(
        "t2".to_string(),
        ThreadMetadata {
            cli_session_id: None,
            name: Some("Second".to_string()),
            created_at: 1000,
            updated_at: 2000,
            archived: true,
        },
    );
    let text = serde_json::to_string(&to_serde(&store.to_json())).unwrap();
    let loaded = ThreadStore::load_from_text(&text);
    assert_eq!(loaded.len(), 2);
    let t2 = loaded.get("t2").unwrap();
    assert_eq!(t2.name.as_deref(), Some("Second"));
    assert!(t2.archived);
    assert_eq!(loaded.get("t1").unwrap().cli_session_id, None);
}

#[test]
fn thread_store_deserializes_legacy_claude_session_id_field() {
    let legacy_json = r#"{
        "threads": {
            "t1": {
                "claude_session_id": "old-session",
                "name": "Legacy Thread",
                "created_at": 1000,
                "updated_at": 2000,
                "archived": false
            }
        }
    }"#;
    let store = ThreadStore::load_from_text(legacy_json);
    let meta = store.get("t1").unwrap();
    assert_eq!(
        meta.cli_session_id.as_deref(),
        Some("old-session"),
        "legacy claude_session_id must read as cli_session_id"
    );
}

#[test]
fn thread_store_load_missing_file_returns_default() {
    let store = ThreadStore::load_from_text("");
    assert_eq!(store.len(), 0);
}

#[test]
fn thread_store_load_malformed_is_empty() {
    assert_eq!(ThreadStore::load_from_text(r#"{"threads": {"t1": {"created_at": -1}}}"#).len(), 0);
    assert_eq!(ThreadStore::load_from_text(r#"{"threads": 3}"#).len(), 0);
    assert_eq!(ThreadStore::load_from_text("[1, 2]").len(), 0);
}

#[test]
fn now_epoch_returns_nonzero() {
    assert!(now_epoch() > 0);
}

#[test]
fn adapter_send_request_routing() {
    let mut adapter = session(CliProfile::Gemini);
    let none = params("{}");

    let init_result = adapter.send_request("initialize", &none);
    assert!(init_result.reply.is_ok());
    let init = init_result.reply.unwrap();
    assert_eq!(
        init.get("result").and_then(|r| r.get("serverInfo")).and_then(|s| s.get("name")).and_then(|n| n.as_str()),
        Some("blocks-adapter")
    );

    let thread_result = adapter.send_request("thread/start", &none);
    assert!(thread_result.reply.is_ok());
    assert!(thread_result.persist);
    let reply = thread_result.reply.unwrap();
    let thread_id = result_str(&reply, "threadId").unwrap().to_string();

    let list_result = adapter.send_request("thread/list", &none);
    assert!(list_result.reply.is_ok());

    let archive_params = params(&format!(r#"{{"threadId": "{thread_id}"}}"#));
    let archive_result = adapter.send_request("thread/archive", &archive_params);
    assert!(archive_result.reply.is_ok());

    let model_result = adapter.send_request("model/list", &none);
    assert!(model_result.reply.is_ok());
    let models = model_result
        .reply
        .unwrap()
        .get("result")
        .and_then(|r| r.get("models"))
        .and_then(|m| m.as_array())
        .map(|a| a.len())
        .unwrap_or(0);
    assert!(models > 0);

    let account_result = adapter.send_request("account/read", &none);
    assert!(account_result.reply.is_ok());

    let unknown_result = adapter.send_request("nonexistent/method", &none);
    assert!(unknown_result.reply.is_err());
}

#[test]
fn unsupported_method_names_the_method() {
    for profile in [CliProfile::ContentBlocks, CliProfile::Gemini, CliProfile::Cursor] {
        let mut adapter = session(profile);
        let out = adapter.send_request("review/start", &params("{}"));
        assert_eq!(out.reply.unwrap_err(), "unsupported method: review/start");
        let out = adapter.send_request("thread/compact/start", &params("{}"));
        assert_eq!(out.reply.unwrap_err(), "unsupported method: thread/compact/start");
        assert!(!out.persist);
        assert!(out.kill.is_none());
    }
}

#[test]
fn archive_hides_thread_but_resume_succeeds() {
    let mut adapter = session(CliProfile::Gemini);
    let none = params("{}");
    adapter.send_request_with("thread/start", &none, "a", 10);
    adapter.send_request_with("thread/start", &none, "b", 11);
    let p = params(r#"{"threadId": "a"}"#);
    let archived = adapter.send_request_with("thread/archive", &p, "unused", 12);
    assert!(archived.reply.is_ok());
    let list = adapter.send_request_with("thread/list", &none, "unused", 13).reply.unwrap();
    let threads = list.get("result").and_then(|r| r.get("threads")).and_then(|t| t.as_array()).unwrap();
    assert_eq!(threads.len(), 1);
    assert_eq!(threads[0].get("id").and_then(|i| i.as_str()), Some("b"));
    let resumed = adapter.send_request_with("thread/resume", &p, "unused", 14).reply.unwrap();
    assert_eq!(result_str(&resumed, "threadId"), Some("a"));
    let meta = adapter.store().get("a").unwrap();
    assert!(meta.archived);
    assert_eq!(meta.updated_at, 12);
    let missing = adapter.send_request_with("thread/resume", &params(r#"{"threadId": "zz"}"#), "u", 15);
    assert_eq!(missing.reply.unwrap_err(), "thread not found");
    let no_id = adapter.send_request_with("thread/resume", &none, "u", 15);
    assert_eq!(no_id.reply.unwrap_err(), "missing threadId");
}

#[test]
fn fork_copies_name_with_suffix_and_no_session() {
    let mut adapter = session(CliProfile::ContentBlocks);
    adapter.send_request_with("thread/start", &params("{}"), "src", 1);
    adapter.send_request_with("thread/name/set", &params(r#"{"threadId": "src", "name": "Plan"}"#), "u", 2);
    adapter.record_session_id("src", "sess-9", 3);
    let fork = adapter.send_request_with("thread/fork", &params(r#"{"threadId": "src"}"#), "copy", 4);
    assert_eq!(result_str(&fork.reply.unwrap(), "threadId"), Some("copy"));
    let copy = adapter.store().get("copy").unwrap();
    assert_eq!(copy.name.as_deref(), Some("Plan (fork)"));
    assert_eq!(copy.cli_session_id, None);
    assert_eq!(copy.created_at, 4);
    let source = adapter.store().get("src").unwrap();
    assert_eq!(source.cli_session_id.as_deref(), Some("sess-9"));
    assert_eq!(source.name.as_deref(), Some("Plan"));
    let unnamed_fork = {
        adapter.send_request_with("thread/start", &params("{}"), "plain", 5);
        adapter.send_request_with("thread/fork", &params(r#"{"threadId": "plain"}"#), "plain2", 6);
        adapter.store().get("plain2").unwrap().name.clone()
    };
    assert_eq!(unnamed_fork, None);
    let clash = adapter.send_request_with("thread/fork", &params(r#"{"threadId": "src"}"#), "plain", 7);
    assert!(clash.reply.is_err());
}

#[test]
fn second_turn_terminates_first_child() {
    let mut adapter = session(CliProfile::ContentBlocks);
    adapter.send_request_with("thread/start", &params("{}"), "t", 1);
    let p = params(r#"{"threadId": "t", "input": "hello"}"#);
    let first = adapter.send_request_with("turn/start", &p, "turn-1", 2);
    assert!(first.kill.is_none());
    let launch = first.launch.unwrap();
    assert_eq!(launch.turn_id, "turn-1");
    assert_eq!(launch.command.args.last().map(|s| s.as_str()), Some("hello"));
    adapter.turn_spawned(101);
    let second = adapter.send_request_with("turn/start", &p, "turn-2", 3);
    assert_eq!(second.kill, Some(101));
    assert!(second.launch.is_some());
    adapter.turn_spawned(202);
    assert!(!adapter.turn_ended(101));
    let interrupt = adapter.send_request_with("turn/interrupt", &params("{}"), "u", 4);
    assert_eq!(interrupt.kill, Some(202));
    let again = adapter.send_request_with("turn/interrupt", &params("{}"), "u", 5);
    assert_eq!(again.kill, None);
    assert!(again.reply.is_ok());
}

#[test]
fn turn_resumes_stored_session() {
    let mut adapter = session(CliProfile::Cursor);
    adapter.send_request_with("thread/start", &params("{}"), "t", 1);
    adapter.record_session_id("t", "cs-7", 2);
    let out = adapter.send_request_with("turn/start", &params(r#"{"threadId": "t", "input": "go"}"#), "turn", 3);
    let args = out.launch.unwrap().command.args;
    assert_eq!(args, vec!["-p", "--output-format", "stream-json", "--resume", "cs-7", "go"]);
    let missing = adapter.send_request_with("turn/start", &params(r#"{"threadId": "t"}"#), "turn", 4);
    assert_eq!(missing.reply.unwrap_err(), "missing input");
}

#[test]
fn silent_turn_gets_one_synthetic_completion() {
    let mut stream = TurnStream::new(CliProfile::ContentBlocks, "t1", "turn1");
    let out = stream.on_line(r#"{"type":"system","subtype":"init","session_id":"abc"}"#);
    assert_eq!(out.session_id.as_deref(), Some("abc"));
    assert!(out.event.is_some());
    stream.on_line(r#"{"type":"content_block_delta","delta":{"type":"text_delta","text":"partial"#);
    let fin = stream.finish().unwrap();
    assert_eq!(fin.get("method").and_then(|m| m.as_str()), Some("turn/completed"));
    assert_eq!(
        fin.get("params").and_then(|p| p.get("turnId")).and_then(|t| t.as_str()),
        Some("turn1")
    );
    let empty = TurnStream::new(CliProfile::Gemini, "t", "u");
    assert!(empty.finish().is_some());
}

#[test]
fn completed_turn_gets_no_synthetic_completion() {
    let mut stream = TurnStream::new(CliProfile::Cursor, "t1", "turn1");
    stream.on_line(r#"{"type":"result","duration_ms":100}"#);
    assert!(stream.finish().is_none());
}
