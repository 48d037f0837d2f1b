use agent_session::gemini_settings::{
    merge_settings, read_settings_model, settings_json_path, GeminiModelSettings, GeminiSettings,
};

#[test]
fn test_parse_empty_settings() {
    let settings = GeminiSettings::parse("{}").unwrap();
    assert!(settings.preview_features.is_none());
    assert!(settings.model.is_none());
}

#[test]
fn test_parse_model_settings() {
    let json = r#"{"model": {"name": "gemini-2.0-flash", "maxSessionTurns": 50}}"#;
    let settings = GeminiSettings::parse(json).unwrap();
    let model = settings.model.unwrap();
    assert_eq!(model.name.as_deref(), Some("gemini-2.0-flash"));
    assert_eq!(model.max_session_turns, Some(50));
}

#[test]
fn test_parse_mcp_settings() {
    let json = r#"{
        "mcp": {
            "servers": {
                "filesystem": {
                    "command": "npx",
                    "args": ["-y", "@anthropic/mcp-filesystem-server"],
                    "enabled": true
                }
            }
        }
    }"#;
    let settings = GeminiSettings::parse(json).unwrap();
    let mcp = settings.mcp.unwrap();
    let servers = mcp.servers.unwrap();
    let fs_server = &servers.iter().find(|(k, _)| k == "filesystem").unwrap().1;
    assert_eq!(fs_server.command.as_deref(), Some("npx"));
    assert_eq!(fs_server.enabled, Some(true));
}

#[test]
fn test_merge_settings() {
    let mut user = GeminiSettings::empty();
    user.preview_features = Some(false);
    user.model = Some(GeminiModelSettings {
        name: Some("gemini-pro".to_string()),
        max_session_turns: None,
        compression_threshold: None,
    });
    let mut project = GeminiSettings::empty();
    project.preview_features = Some(true);

    let merged = merge_settings(Some(user), Some(project));
    assert_eq!(merged.preview_features, Some(true));
    assert!(merged.ui.is_none() && merged.sandbox.is_none());
    assert_eq!(merged.model.as_ref().and_then(|m| m.name.as_deref()), Some("gemini-pro"));
}

#[test]
fn parse_rejects_mistyped_settings() {
    assert!(GeminiSettings::parse(r#"{"vimMode": "yes"}"#).is_err());
    assert!(GeminiSettings::parse(r#"{"model": {"maxSessionTurns": 5000000000}}"#).is_err());
    assert!(GeminiSettings::parse("not json").is_err());
    let extra = GeminiSettings::parse(r#"{"custom": 1, "vimMode": null}"#).unwrap();
    assert_eq!(extra.extra.len(), 1);
    assert_eq!(extra.vim_mode, None);
}

#[test]
fn reads_model_name_from_content() {
    assert_eq!(read_settings_model(None), Ok(None));
    assert_eq!(read_settings_model(Some("  ")), Ok(None));
    assert_eq!(read_settings_model(Some(r#"{"model": {"name": "m1"}}"#)), Ok(Some("m1".to_string())));
    assert!(read_settings_model(Some("{")).is_err());
    assert_eq!(settings_json_path(Some("/h/.gemini")), Some("/h/.gemini/settings.json".to_string()));
    assert_eq!(settings_json_path(None), None);
}

#[test]
fn merge_overrides_extra_and_keeps_user_sections() {
    let mut user = GeminiSettings::parse(r#"{"ui": {"theme": "dark"}, "a": 1, "b": 2}"#).unwrap();
    user.vim_mode = Some(true);
    let project = GeminiSettings::parse(r#"{"b": 3, "c": 4, "ide": {"enabled": true}}"#).unwrap();
    let merged = merge_settings(Some(user), Some(project));
    assert_eq!(merged.ui.as_ref().and_then(|u| u.theme.as_deref()), Some("dark"));
    assert_eq!(merged.vim_mode, Some(true));
    assert_eq!(merged.ide.as_ref().and_then(|i| i.enabled), Some(true));
    let keys: Vec<&str> = merged.extra.iter().map(|(k, _)| k.as_str()).collect();
    assert_eq!(keys, vec!["a", "b", "c"]);
    assert_eq!(merged.extra[1].1.as_number_text(), Some("3"));
    assert!(read_settings_model(Some("{")).unwrap_err().starts_with("Failed to parse settings.json:"));
}
