use agent_session::config::{
    find_feature_flag, upsert_feature_flag, normalize_personality_value, normalize_trimmed_value, parse_top_level_bool_from_toml,
    parse_top_level_string_from_toml, remove_top_level_key, upsert_top_level_bool_key,
    upsert_top_level_string_key,
};
use agent_session::settings::{
    normalize_approval_policy, normalize_cli_auth_credentials_store, normalize_model_reasoning_effort,
    normalize_personality, normalize_sandbox_mode, normalize_web_search,
};

#[test]
fn parse_personality_reads_supported_values() {
    assert_eq!(
        parse_top_level_string_from_toml("personality = \"friendly\"\n", "personality")
            .as_deref()
            .and_then(normalize_personality_value),
        Some("friendly")
    );
    assert_eq!(
        parse_top_level_string_from_toml("personality = \"pragmatic\"\n", "personality")
            .as_deref()
            .and_then(normalize_personality_value),
        Some("pragmatic")
    );
    assert_eq!(
        parse_top_level_string_from_toml("personality = \"unknown\"\n", "personality")
            .as_deref()
            .and_then(normalize_personality_value),
        None
    );
}

#[test]
fn upsert_top_level_personality_before_tables() {
    let input = "[features]\nsteer = true\n";
    let updated = upsert_top_level_string_key(input, "personality", "friendly");
    assert_eq!(updated, "personality = \"friendly\"\n[features]\nsteer = true\n");
}

#[test]
fn upsert_replaces_existing_top_level_personality() {
    let input = "personality = \"friendly\"\n[features]\nsteer = true\n";
    let updated = upsert_top_level_string_key(input, "personality", "pragmatic");
    assert_eq!(updated, "personality = \"pragmatic\"\n[features]\nsteer = true\n");
}

#[test]
fn remove_top_level_personality_keeps_other_keys() {
    let input = "personality = \"friendly\"\nmodel = \"gpt-5\"\n[features]\nsteer = true\n";
    let updated = remove_top_level_key(input, "personality");
    assert_eq!(updated, "model = \"gpt-5\"\n[features]\nsteer = true\n");
}

#[test]
fn upsert_into_empty_text_appends_newline() {
    assert_eq!(upsert_top_level_bool_key("", "check_for_updates", false), "check_for_updates = false");
    assert_eq!(remove_top_level_key("a = 1", "a"), "\n");
    assert_eq!(upsert_top_level_string_key("model = \"a\"", "model", "b"), "model = \"b\"");
}

#[test]
fn keys_inside_tables_are_not_top_level() {
    let input = "[features]\nmodel = \"x\"\n";
    assert_eq!(remove_top_level_key(input, "model"), input);
    assert_eq!(
        upsert_top_level_bool_key(input, "model", true),
        "model = true\n[features]\nmodel = \"x\"\n"
    );
}

#[test]
fn normalizes_values() {
    assert_eq!(normalize_personality_value("  FriENDly "), Some("friendly"));
    assert_eq!(normalize_trimmed_value(Some("  gpt-5 ")), Some("gpt-5"));
    assert_eq!(normalize_trimmed_value(Some("   ")), None);
    assert_eq!(normalize_trimmed_value(None), None);
}

#[test]
fn reads_toml_values() {
    assert_eq!(parse_top_level_bool_from_toml("check_for_updates = true\n", "check_for_updates"), Some(true));
    assert_eq!(parse_top_level_string_from_toml("model = \"  \"\n", "model"), None);
    assert_eq!(parse_top_level_string_from_toml("model = [", "model"), None);
}

#[test]
fn finds_feature_flags() {
    let text = "model = \"m\"\n[features]\n# note\nsteer = true # on\ncollab=false\n[other]\nsteer = false\n";
    assert_eq!(find_feature_flag(text, "steer"), Some(true));
    assert_eq!(find_feature_flag(text, "collab"), Some(false));
    assert_eq!(find_feature_flag(text, "apps"), None);
    assert_eq!(find_feature_flag("steer = true\n", "steer"), None);
    assert_eq!(find_feature_flag("[features]\nbroken line\nsteer = true\n", "steer"), None);
}

#[test]
fn upserts_feature_flags() {
    assert_eq!(upsert_feature_flag("", "steer", true), "[features]\nsteer = true");
    assert_eq!(
        upsert_feature_flag("model = \"m\"", "steer", false),
        "model = \"m\"\n\n[features]\nsteer = false"
    );
    assert_eq!(
        upsert_feature_flag("[features]\nsteer = false\n[other]\nx = 1\n", "steer", true),
        "[features]\nsteer = true\n[other]\nx = 1\n"
    );
    assert_eq!(
        upsert_feature_flag("[features]\napps = true\n[other]\n", "steer", true),
        "[features]\napps = true\nsteer = true\n[other]\n"
    );
    assert_eq!(upsert_feature_flag("[features]\n", "steer", true), "[features]\nsteer = true\n");
}

#[test]
fn normalizes_settings_values() {
    assert_eq!(normalize_personality(" pragmatic "), Some("pragmatic"));
    assert_eq!(normalize_personality("Friendly"), None);
    assert_eq!(normalize_model_reasoning_effort("high"), Some("high"));
    assert_eq!(normalize_approval_policy("on-request"), Some("on-request"));
    assert_eq!(normalize_sandbox_mode("danger-full-access"), Some("danger-full-access"));
    assert_eq!(normalize_web_search("live "), Some("live"));
    assert_eq!(normalize_cli_auth_credentials_store("vault"), None);
}
