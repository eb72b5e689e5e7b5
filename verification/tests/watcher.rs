//! The watcher of the assistant's settings file, with the file held in memory.

use live_config::context_defaults::provider_compact_ratio;
use live_config::provider::{Provider, ProviderMeta};
use live_config::ratio::Ratio;
use live_config::watcher::{
    build_env_writes, effective_auto_sync_enabled, record_processed_state, replace_watcher,
    resolve_active_model_window, should_process, spawn_claude_settings_watcher, update_env_fields,
    verify_file_unchanged, ClaudeSettingsWatcher, WatcherSnapshot,
};
use serde_json::Value;

fn j(text: &str) -> Value {
    serde_json::from_str(text).unwrap()
}

fn ratio(number: f64) -> Ratio {
    Ratio { bits: number.to_bits() }
}

fn number(ratio: Ratio) -> f64 {
    f64::from_bits(ratio.bits)
}

fn make_provider(env: Value) -> Provider {
    let mut settings = j("{}");
    settings["env"] = env;
    Provider::with_id("p".to_string(), "P".to_string(), settings, None)
}

fn taken_over_live(mut live: Value) -> Value {
    live["env"]["ANTHROPIC_AUTH_TOKEN"] = Value::String("PROXY_MANAGED".to_string());
    live
}

/// Lets the watcher look at the file, makes the write it wants, and stores the settings it
/// wants stored.
fn handle_with(
    file: &mut String,
    watcher: &mut ClaudeSettingsWatcher,
    persist: &mut dyn FnMut(Value) -> Result<(), String>,
) {
    let content = file.clone();
    if let Some(write) = watcher.handle_settings_change(&content) {
        verify_file_unchanged(file, &content).unwrap();
        *file = write.content.clone();
        let _ = persist(watcher.written(&write));
    }
}

fn handle(file: &mut String, watcher: &mut ClaudeSettingsWatcher) {
    handle_with(file, watcher, &mut |_| Ok(()));
}

fn fail_once_then_succeed() -> impl FnMut(Value) -> Result<(), String> {
    let mut failed = false;
    move |_| {
        if failed {
            Ok(())
        } else {
            failed = true;
            Err("db unavailable".to_string())
        }
    }
}

#[test]
fn resolve_maps_haiku_to_anthropic_default_haiku_model() {
    let settings = j(r#"{ "model": "haiku" }"#);
    let provider = make_provider(j(r#"{
        "ANTHROPIC_DEFAULT_HAIKU_MODEL": "Kimi-K2.7-Code[30k]"
    }"#));
    let result = resolve_active_model_window(&settings, &provider).unwrap();
    assert_eq!(result.model, "haiku");
    assert_eq!(result.window, 30000);
}

#[test]
fn resolve_maps_sonnet_to_anthropic_default_sonnet_model() {
    let settings = j(r#"{ "model": "sonnet" }"#);
    let provider = make_provider(j(r#"{
        "ANTHROPIC_DEFAULT_SONNET_MODEL":"MiniMax-M3[1M]","ANTHROPIC_DEFAULT_HAIKU_MODEL":"Kimi-K2.7-Code[30k]"
    }"#));
    let result = resolve_active_model_window(&settings, &provider).unwrap();
    assert_eq!(result.model, "sonnet");
    assert_eq!(result.window, 1000000);
}

#[test]
fn resolve_maps_opus_to_anthropic_default_opus_model() {
    let settings = j(r#"{ "model": "opus" }"#);
    let provider = make_provider(j(r#"{
        "ANTHROPIC_DEFAULT_OPUS_MODEL": "deepseek-v4-pro[1000000]"
    }"#));
    let result = resolve_active_model_window(&settings, &provider).unwrap();
    assert_eq!(result.model, "opus");
    assert_eq!(result.window, 1000000);
}

#[test]
fn resolve_maps_fable_to_anthropic_default_fable_model() {
    let settings = j(r#"{ "model": "fable" }"#);
    let provider = make_provider(j(r#"{
        "ANTHROPIC_DEFAULT_FABLE_MODEL": "GLM-5.2[200k]"
    }"#));
    let result = resolve_active_model_window(&settings, &provider).unwrap();
    assert_eq!(result.model, "fable");
    assert_eq!(result.window, 200000);
}

#[test]
fn resolve_maps_subagent_to_claude_code_subagent_model() {
    let settings = j(r#"{ "model": "subagent" }"#);
    let provider = make_provider(j(r#"{
        "CLAUDE_CODE_SUBAGENT_MODEL": "deepseek-v4-flash"
    }"#));
    assert!(resolve_active_model_window(&settings, &provider).is_none());
}

#[test]
fn resolve_maps_codex_oauth_gpt56_without_suffix_to_372k() {
    let settings = j(r#"{ "model": "sonnet" }"#);
    let mut provider = make_provider(j(r#"{
        "ANTHROPIC_DEFAULT_SONNET_MODEL": "gpt-5.6",
        "ANTHROPIC_DEFAULT_HAIKU_MODEL": "gpt-5.6-luna"
    }"#));
    provider.meta = Some(ProviderMeta {
        provider_type: Some("codex_oauth".to_string()),
        ..Default::default()
    });
    let result = resolve_active_model_window(&settings, &provider).unwrap();
    assert_eq!(result.model, "sonnet");
    assert_eq!(result.window, 372000);
}

#[test]
fn resolve_maps_kimi_without_suffix_to_262k() {
    let settings = j(r#"{ "model": "sonnet" }"#);
    let provider = make_provider(j(r#"{
        "ANTHROPIC_BASE_URL": "https://api.kimi.com/coding/",
        "ANTHROPIC_DEFAULT_SONNET_MODEL": "kimi-for-coding"
    }"#));
    let result = resolve_active_model_window(&settings, &provider).unwrap();
    assert_eq!(result.model, "sonnet");
    assert_eq!(result.window, 262144);
}

#[test]
fn resolve_active_model_window_uses_context_windows_without_env_suffix() {
    let settings = j(r#"{ "model": "sonnet" }"#);
    let provider = Provider::with_id(
        "p".to_string(),
        "P".to_string(),
        j(r#"{
            "env": { "ANTHROPIC_DEFAULT_SONNET_MODEL": "sonnet-model" },
            "contextWindows": { "ANTHROPIC_DEFAULT_SONNET_MODEL": 200000 }
        }"#),
        None,
    );
    let result = resolve_active_model_window(&settings, &provider).unwrap();
    assert_eq!(result.model, "sonnet");
    assert_eq!(result.window, 200000);
}

#[test]
fn resolve_active_model_window_context_windows_beats_legacy_suffix() {
    let settings = j(r#"{ "model": "sonnet" }"#);
    let provider = Provider::with_id(
        "p".to_string(),
        "P".to_string(),
        j(r#"{
            "env": { "ANTHROPIC_DEFAULT_SONNET_MODEL": "model[200k]" },
            "contextWindows": { "ANTHROPIC_DEFAULT_SONNET_MODEL": 500000 }
        }"#),
        None,
    );
    let result = resolve_active_model_window(&settings, &provider).unwrap();
    assert_eq!(result.model, "sonnet");
    assert_eq!(result.window, 500000);
}

#[test]
fn build_writes_for_30k_window() {
    let writes = build_env_writes(30000, ratio(0.8));
    assert_eq!(
        writes,
        vec![
            ("CLAUDE_CODE_AUTO_COMPACT_WINDOW", "24000".to_string()),
            ("CLAUDE_CODE_MAX_CONTEXT_TOKENS", "30000".to_string()),
        ]
    );
}

#[test]
fn build_writes_for_1m_window() {
    let writes = build_env_writes(1000000, ratio(0.8));
    assert_eq!(
        writes,
        vec![
            ("CLAUDE_CODE_AUTO_COMPACT_WINDOW", "800000".to_string()),
            ("CLAUDE_CODE_MAX_CONTEXT_TOKENS", "1000000".to_string()),
        ]
    );
}

#[test]
fn build_writes_for_200k_window() {
    let writes = build_env_writes(200000, ratio(0.8));
    assert_eq!(
        writes,
        vec![
            ("CLAUDE_CODE_AUTO_COMPACT_WINDOW", "160000".to_string()),
            ("CLAUDE_CODE_MAX_CONTEXT_TOKENS", "200000".to_string()),
        ]
    );
}

#[test]
fn build_writes_for_1_token_boundary() {
    let writes = build_env_writes(1, ratio(0.8));
    assert_eq!(
        writes,
        vec![
            ("CLAUDE_CODE_AUTO_COMPACT_WINDOW", "0".to_string()),
            ("CLAUDE_CODE_MAX_CONTEXT_TOKENS", "1".to_string()),
        ]
    );
}

#[test]
fn compact_ratio_defaults_to_095_when_missing_or_invalid() {
    let missing =
        Provider::with_id("p".to_string(), "P".to_string(), j(r#"{ "env": {} }"#), None);
    assert_eq!(number(provider_compact_ratio(&missing)), 0.95);

    let too_low = Provider::with_id(
        "p".to_string(),
        "P".to_string(),
        j(r#"{ "autoSyncCompactRatio": 0.1 }"#),
        None,
    );
    assert_eq!(number(provider_compact_ratio(&too_low)), 0.95);

    let too_high = Provider::with_id(
        "p".to_string(),
        "P".to_string(),
        j(r#"{ "autoSyncCompactRatio": 1.5 }"#),
        None,
    );
    assert_eq!(number(provider_compact_ratio(&too_high)), 0.95);
}

#[test]
fn compact_ratio_rejects_values_above_095() {
    let explicit_one = Provider::with_id(
        "p".to_string(),
        "P".to_string(),
        j(r#"{ "autoSyncCompactRatio": 1.0 }"#),
        None,
    );
    assert_eq!(number(provider_compact_ratio(&explicit_one)), 0.95);

    let too_high = Provider::with_id(
        "p".to_string(),
        "P".to_string(),
        j(r#"{ "autoSyncCompactRatio": 0.96 }"#),
        None,
    );
    assert_eq!(number(provider_compact_ratio(&too_high)), 0.95);
}

#[test]
fn compact_ratio_accepts_upper_bound() {
    let provider = Provider::with_id(
        "p".to_string(),
        "P".to_string(),
        j(r#"{ "autoSyncCompactRatio": 0.95 }"#),
        None,
    );
    assert_eq!(number(provider_compact_ratio(&provider)), 0.95);
}

#[test]
fn compact_ratio_accepts_valid_range() {
    let provider = Provider::with_id(
        "p".to_string(),
        "P".to_string(),
        j(r#"{ "autoSyncCompactRatio": 0.6 }"#),
        None,
    );
    assert_eq!(number(provider_compact_ratio(&provider)), 0.6);
}

#[test]
fn build_writes_use_custom_ratio() {
    let writes = build_env_writes(30000, ratio(0.5));
    assert_eq!(
        writes,
        vec![
            ("CLAUDE_CODE_AUTO_COMPACT_WINDOW", "15000".to_string()),
            ("CLAUDE_CODE_MAX_CONTEXT_TOKENS", "30000".to_string()),
        ]
    );
}

#[test]
fn build_writes_use_custom_ratio_upper_bound() {
    let writes = build_env_writes(30000, ratio(0.95));
    assert_eq!(
        writes,
        vec![
            ("CLAUDE_CODE_AUTO_COMPACT_WINDOW", "28500".to_string()),
            ("CLAUDE_CODE_MAX_CONTEXT_TOKENS", "30000".to_string()),
        ]
    );
}

#[test]
fn build_writes_fallback_to_095_for_ratio_above_095() {
    for number in [0.96, 1.0] {
        let writes = build_env_writes(30000, ratio(number));
        assert_eq!(
            writes,
            vec![
                ("CLAUDE_CODE_AUTO_COMPACT_WINDOW", "28500".to_string()),
                ("CLAUDE_CODE_MAX_CONTEXT_TOKENS", "30000".to_string()),
            ]
        );
    }
}

#[test]
fn build_writes_fallback_to_one_for_invalid_ratio() {
    let writes = build_env_writes(30000, ratio(2.0));
    assert_eq!(
        writes,
        vec![
            ("CLAUDE_CODE_AUTO_COMPACT_WINDOW", "28500".to_string()),
            ("CLAUDE_CODE_MAX_CONTEXT_TOKENS", "30000".to_string()),
        ]
    );
}

#[test]
fn compact_ratio_defaults_to_095_when_missing() {
    let missing =
        Provider::with_id("p".to_string(), "P".to_string(), j(r#"{ "env": {} }"#), None);
    assert_eq!(number(provider_compact_ratio(&missing)), 0.95);
    let writes = build_env_writes(30000, provider_compact_ratio(&missing));
    assert_eq!(
        writes,
        vec![
            ("CLAUDE_CODE_AUTO_COMPACT_WINDOW", "28500".to_string()),
            ("CLAUDE_CODE_MAX_CONTEXT_TOKENS", "30000".to_string()),
        ]
    );
}

#[test]
fn resolve_returns_none_when_model_field_missing() {
    let settings = j(r#"{}"#);
    let provider = make_provider(j(r#"{
        "ANTHROPIC_DEFAULT_HAIKU_MODEL": "Kimi[30k]"
    }"#));
    assert!(resolve_active_model_window(&settings, &provider).is_none());
}

#[test]
fn resolve_returns_none_when_model_value_unknown() {
    let settings = j(r#"{ "model": "custom-alias" }"#);
    let provider = make_provider(j(r#"{}"#));
    assert!(resolve_active_model_window(&settings, &provider).is_none());
}

#[test]
fn resolve_returns_none_when_model_is_not_string() {
    let settings = j(r#"{ "model": 123 }"#);
    let provider = make_provider(j(r#"{}"#));
    assert!(resolve_active_model_window(&settings, &provider).is_none());
}

#[test]
fn resolve_returns_none_when_model_is_null() {
    let settings = j(r#"{ "model": null }"#);
    let provider = make_provider(j(r#"{}"#));
    assert!(resolve_active_model_window(&settings, &provider).is_none());
}

#[test]
fn resolve_returns_none_when_role_env_field_missing() {
    let settings = j(r#"{ "model": "haiku" }"#);
    let provider = make_provider(j(r#"{}"#));
    assert!(resolve_active_model_window(&settings, &provider).is_none());
}

#[test]
fn resolve_returns_none_when_env_value_not_string() {
    let settings = j(r#"{ "model": "haiku" }"#);
    let provider = make_provider(j(r#"{
        "ANTHROPIC_DEFAULT_HAIKU_MODEL": { "name": "weird" }
    }"#));
    assert!(resolve_active_model_window(&settings, &provider).is_none());
}

#[test]
fn resolve_returns_none_when_suffix_invalid() {
    let settings = j(r#"{ "model": "haiku" }"#);
    let provider = make_provider(j(r#"{
        "ANTHROPIC_DEFAULT_HAIKU_MODEL": "model[invalid]"
    }"#));
    assert!(resolve_active_model_window(&settings, &provider).is_none());
}

#[test]
fn resolve_returns_none_when_suffix_zero() {
    let settings = j(r#"{ "model": "haiku" }"#);
    let provider = make_provider(j(r#"{
        "ANTHROPIC_DEFAULT_HAIKU_MODEL": "model[0]"
    }"#));
    assert!(resolve_active_model_window(&settings, &provider).is_none());
}

#[test]
fn resolve_returns_none_when_suffix_unsupported_unit() {
    let settings = j(r#"{ "model": "haiku" }"#);
    let provider = make_provider(j(r#"{
        "ANTHROPIC_DEFAULT_HAIKU_MODEL": "model[1G]"
    }"#));
    assert!(resolve_active_model_window(&settings, &provider).is_none());
}

#[test]
fn resolve_returns_none_when_suffix_decimal() {
    let settings = j(r#"{ "model": "haiku" }"#);
    let provider = make_provider(j(r#"{
        "ANTHROPIC_DEFAULT_HAIKU_MODEL": "model[1.5m]"
    }"#));
    assert!(resolve_active_model_window(&settings, &provider).is_none());
}

#[test]
fn resolve_returns_none_when_no_suffix_at_all() {
    let settings = j(r#"{ "model": "haiku" }"#);
    let provider = make_provider(j(r#"{
        "ANTHROPIC_DEFAULT_HAIKU_MODEL": "gpt-5.6"
    }"#));
    assert!(resolve_active_model_window(&settings, &provider).is_none());
}

#[test]
fn loop_same_model_consecutive_triggers() {
    let mut state = None;
    assert!(should_process(&state, Some("haiku"), None, None));
    assert!(should_process(&state, Some("haiku"), None, None));
    record_processed_state(&mut state, Some("haiku"), None, None);
    assert!(!should_process(&state, Some("haiku"), None, None));
    assert!(!should_process(&state, Some("haiku"), None, None));
}

#[test]
fn loop_two_models_alternating() {
    let mut state = None;
    assert!(should_process(&state, Some("haiku"), None, None));
    assert!(should_process(&state, Some("sonnet"), None, None));
    assert!(should_process(&state, Some("haiku"), None, None));
    assert!(should_process(&state, Some("sonnet"), None, None));
    record_processed_state(&mut state, Some("sonnet"), None, None);
    assert!(!should_process(&state, Some("sonnet"), None, None));
}

#[test]
fn loop_model_to_none_to_same() {
    let mut state = None;
    assert!(should_process(&state, Some("haiku"), None, None));
    record_processed_state(&mut state, Some("haiku"), None, None);
    assert!(!should_process(&state, Some("haiku"), None, None));
    assert!(should_process(&state, None, None, None));
    record_processed_state(&mut state, None, None, None);
    assert!(should_process(&state, Some("haiku"), None, None));
}

#[test]
fn loop_model_to_none_stays_none() {
    let mut state = None;
    assert!(should_process(&state, Some("haiku"), None, None));
    assert!(should_process(&state, None, None, None));
    record_processed_state(&mut state, None, None, None);
    assert!(!should_process(&state, None, None, None));
    assert!(!should_process(&state, None, None, None));
}

#[test]
fn loop_initial_state_with_existing_model() {
    let mut state = Some(WatcherSnapshot {
        model: Some("haiku".to_string()),
        acw: None,
        max: None,
    });
    assert!(!should_process(&state, Some("haiku"), None, None));
    assert!(should_process(&state, Some("sonnet"), None, None));
    assert!(should_process(&state, Some("sonnet"), None, None));
    record_processed_state(&mut state, Some("sonnet"), None, None);
    assert!(!should_process(&state, Some("sonnet"), None, None));
}

#[test]
fn fs_update_env_fields_writes_only_env_keys() {
    let original = r#"{"model":"sonnet","effortLevel":"xhigh","env":{"ANTHROPIC_DEFAULT_SONNET_MODEL":"MiniMax-M3[1M]"}}"#;
    let writes = build_env_writes(1000000, ratio(0.8));
    let result = update_env_fields(original, &writes).unwrap();
    let v = j(&result);
    assert_eq!(v["model"], "sonnet");
    assert_eq!(v["effortLevel"], "xhigh");
    assert_eq!(v["env"]["CLAUDE_CODE_AUTO_COMPACT_WINDOW"], "800000");
    assert_eq!(v["env"]["CLAUDE_CODE_MAX_CONTEXT_TOKENS"], "1000000");
    assert_eq!(v["env"]["ANTHROPIC_DEFAULT_SONNET_MODEL"], "MiniMax-M3[1M]");
}

#[test]
fn fs_update_env_fields_creates_env_if_missing() {
    let original = r#"{"model":"haiku","effortLevel":"max"}"#;
    let writes = build_env_writes(30000, ratio(0.8));
    let result = update_env_fields(original, &writes).unwrap();
    let v = j(&result);
    assert_eq!(v["model"], "haiku");
    assert_eq!(v["effortLevel"], "max");
    assert_eq!(v["env"]["CLAUDE_CODE_AUTO_COMPACT_WINDOW"], "24000");
    assert_eq!(v["env"]["CLAUDE_CODE_MAX_CONTEXT_TOKENS"], "30000");
}

#[test]
fn fs_update_env_fields_preserves_existing_env_fields() {
    let original = r#"{"model":"haiku","env":{"ANTHROPIC_DEFAULT_HAIKU_MODEL":"Kimi[30k]","CLAUDE_CODE_SUBAGENT_MODEL":"deepseek"}}"#;
    let writes = build_env_writes(30000, ratio(0.8));
    let result = update_env_fields(original, &writes).unwrap();
    let v = j(&result);
    assert_eq!(v["env"]["ANTHROPIC_DEFAULT_HAIKU_MODEL"], "Kimi[30k]");
    assert_eq!(v["env"]["CLAUDE_CODE_SUBAGENT_MODEL"], "deepseek");
    assert_eq!(v["env"]["CLAUDE_CODE_AUTO_COMPACT_WINDOW"], "24000");
}

#[test]
fn fs_update_env_fields_overwrites_existing_acw_max() {
    let original = r#"{"model":"haiku","env":{"CLAUDE_CODE_AUTO_COMPACT_WINDOW":"999","CLAUDE_CODE_MAX_CONTEXT_TOKENS":"888"}}"#;
    let writes = build_env_writes(30000, ratio(0.8));
    let result = update_env_fields(original, &writes).unwrap();
    let v = j(&result);
    assert_eq!(v["env"]["CLAUDE_CODE_AUTO_COMPACT_WINDOW"], "24000");
    assert_eq!(v["env"]["CLAUDE_CODE_MAX_CONTEXT_TOKENS"], "30000");
}

#[test]
fn update_env_fields_strips_internal_fields_before_writing() {
    let original = r#"{"model":"sonnet","contextWindows":{"ANTHROPIC_DEFAULT_SONNET_MODEL":200000},"autoSyncContextWindow":true,"autoSyncCompactRatio":0.8,"autoSyncState":{"lastWritten":{"ACW":"160000","MAX":"200000"}},"env":{}}"#;
    let writes = build_env_writes(200000, ratio(0.8));
    let result = update_env_fields(original, &writes).unwrap();
    let v = j(&result);
    for key in [
        "contextWindows",
        "autoSyncContextWindow",
        "autoSyncCompactRatio",
        "autoSyncState",
    ] {
        assert!(v.get(key).is_none(), "{key} leaked into live settings");
    }
    assert_eq!(v["env"]["CLAUDE_CODE_AUTO_COMPACT_WINDOW"], "160000");
    assert_eq!(v["env"]["CLAUDE_CODE_MAX_CONTEXT_TOKENS"], "200000");
}

#[test]
fn fs_real_watcher_external_model_change() {
    let initial = j(r#"{
        "model": "sonnet",
        "env": {
            "ANTHROPIC_DEFAULT_SONNET_MODEL":"MiniMax-M3[1M]","ANTHROPIC_DEFAULT_HAIKU_MODEL":"Kimi-K2.7-Code[30k]"
        }
    }"#);
    let mut file = taken_over_live(initial).to_string();

    let provider = Provider::with_id(
        "p".to_string(),
        "P".to_string(),
        j(r#"{
            "env": {
                "ANTHROPIC_DEFAULT_SONNET_MODEL":"MiniMax-M3[1M]","ANTHROPIC_DEFAULT_HAIKU_MODEL":"Kimi-K2.7-Code[30k]"
            },
            "autoSyncContextWindow":true
        }"#),
        None,
    );

    let mut watcher = spawn_claude_settings_watcher(Some(file.as_str()), provider);
    let new_content = j(r#"{
        "model": "haiku",
        "env": {
            "ANTHROPIC_DEFAULT_HAIKU_MODEL": "Kimi-K2.7-Code[30k]",
            "ANTHROPIC_DEFAULT_SONNET_MODEL":"MiniMax-M3[1M]","ANTHROPIC_DEFAULT_HAIKU_MODEL":"Kimi-K2.7-Code[30k]"
        }
    }"#);
    file = taken_over_live(new_content).to_string();
    handle(&mut file, &mut watcher);
    let v = j(&file);
    assert_eq!(v["model"], "haiku");
    assert_eq!(v["env"]["CLAUDE_CODE_AUTO_COMPACT_WINDOW"], "28500");
    assert_eq!(v["env"]["CLAUDE_CODE_MAX_CONTEXT_TOKENS"], "30000");
}

#[test]
fn fs_real_watcher_uses_provider_compact_ratio() {
    let initial = j(r#"{
        "model": "sonnet",
        "env": {
            "ANTHROPIC_DEFAULT_SONNET_MODEL": "MiniMax-M3[1M]",
            "ANTHROPIC_DEFAULT_HAIKU_MODEL": "Kimi-K2.7-Code[30k]"
        }
    }"#);
    let mut file = taken_over_live(initial).to_string();

    let provider = Provider::with_id(
        "p".to_string(),
        "P".to_string(),
        j(r#"{
            "env": {
                "ANTHROPIC_DEFAULT_SONNET_MODEL": "MiniMax-M3[1M]",
                "ANTHROPIC_DEFAULT_HAIKU_MODEL": "Kimi-K2.7-Code[30k]"
            },
            "autoSyncContextWindow": true,
            "autoSyncCompactRatio": 0.5
        }"#),
        None,
    );

    let mut watcher = spawn_claude_settings_watcher(Some(file.as_str()), provider);

    let new_content = j(r#"{
        "model": "haiku",
        "env": {
            "ANTHROPIC_DEFAULT_SONNET_MODEL": "MiniMax-M3[1M]",
            "ANTHROPIC_DEFAULT_HAIKU_MODEL": "Kimi-K2.7-Code[30k]"
        }
    }"#);
    file = taken_over_live(new_content).to_string();

    handle(&mut file, &mut watcher);

    let v = j(&file);
    assert_eq!(v["env"]["CLAUDE_CODE_AUTO_COMPACT_WINDOW"], "15000");
    assert_eq!(v["env"]["CLAUDE_CODE_MAX_CONTEXT_TOKENS"], "30000");
}

#[test]
fn handle_settings_change_keeps_kimi_static_acw_max() {
    let initial = j(r#"{
        "model": "sonnet",
        "env": {
            "ANTHROPIC_DEFAULT_SONNET_MODEL": "kimi-for-coding",
            "CLAUDE_CODE_AUTO_COMPACT_WINDOW": "262144",
            "CLAUDE_CODE_MAX_CONTEXT_TOKENS": "262144"
        },
        "autoSyncState": { "staticInjected": { "ACW": "262144", "MAX": "262144" } }
    }"#);
    let mut file = taken_over_live(initial).to_string();

    let provider = Provider::with_id(
        "kimi".to_string(),
        "Kimi For Coding".to_string(),
        j(r#"{
            "env": {
                "ANTHROPIC_BASE_URL": "https://api.kimi.com/coding/",
                "ANTHROPIC_DEFAULT_SONNET_MODEL": "kimi-for-coding"
            },
            "autoSyncContextWindow": true,
            "autoSyncCompactRatio": 0.8,
            "autoSyncState": { "staticInjected": { "ACW": "262144", "MAX": "262144" } }
        }"#),
        None,
    );

    let state = None;
    let mut watcher = ClaudeSettingsWatcher { state, provider, shutdown: false };
    handle(&mut file, &mut watcher);

    let v = j(&file);
    assert_eq!(v["env"]["CLAUDE_CODE_AUTO_COMPACT_WINDOW"], "262144");
    assert_eq!(v["env"]["CLAUDE_CODE_MAX_CONTEXT_TOKENS"], "262144");
}

#[test]
fn handle_settings_change_keeps_codex_oauth_static_acw_max() {
    let initial = j(r#"{
        "model": "sonnet",
        "env": {
            "ANTHROPIC_DEFAULT_SONNET_MODEL": "gpt-5.6",
            "CLAUDE_CODE_AUTO_COMPACT_WINDOW": "372000",
            "CLAUDE_CODE_MAX_CONTEXT_TOKENS": "372000"
        },
        "autoSyncState": { "staticInjected": { "ACW": "372000", "MAX": "372000" } }
    }"#);
    let mut file = taken_over_live(initial).to_string();

    let mut provider = Provider::with_id(
        "codex-oauth".to_string(),
        "Codex".to_string(),
        j(r#"{
            "env": { "ANTHROPIC_DEFAULT_SONNET_MODEL": "gpt-5.6" },
            "autoSyncContextWindow": true,
            "autoSyncCompactRatio": 0.8,
            "autoSyncState": { "staticInjected": { "ACW": "372000", "MAX": "372000" } }
        }"#),
        None,
    );
    provider.meta = Some(ProviderMeta {
        provider_type: Some("codex_oauth".to_string()),
        ..Default::default()
    });

    let state = None;
    let mut watcher = ClaudeSettingsWatcher { state, provider, shutdown: false };
    handle(&mut file, &mut watcher);

    let v = j(&file);
    assert_eq!(v["env"]["CLAUDE_CODE_AUTO_COMPACT_WINDOW"], "372000");
    assert_eq!(v["env"]["CLAUDE_CODE_MAX_CONTEXT_TOKENS"], "372000");
}

#[test]
fn handle_settings_change_syncs_non_gpt56_codex_oauth_from_context_windows() {
    let initial = j(r#"{
        "model": "haiku",
        "env": {
            "ANTHROPIC_DEFAULT_HAIKU_MODEL": "gpt-5.5-mini"
        }
    }"#);
    let mut file = taken_over_live(initial).to_string();

    let mut provider = Provider::with_id(
        "codex-oauth-non-gpt56".to_string(),
        "Codex Non-GPT56".to_string(),
        j(r#"{
            "env": {
                "ANTHROPIC_DEFAULT_SONNET_MODEL": "gpt-5.5",
                "ANTHROPIC_DEFAULT_HAIKU_MODEL": "gpt-5.5-mini"
            },
            "contextWindows": { "ANTHROPIC_DEFAULT_HAIKU_MODEL": 432000 },
            "autoSyncContextWindow": true,
            "autoSyncCompactRatio": 0.8
        }"#),
        None,
    );
    provider.meta = Some(ProviderMeta {
        provider_type: Some("codex_oauth".to_string()),
        ..Default::default()
    });
    let state = Some(WatcherSnapshot {
        model: Some("sonnet".to_string()),
        acw: None,
        max: None,
    });
    let mut watcher = ClaudeSettingsWatcher { state, provider, shutdown: false };
    handle(&mut file, &mut watcher);

    let v = j(&file);
    assert_eq!(v["env"]["CLAUDE_CODE_AUTO_COMPACT_WINDOW"], "345600");
    assert_eq!(v["env"]["CLAUDE_CODE_MAX_CONTEXT_TOKENS"], "432000");
}

#[test]
fn fs_real_watcher_effort_change_no_trigger() {
    let provider = Provider::with_id(
        "p".to_string(),
        "P".to_string(),
        j(r#"{
            "env": {
                "ANTHROPIC_DEFAULT_SONNET_MODEL":"MiniMax-M3[1M]",
                "ANTHROPIC_DEFAULT_HAIKU_MODEL":"Kimi-K2.7-Code[30k]"
            },
            "autoSyncContextWindow": true
        }"#),
        None,
    );

    let mut watcher = spawn_claude_settings_watcher(None, provider);
    let mut file = taken_over_live(j(r#"{
            "model": "sonnet",
            "env": {
                "ANTHROPIC_DEFAULT_SONNET_MODEL":"MiniMax-M3[1M]",
                "ANTHROPIC_DEFAULT_HAIKU_MODEL":"Kimi-K2.7-Code[30k]"
            }
        }"#)).to_string();
    handle(&mut file, &mut watcher);
    file = taken_over_live(j(r#"{
            "model": "sonnet",
            "effortLevel": "max",
            "env": {
                "ANTHROPIC_DEFAULT_SONNET_MODEL":"MiniMax-M3[1M]",
                "ANTHROPIC_DEFAULT_HAIKU_MODEL":"Kimi-K2.7-Code[30k]"
            }
        }"#)).to_string();
    handle(&mut file, &mut watcher);

    let v = j(&file);
    assert_eq!(v["effortLevel"], "max");
    assert_eq!(v["env"]["CLAUDE_CODE_AUTO_COMPACT_WINDOW"], "950000");
    assert_eq!(v["env"]["CLAUDE_CODE_MAX_CONTEXT_TOKENS"], "1000000");
}

#[test]
fn fs_real_watcher_file_not_found() {
    let provider = make_provider(j(r#"{
        "ANTHROPIC_DEFAULT_SONNET_MODEL":"MiniMax-M3[1M]","ANTHROPIC_DEFAULT_HAIKU_MODEL":"Kimi-K2.7-Code[30k]"
    }"#));

    let watcher = spawn_claude_settings_watcher(None, provider);
    assert_eq!(watcher.state, None);
    assert!(!watcher.shutdown);
}

#[test]
fn fs_watcher_survives_via_replace_watcher_without_local_binding() {
    let initial = j(r#"{
        "model": "sonnet",
        "env": {
            "ANTHROPIC_DEFAULT_SONNET_MODEL":"MiniMax-M3[1M]",
            "ANTHROPIC_DEFAULT_HAIKU_MODEL":"Kimi-K2.7-Code[30k]"
        }
    }"#);
    let mut file = taken_over_live(initial).to_string();

    let provider = Provider::with_id(
        "p".to_string(),
        "P".to_string(),
        j(r#"{
            "env": {
                "ANTHROPIC_DEFAULT_SONNET_MODEL":"MiniMax-M3[1M]",
                "ANTHROPIC_DEFAULT_HAIKU_MODEL":"Kimi-K2.7-Code[30k]"
            },
            "autoSyncContextWindow":true
        }"#),
        None,
    );
    let mut slot = None;
    replace_watcher(&mut slot, spawn_claude_settings_watcher(Some(file.as_str()), provider));
    let new_content = j(r#"{
        "model": "haiku",
        "env": {
            "ANTHROPIC_DEFAULT_SONNET_MODEL":"MiniMax-M3[1M]",
            "ANTHROPIC_DEFAULT_HAIKU_MODEL":"Kimi-K2.7-Code[30k]"
        }
    }"#);
    file = taken_over_live(new_content).to_string();

    handle(&mut file, slot.as_mut().unwrap());

    let v = j(&file);
    assert_eq!(v["model"], "haiku");
    assert_eq!(v["env"]["CLAUDE_CODE_AUTO_COMPACT_WINDOW"], "28500");
    assert_eq!(v["env"]["CLAUDE_CODE_MAX_CONTEXT_TOKENS"], "30000");
}

#[test]
fn fs_watcher_auto_sync_disabled_skips_writes() {
    let initial = j(r#"{
        "model": "sonnet",
        "env": {
            "ANTHROPIC_DEFAULT_SONNET_MODEL":"MiniMax-M3[1M]",
            "ANTHROPIC_DEFAULT_HAIKU_MODEL":"Kimi-K2.7-Code[30k]"
        }
    }"#);
    let mut file = taken_over_live(initial).to_string();
    let provider = Provider::with_id(
        "p".to_string(),
        "P".to_string(),
        j(r#"{
            "env": {
                "ANTHROPIC_DEFAULT_SONNET_MODEL":"MiniMax-M3[1M]",
                "ANTHROPIC_DEFAULT_HAIKU_MODEL":"Kimi-K2.7-Code[30k]"
            },
            "autoSyncContextWindow": false
        }"#),
        None,
    );

    let mut slot = None;
    replace_watcher(&mut slot, spawn_claude_settings_watcher(Some(file.as_str()), provider));
    let new_content = j(r#"{
        "model": "haiku",
        "env": {
            "ANTHROPIC_DEFAULT_SONNET_MODEL":"MiniMax-M3[1M]",
            "ANTHROPIC_DEFAULT_HAIKU_MODEL":"Kimi-K2.7-Code[30k]"
        }
    }"#);
    file = taken_over_live(new_content).to_string();

    handle(&mut file, slot.as_mut().unwrap());

    let v = j(&file);
    assert_eq!(v["model"], "haiku");
    assert!(
        v["env"].get("CLAUDE_CODE_AUTO_COMPACT_WINDOW").is_none(),
        "no window may be written here: {:?}",
        v["env"].get("CLAUDE_CODE_AUTO_COMPACT_WINDOW")
    );
    assert!(
        v["env"].get("CLAUDE_CODE_MAX_CONTEXT_TOKENS").is_none(),
        "no window may be written here: {:?}",
        v["env"].get("CLAUDE_CODE_MAX_CONTEXT_TOKENS")
    );
}

#[test]
fn fs_watcher_observes_atomic_write_replacement() {
    let initial = j(r#"{
        "model": "sonnet",
        "env": {
            "ANTHROPIC_DEFAULT_SONNET_MODEL":"MiniMax-M3[1M]",
            "ANTHROPIC_DEFAULT_HAIKU_MODEL":"Kimi-K2.7-Code[30k]"
        }
    }"#);
    let mut file = taken_over_live(initial).to_string();

    let provider = Provider::with_id(
        "p".to_string(),
        "P".to_string(),
        j(r#"{
            "env": {
                "ANTHROPIC_DEFAULT_SONNET_MODEL":"MiniMax-M3[1M]",
                "ANTHROPIC_DEFAULT_HAIKU_MODEL":"Kimi-K2.7-Code[30k]"
            },
            "autoSyncContextWindow":true
        }"#),
        None,
    );

    let mut slot = None;
    replace_watcher(&mut slot, spawn_claude_settings_watcher(Some(file.as_str()), provider));
    let new_content = j(r#"{
        "model": "haiku",
        "env": {
            "ANTHROPIC_DEFAULT_SONNET_MODEL":"MiniMax-M3[1M]",
            "ANTHROPIC_DEFAULT_HAIKU_MODEL":"Kimi-K2.7-Code[30k]"
        }
    }"#);
    file = taken_over_live(new_content).to_string();

    handle(&mut file, slot.as_mut().unwrap());

    let v = j(&file);
    assert_eq!(v["model"], "haiku");
    assert_eq!(v["env"]["CLAUDE_CODE_AUTO_COMPACT_WINDOW"], "28500");
    assert_eq!(v["env"]["CLAUDE_CODE_MAX_CONTEXT_TOKENS"], "30000");
}

#[test]
fn watcher_writes_use_pretty_json_and_update_last_written_on_success() {
    let content = r#"{"model":"sonnet","env":{}}"#;
    let writes = build_env_writes(200000, ratio(0.8));
    let next = update_env_fields(content, &writes).unwrap();
    assert!(next.contains('\n'), "expected pretty JSON");
    let v = j(&next);
    assert_eq!(v["env"]["CLAUDE_CODE_AUTO_COMPACT_WINDOW"], "160000");
    assert_eq!(v["env"]["CLAUDE_CODE_MAX_CONTEXT_TOKENS"], "200000");
}

#[test]
fn should_process_declares_candidate_without_committing_state() {
    let mut state = None;
    assert!(should_process(
        &state,
        Some("sonnet"),
        Some("160000"),
        Some("200000")
    ));
    assert!(should_process(
        &state,
        Some("sonnet"),
        Some("160000"),
        Some("200000")
    ));
    assert_eq!(state, None);

    record_processed_state(&mut state, Some("sonnet"), Some("160000"), Some("200000"));
    assert!(!should_process(
        &state,
        Some("sonnet"),
        Some("160000"),
        Some("200000")
    ));
}

#[test]
fn should_process_tracks_acw_max_changes() {
    let mut state = None;
    assert!(should_process(
        &state,
        Some("sonnet"),
        Some("160000"),
        Some("200000")
    ));
    assert!(should_process(
        &state,
        Some("sonnet"),
        Some("160000"),
        Some("200000")
    ));
    record_processed_state(&mut state, Some("sonnet"), Some("160000"), Some("200000"));
    assert!(!should_process(
        &state,
        Some("sonnet"),
        Some("160000"),
        Some("200000")
    ));
    assert!(should_process(
        &state,
        Some("sonnet"),
        Some("250000"),
        Some("250000")
    ));
    assert!(should_process(
        &state,
        Some("sonnet"),
        Some("250000"),
        Some("250000")
    ));
    record_processed_state(&mut state, Some("sonnet"), Some("250000"), Some("250000"));
    assert!(!should_process(
        &state,
        Some("sonnet"),
        Some("250000"),
        Some("250000")
    ));
}

#[test]
fn handle_settings_change_records_last_written_on_success() {
    let initial = j(r#"{
        "model": "sonnet",
        "env": { "ANTHROPIC_DEFAULT_SONNET_MODEL": "glm-5.2" }
    }"#);
    let mut file = taken_over_live(initial).to_string();

    let provider = Provider::with_id(
        "p".to_string(),
        "P".to_string(),
        j(r#"{
            "env": { "ANTHROPIC_DEFAULT_SONNET_MODEL": "glm-5.2" },
            "contextWindows": { "ANTHROPIC_DEFAULT_SONNET_MODEL": 200000 },
            "autoSyncContextWindow": true,
            "autoSyncCompactRatio": 0.8,
            "autoSyncState": { "lastWritten": {} }
        }"#),
        None,
    );
    let state = None;

    let mut watcher = ClaudeSettingsWatcher { state, provider, shutdown: false };
    let mut calls = 0;
    let mut captured = None;
    handle_with(&mut file, &mut watcher, &mut |settings| {
        calls += 1;
        captured = Some(settings);
        Ok(())
    });
    assert_eq!(calls, 1);

    let v = j(&file);
    assert_eq!(v["env"]["CLAUDE_CODE_AUTO_COMPACT_WINDOW"], "160000");
    assert_eq!(v["env"]["CLAUDE_CODE_MAX_CONTEXT_TOKENS"], "200000");
    assert_eq!(
        watcher.provider.settings_config["autoSyncState"]["lastWritten"],
        j(r#"{ "ACW": "160000", "MAX": "200000" }"#)
    );
    assert_eq!(
        captured.as_ref().unwrap()["autoSyncState"]["lastWritten"],
        j(r#"{ "ACW": "160000", "MAX": "200000" }"#)
    );
}

#[test]
fn handle_settings_change_keeps_ledger_and_state_when_persist_fails_after_write() {
    let initial = j(r#"{
        "model": "haiku",
        "env": { "ANTHROPIC_DEFAULT_HAIKU_MODEL": "Kimi-K2.7-Code[30k]" }
    }"#);
    let mut file = taken_over_live(initial).to_string();

    let provider = Provider::with_id(
        "p".to_string(),
        "P".to_string(),
        j(r#"{
            "env": { "ANTHROPIC_DEFAULT_HAIKU_MODEL": "Kimi-K2.7-Code[30k]" },
            "contextWindows": { "ANTHROPIC_DEFAULT_HAIKU_MODEL": 30000 },
            "autoSyncContextWindow": true,
            "autoSyncState": { "lastWritten": { "ACW": "1", "MAX": "2" } }
        }"#),
        None,
    );
    let previous = Some(WatcherSnapshot {
        model: Some("sonnet".to_string()),
        acw: None,
        max: None,
    });
    let state = previous.clone();

    let mut watcher = ClaudeSettingsWatcher { state, provider, shutdown: false };
    let mut calls = 0;
    handle_with(&mut file, &mut watcher, &mut |_| {
        calls += 1;
        Err("db unavailable".to_string())
    });
    assert_eq!(calls, 1);

    let v = j(&file);
    assert_eq!(v["env"]["CLAUDE_CODE_AUTO_COMPACT_WINDOW"], "28500");
    assert_eq!(v["env"]["CLAUDE_CODE_MAX_CONTEXT_TOKENS"], "30000");
    assert_eq!(
        watcher.provider.settings_config["autoSyncState"]["lastWritten"],
        j(r#"{ "ACW": "28500", "MAX": "30000" }"#)
    );
    assert_eq!(
        watcher.state,
        Some(WatcherSnapshot {
            model: Some("haiku".to_string()),
            acw: Some("28500".to_string()),
            max: Some("30000".to_string()),
        })
    );
    assert!(!should_process(
        &watcher.state,
        Some("haiku"),
        Some("28500"),
        Some("30000")
    ));
}

#[test]
fn failing_persist_after_write_keeps_auto_sync_flowing() {
    let mut file = taken_over_live(j(r#"{
            "model": "haiku",
            "env": { "ANTHROPIC_DEFAULT_HAIKU_MODEL": "Kimi-K2.7-Code[30k]" }
        }"#)).to_string();

    let provider = Provider::with_id(
        "p".to_string(),
        "P".to_string(),
        j(r#"{
            "env": {
                "ANTHROPIC_DEFAULT_HAIKU_MODEL": "Kimi-K2.7-Code[30k]",
                "ANTHROPIC_DEFAULT_SONNET_MODEL": "glm-5.2"
            },
            "contextWindows": {
                "ANTHROPIC_DEFAULT_HAIKU_MODEL": 30000,
                "ANTHROPIC_DEFAULT_SONNET_MODEL": 200000
            },
            "autoSyncContextWindow": true,
            "autoSyncState": { "lastWritten": { "ACW": "1", "MAX": "2" } }
        }"#),
        None,
    );
    let state = None;
    let mut persist = fail_once_then_succeed();
    let mut watcher = ClaudeSettingsWatcher { state, provider, shutdown: false };
    handle_with(&mut file, &mut watcher, &mut persist);
    handle_with(&mut file, &mut watcher, &mut persist);
    file = taken_over_live(j(r#"{
            "model": "sonnet",
            "env": { "ANTHROPIC_DEFAULT_SONNET_MODEL": "glm-5.2" }
        }"#)).to_string();
    handle_with(&mut file, &mut watcher, &mut persist);

    let v = j(&file);
    assert_eq!(v["env"]["CLAUDE_CODE_AUTO_COMPACT_WINDOW"], "190000");
    assert_eq!(v["env"]["CLAUDE_CODE_MAX_CONTEXT_TOKENS"], "200000");
}

#[test]
fn handle_settings_change_rebuilt_watcher_with_stale_ledger_keeps_auto_sync() {
    let initial = j(r#"{
        "model": "haiku",
        "env": {
            "ANTHROPIC_DEFAULT_HAIKU_MODEL": "haiku-model",
            "ANTHROPIC_DEFAULT_SONNET_MODEL": "sonnet-model",
            "CLAUDE_CODE_AUTO_COMPACT_WINDOW": "24000",
            "CLAUDE_CODE_MAX_CONTEXT_TOKENS": "30000"
        }
    }"#);
    let mut file = taken_over_live(initial).to_string();
    let provider = Provider::with_id(
        "p".to_string(),
        "P".to_string(),
        j(r#"{
            "env": {
                "ANTHROPIC_DEFAULT_HAIKU_MODEL": "haiku-model",
                "ANTHROPIC_DEFAULT_SONNET_MODEL": "sonnet-model"
            },
            "contextWindows": {
                "ANTHROPIC_DEFAULT_HAIKU_MODEL": 30000,
                "ANTHROPIC_DEFAULT_SONNET_MODEL": 200000
            },
            "autoSyncContextWindow": true,
            "autoSyncCompactRatio": 0.8,
            "autoSyncState": { "lastWritten": { "ACW": "1", "MAX": "2" } }
        }"#),
        None,
    );
    let state = None;

    let mut watcher = ClaudeSettingsWatcher { state, provider, shutdown: false };
    handle(&mut file, &mut watcher);
    file = taken_over_live(j(r#"{
            "model": "sonnet",
            "env": { "ANTHROPIC_DEFAULT_SONNET_MODEL": "sonnet-model" }
        }"#)).to_string();
    handle(&mut file, &mut watcher);

    let v = j(&file);
    assert_eq!(v["env"]["CLAUDE_CODE_AUTO_COMPACT_WINDOW"], "160000");
    assert_eq!(v["env"]["CLAUDE_CODE_MAX_CONTEXT_TOKENS"], "200000");
}

#[test]
fn handle_settings_change_calibrates_against_all_configured_role_targets() {
    let initial = j(r#"{
        "model": "haiku",
        "env": {
            "ANTHROPIC_DEFAULT_HAIKU_MODEL": "haiku-model",
            "ANTHROPIC_DEFAULT_SONNET_MODEL": "sonnet-model",
            "CLAUDE_CODE_AUTO_COMPACT_WINDOW": "160000",
            "CLAUDE_CODE_MAX_CONTEXT_TOKENS": "200000"
        }
    }"#);
    let mut file = taken_over_live(initial).to_string();
    let provider = Provider::with_id(
        "p".to_string(),
        "P".to_string(),
        j(r#"{
            "env": {
                "ANTHROPIC_DEFAULT_HAIKU_MODEL": "haiku-model",
                "ANTHROPIC_DEFAULT_SONNET_MODEL": "sonnet-model"
            },
            "contextWindows": {
                "ANTHROPIC_DEFAULT_HAIKU_MODEL": 30000,
                "ANTHROPIC_DEFAULT_SONNET_MODEL": 200000
            },
            "autoSyncContextWindow": true,
            "autoSyncCompactRatio": 0.8,
            "autoSyncState": { "lastWritten": {} }
        }"#),
        None,
    );
    let state = None;

    let mut watcher = ClaudeSettingsWatcher { state, provider, shutdown: false };
    handle(&mut file, &mut watcher);

    let v = j(&file);
    assert_eq!(v["env"]["CLAUDE_CODE_AUTO_COMPACT_WINDOW"], "24000");
    assert_eq!(v["env"]["CLAUDE_CODE_MAX_CONTEXT_TOKENS"], "30000");
    assert_eq!(
        watcher.provider.settings_config["autoSyncState"]["lastWritten"],
        j(r#"{ "ACW": "24000", "MAX": "30000" }"#)
    );
}

#[test]
fn handle_settings_change_kimi_raw_static_target_without_ledger_is_auto() {
    let initial = j(r#"{
        "model": "haiku",
        "env": {
            "ANTHROPIC_DEFAULT_HAIKU_MODEL": "kimi-for-coding",
            "ANTHROPIC_DEFAULT_SONNET_MODEL": "kimi-for-coding",
            "CLAUDE_CODE_AUTO_COMPACT_WINDOW": "262144",
            "CLAUDE_CODE_MAX_CONTEXT_TOKENS": "262144"
        }
    }"#);
    let mut file = taken_over_live(initial).to_string();

    let provider = Provider::with_id(
        "kimi".to_string(),
        "Kimi For Coding".to_string(),
        j(r#"{
            "env": {
                "ANTHROPIC_BASE_URL": "https://api.kimi.com/coding/",
                "ANTHROPIC_DEFAULT_HAIKU_MODEL": "kimi-for-coding",
                "ANTHROPIC_DEFAULT_SONNET_MODEL": "kimi-for-coding"
            },
            "autoSyncContextWindow": true,
            "autoSyncCompactRatio": 0.8,
            "autoSyncState": { "lastWritten": {} }
        }"#),
        None,
    );
    let state = Some(WatcherSnapshot {
        model: Some("sonnet".to_string()),
        acw: None,
        max: None,
    });

    let mut watcher = ClaudeSettingsWatcher { state, provider, shutdown: false };
    handle(&mut file, &mut watcher);

    let v = j(&file);
    assert_eq!(v["env"]["CLAUDE_CODE_AUTO_COMPACT_WINDOW"], "262144");
    assert_eq!(v["env"]["CLAUDE_CODE_MAX_CONTEXT_TOKENS"], "262144");
}

#[test]
fn handle_settings_change_codex_oauth_raw_static_target_without_ledger_is_auto() {
    let initial = j(r#"{
        "model": "haiku",
        "env": {
            "ANTHROPIC_DEFAULT_HAIKU_MODEL": "gpt-5.6-mini",
            "ANTHROPIC_DEFAULT_SONNET_MODEL": "gpt-5.6",
            "CLAUDE_CODE_AUTO_COMPACT_WINDOW": "372000",
            "CLAUDE_CODE_MAX_CONTEXT_TOKENS": "372000"
        }
    }"#);
    let mut file = taken_over_live(initial).to_string();

    let mut provider = Provider::with_id(
        "codex-oauth".to_string(),
        "Codex".to_string(),
        j(r#"{
            "env": {
                "ANTHROPIC_DEFAULT_HAIKU_MODEL": "gpt-5.6-mini",
                "ANTHROPIC_DEFAULT_SONNET_MODEL": "gpt-5.6"
            },
            "autoSyncContextWindow": true,
            "autoSyncCompactRatio": 0.8,
            "autoSyncState": { "lastWritten": {} }
        }"#),
        None,
    );
    provider.meta = Some(ProviderMeta {
        provider_type: Some("codex_oauth".to_string()),
        ..Default::default()
    });
    let state = Some(WatcherSnapshot {
        model: Some("sonnet".to_string()),
        acw: None,
        max: None,
    });

    let mut watcher = ClaudeSettingsWatcher { state, provider, shutdown: false };
    handle(&mut file, &mut watcher);

    let v = j(&file);
    assert_eq!(v["env"]["CLAUDE_CODE_AUTO_COMPACT_WINDOW"], "372000");
    assert_eq!(v["env"]["CLAUDE_CODE_MAX_CONTEXT_TOKENS"], "372000");
}

#[test]
fn failing_persist_retry_after_state_reset_does_not_mark_auto_target_explicit() {
    let initial = j(r#"{
        "model": "haiku",
        "env": { "ANTHROPIC_DEFAULT_HAIKU_MODEL": "Kimi[30k]" }
    }"#);
    let mut file = taken_over_live(initial).to_string();

    let provider = Provider::with_id(
        "p".to_string(),
        "P".to_string(),
        j(r#"{
            "env": {
                "ANTHROPIC_DEFAULT_HAIKU_MODEL": "Kimi[30k]",
                "ANTHROPIC_DEFAULT_SONNET_MODEL": "GLM[200k]"
            },
            "autoSyncContextWindow": true,
            "autoSyncCompactRatio": 0.8,
            "autoSyncState": { "lastWritten": { "ACW": "1", "MAX": "2" } }
        }"#),
        None,
    );
    let state = None;
    let mut persist = fail_once_then_succeed();
    let mut watcher = ClaudeSettingsWatcher { state, provider, shutdown: false };
    handle_with(&mut file, &mut watcher, &mut persist);
    watcher.provider.settings_config["autoSyncState"]["lastWritten"] =
        j(r#"{ "ACW": "1", "MAX": "2" }"#);
    watcher.state = None;
    handle_with(&mut file, &mut watcher, &mut persist);

    file = taken_over_live(j(r#"{
            "model": "sonnet",
            "env": { "ANTHROPIC_DEFAULT_SONNET_MODEL": "GLM[200k]" }
        }"#)).to_string();
    handle_with(&mut file, &mut watcher, &mut persist);

    let v = j(&file);
    assert_eq!(v["env"]["CLAUDE_CODE_AUTO_COMPACT_WINDOW"], "160000");
    assert_eq!(v["env"]["CLAUDE_CODE_MAX_CONTEXT_TOKENS"], "200000");
}

#[test]
fn handle_settings_change_keeps_last_written_when_atomic_write_fails() {
    let initial = j(r#"{
        "model": "sonnet",
        "env": { "ANTHROPIC_DEFAULT_SONNET_MODEL": "glm-5.2" }
    }"#);
    let file = taken_over_live(initial).to_string();

    let provider = Provider::with_id(
        "p".to_string(),
        "P".to_string(),
        j(r#"{
            "env": { "ANTHROPIC_DEFAULT_SONNET_MODEL": "glm-5.2" },
            "contextWindows": { "ANTHROPIC_DEFAULT_SONNET_MODEL": 200000 },
            "autoSyncContextWindow": true,
            "autoSyncState": { "lastWritten": { "ACW": "1", "MAX": "2" } }
        }"#),
        None,
    );
    let state = None;
    let watcher = ClaudeSettingsWatcher { state, provider, shutdown: false };
    assert!(watcher.handle_settings_change(&file).is_some());
    assert_eq!(
        watcher.provider.settings_config["autoSyncState"]["lastWritten"],
        j(r#"{ "ACW": "1", "MAX": "2" }"#)
    );
}

#[test]
fn handle_settings_change_retries_same_event_after_atomic_write_fails() {
    let initial = j(r#"{
        "model": "haiku",
        "env": { "ANTHROPIC_DEFAULT_HAIKU_MODEL": "haiku-model" }
    }"#);
    let mut file = taken_over_live(initial).to_string();

    let provider = Provider::with_id(
        "p".to_string(),
        "P".to_string(),
        j(r#"{
            "env": { "ANTHROPIC_DEFAULT_HAIKU_MODEL": "haiku-model" },
            "contextWindows": { "ANTHROPIC_DEFAULT_HAIKU_MODEL": 30000 },
            "autoSyncContextWindow": true,
            "autoSyncState": { "lastWritten": { "ACW": "1", "MAX": "2" } }
        }"#),
        None,
    );
    let previous = Some(WatcherSnapshot {
        model: Some("sonnet".to_string()),
        acw: None,
        max: None,
    });
    let state = previous.clone();

    let mut watcher = ClaudeSettingsWatcher { state, provider, shutdown: false };
    assert!(watcher.handle_settings_change(&file).is_some());
    assert_eq!(watcher.state, previous);
    assert_eq!(
        watcher.provider.settings_config["autoSyncState"]["lastWritten"],
        j(r#"{ "ACW": "1", "MAX": "2" }"#)
    );

    handle(&mut file, &mut watcher);

    let v = j(&file);
    assert_eq!(v["env"]["CLAUDE_CODE_AUTO_COMPACT_WINDOW"], "28500");
    assert_eq!(v["env"]["CLAUDE_CODE_MAX_CONTEXT_TOKENS"], "30000");
    assert_eq!(
        watcher.state,
        Some(WatcherSnapshot {
            model: Some("haiku".to_string()),
            acw: Some("28500".to_string()),
            max: Some("30000".to_string()),
        })
    );
}

#[test]
fn verify_file_unchanged_detects_concurrent_modification() {
    assert!(verify_file_unchanged("first", "first").is_ok());
    assert!(verify_file_unchanged("second", "first").is_err());
}

#[test]
fn effective_auto_sync_enabled_false_without_field_or_ledger() {
    let provider =
        Provider::with_id("p".to_string(), "P".to_string(), j(r#"{ "env": {} }"#), None);
    assert!(!effective_auto_sync_enabled(&provider));
}

#[test]
fn effective_auto_sync_enabled_respects_explicit_field() {
    let provider = Provider::with_id(
        "p".to_string(),
        "P".to_string(),
        j(r#"{
            "env": {},
            "autoSyncContextWindow": false,
            "autoSyncState": { "staticInjected": { "ACW": "262144", "MAX": "262144" } }
        }"#),
        None,
    );
    assert!(!effective_auto_sync_enabled(&provider));

    let provider = Provider::with_id(
        "p".to_string(),
        "P".to_string(),
        j(r#"{ "env": {}, "autoSyncContextWindow": true }"#),
        None,
    );
    assert!(effective_auto_sync_enabled(&provider));
}

#[test]
fn fs_real_watcher_missing_field_does_not_auto_sync() {
    let initial = j(r#"{
        "model": "sonnet",
        "env": {
            "ANTHROPIC_DEFAULT_SONNET_MODEL": "MiniMax-M3[1M]",
            "ANTHROPIC_DEFAULT_HAIKU_MODEL": "Kimi-K2.7-Code[30k]"
        }
    }"#);
    let mut file = taken_over_live(initial).to_string();

    let provider = Provider::with_id(
        "p".to_string(),
        "P".to_string(),
        j(r#"{
            "env": {
                "ANTHROPIC_DEFAULT_SONNET_MODEL": "MiniMax-M3[1M]",
                "ANTHROPIC_DEFAULT_HAIKU_MODEL": "Kimi-K2.7-Code[30k]"
            },
            "autoSyncState": { "lastWritten": { "ACW": "1", "MAX": "2" } }
        }"#),
        None,
    );

    let mut watcher = spawn_claude_settings_watcher(Some(file.as_str()), provider);
    file = taken_over_live(j(r#"{
            "model": "haiku",
            "env": {
                "ANTHROPIC_DEFAULT_HAIKU_MODEL": "Kimi-K2.7-Code[30k]",
                "ANTHROPIC_DEFAULT_SONNET_MODEL": "MiniMax-M3[1M]"
            }
        }"#)).to_string();

    handle(&mut file, &mut watcher);

    let v = j(&file);
    assert_eq!(v["model"], "haiku");
    assert!(
        v["env"].get("CLAUDE_CODE_AUTO_COMPACT_WINDOW").is_none(),
        "no window may be written here"
    );
    assert!(
        v["env"].get("CLAUDE_CODE_MAX_CONTEXT_TOKENS").is_none(),
        "no window may be written here"
    );
}

#[test]
fn handle_settings_change_route_mode_gate_controls_acw_max_writes() {
    let provider = Provider::with_id(
        "p".to_string(),
        "P".to_string(),
        j(r#"{
            "env": { "ANTHROPIC_DEFAULT_SONNET_MODEL": "glm-5.2" },
            "contextWindows": { "ANTHROPIC_DEFAULT_SONNET_MODEL": 200000 },
            "autoSyncContextWindow": true
        }"#),
        None,
    );
    let state = None;
    let mut file = j(r#"{
            "model": "sonnet",
            "env": { "ANTHROPIC_DEFAULT_SONNET_MODEL": "glm-5.2" }
        }"#).to_string();
    let mut watcher = ClaudeSettingsWatcher { state, provider, shutdown: false };
    handle(&mut file, &mut watcher);

    let v = j(&file);
    assert!(v["env"].get("CLAUDE_CODE_AUTO_COMPACT_WINDOW").is_none());
    assert!(v["env"].get("CLAUDE_CODE_MAX_CONTEXT_TOKENS").is_none());
    file = taken_over_live(j(r#"{
            "model": "sonnet",
            "env": { "ANTHROPIC_DEFAULT_SONNET_MODEL": "glm-5.2" }
        }"#)).to_string();
    handle(&mut file, &mut watcher);

    let v = j(&file);
    assert_eq!(v["env"]["CLAUDE_CODE_AUTO_COMPACT_WINDOW"], "190000");
    assert_eq!(v["env"]["CLAUDE_CODE_MAX_CONTEXT_TOKENS"], "200000");
}
