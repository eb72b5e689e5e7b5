//! Effective settings, the common configuration, and the way back into storage.

use live_config::backfill::{
    restore_live_settings_for_provider_backfill, strip_common_config_from_live_settings,
};
use live_config::common_config::{
    apply_common_config_to_settings, provider_uses_common_config, remove_common_config_from_settings,
    settings_contain_common_config, update_toml_common_config_snippet,
};
use live_config::context_defaults::{
    apply_context_window_defaults, apply_kimi_for_coding_context_defaults,
    restore_claude_subagent_local_marker_for_effective,
};
use live_config::effective::{
    build_effective_settings_with_common_config, merge_auto_sync_state_into_provider,
    merge_watcher_auto_sync_state, sanitize_claude_settings_for_live, watcher_provider_from_effective,
    write_live_with_common_config,
};
use live_config::live_write::{write_live_snapshot, LiveWrite};
use live_config::provider::{AppType, Provider, ProviderMeta};
use serde_json::Value;
use toml_edit::DocumentMut;

fn j(text: &str) -> Value {
    serde_json::from_str(text).unwrap()
}

#[test]
fn watcher_provider_snapshot_uses_effective_settings_and_keeps_provider_fields() {
    let mut provider = Provider::with_id(
        "p".to_string(),
        "P".to_string(),
        j(r#"{ "env": { "ANTHROPIC_MODEL": "raw-model" } }"#),
        Some("https://example.com".to_string()),
    );
    provider.meta = Some(ProviderMeta {
        provider_type: Some("codex_oauth".to_string()),
        ..Default::default()
    });
    let effective = j(r#"{
        "env": {
            "ANTHROPIC_MODEL": "gpt-5.6",
            "CLAUDE_CODE_AUTO_COMPACT_WINDOW": "372000",
            "CLAUDE_CODE_MAX_CONTEXT_TOKENS": "372000"
        },
        "autoSyncState": { "staticInjected": { "ACW": "372000", "MAX": "372000" } }
    }"#);

    let snapshot = watcher_provider_from_effective(&provider, &effective);

    assert_eq!(snapshot.id, "p");
    assert_eq!(snapshot.name, "P");
    assert_eq!(snapshot.website_url.as_deref(), Some("https://example.com"));
    assert_eq!(
        snapshot
            .meta
            .as_ref()
            .and_then(|meta| meta.provider_type.as_deref()),
        Some("codex_oauth")
    );
    assert_eq!(snapshot.settings_config, effective);
    assert_eq!(
        provider.settings_config["env"]["ANTHROPIC_MODEL"],
        "raw-model"
    );
}

#[test]
fn claude_watcher_persist_callback_writes_auto_sync_state_to_db() {
    let provider =
        Provider::with_id("p".to_string(), "P".to_string(), j(r#"{ "env": {} }"#), None);
    let mut stored = provider;
    let settings = j(r#"{
        "env": {},
        "autoSyncState": {
            "lastWritten": { "ACW": "1", "MAX": "2" },
            "userExplicit": { "ACW": "1", "MAX": "2" }
        }
    }"#);
    merge_watcher_auto_sync_state(&mut stored.settings_config, &settings);
    assert_eq!(
        stored.settings_config["autoSyncState"]["lastWritten"],
        j(r#"{ "ACW": "1", "MAX": "2" }"#)
    );
    assert_eq!(
        stored.settings_config["autoSyncState"]["userExplicit"],
        j(r#"{ "ACW": "1", "MAX": "2" }"#)
    );
}

#[test]
fn claude_watcher_persist_callback_merges_only_auto_sync_state_into_db() {
    let provider = Provider::with_id(
        "p".to_string(),
        "P".to_string(),
        j(r#"{
            "env": {
                "ANTHROPIC_AUTH_TOKEN": "db-token",
                "ANTHROPIC_MODEL": "db-model"
            },
            "autoSyncContextWindow": true,
            "contextWindows": { "ANTHROPIC_DEFAULT_SONNET_MODEL": 200000 },
            "autoSyncState": {
                "extraState": { "keep": true },
                "lastWritten": { "ACW": "1", "MAX": "2" }
            }
        }"#),
        None,
    );
    let mut stored = provider;
    let watcher_settings = j(r#"{
        "env": {
            "ANTHROPIC_AUTH_TOKEN": "stale-token",
            "ANTHROPIC_MODEL": "stale-model"
        },
        "autoSyncContextWindow": false,
        "contextWindows": {},
        "autoSyncState": {
            "lastWritten": { "ACW": "160000", "MAX": "200000" },
            "userExplicit": {}
        }
    }"#);
    merge_watcher_auto_sync_state(&mut stored.settings_config, &watcher_settings);
    assert_eq!(
        stored.settings_config["env"]["ANTHROPIC_AUTH_TOKEN"],
        "db-token"
    );
    assert_eq!(stored.settings_config["env"]["ANTHROPIC_MODEL"], "db-model");
    assert_eq!(stored.settings_config["autoSyncContextWindow"], j(r#"true"#));
    assert_eq!(
        stored.settings_config["contextWindows"]["ANTHROPIC_DEFAULT_SONNET_MODEL"],
        200000
    );
    assert_eq!(
        stored.settings_config["autoSyncState"]["lastWritten"],
        j(r#"{ "ACW": "160000", "MAX": "200000" }"#)
    );
    assert_eq!(
        stored.settings_config["autoSyncState"]["userExplicit"],
        j(r#"{}"#)
    );
    assert_eq!(
        stored.settings_config["autoSyncState"]["extraState"],
        j(r#"{ "keep": true }"#)
    );
}

#[test]
fn direct_live_uses_context_windows_and_keeps_model_clean() {
    let provider = Provider::with_id(
        "p".into(),
        "P".into(),
        j(r#"{
            "env": {
                "ANTHROPIC_MODEL": "deepseek-v4-pro",
                "ANTHROPIC_DEFAULT_SONNET_MODEL": "glm-5.2"
            },
            "contextWindows": {
                "ANTHROPIC_DEFAULT_SONNET_MODEL": 200000
            }
        }"#),
        None,
    );
    let effective =
        build_effective_settings_with_common_config(None, &AppType::Claude, &provider);
    assert_eq!(effective["env"]["CLAUDE_CODE_MAX_CONTEXT_TOKENS"], "200000");
    assert_eq!(
        effective["env"]["ANTHROPIC_DEFAULT_SONNET_MODEL"],
        "glm-5.2"
    );
}

#[test]
fn restore_subagent_local_marker_only_for_one_million_window() {
    let provider_200k = Provider::with_id(
        "p-200k".to_string(),
        "P 200k".to_string(),
        j(r#"{
            "env": {
                "CLAUDE_CODE_SUBAGENT_MODEL": "subagent-model[200k]"
            },
            "contextWindows": { "CLAUDE_CODE_SUBAGENT_MODEL": 200000 }
        }"#),
        None,
    );
    let mut effective_200k = j(r#"{
        "env": { "CLAUDE_CODE_SUBAGENT_MODEL": "subagent-model" }
    }"#);
    restore_claude_subagent_local_marker_for_effective(&mut effective_200k, &provider_200k);
    assert_eq!(
        effective_200k["env"]["CLAUDE_CODE_SUBAGENT_MODEL"],
        "subagent-model"
    );

    let provider_1m = Provider::with_id(
        "p-1m".to_string(),
        "P 1M".to_string(),
        j(r#"{
            "env": {
                "CLAUDE_CODE_SUBAGENT_MODEL": "subagent-model[1M]"
            },
            "contextWindows": { "CLAUDE_CODE_SUBAGENT_MODEL": 1000000 }
        }"#),
        None,
    );
    let mut effective_1m = j(r#"{
        "env": { "CLAUDE_CODE_SUBAGENT_MODEL": "subagent-model" }
    }"#);
    restore_claude_subagent_local_marker_for_effective(&mut effective_1m, &provider_1m);
    assert_eq!(
        effective_1m["env"]["CLAUDE_CODE_SUBAGENT_MODEL"],
        "subagent-model[1M]"
    );
}

#[test]
fn restore_subagent_local_marker_uses_context_windows_when_env_is_clean() {
    let provider_200k = Provider::with_id(
        "p-clean-200k".to_string(),
        "P Clean 200k".to_string(),
        j(r#"{
            "env": { "CLAUDE_CODE_SUBAGENT_MODEL": "subagent-model" },
            "contextWindows": { "CLAUDE_CODE_SUBAGENT_MODEL": 200000 }
        }"#),
        None,
    );
    let mut effective_200k = j(r#"{
        "env": { "CLAUDE_CODE_SUBAGENT_MODEL": "subagent-model" }
    }"#);
    restore_claude_subagent_local_marker_for_effective(&mut effective_200k, &provider_200k);
    assert_eq!(
        effective_200k["env"]["CLAUDE_CODE_SUBAGENT_MODEL"],
        "subagent-model"
    );

    let provider_1m = Provider::with_id(
        "p-clean-1m".to_string(),
        "P Clean 1M".to_string(),
        j(r#"{
            "env": { "CLAUDE_CODE_SUBAGENT_MODEL": "subagent-model" },
            "contextWindows": { "CLAUDE_CODE_SUBAGENT_MODEL": 1000000 }
        }"#),
        None,
    );
    let mut effective_1m = j(r#"{
        "env": { "CLAUDE_CODE_SUBAGENT_MODEL": "subagent-model" }
    }"#);
    restore_claude_subagent_local_marker_for_effective(&mut effective_1m, &provider_1m);
    assert_eq!(
        effective_1m["env"]["CLAUDE_CODE_SUBAGENT_MODEL"],
        "subagent-model[1M]"
    );
}

#[test]
fn direct_live_writes_clean_models_and_persists_static_injected() {
    let provider = Provider::with_id(
        "p".to_string(),
        "P".to_string(),
        j(r#"{
            "env": {
                "ANTHROPIC_MODEL": "fallback-model[1M]",
                "ANTHROPIC_DEFAULT_HAIKU_MODEL": "haiku-model",
                "ANTHROPIC_DEFAULT_SONNET_MODEL": "glm-5.2[200k]",
                "ANTHROPIC_DEFAULT_OPUS_MODEL": "opus-model",
                "ANTHROPIC_DEFAULT_FABLE_MODEL": "fable-model",
                "CLAUDE_CODE_SUBAGENT_MODEL": "subagent-model[1M]"
            },
            "contextWindows": {
                "ANTHROPIC_DEFAULT_SONNET_MODEL": 200000,
                "CLAUDE_CODE_SUBAGENT_MODEL": 1000000
            },
            "autoSyncState": {
                "lastWritten": { "model": "sonnet" },
                "userExplicit": { "legacy": true }
            }
        }"#),
        None,
    );
    let plan = write_live_with_common_config(None, &AppType::Claude, &provider);
    let live = match write_live_snapshot(&AppType::Claude, &plan.provider, false) {
        Ok(LiveWrite::ClaudeSettings(live)) => live,
        _ => panic!("the settings file must be written"),
    };
    assert_eq!(live["env"]["ANTHROPIC_MODEL"], "fallback-model");
    assert_eq!(live["env"]["ANTHROPIC_DEFAULT_SONNET_MODEL"], "glm-5.2");
    assert_eq!(live["env"]["CLAUDE_CODE_SUBAGENT_MODEL"], "subagent-model");
    assert_eq!(live["env"]["CLAUDE_CODE_MAX_CONTEXT_TOKENS"], "1000000");
    assert_eq!(live["env"]["CLAUDE_CODE_AUTO_COMPACT_WINDOW"], "1000000");
    assert!(live.get("contextWindows").is_none());
    assert!(live.get("autoSyncState").is_none());

    let stored = plan.store.unwrap();
    assert_eq!(
        stored["env"]["ANTHROPIC_MODEL"],
        "fallback-model[1M]"
    );
    assert_eq!(
        stored["autoSyncState"]["lastWritten"],
        j(r#"{ "model": "sonnet" }"#)
    );
    assert_eq!(
        stored["autoSyncState"]["userExplicit"],
        j(r#"{ "legacy": true }"#)
    );
    assert_eq!(
        stored["autoSyncState"]["staticInjected"],
        j(r#"{ "ACW": "1000000", "MAX": "1000000" }"#)
    );
}

#[test]
fn merge_auto_sync_state_into_provider_preserves_db_metadata() {
    let mut stored = j(r#"{
        "env": { "ANTHROPIC_MODEL": "fallback-model[1M]" },
        "autoSyncState": {
            "lastWritten": { "model": "sonnet" },
            "userExplicit": { "CLAUDE_CODE_MAX_CONTEXT_TOKENS": true }
        }
    }"#);
    let effective = j(r#"{
        "autoSyncState": {
            "staticInjected": { "ACW": "800000", "MAX": "1000000" }
        }
    }"#);
    merge_auto_sync_state_into_provider(&mut stored, &effective);
    assert_eq!(
        stored["autoSyncState"]["lastWritten"],
        j(r#"{ "model": "sonnet" }"#)
    );
    assert_eq!(
        stored["autoSyncState"]["userExplicit"],
        j(r#"{ "CLAUDE_CODE_MAX_CONTEXT_TOKENS": true }"#)
    );
    assert_eq!(
        stored["autoSyncState"]["staticInjected"],
        j(r#"{ "ACW": "800000", "MAX": "1000000" }"#)
    );
}

#[test]
fn kimi_for_coding_effective_settings_backfill_256k_context() {
    let provider = Provider::with_id(
        "kimi-for-coding".to_string(),
        "Kimi For Coding".to_string(),
        j(r#"{
            "env": {
                "ANTHROPIC_BASE_URL": "https://api.kimi.com/coding/",
                "ANTHROPIC_MODEL": "kimi-for-coding",
                "CLAUDE_CODE_AUTO_COMPACT_WINDOW": "262144"
            }
        }"#),
        None,
    );

    let effective =
        build_effective_settings_with_common_config(None, &AppType::Claude, &provider);
    assert_eq!(
        effective["env"]["CLAUDE_CODE_MAX_CONTEXT_TOKENS"],
        j(r#""262144""#)
    );
    assert_eq!(
        effective["env"]["CLAUDE_CODE_AUTO_COMPACT_WINDOW"],
        j(r#""262144""#)
    );
    assert!(
        effective["autoSyncState"].get("staticInjected").is_none(),
        "user explicit ACW must suppress staticInjected"
    );
}

#[test]
fn kimi_for_coding_context_defaults_preserve_user_overrides() {
    let provider = Provider::with_id(
        "kimi-for-coding".to_string(),
        "Kimi For Coding".to_string(),
        j(r#"{
            "env": {
                "ANTHROPIC_BASE_URL": "https://api.kimi.com/coding",
                "CLAUDE_CODE_MAX_CONTEXT_TOKENS": "300000",
                "CLAUDE_CODE_AUTO_COMPACT_WINDOW": "250000"
            }
        }"#),
        None,
    );

    let effective =
        build_effective_settings_with_common_config(None, &AppType::Claude, &provider);
    assert_eq!(
        effective["env"]["CLAUDE_CODE_MAX_CONTEXT_TOKENS"],
        j(r#""300000""#)
    );
    assert_eq!(
        effective["env"]["CLAUDE_CODE_AUTO_COMPACT_WINDOW"],
        j(r#""250000""#)
    );
    assert!(
        effective["autoSyncState"].get("staticInjected").is_none(),
        "user explicit ACW/MAX must not be marked as staticInjected"
    );
}

#[test]
fn kimi_restores_static_262144_injection() {
    let provider = Provider::with_id(
        "kimi".to_string(),
        "Kimi".to_string(),
        j(r#"{
            "env": { "ANTHROPIC_BASE_URL": "https://api.kimi.com/coding/" }
        }"#),
        None,
    );

    let effective =
        build_effective_settings_with_common_config(None, &AppType::Claude, &provider);
    assert_eq!(
        effective["env"]["CLAUDE_CODE_MAX_CONTEXT_TOKENS"],
        j(r#""262144""#)
    );
    assert_eq!(
        effective["env"]["CLAUDE_CODE_AUTO_COMPACT_WINDOW"],
        j(r#""262144""#)
    );
    assert_eq!(
        effective["autoSyncState"]["staticInjected"],
        j(r#"{ "ACW": "262144", "MAX": "262144" }"#)
    );
}

#[test]
fn kimi_static_injection_wins_over_context_windows() {
    let provider = Provider::with_id(
        "kimi-with-context-windows".to_string(),
        "Kimi With Context Windows".to_string(),
        j(r#"{
            "env": {
                "ANTHROPIC_BASE_URL": "https://api.kimi.com/coding/",
                "ANTHROPIC_MODEL": "kimi-for-coding"
            },
            "contextWindows": { "ANTHROPIC_MODEL": 800000 }
        }"#),
        None,
    );

    let effective =
        build_effective_settings_with_common_config(None, &AppType::Claude, &provider);
    assert_eq!(
        effective["env"]["CLAUDE_CODE_MAX_CONTEXT_TOKENS"],
        j(r#""262144""#)
    );
    assert_eq!(
        effective["env"]["CLAUDE_CODE_AUTO_COMPACT_WINDOW"],
        j(r#""262144""#)
    );
    assert_eq!(
        effective["autoSyncState"]["staticInjected"],
        j(r#"{ "ACW": "262144", "MAX": "262144" }"#)
    );
}

#[test]
fn kimi_for_coding_backfill_strips_only_injected_context_default() {
    let provider = Provider::with_id(
        "kimi-for-coding".to_string(),
        "Kimi For Coding".to_string(),
        j(r#"{
            "env": {
                "ANTHROPIC_BASE_URL": "https://api.kimi.com/coding/",
                "CLAUDE_CODE_AUTO_COMPACT_WINDOW": "262144"
            }
        }"#),
        None,
    );

    let live = build_effective_settings_with_common_config(None, &AppType::Claude, &provider);
    let backfilled =
        strip_common_config_from_live_settings(None, &AppType::Claude, &provider, live);
    assert!(backfilled["env"]
        .get("CLAUDE_CODE_MAX_CONTEXT_TOKENS")
        .is_none());
    assert_eq!(
        backfilled["env"]["CLAUDE_CODE_AUTO_COMPACT_WINDOW"],
        j(r#""262144""#)
    );
}

#[test]
fn codex_oauth_effective_settings_backfill_gpt_context_defaults() {
    let mut provider = Provider::with_id(
        "codex-oauth".to_string(),
        "Codex".to_string(),
        j(r#"{
            "env": {
                "ANTHROPIC_MODEL": "gpt-5.6"
            }
        }"#),
        None,
    );
    provider.meta = Some(ProviderMeta {
        provider_type: Some("codex_oauth".to_string()),
        ..Default::default()
    });

    let effective =
        build_effective_settings_with_common_config(None, &AppType::Claude, &provider);
    assert_eq!(
        effective["env"]["CLAUDE_CODE_MAX_CONTEXT_TOKENS"],
        j(r#""372000""#)
    );
    assert_eq!(
        effective["env"]["CLAUDE_CODE_AUTO_COMPACT_WINDOW"],
        j(r#""372000""#)
    );
    assert_eq!(
        effective["autoSyncState"]["staticInjected"],
        j(r#"{ "ACW": "372000", "MAX": "372000" }"#)
    );
}

#[test]
fn codex_oauth_context_defaults_preserve_user_overrides() {
    let mut provider = Provider::with_id(
        "codex-oauth".to_string(),
        "Codex".to_string(),
        j(r#"{
            "env": {
                "CLAUDE_CODE_MAX_CONTEXT_TOKENS": "500000",
                "CLAUDE_CODE_AUTO_COMPACT_WINDOW": "350000"
            }
        }"#),
        None,
    );
    provider.meta = Some(ProviderMeta {
        provider_type: Some("codex_oauth".to_string()),
        ..Default::default()
    });

    let effective =
        build_effective_settings_with_common_config(None, &AppType::Claude, &provider);
    assert_eq!(
        effective["env"]["CLAUDE_CODE_MAX_CONTEXT_TOKENS"],
        j(r#""500000""#)
    );
    assert_eq!(
        effective["env"]["CLAUDE_CODE_AUTO_COMPACT_WINDOW"],
        j(r#""350000""#)
    );
    assert!(
        effective["autoSyncState"].get("staticInjected").is_none(),
        "user explicit ACW/MAX must not be marked as staticInjected"
    );
}

#[test]
fn codex_oauth_restores_static_372000_injection() {
    let mut provider = Provider::with_id(
        "codex-oauth".to_string(),
        "Codex".to_string(),
        j(r#"{ "env": { "ANTHROPIC_MODEL": "gpt-5.6" } }"#),
        None,
    );
    provider.meta = Some(ProviderMeta {
        provider_type: Some("codex_oauth".to_string()),
        ..Default::default()
    });

    let effective =
        build_effective_settings_with_common_config(None, &AppType::Claude, &provider);
    assert_eq!(
        effective["env"]["CLAUDE_CODE_MAX_CONTEXT_TOKENS"],
        j(r#""372000""#)
    );
    assert_eq!(
        effective["env"]["CLAUDE_CODE_AUTO_COMPACT_WINDOW"],
        j(r#""372000""#)
    );
    assert_eq!(
        effective["autoSyncState"]["staticInjected"],
        j(r#"{ "ACW": "372000", "MAX": "372000" }"#)
    );
}

#[test]
fn codex_oauth_static_injection_wins_over_context_windows() {
    let mut provider = Provider::with_id(
        "codex-oauth-context-windows".to_string(),
        "Codex With Context Windows".to_string(),
        j(r#"{
            "env": { "ANTHROPIC_MODEL": "gpt-5.6" },
            "contextWindows": { "ANTHROPIC_MODEL": 800000 }
        }"#),
        None,
    );
    provider.meta = Some(ProviderMeta {
        provider_type: Some("codex_oauth".to_string()),
        ..Default::default()
    });

    let effective =
        build_effective_settings_with_common_config(None, &AppType::Claude, &provider);
    assert_eq!(
        effective["env"]["CLAUDE_CODE_MAX_CONTEXT_TOKENS"],
        j(r#""372000""#)
    );
    assert_eq!(
        effective["env"]["CLAUDE_CODE_AUTO_COMPACT_WINDOW"],
        j(r#""372000""#)
    );
    assert_eq!(
        effective["autoSyncState"]["staticInjected"],
        j(r#"{ "ACW": "372000", "MAX": "372000" }"#)
    );
}

#[test]
fn codex_oauth_context_defaults_override_legacy_common_config_values() {
    let snippet = j(r#"{
                "env": {
                    "CLAUDE_CODE_MAX_CONTEXT_TOKENS": "262144",
                    "CLAUDE_CODE_AUTO_COMPACT_WINDOW": "262144"
                }
            }"#).to_string();
    let mut provider = Provider::with_id(
        "codex-oauth".to_string(),
        "Codex".to_string(),
        j(r#"{ "env": { "ANTHROPIC_MODEL": "gpt-5.6" } }"#),
        None,
    );
    provider.meta = Some(ProviderMeta {
        provider_type: Some("codex_oauth".to_string()),
        common_config_enabled: Some(true),
        ..Default::default()
    });

    let effective =
        build_effective_settings_with_common_config(Some(snippet.as_str()), &AppType::Claude, &provider);
    assert_eq!(
        effective["env"]["CLAUDE_CODE_MAX_CONTEXT_TOKENS"],
        j(r#""372000""#)
    );
    assert_eq!(
        effective["env"]["CLAUDE_CODE_AUTO_COMPACT_WINDOW"],
        j(r#""372000""#)
    );
    assert_eq!(
        effective["autoSyncState"]["staticInjected"],
        j(r#"{ "ACW": "372000", "MAX": "372000" }"#)
    );
}

#[test]
fn codex_oauth_context_defaults_preserve_non_gpt56_models_and_common_values() {
    let snippet = j(r#"{
                "env": {
                    "CLAUDE_CODE_MAX_CONTEXT_TOKENS": "262144",
                    "CLAUDE_CODE_AUTO_COMPACT_WINDOW": "262144"
                }
            }"#).to_string();
    let mut provider = Provider::with_id(
        "codex-oauth".to_string(),
        "Codex".to_string(),
        j(r#"{
            "env": {
                "ANTHROPIC_MODEL": "gpt-5.5",
                "CLAUDE_CODE_AUTO_COMPACT_WINDOW": "300000"
            }
        }"#),
        None,
    );
    provider.meta = Some(ProviderMeta {
        provider_type: Some("codex_oauth".to_string()),
        common_config_enabled: Some(true),
        ..Default::default()
    });

    let effective =
        build_effective_settings_with_common_config(Some(snippet.as_str()), &AppType::Claude, &provider);
    assert_eq!(
        effective["env"]["CLAUDE_CODE_MAX_CONTEXT_TOKENS"],
        j(r#""262144""#)
    );
    assert_eq!(
        effective["env"]["CLAUDE_CODE_AUTO_COMPACT_WINDOW"],
        j(r#""300000""#)
    );
}

#[test]
fn codex_oauth_backfill_strips_injected_context_defaults() {
    let mut provider = Provider::with_id(
        "codex-oauth".to_string(),
        "Codex".to_string(),
        j(r#"{ "env": { "ANTHROPIC_MODEL": "gpt-5.6" } }"#),
        None,
    );
    provider.meta = Some(ProviderMeta {
        provider_type: Some("codex_oauth".to_string()),
        ..Default::default()
    });
    let live = build_effective_settings_with_common_config(None, &AppType::Claude, &provider);
    assert_eq!(
        live["env"]["CLAUDE_CODE_MAX_CONTEXT_TOKENS"],
        j(r#""372000""#)
    );
    assert_eq!(
        live["env"]["CLAUDE_CODE_AUTO_COMPACT_WINDOW"],
        j(r#""372000""#)
    );
    let backfilled =
        strip_common_config_from_live_settings(None, &AppType::Claude, &provider, live);
    assert!(backfilled["env"]
        .get("CLAUDE_CODE_MAX_CONTEXT_TOKENS")
        .is_none());
    assert!(backfilled["env"]
        .get("CLAUDE_CODE_AUTO_COMPACT_WINDOW")
        .is_none());
    assert_eq!(backfilled["env"]["ANTHROPIC_MODEL"], j(r#""gpt-5.6""#));
}

#[test]
fn codex_oauth_backfill_keeps_user_context_values() {
    let mut provider = Provider::with_id(
        "codex-oauth".to_string(),
        "Codex".to_string(),
        j(r#"{
            "env": {
                "ANTHROPIC_MODEL": "gpt-5.6",
                "CLAUDE_CODE_MAX_CONTEXT_TOKENS": "500000"
            }
        }"#),
        None,
    );
    provider.meta = Some(ProviderMeta {
        provider_type: Some("codex_oauth".to_string()),
        ..Default::default()
    });
    let live = j(r#"{
        "env": {
            "ANTHROPIC_MODEL": "gpt-5.6",
            "CLAUDE_CODE_MAX_CONTEXT_TOKENS": "500000",
            "CLAUDE_CODE_AUTO_COMPACT_WINDOW": "300000"
        }
    }"#);
    let backfilled =
        strip_common_config_from_live_settings(None, &AppType::Claude, &provider, live);
    assert_eq!(
        backfilled["env"]["CLAUDE_CODE_MAX_CONTEXT_TOKENS"],
        j(r#""500000""#)
    );
    assert_eq!(
        backfilled["env"]["CLAUDE_CODE_AUTO_COMPACT_WINDOW"],
        j(r#""300000""#)
    );
}

#[test]
fn update_toml_common_config_snippet_preserves_comments_and_key_order() {
    let config = r#"# my precious comment
model = "gpt-5.5"
model_provider = "aprov"
disable_response_storage = true

[model_providers.aprov]
# provider comment
name = "A Prov"
base_url = "https://a.example/v1"
"#;
    let snippet = "[tui]\nnotifications = true\n";

    let merged = update_toml_common_config_snippet(config, snippet, true).unwrap();
    assert!(merged.contains("# my precious comment"));
    assert!(merged.contains("# provider comment"));
    let model_pos = merged.find("model = ").unwrap();
    let provider_pos = merged.find("model_provider = ").unwrap();
    let disable_pos = merged.find("disable_response_storage").unwrap();
    assert!(
        model_pos < provider_pos && provider_pos < disable_pos,
        "merge must not reorder user keys, got: {merged}"
    );
    assert!(merged.contains("[tui]"));
    assert!(merged.contains("notifications = true"));
    assert!(
        !merged.contains("[model_providers]\n"),
        "merge must not synthesize an empty parent table header, got: {merged}"
    );

    let removed = update_toml_common_config_snippet(&merged, snippet, false).unwrap();
    assert!(!removed.contains("[tui]"), "snippet keys must be stripped");
    assert!(removed.contains("# my precious comment"));
    assert!(removed.contains("disable_response_storage = true"));
}

#[test]
fn update_toml_common_config_snippet_scalar_override_and_value_matched_removal() {
    let snippet = "[tui]\nnotifications = true\n";

    let merged =
        update_toml_common_config_snippet("[tui]\nnotifications = false\n", snippet, true)
            .unwrap();
    assert!(
        merged.contains("notifications = true"),
        "snippet scalar should override provider value, got: {merged}"
    );

    let removed =
        update_toml_common_config_snippet("[tui]\nnotifications = false\n", snippet, false)
            .unwrap();
    assert!(
        removed.contains("notifications = false"),
        "user-modified value must survive removal, got: {removed}"
    );
}

#[test]
fn claude_common_config_apply_and_remove_roundtrip_for_non_overlapping_fields() {
    let settings = j(r#"{
        "env": {
            "ANTHROPIC_API_KEY": "sk-test"
        }
    }"#);
    let snippet = r#"{
  "includeCoAuthoredBy": false,
  "env": {
"CLAUDE_CODE_USE_BEDROCK": "1"
  }
}"#;

    let applied =
        apply_common_config_to_settings(&AppType::Claude, &settings, snippet).unwrap();
    assert_eq!(applied["includeCoAuthoredBy"], j(r#"false"#));
    assert_eq!(applied["env"]["CLAUDE_CODE_USE_BEDROCK"], j(r#""1""#));

    let stripped =
        remove_common_config_from_settings(&AppType::Claude, &applied, snippet).unwrap();
    assert_eq!(stripped, settings);
}

#[test]
fn codex_common_config_apply_and_remove_roundtrip_for_non_overlapping_fields() {
    let settings = j(r#"{
        "auth": {
            "OPENAI_API_KEY": "sk-test"
        },
        "config": "model_provider = \"openai\"\n[general]\nmodel = \"gpt-5\"\n"
    }"#);
    let snippet = "[shared]\nreasoning = \"medium\"\n";

    let applied = apply_common_config_to_settings(&AppType::Codex, &settings, snippet).unwrap();
    let applied_config = applied["config"].as_str().unwrap_or_default();
    assert!(applied_config.contains("[shared]"));
    assert!(applied_config.contains("reasoning = \"medium\""));

    let stripped =
        remove_common_config_from_settings(&AppType::Codex, &applied, snippet).unwrap();
    assert_eq!(stripped, settings);
}

#[test]
fn explicit_common_config_flag_overrides_legacy_subset_detection() {
    let mut provider = Provider::with_id(
        format!("{:?}-test", AppType::Claude).to_lowercase(),
        format!("{:?} Test", AppType::Claude),
        j(r#"{
            "includeCoAuthoredBy": false
        }"#),
        None,
    );
    provider.meta = Some(ProviderMeta {
        common_config_enabled: Some(false),
        ..Default::default()
    });

    assert!(
        !provider_uses_common_config(
            &AppType::Claude,
            &provider,
            Some(r#"{ "includeCoAuthoredBy": false }"#),
        ),
        "explicit false should win over legacy subset detection"
    );
}

#[test]
fn claude_common_config_array_subset_detection_and_strip_preserve_extra_items() {
    let settings = j(r#"{
        "allowedTools": ["tool1", "tool2"]
    }"#);
    let snippet = r#"{
  "allowedTools": ["tool1"]
}"#;

    assert!(
        settings_contain_common_config(&AppType::Claude, &settings, snippet),
        "array subset should be detected for legacy providers"
    );

    let stripped =
        remove_common_config_from_settings(&AppType::Claude, &settings, snippet).unwrap();
    assert_eq!(
        stripped,
        j(r#"{
            "allowedTools": ["tool2"]
        }"#)
    );
}

#[test]
fn codex_common_config_array_subset_detection_and_strip_preserve_extra_items() {
    let settings = j(r#"{
        "auth": {},
        "config": "allowed_tools = [\"tool1\", \"tool2\"]\n"
    }"#);
    let snippet = "allowed_tools = [\"tool1\"]\n";

    assert!(
        settings_contain_common_config(&AppType::Codex, &settings, snippet),
        "TOML array subset should be detected for legacy providers"
    );

    let stripped =
        remove_common_config_from_settings(&AppType::Codex, &settings, snippet).unwrap();
    assert_eq!(stripped["auth"], j(r#"{}"#));
    let stripped_config = stripped["config"].as_str().unwrap_or_default();
    let parsed = stripped_config
        .parse::<DocumentMut>()
        .expect("stripped codex config should remain valid TOML");
    let allowed_tools = parsed["allowed_tools"]
        .as_array()
        .expect("allowed_tools should remain an array");
    let values: Vec<&str> = allowed_tools
        .iter()
        .map(|value| value.as_str().expect("tool id should be string"))
        .collect();
    assert_eq!(values, vec!["tool2"]);
}

#[test]
fn codex_switch_backfill_preserves_stored_model_catalog_when_live_lacks_it() {
    let mut provider = Provider::with_id(
        "deepseek".to_string(),
        "DeepSeek".to_string(),
        j(r#"{
            "auth": { "OPENAI_API_KEY": "sk-deepseek" },
            "config": "model_provider = \"custom\"\nmodel = \"deepseek-v4-pro\"\n",
            "modelCatalog": {
                "models": [
                    { "model": "deepseek-v4-pro", "contextWindow": 1000000 }
                ]
            }
        }"#),
        None,
    );
    provider.category = Some("cn_official".to_string());
    let live_settings = j(r#"{
        "auth": { "OPENAI_API_KEY": "sk-deepseek" },
        "config": "model_provider = \"custom\"\nmodel = \"deepseek-v4-pro\"\n"
    }"#);

    let result =
        restore_live_settings_for_provider_backfill(&AppType::Codex, &provider, live_settings);

    assert_eq!(
        result.get("modelCatalog"),
        provider.settings_config.get("modelCatalog"),
        "switch-away backfill must keep the DB-stored modelCatalog when Live has none"
    );
}

#[test]
fn codex_switch_backfill_keeps_live_catalog_when_db_has_none() {
    let mut provider = Provider::with_id(
        "deepseek".to_string(),
        "DeepSeek".to_string(),
        j(r#"{
            "auth": { "OPENAI_API_KEY": "sk-deepseek" },
            "config": "model_provider = \"custom\"\nmodel = \"deepseek-v4-pro\"\n"
        }"#),
        None,
    );
    provider.category = Some("cn_official".to_string());

    let live_settings = j(r#"{
        "auth": { "OPENAI_API_KEY": "sk-deepseek" },
        "config": "model_provider = \"custom\"\nmodel = \"deepseek-v4-pro\"\n",
        "modelCatalog": { "models": [ { "model": "deepseek-v4-pro" } ] }
    }"#);

    let result = restore_live_settings_for_provider_backfill(
        &AppType::Codex,
        &provider,
        live_settings.clone(),
    );

    assert_eq!(
        result.get("modelCatalog"),
        live_settings.get("modelCatalog"),
        "backfill must keep the Live-reconstructed catalog when the DB has none"
    );
}

#[test]
fn codex_switch_backfill_strips_synced_mcp_servers() {
    let provider = Provider::with_id(
        "prov".to_string(),
        "Prov".to_string(),
        j(r#"{
            "auth": { "OPENAI_API_KEY": "sk-test" },
            "config": "model = \"gpt-5.5\"\n"
        }"#),
        None,
    );

    let live_settings = j(r#"{
        "auth": { "OPENAI_API_KEY": "sk-test" },
        "config": "model = \"gpt-5.5\"\n\n[mcp_servers.echo]\ntype = \"stdio\"\ncommand = \"echo\"\n"
    }"#);

    let result =
        restore_live_settings_for_provider_backfill(&AppType::Codex, &provider, live_settings);

    let config_text = result
        .get("config")
        .and_then(|v| v.as_str())
        .expect("config text");
    assert!(
        !config_text.contains("mcp_servers"),
        "backfill must strip synced [mcp_servers] from the stored provider config, got: {config_text}"
    );
    assert!(
        config_text.contains("model = \"gpt-5.5\""),
        "non-MCP content must survive the strip"
    );
}

#[test]
fn grok_switch_backfill_strips_synced_mcp_servers() {
    let provider = Provider::with_id(
        "grok".to_string(),
        "Grok".to_string(),
        j(r#"{
            "config": "[models]\ndefault = \"grok-4.5\"\n\n[model.\"grok-4.5\"]\nmodel = \"grok-4.5\"\nbase_url = \"https://example.com/v1\"\nname = \"Example\"\napi_key = \"secret\"\napi_backend = \"responses\"\ncontext_window = 500000\n"
        }"#),
        None,
    );
    let live_settings = j(r#"{
        "config": "[models]\ndefault = \"grok-4.5\"\n\n[model.\"grok-4.5\"]\nmodel = \"grok-4.5\"\nbase_url = \"https://example.com/v1\"\nname = \"Example\"\napi_key = \"secret\"\napi_backend = \"responses\"\ncontext_window = 500000\n\n[mcp_servers.echo]\ncommand = \"echo\"\n"
    }"#);

    let result = restore_live_settings_for_provider_backfill(
        &AppType::GrokBuild,
        &provider,
        live_settings,
    );
    let config_text = result
        .get("config")
        .and_then(Value::as_str)
        .expect("config text");

    assert!(!config_text.contains("mcp_servers"));
    assert!(config_text.contains("model = \"grok-4.5\""));
}

#[test]
fn context_window_suffix_injects_acw_from_max() {
    let provider = Provider::with_id(
        "test-suffix".to_string(),
        "Test".to_string(),
        j(r#"{
            "env": {
                "ANTHROPIC_BASE_URL": "https://example.com",
                "ANTHROPIC_DEFAULT_SONNET_MODEL": "deepseek-v4-pro[1m]",
                "ANTHROPIC_DEFAULT_OPUS_MODEL": "glm-5.2[200k]"
            }
        }"#),
        None,
    );

    let effective =
        build_effective_settings_with_common_config(None, &AppType::Claude, &provider);
    assert_eq!(
        effective["env"]["ANTHROPIC_DEFAULT_SONNET_MODEL"],
        "deepseek-v4-pro"
    );
    assert_eq!(effective["env"]["ANTHROPIC_DEFAULT_OPUS_MODEL"], "glm-5.2");
    assert_eq!(
        effective["env"]["CLAUDE_CODE_MAX_CONTEXT_TOKENS"],
        "1000000"
    );
    assert_eq!(
        effective["env"]["CLAUDE_CODE_AUTO_COMPACT_WINDOW"],
        "1000000"
    );
    assert_eq!(
        effective["autoSyncState"]["staticInjected"],
        j(r#"{ "ACW": "1000000", "MAX": "1000000" }"#)
    );
}

#[test]
fn context_window_suffix_no_inject_without_suffix() {
    let provider = Provider::with_id(
        "test-no-suffix".to_string(),
        "Test".to_string(),
        j(r#"{
            "env": {
                "ANTHROPIC_BASE_URL": "https://example.com",
                "ANTHROPIC_DEFAULT_SONNET_MODEL": "deepseek-v4-pro"
            }
        }"#),
        None,
    );

    let effective =
        build_effective_settings_with_common_config(None, &AppType::Claude, &provider);
    assert!(effective["env"]
        .get("CLAUDE_CODE_MAX_CONTEXT_TOKENS")
        .is_none());
    assert!(effective["env"]
        .get("CLAUDE_CODE_AUTO_COMPACT_WINDOW")
        .is_none());
}

#[test]
fn context_window_suffix_respects_user_explicit_acw() {
    let provider = Provider::with_id(
        "test-explicit".to_string(),
        "Test".to_string(),
        j(r#"{
            "env": {
                "ANTHROPIC_BASE_URL": "https://example.com",
                "ANTHROPIC_DEFAULT_SONNET_MODEL": "deepseek-v4-pro[1m]",
                "CLAUDE_CODE_AUTO_COMPACT_WINDOW": "500000"
            }
        }"#),
        None,
    );

    let effective =
        build_effective_settings_with_common_config(None, &AppType::Claude, &provider);
    assert_eq!(
        effective["env"]["CLAUDE_CODE_AUTO_COMPACT_WINDOW"],
        j(r#""500000""#)
    );
}

#[test]
fn sanitize_strips_auto_sync_context_window() {
    let settings = j(r#"{
        "env": { "ANTHROPIC_MODEL": "test" },
        "autoSyncContextWindow": true,
        "autoSyncCompactRatio": 0.8
    }"#);
    let sanitized = sanitize_claude_settings_for_live(&settings);
    assert!(sanitized.get("autoSyncContextWindow").is_none());
    assert!(sanitized.get("autoSyncCompactRatio").is_none());
    assert_eq!(sanitized["env"]["ANTHROPIC_MODEL"], j(r#""test""#));
}

#[test]
fn sanitize_strips_all_internal_fields() {
    let settings = j(r#"{
        "env": {},
        "autoSyncContextWindow": true,
        "autoSyncCompactRatio": 0.8,
        "contextWindows": { "ANTHROPIC_MODEL": 200000 },
        "autoSyncState": { "lastWritten": {} }
    }"#);
    let clean = sanitize_claude_settings_for_live(&settings);
    let obj = clean.as_object().unwrap();
    for key in [
        "autoSyncContextWindow",
        "autoSyncCompactRatio",
        "contextWindows",
        "autoSyncState",
    ] {
        assert!(!obj.contains_key(key), "{key} leaked into live settings");
    }
}

#[test]
fn context_window_defaults_prioritize_anthropic_model_suffix() {
    let provider = Provider::with_id(
        "test".to_string(),
        "Test".to_string(),
        j(r#"{
            "env": {
                "ANTHROPIC_MODEL": "fallback-model[1M]",
                "ANTHROPIC_DEFAULT_SONNET_MODEL": "sonnet-model[200k]"
            }
        }"#),
        None,
    );

    let effective =
        build_effective_settings_with_common_config(None, &AppType::Claude, &provider);
    assert_eq!(effective["env"]["ANTHROPIC_MODEL"], "fallback-model");
    assert_eq!(
        effective["env"]["ANTHROPIC_DEFAULT_SONNET_MODEL"],
        "sonnet-model"
    );
    assert_eq!(
        effective["env"]["CLAUDE_CODE_MAX_CONTEXT_TOKENS"],
        "1000000"
    );
    assert_eq!(
        effective["env"]["CLAUDE_CODE_AUTO_COMPACT_WINDOW"],
        "1000000"
    );
}

#[test]
fn context_window_defaults_fallback_to_max_when_anthropic_model_no_suffix() {
    let provider = Provider::with_id(
        "test".to_string(),
        "Test".to_string(),
        j(r#"{
            "env": {
                "ANTHROPIC_MODEL": "fallback-model",
                "ANTHROPIC_DEFAULT_SONNET_MODEL": "sonnet-model[1M]",
                "ANTHROPIC_DEFAULT_HAIKU_MODEL": "haiku-model[30k]"
            }
        }"#),
        None,
    );

    let effective =
        build_effective_settings_with_common_config(None, &AppType::Claude, &provider);
    assert_eq!(
        effective["env"]["ANTHROPIC_DEFAULT_SONNET_MODEL"],
        "sonnet-model"
    );
    assert_eq!(
        effective["env"]["ANTHROPIC_DEFAULT_HAIKU_MODEL"],
        "haiku-model"
    );
    assert_eq!(
        effective["env"]["CLAUDE_CODE_MAX_CONTEXT_TOKENS"],
        "1000000"
    );
    assert_eq!(
        effective["env"]["CLAUDE_CODE_AUTO_COMPACT_WINDOW"],
        "1000000"
    );
}

#[test]
fn context_window_defaults_anthropic_model_smaller_than_others() {
    let provider = Provider::with_id(
        "test".to_string(),
        "Test".to_string(),
        j(r#"{
            "env": {
                "ANTHROPIC_MODEL": "fallback-model[200k]",
                "ANTHROPIC_DEFAULT_SONNET_MODEL": "sonnet-model[1M]"
            }
        }"#),
        None,
    );

    let effective =
        build_effective_settings_with_common_config(None, &AppType::Claude, &provider);
    assert_eq!(effective["env"]["ANTHROPIC_MODEL"], "fallback-model");
    assert_eq!(
        effective["env"]["ANTHROPIC_DEFAULT_SONNET_MODEL"],
        "sonnet-model"
    );
    assert_eq!(
        effective["env"]["CLAUDE_CODE_MAX_CONTEXT_TOKENS"],
        "1000000"
    );
    assert_eq!(
        effective["env"]["CLAUDE_CODE_AUTO_COMPACT_WINDOW"],
        "1000000"
    );
}

#[test]
fn context_window_defaults_preserve_user_explicit_values() {
    let provider = Provider::with_id(
        "test".to_string(),
        "Test".to_string(),
        j(r#"{
            "env": {
                "ANTHROPIC_MODEL": "fallback-model[1M]",
                "CLAUDE_CODE_MAX_CONTEXT_TOKENS": "999999",
                "CLAUDE_CODE_AUTO_COMPACT_WINDOW": "888888"
            }
        }"#),
        None,
    );

    let effective =
        build_effective_settings_with_common_config(None, &AppType::Claude, &provider);
    assert_eq!(
        effective["env"]["CLAUDE_CODE_MAX_CONTEXT_TOKENS"],
        j(r#""999999""#)
    );
    assert_eq!(
        effective["env"]["CLAUDE_CODE_AUTO_COMPACT_WINDOW"],
        j(r#""888888""#)
    );
}

#[test]
fn context_window_defaults_skip_when_no_suffix_anywhere() {
    let provider = Provider::with_id(
        "test".to_string(),
        "Test".to_string(),
        j(r#"{
            "env": {
                "ANTHROPIC_MODEL": "fallback-model",
                "ANTHROPIC_DEFAULT_SONNET_MODEL": "sonnet-model"
            }
        }"#),
        None,
    );

    let effective =
        build_effective_settings_with_common_config(None, &AppType::Claude, &provider);
    assert!(effective["env"]
        .get("CLAUDE_CODE_MAX_CONTEXT_TOKENS")
        .is_none());
    assert!(effective["env"]
        .get("CLAUDE_CODE_AUTO_COMPACT_WINDOW")
        .is_none());
}

#[test]
fn apply_context_window_defaults_remove_stale_static_injected_when_no_target() {
    let provider = Provider::with_id(
        "test".to_string(),
        "Test".to_string(),
        j(r#"{
            "env": { "ANTHROPIC_MODEL": "fallback-model" },
            "contextWindows": {}
        }"#),
        None,
    );

    let mut settings = j(r#"{
        "env": { "ANTHROPIC_MODEL": "fallback-model" },
        "contextWindows": {},
        "autoSyncState": {
            "lastWritten": { "model": "sonnet" },
            "staticInjected": { "ACW": "1000000", "MAX": "1000000" }
        }
    }"#);
    apply_context_window_defaults(&mut settings, &provider);
    assert_eq!(
        settings["autoSyncState"]["lastWritten"],
        j(r#"{ "model": "sonnet" }"#)
    );
    assert!(
        settings["autoSyncState"].get("staticInjected").is_none(),
        "empty contextWindows must clear stale staticInjected"
    );
}

#[test]
fn apply_context_window_defaults_keeps_kimi_static_injected() {
    let provider = Provider::with_id(
        "kimi".to_string(),
        "Kimi For Coding".to_string(),
        j(r#"{
            "env": {
                "ANTHROPIC_BASE_URL": "https://api.kimi.com/coding/",
                "ANTHROPIC_MODEL": "kimi-for-coding"
            },
            "contextWindows": { "ANTHROPIC_MODEL": 800000 }
        }"#),
        None,
    );

    let mut settings = j(r#"{
        "env": {
            "ANTHROPIC_BASE_URL": "https://api.kimi.com/coding/",
            "ANTHROPIC_MODEL": "kimi-for-coding"
        },
        "contextWindows": { "ANTHROPIC_MODEL": 800000 },
        "autoSyncState": {}
    }"#);

    apply_kimi_for_coding_context_defaults(&mut settings, &provider);
    apply_context_window_defaults(&mut settings, &provider);

    assert_eq!(
        settings["env"]["CLAUDE_CODE_AUTO_COMPACT_WINDOW"],
        j(r#""262144""#)
    );
    assert_eq!(
        settings["env"]["CLAUDE_CODE_MAX_CONTEXT_TOKENS"],
        j(r#""262144""#)
    );
    assert_eq!(
        settings["autoSyncState"]["staticInjected"],
        j(r#"{ "ACW": "262144", "MAX": "262144" }"#)
    );
}

#[test]
fn write_live_with_common_config_clears_stale_static_injected_in_db() {
    let provider = Provider::with_id(
        "clear-stale-db".to_string(),
        "Clear Stale DB".to_string(),
        j(r#"{
            "env": { "ANTHROPIC_MODEL": "fallback-model" },
            "contextWindows": {},
            "autoSyncState": {
                "lastWritten": { "model": "sonnet" },
                "staticInjected": { "ACW": "1000000", "MAX": "1000000" }
            }
        }"#),
        None,
    );
    let plan = write_live_with_common_config(None, &AppType::Claude, &provider);

    let stored = plan.store.unwrap();
    assert_eq!(
        stored["autoSyncState"]["lastWritten"],
        j(r#"{ "model": "sonnet" }"#)
    );
    assert!(
        stored["autoSyncState"]
            .get("staticInjected")
            .is_none(),
        "empty contextWindows must remove stale staticInjected from DB"
    );
}

#[test]
fn context_window_defaults_skip_when_auto_sync_disabled() {
    let provider = Provider::with_id(
        "test".to_string(),
        "Test".to_string(),
        j(r#"{
            "env": { "ANTHROPIC_MODEL": "fallback-model[1M]" },
            "autoSyncContextWindow": false
        }"#),
        None,
    );

    let effective =
        build_effective_settings_with_common_config(None, &AppType::Claude, &provider);
    assert_eq!(effective["env"]["ANTHROPIC_MODEL"], "fallback-model");
    assert_eq!(
        effective["env"]["CLAUDE_CODE_MAX_CONTEXT_TOKENS"],
        "1000000"
    );
    assert_eq!(
        effective["env"]["CLAUDE_CODE_AUTO_COMPACT_WINDOW"],
        "1000000"
    );
}

#[test]
fn auto_sync_enabled_does_not_inject_model_suffix_context_window_fields() {
    let provider = Provider::with_id(
        "test-on".to_string(),
        "Test On".to_string(),
        j(r#"{
            "env": { "ANTHROPIC_MODEL": "fallback-model[1M]" },
            "autoSyncContextWindow": true
        }"#),
        None,
    );

    let effective =
        build_effective_settings_with_common_config(None, &AppType::Claude, &provider);
    assert_eq!(effective["env"]["ANTHROPIC_MODEL"], "fallback-model");
    assert_eq!(
        effective["env"]["CLAUDE_CODE_MAX_CONTEXT_TOKENS"],
        "1000000"
    );
    assert_eq!(
        effective["env"]["CLAUDE_CODE_AUTO_COMPACT_WINDOW"],
        "1000000"
    );
}

#[test]
fn auto_sync_disabled_preserves_user_explicit_context_window_fields() {
    let provider = Provider::with_id(
        "test-off-explicit".to_string(),
        "Test Off Explicit".to_string(),
        j(r#"{
            "env": {
                "ANTHROPIC_MODEL": "fallback-model[1M]",
                "CLAUDE_CODE_MAX_CONTEXT_TOKENS": "999999",
                "CLAUDE_CODE_AUTO_COMPACT_WINDOW": "888888"
            },
            "autoSyncContextWindow": false
        }"#),
        None,
    );

    let effective =
        build_effective_settings_with_common_config(None, &AppType::Claude, &provider);
    assert_eq!(
        effective["env"]["CLAUDE_CODE_MAX_CONTEXT_TOKENS"],
        j(r#""999999""#)
    );
    assert_eq!(
        effective["env"]["CLAUDE_CODE_AUTO_COMPACT_WINDOW"],
        j(r#""888888""#)
    );
    assert_eq!(effective["env"]["ANTHROPIC_MODEL"], j(r#""fallback-model""#));
    assert!(effective.get("autoSyncState").is_none());
}

#[test]
fn auto_sync_disabled_preserves_common_config_context_window_fields() {
    let snippet = j(r#"{
                "env": {
                    "CLAUDE_CODE_MAX_CONTEXT_TOKENS": "500000",
                    "CLAUDE_CODE_AUTO_COMPACT_WINDOW": "400000"
                }
            }"#).to_string();
    let mut provider = Provider::with_id(
        "test-off-common".to_string(),
        "Test Off Common".to_string(),
        j(r#"{
            "env": { "ANTHROPIC_MODEL": "fallback-model[1M]" },
            "autoSyncContextWindow": false
        }"#),
        None,
    );
    provider.meta = Some(ProviderMeta {
        common_config_enabled: Some(true),
        ..Default::default()
    });

    let effective =
        build_effective_settings_with_common_config(Some(snippet.as_str()), &AppType::Claude, &provider);
    assert_eq!(
        effective["env"]["CLAUDE_CODE_MAX_CONTEXT_TOKENS"],
        j(r#""500000""#)
    );
    assert_eq!(
        effective["env"]["CLAUDE_CODE_AUTO_COMPACT_WINDOW"],
        j(r#""400000""#)
    );
}

#[test]
fn claude_backfill_migrates_legacy_suffix_only_provider_context_windows() {
    let provider = Provider::with_id(
        "test".to_string(),
        "Test".to_string(),
        j(r#"{ "env": { "ANTHROPIC_MODEL": "fallback-model[1M]" } }"#),
        None,
    );
    let live = sanitize_claude_settings_for_live(
        &build_effective_settings_with_common_config(None, &AppType::Claude, &provider),
    );
    assert!(live.get("contextWindows").is_none());
    assert_eq!(live["env"]["ANTHROPIC_MODEL"], "fallback-model");

    let backfilled =
        strip_common_config_from_live_settings(None, &AppType::Claude, &provider, live);
    assert_eq!(backfilled["contextWindows"]["ANTHROPIC_MODEL"], 1000000);
    assert_eq!(backfilled["env"]["ANTHROPIC_MODEL"], "fallback-model");
}

#[test]
fn claude_backfill_strips_all_legacy_suffixes_from_stored_models() {
    let provider = Provider::with_id(
        "test".to_string(),
        "Test".to_string(),
        j(r#"{
            "env": {
                "ANTHROPIC_MODEL": "fallback-model[200k]",
                "ANTHROPIC_DEFAULT_SONNET_MODEL": "sonnet-model[1M]",
                "CLAUDE_CODE_SUBAGENT_MODEL": "subagent-model[1M]"
            },
            "contextWindows": {
                "ANTHROPIC_MODEL": 200000,
                "ANTHROPIC_DEFAULT_SONNET_MODEL": 1000000,
                "CLAUDE_CODE_SUBAGENT_MODEL": 1000000
            }
        }"#),
        None,
    );
    let live = j(r#"{
        "env": {
            "ANTHROPIC_MODEL": "fallback-model",
            "ANTHROPIC_DEFAULT_SONNET_MODEL": "sonnet-model",
            "CLAUDE_CODE_SUBAGENT_MODEL": "subagent-model"
        }
    }"#);
    let backfilled =
        restore_live_settings_for_provider_backfill(&AppType::Claude, &provider, live);
    assert_eq!(backfilled["env"]["ANTHROPIC_MODEL"], "fallback-model");
    assert_eq!(
        backfilled["env"]["ANTHROPIC_DEFAULT_SONNET_MODEL"],
        "sonnet-model"
    );
    assert_eq!(
        backfilled["env"]["CLAUDE_CODE_SUBAGENT_MODEL"],
        "subagent-model"
    );
}

#[test]
fn claude_backfill_preserves_all_internal_fields() {
    let provider = Provider::with_id(
        "test".to_string(),
        "Test".to_string(),
        j(r#"{
            "env": { "ANTHROPIC_MODEL": "fallback-model[1M]" },
            "autoSyncContextWindow": false,
            "autoSyncCompactRatio": 0.8,
            "contextWindows": { "fallback-model[1M]": 1000000 },
            "autoSyncState": { "lastWritten": {} }
        }"#),
        None,
    );
    let live = sanitize_claude_settings_for_live(
        &build_effective_settings_with_common_config(None, &AppType::Claude, &provider),
    );
    for key in [
        "autoSyncContextWindow",
        "autoSyncCompactRatio",
        "contextWindows",
        "autoSyncState",
    ] {
        assert!(live.get(key).is_none(), "{key} leaked into live settings");
    }

    let backfilled =
        strip_common_config_from_live_settings(None, &AppType::Claude, &provider, live);
    assert_eq!(backfilled["autoSyncContextWindow"], j(r#"false"#));
    assert_eq!(backfilled["autoSyncCompactRatio"], j(r#"0.8"#));
    assert_eq!(
        backfilled["contextWindows"],
        j(r#"{
            "fallback-model[1M]": 1000000,
            "ANTHROPIC_MODEL": 1000000
        }"#)
    );
    assert_eq!(backfilled["autoSyncState"], j(r#"{ "lastWritten": {} }"#));
    assert_eq!(
        backfilled["env"]["ANTHROPIC_MODEL"],
        j(r#""fallback-model""#)
    );
}

#[test]
fn claude_backfill_preserves_auto_sync_context_window_flag() {
    let provider = Provider::with_id(
        "test".to_string(),
        "Test".to_string(),
        j(r#"{
            "env": { "ANTHROPIC_MODEL": "fallback-model[1M]" },
            "autoSyncContextWindow": false,
            "autoSyncCompactRatio": 0.8
        }"#),
        None,
    );
    let live = sanitize_claude_settings_for_live(
        &build_effective_settings_with_common_config(None, &AppType::Claude, &provider),
    );
    assert!(live.get("autoSyncContextWindow").is_none());

    let backfilled =
        strip_common_config_from_live_settings(None, &AppType::Claude, &provider, live);
    assert_eq!(backfilled["autoSyncContextWindow"], j(r#"false"#));
    assert_eq!(backfilled["autoSyncCompactRatio"], j(r#"0.8"#));
}

#[test]
fn claude_backfill_strips_model_suffix_injected_context_defaults() {
    let provider = Provider::with_id(
        "test".to_string(),
        "Test".to_string(),
        j(r#"{ "env": { "ANTHROPIC_MODEL": "fallback-model[1M]" } }"#),
        None,
    );

    let live = build_effective_settings_with_common_config(None, &AppType::Claude, &provider);
    assert_eq!(live["env"]["ANTHROPIC_MODEL"], "fallback-model");
    assert_eq!(live["env"]["CLAUDE_CODE_MAX_CONTEXT_TOKENS"], "1000000");
    assert_eq!(live["env"]["CLAUDE_CODE_AUTO_COMPACT_WINDOW"], "1000000");
    let backfilled =
        strip_common_config_from_live_settings(None, &AppType::Claude, &provider, live);
    assert!(backfilled["env"]
        .get("CLAUDE_CODE_MAX_CONTEXT_TOKENS")
        .is_none());
    assert!(backfilled["env"]
        .get("CLAUDE_CODE_AUTO_COMPACT_WINDOW")
        .is_none());
    assert_eq!(backfilled["env"]["ANTHROPIC_MODEL"], "fallback-model");
}

#[test]
fn claude_backfill_strips_defaults_using_provider_compact_ratio() {
    let provider = Provider::with_id(
        "test".to_string(),
        "Test".to_string(),
        j(r#"{
            "env": { "ANTHROPIC_MODEL": "fallback-model[200k]" },
            "autoSyncContextWindow": true,
            "autoSyncCompactRatio": 0.5
        }"#),
        None,
    );

    let live = j(r#"{
        "env": {
            "ANTHROPIC_MODEL": "fallback-model[200k]",
            "CLAUDE_CODE_MAX_CONTEXT_TOKENS": "200000",
            "CLAUDE_CODE_AUTO_COMPACT_WINDOW": "100000"
        }
    }"#);
    let backfilled =
        strip_common_config_from_live_settings(None, &AppType::Claude, &provider, live);
    assert!(backfilled["env"]
        .get("CLAUDE_CODE_MAX_CONTEXT_TOKENS")
        .is_none());
    assert!(backfilled["env"]
        .get("CLAUDE_CODE_AUTO_COMPACT_WINDOW")
        .is_none());
    assert_eq!(backfilled["autoSyncCompactRatio"], j(r#"0.5"#));
}

#[test]
fn claude_backfill_keeps_user_explicit_context_window_values() {
    let provider = Provider::with_id(
        "test".to_string(),
        "Test".to_string(),
        j(r#"{
            "env": {
                "ANTHROPIC_MODEL": "fallback-model[1M]",
                "CLAUDE_CODE_MAX_CONTEXT_TOKENS": "999999",
                "CLAUDE_CODE_AUTO_COMPACT_WINDOW": "888888"
            }
        }"#),
        None,
    );

    let live = j(r#"{
        "env": {
            "ANTHROPIC_MODEL": "fallback-model[1M]",
            "CLAUDE_CODE_MAX_CONTEXT_TOKENS": "999999",
            "CLAUDE_CODE_AUTO_COMPACT_WINDOW": "888888"
        }
    }"#);
    let backfilled =
        strip_common_config_from_live_settings(None, &AppType::Claude, &provider, live);
    assert_eq!(
        backfilled["env"]["CLAUDE_CODE_MAX_CONTEXT_TOKENS"],
        j(r#""999999""#)
    );
    assert_eq!(
        backfilled["env"]["CLAUDE_CODE_AUTO_COMPACT_WINDOW"],
        j(r#""888888""#)
    );
}

#[test]
fn claude_backfill_keeps_user_edited_live_context_window_values() {
    let provider = Provider::with_id(
        "test".to_string(),
        "Test".to_string(),
        j(r#"{ "env": { "ANTHROPIC_MODEL": "fallback-model[1M]" } }"#),
        None,
    );
    let live = j(r#"{
        "env": {
            "ANTHROPIC_MODEL": "fallback-model[1M]",
            "CLAUDE_CODE_MAX_CONTEXT_TOKENS": "1234567",
            "CLAUDE_CODE_AUTO_COMPACT_WINDOW": "765432"
        }
    }"#);
    let backfilled =
        strip_common_config_from_live_settings(None, &AppType::Claude, &provider, live);
    assert_eq!(
        backfilled["env"]["CLAUDE_CODE_MAX_CONTEXT_TOKENS"],
        j(r#""1234567""#)
    );
    assert_eq!(
        backfilled["env"]["CLAUDE_CODE_AUTO_COMPACT_WINDOW"],
        j(r#""765432""#)
    );
}

#[test]
fn codex_oauth_context_defaults_inject_when_auto_sync_disabled() {
    let mut provider = Provider::with_id(
        "codex-oauth".to_string(),
        "Codex".to_string(),
        j(r#"{
            "env": { "ANTHROPIC_MODEL": "gpt-5.6" },
            "autoSyncContextWindow": false
        }"#),
        None,
    );
    provider.meta = Some(ProviderMeta {
        provider_type: Some("codex_oauth".to_string()),
        ..Default::default()
    });

    let effective =
        build_effective_settings_with_common_config(None, &AppType::Claude, &provider);
    assert_eq!(
        effective["env"]["CLAUDE_CODE_MAX_CONTEXT_TOKENS"],
        j(r#""372000""#)
    );
    assert_eq!(
        effective["env"]["CLAUDE_CODE_AUTO_COMPACT_WINDOW"],
        j(r#""372000""#)
    );
    assert_eq!(
        effective["autoSyncState"]["staticInjected"],
        j(r#"{ "ACW": "372000", "MAX": "372000" }"#)
    );
}

#[test]
fn kimi_for_coding_context_defaults_inject_when_auto_sync_disabled() {
    let provider = Provider::with_id(
        "kimi-for-coding".to_string(),
        "Kimi For Coding".to_string(),
        j(r#"{
            "env": {
                "ANTHROPIC_BASE_URL": "https://api.kimi.com/coding/",
                "ANTHROPIC_MODEL": "kimi-for-coding"
            },
            "autoSyncContextWindow": false
        }"#),
        None,
    );

    let effective =
        build_effective_settings_with_common_config(None, &AppType::Claude, &provider);
    assert_eq!(
        effective["env"]["CLAUDE_CODE_MAX_CONTEXT_TOKENS"],
        j(r#""262144""#)
    );
    assert_eq!(
        effective["env"]["CLAUDE_CODE_AUTO_COMPACT_WINDOW"],
        j(r#""262144""#)
    );
    assert_eq!(
        effective["autoSyncState"]["staticInjected"],
        j(r#"{ "ACW": "262144", "MAX": "262144" }"#)
    );
}
