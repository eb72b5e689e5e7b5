//! The laws of the library, each on concrete values, and exact values for its formulas.

use live_config::backfill::{
    drops_shared_session_route, restore_live_settings_for_provider_backfill,
    strip_common_config_from_live_settings,
};
use live_config::common_config::{
    apply_common_config_to_settings, provider_uses_common_config,
    remove_common_config_from_settings, settings_contain_common_config,
    update_toml_common_config_snippet,
};
use live_config::context_defaults::{
    apply_codex_oauth_claude_context_defaults, apply_context_window_defaults,
    apply_kimi_for_coding_context_defaults, auto_sync_state_mut, clear_static_injected,
    context_window_target_from_settings, record_static_injected,
    strip_injected_codex_oauth_context_defaults, strip_injected_kimi_for_coding_context_defaults,
};
use live_config::effective::{
    normalize_provider_common_config_for_storage, sanitize_claude_settings_for_live,
    write_live_with_common_config,
};
use live_config::error::AppError;
use live_config::json_merge::{
    json_array_contains_subset, json_deep_merge, json_deep_remove, json_is_subset,
    json_remove_array_items,
};
use live_config::live_write::{write_live_snapshot, LiveWrite};
use live_config::model_window::{
    migrate_legacy_suffix_to_context_windows, parse_context_window_suffix, resolve_context_window,
    strip_legacy_suffixes_from_claude_models, strip_one_m_suffix_for_upstream,
};
use live_config::provider::{AppType, Provider, ProviderMeta};
use live_config::ratio::{share_of, Ratio};
use live_config::text::{
    blank, joined, same_text, starts_with_any_case, to_decimal, trim, trim_end_slashes,
};
use live_config::watcher::{
    build_env_writes, is_claude_live_taken_over, replace_watcher, spawn_claude_settings_watcher,
    update_env_fields, verify_file_unchanged,
};
use serde_json::Value;

fn j(text: &str) -> Value {
    serde_json::from_str(text).expect("valid JSON")
}

fn provider(settings: &str) -> Provider {
    Provider::with_id("p".to_string(), "P".to_string(), j(settings), None)
}

fn codex_oauth(settings: &str) -> Provider {
    let mut result = provider(settings);
    let mut meta = ProviderMeta::default();
    meta.provider_type = Some("codex_oauth".to_string());
    result.meta = Some(meta);
    result
}

fn codex_settings(config: &str) -> Value {
    let mut settings = j("{}");
    settings["config"] = Value::String(config.to_string());
    settings
}

// JSON documents

#[test]
fn a_document_contains_itself() {
    let t = j(r#"{"a": [1, {"b": null}, 2.5, -3], "c": {"d": true, "e": "x"}}"#);
    assert!(json_is_subset(&t, &t));
}

#[test]
fn containing_goes_by_kind_of_number() {
    assert!(!json_is_subset(&j("1.0"), &j("1")));
    assert!(!json_is_subset(&j("1"), &j("1.0")));
    assert!(json_is_subset(&j("0.0"), &j("-0.0")));
    assert!(!json_is_subset(&j("2"), &j("-2")));
    assert!(!json_is_subset(&j("null"), &j("false")));
    assert!(!json_is_subset(&j("[]"), &j("{}")));
}

#[test]
fn items_are_claimed_once_and_first_come_first_served() {
    let items = |text: &str| j(text).as_array().expect("array").clone();
    assert!(json_array_contains_subset(&items("[1, 2, 1]"), &items("[1, 1]")));
    assert!(!json_array_contains_subset(&items("[1, 2]"), &items("[1, 1]")));
    assert!(json_array_contains_subset(&items("[1]"), &items("[]")));
    // The first wanted item claims the first that holds it, and the second finds none.
    assert!(!json_array_contains_subset(
        &items(r#"[{"a": 1, "b": 2}, {"a": 1}]"#),
        &items(r#"[{"a": 1}, {"a": 1, "b": 2}]"#),
    ));
    let mut have = items("[3, 1, 2, 1]");
    json_remove_array_items(&mut have, &items("[1, 9, 2]"));
    assert_eq!(have, items("[3, 1]"));
}

#[test]
fn what_was_laid_over_is_contained() {
    let mut t = j(r#"{"a": {"b": 1}, "c": [1]}"#);
    let source = j(r#"{"a": {"d": 2}, "c": [2, 3], "e": {}}"#);
    json_deep_merge(&mut t, &source);
    assert_eq!(t, j(r#"{"a": {"b": 1, "d": 2}, "c": [2, 3], "e": {}}"#));
    assert!(json_is_subset(&t, &source));
    let once = t.clone();
    json_deep_merge(&mut t, &source);
    assert_eq!(t, once);
    json_deep_merge(&mut t, &once);
    assert_eq!(t, once);
}

#[test]
fn what_shares_no_value_comes_out_without_a_trace() {
    let before = j(r#"{"a": {"b": 1}, "c": [1], "z": "kept"}"#);
    let source = j(r#"{"a": {"d": [2]}, "e": {"f": {}}}"#);
    let mut t = before.clone();
    json_deep_merge(&mut t, &source);
    json_deep_remove(&mut t, &source);
    assert_eq!(t, before);
}

#[test]
fn nothing_is_left_of_a_document_taken_out_of_itself() {
    let mut t = j(r#"{"a": {"b": [1, 2]}, "c": null}"#);
    let source = t.clone();
    json_deep_remove(&mut t, &source);
    assert_eq!(t, j("{}"));
}

#[test]
fn taking_out_goes_by_value() {
    let mut t = j(r#"{"a": 1, "b": [1, 2, 3], "c": {"d": 4}}"#);
    json_deep_remove(&mut t, &j(r#"{"a": 2, "b": [2], "c": {"d": 4}, "x": 1}"#));
    assert_eq!(t, j(r#"{"a": 1, "b": [1, 3]}"#));
}

// TOML documents

fn codex_contains(config: &str, snippet: &str) -> bool {
    settings_contain_common_config(&AppType::Codex, &codex_settings(config), snippet)
}

#[test]
fn toml_values_of_every_kind_are_found_again() {
    let config = "s = \"x\"\ni = -4\nf = 2.5\nb = true\nd = 1979-05-27T07:32:00Z\n\
        day = 1979-05-27\na = [1, \"two\", [3]]\nn = { p = 1, q = { r = 2 } }\n[t]\nu = 5\n";
    assert!(codex_contains(config, config));
    assert!(codex_contains(config, "d = 1979-05-27T07:32:00Z"));
    assert!(!codex_contains(config, "d = 1979-05-27T07:32:01Z"));
    assert!(!codex_contains(config, "day = 1979-05-28"));
    assert!(!codex_contains(config, "s = \"y\""));
    assert!(!codex_contains(config, "i = 4"));
    assert!(!codex_contains(config, "f = 2.25"));
    assert!(!codex_contains(config, "b = false"));
    assert!(!codex_contains(config, "i = \"-4\""));
    assert!(codex_contains(config, "a = [[3], 1]"));
    assert!(!codex_contains(config, "a = [1, 1]"));
    assert!(codex_contains(config, "n = { q = { r = 2 } }"));
    assert!(!codex_contains(config, "n = { q = { r = 3 } }"));
    assert!(!codex_contains(config, "missing = 1"));
}

#[test]
fn toml_tables_are_alike_in_either_notation() {
    assert!(codex_contains("[t]\na = 1\nb = 2\n", "t = { a = 1 }"));
    assert!(codex_contains("t = { a = 1, b = 2 }\n", "[t]\na = 1\n"));
    assert!(!codex_contains("t = 1\n", "[t]\na = 1\n"));
}

#[test]
fn some_toml_is_not_found_even_in_itself() {
    assert!(!codex_contains("x = nan\n", "x = nan\n"));
    assert!(!codex_contains("[[t]]\na = 1\n", "[[t]]\na = 1\n"));
    assert!(codex_contains("x = inf\ny = 0.0\n", "x = inf\ny = -0.0\n"));
}

#[test]
fn texts_that_are_no_toml_contain_nothing() {
    assert!(!codex_contains("a = ", "a = 1"));
    assert!(!codex_contains("a = 1", "a = "));
    assert!(!codex_contains("", "a = 1"));
    assert!(!codex_contains("a = 1", "  \n"));
}

#[test]
fn a_toml_snippet_comes_out_of_what_it_does_not_share() {
    let config = "model = \"m\"\n\n[features]\nown = true\n";
    let snippet = "top = 1\n\n[features]\ncommon = true\n\n[extra]\nlist = [1, 2]\n";
    let with = update_toml_common_config_snippet(config, snippet, true).expect("applies");
    assert!(codex_contains(&with, snippet));
    assert!(codex_contains(&with, config));
    let again = update_toml_common_config_snippet(&with, snippet, true).expect("applies again");
    assert_eq!(again, with);
    let without = update_toml_common_config_snippet(&with, snippet, false).expect("comes out");
    assert!(codex_contains(&without, config));
    assert!(codex_contains(config, &without));
}

const COMMENTED: &str = "# head\nmodel = 'm' # which model\nlist = [ 1,  2, 0x3 ] # numbers\n\n\
    [a.b]\n# inside\nkey = 1\n\n# in front\n[z]\nq.r = 2 # dotted\n# tail\n";

#[test]
fn laying_a_snippet_over_keeps_how_the_config_is_written() {
    let with = update_toml_common_config_snippet(
        COMMENTED,
        "new = true\n[a.b]\nadded = 2\n[tui]\nx = 1\n",
        true,
    )
    .expect("applies");
    assert_eq!(
        with,
        "# head\nmodel = 'm' # which model\nlist = [ 1,  2, 0x3 ] # numbers\nnew = true\n\n\
         [a.b]\n# inside\nkey = 1\nadded = 2\n\n# in front\n[z]\n\
         q.r = 2 # dotted\n[tui]\nx = 1\n# tail\n"
    );
}

#[test]
fn a_replaced_value_leaves_its_key_as_it_was() {
    let with = update_toml_common_config_snippet(
        "# about a\n'a'  = 1\nb = 2\n",
        "a = \"one\"\n",
        true,
    )
    .expect("applies");
    assert_eq!(with, "# about a\n'a'  = \"one\"\nb = 2\n");
}

#[test]
fn taking_a_snippet_out_keeps_how_the_rest_is_written() {
    let without = update_toml_common_config_snippet(
        COMMENTED,
        "list = [2]\n[a.b]\nkey = 1\n[z]\nq.r = 3\n",
        false,
    )
    .expect("comes out");
    assert_eq!(
        without,
        "# head\nmodel = 'm' # which model\nlist = [ 1, 0x3 ] # numbers\n\n\
         # in front\n[z]\nq.r = 2 # dotted\n# tail\n"
    );
}

#[test]
fn a_snippet_that_comes_out_leaves_the_text_as_it_was() {
    let snippet = "# not kept\nnew = { a = 1 }\n[a.b]\nadded = [2]\n[tui]\nx = 1\n";
    let with = update_toml_common_config_snippet(COMMENTED, snippet, true).expect("applies");
    assert_ne!(with, COMMENTED);
    let back = update_toml_common_config_snippet(&with, snippet, false).expect("comes out");
    assert_eq!(back, COMMENTED);
}

#[test]
fn a_toml_snippet_joins_a_blank_config() {
    assert_eq!(
        update_toml_common_config_snippet("  \n", "a = 1\n", true).expect("applies"),
        "a = 1\n"
    );
    assert_eq!(
        update_toml_common_config_snippet("anything = [", " \n", true).expect("unchanged"),
        "anything = ["
    );
}

#[test]
fn toml_arrays_lose_what_they_share_and_vanish_when_empty() {
    let out = update_toml_common_config_snippet("xs = [1, 2, 3]\nys = [4]\n", "xs = [2]\nys = [4]\n", false)
        .expect("comes out");
    assert!(codex_contains(&out, "xs = [1, 3]"));
    assert!(!codex_contains(&out, "xs = [2]"));
    assert!(!out.contains("ys"));
}

#[test]
fn an_empty_toml_table_goes_whatever_stands_under_its_key() {
    let out = update_toml_common_config_snippet(
        "a = {}\nb = { x = 1 }\nc = {}\n\n[d]\n",
        "a = 1\nb = 2\nd = [3]\n",
        false,
    )
    .expect("comes out");
    assert!(codex_contains(&out, "b = { x = 1 }\nc = {}\n"));
    assert!(!codex_contains(&out, "a = {}"));
    assert!(!codex_contains(&out, "[d]"));
}

#[test]
fn toml_values_replace_values_and_inline_tables_take_tables_inline() {
    let out = update_toml_common_config_snippet(
        "a = 1\nt = { x = 1 }\n",
        "a = \"one\"\n[t]\ny = 2\n[t.deep]\nz = 3\n",
        true,
    )
    .expect("applies");
    assert!(codex_contains(&out, "a = \"one\"\nt = { x = 1, y = 2, deep = { z = 3 } }\n"));
    assert!(!out.contains("[t]"));
}

#[test]
fn toml_errors_name_the_text_that_is_at_fault() {
    match update_toml_common_config_snippet("a = ", "b = ", true) {
        Err(AppError::Message(words)) => {
            assert!(words.starts_with("Invalid Codex config.toml: "), "{words}")
        }
        _ => panic!("the config is at fault"),
    }
    match update_toml_common_config_snippet("a = 1", "b = ", true) {
        Err(AppError::Message(words)) => {
            assert!(words.starts_with("Invalid Codex common config snippet: "), "{words}")
        }
        _ => panic!("the snippet is at fault"),
    }
    let settings = codex_settings("a = ");
    match apply_common_config_to_settings(&AppType::Codex, &settings, "b = 1") {
        Err(AppError::Message(words)) => assert!(
            words.starts_with("Invalid Codex config.toml while applying common config: "),
            "{words}"
        ),
        _ => panic!("the config is at fault"),
    }
    match remove_common_config_from_settings(&AppType::Codex, &settings, "b = 1") {
        Err(AppError::Message(words)) => assert!(
            words.starts_with("Invalid Codex config.toml while removing common config: "),
            "{words}"
        ),
        _ => panic!("the config is at fault"),
    }
}

// Common configuration

#[test]
fn json_snippets_that_are_no_json_are_refused() {
    for app_type in [AppType::Claude, AppType::Gemini] {
        let refused = apply_common_config_to_settings(&app_type, &j("{}"), "{");
        match refused {
            Err(AppError::InvalidCommonConfig { app_type: of, words }) => {
                assert_eq!(of, app_type);
                assert_eq!(words, serde_json::from_str::<Value>("{").unwrap_err().to_string());
            }
            _ => panic!("a broken snippet must be refused"),
        }
        assert!(matches!(
            remove_common_config_from_settings(&app_type, &j("{}"), "{"),
            Err(AppError::InvalidCommonConfig { .. })
        ));
    }
    let untouched = apply_common_config_to_settings(&AppType::OpenCode, &j("{}"), "{");
    assert_eq!(untouched.expect("no common configuration"), j("{}"));
}

#[test]
fn gemini_snippets_join_the_environment() {
    let settings = j(r#"{"env": {"A": "1"}, "config": {}}"#);
    let with = apply_common_config_to_settings(&AppType::Gemini, &settings, r#" {"B": "2"} "#)
        .expect("applies");
    assert_eq!(with, j(r#"{"env": {"A": "1", "B": "2"}, "config": {}}"#));
    assert!(settings_contain_common_config(&AppType::Gemini, &with, r#"{"B": "2"}"#));
    assert!(!settings_contain_common_config(&AppType::Gemini, &settings, r#"{"B": "2"}"#));
    let back = remove_common_config_from_settings(&AppType::Gemini, &with, r#"{"B": "2"}"#)
        .expect("comes out");
    assert_eq!(back, settings);
    let bare = apply_common_config_to_settings(&AppType::Gemini, &j("{}"), r#"{"B": "2"}"#)
        .expect("applies");
    assert_eq!(bare, j(r#"{"env": {"B": "2"}}"#));
}

#[test]
fn storing_takes_the_common_configuration_out_where_it_is_used() {
    let snippet = r#"{"shared": 1}"#;
    let mut stored = provider(r#"{"shared": 1, "own": 2}"#);
    normalize_provider_common_config_for_storage(Some(snippet), &AppType::Claude, &mut stored);
    assert_eq!(stored.settings_config, j(r#"{"shared": 1, "own": 2}"#));
    let mut meta = ProviderMeta::default();
    meta.common_config_enabled = Some(true);
    stored.meta = Some(meta);
    normalize_provider_common_config_for_storage(None, &AppType::Claude, &mut stored);
    normalize_provider_common_config_for_storage(Some(" "), &AppType::Claude, &mut stored);
    normalize_provider_common_config_for_storage(Some("{"), &AppType::Claude, &mut stored);
    assert_eq!(stored.settings_config, j(r#"{"shared": 1, "own": 2}"#));
    normalize_provider_common_config_for_storage(Some(snippet), &AppType::Claude, &mut stored);
    assert_eq!(stored.settings_config, j(r#"{"own": 2}"#));
}

#[test]
fn the_common_configuration_is_used_by_flag_or_by_being_there() {
    let snippet = Some(r#"{"shared": 1}"#);
    let mut p = provider(r#"{"shared": 1}"#);
    assert!(provider_uses_common_config(&AppType::Claude, &p, snippet));
    assert!(!provider_uses_common_config(&AppType::Claude, &provider("{}"), snippet));
    assert!(!provider_uses_common_config(&AppType::Claude, &p, None));
    let mut meta = ProviderMeta::default();
    meta.common_config_enabled = Some(false);
    p.meta = Some(meta);
    assert!(!provider_uses_common_config(&AppType::Claude, &p, snippet));
}

// Texts and ratios

#[test]
fn texts_are_trimmed_as_unicode_has_it() {
    assert_eq!(trim("\u{3000} a b\u{a0}\n"), "a b");
    assert_eq!(trim("\u{200b}a"), "\u{200b}a");
    assert!(blank("\u{2003}\t"));
    assert!(!blank("."));
    assert_eq!(trim_end_slashes("/a//"), "/a");
    assert_eq!(trim_end_slashes("//"), "");
    assert!(same_text("é", "é") && !same_text("e", "é"));
    assert!(starts_with_any_case("GPT-5.6-codex", "gpt-5.6"));
    assert!(!starts_with_any_case("gpt-5.5", "gpt-5.6"));
    assert!(!starts_with_any_case("gpt", "gpt-5.6"));
    assert_eq!(joined("a", "b"), "ab");
}

#[test]
fn numbers_are_written_in_decimal() {
    for n in [0u64, 7, 10, 109, 372_000, u64::MAX] {
        assert_eq!(to_decimal(n), n.to_string());
    }
}

#[test]
fn shares_are_those_of_floating_point() {
    let windows = [
        0u64,
        1,
        3,
        200_000,
        262_144,
        1_000_000,
        9_007_199_254_740_993,
        9_007_199_254_740_995,
        u64::MAX - 1024,
        u64::MAX,
    ];
    for window in windows {
        for ratio in [0.2f64, 0.25, 0.3, 0.49999999999999994, 0.5, 0.8, 0.9, 0.95] {
            let share = share_of(window, Ratio { bits: ratio.to_bits() });
            assert_eq!(share, (window as f64 * ratio).floor() as u64, "{window} * {ratio}");
            assert!(share <= window);
        }
    }
    assert_eq!(share_of(200_000, Ratio { bits: 0.8f64.to_bits() }), 160_000);
    assert_eq!(share_of(1, Ratio { bits: 0.95f64.to_bits() }), 0);
}

#[test]
fn ratios_are_valid_from_a_fifth_to_nineteen_twentieths() {
    let valid = |ratio: f64| Ratio { bits: ratio.to_bits() }.is_valid();
    assert!(valid(0.2) && valid(0.95) && valid(0.5));
    assert!(!valid(0.19999999999999998) && !valid(0.9500000000000001));
    assert!(!valid(-0.5) && !valid(f64::NAN) && !valid(f64::INFINITY) && !valid(0.0));
}

// Windows of models

#[test]
fn windows_behind_names_are_read() {
    let cases: [(&str, &str, Option<u64>); 12] = [
        ("m[200k]", "m", Some(200_000)),
        ("m[1M]", "m", Some(1_000_000)),
        ("m[12345]", "m", Some(12_345)),
        ("a[b][2K]", "a[b]", Some(2_000)),
        ("m[0]", "m[0]", None),
        ("m[]", "m[]", None),
        ("m[k]", "m[k]", None),
        ("m[1.5M]", "m[1.5M]", None),
        ("m[1g]", "m[1g]", None),
        ("m[1M", "m[1M", None),
        ("m[18446744073709551616]", "m[18446744073709551616]", None),
        ("m[18446744073709551615M]", "m[18446744073709551615M]", None),
    ];
    for (model, name, window) in cases {
        assert_eq!(parse_context_window_suffix(model), (name, window), "{model}");
        assert_eq!(strip_one_m_suffix_for_upstream(model), name);
    }
}

#[test]
fn a_listed_window_counts_more_than_one_behind_the_name() {
    let settings = j(r#"{
        "env": {"ANTHROPIC_MODEL": "m[200k]"},
        "contextWindows": {"ANTHROPIC_MODEL": 300000}
    }"#);
    assert_eq!(resolve_context_window(&settings, "ANTHROPIC_MODEL"), Some(300_000));
    assert_eq!(resolve_context_window(&settings, "CLAUDE_CODE_SUBAGENT_MODEL"), None);
}

#[test]
fn migration_keeps_windows_and_is_done_once() {
    let before = j(r#"{
        "env": {
            "ANTHROPIC_MODEL": "m[200k]",
            "ANTHROPIC_DEFAULT_OPUS_MODEL": "o[1M]",
            "ANTHROPIC_DEFAULT_HAIKU_MODEL": "h"
        },
        "contextWindows": {"ANTHROPIC_DEFAULT_OPUS_MODEL": 500000}
    }"#);
    let mut after = before.clone();
    migrate_legacy_suffix_to_context_windows(&mut after);
    assert_eq!(
        after,
        j(r#"{
            "env": {
                "ANTHROPIC_MODEL": "m",
                "ANTHROPIC_DEFAULT_OPUS_MODEL": "o",
                "ANTHROPIC_DEFAULT_HAIKU_MODEL": "h"
            },
            "contextWindows": {
                "ANTHROPIC_MODEL": 200000,
                "ANTHROPIC_DEFAULT_OPUS_MODEL": 500000
            }
        }"#)
    );
    for key in [
        "ANTHROPIC_MODEL",
        "ANTHROPIC_DEFAULT_OPUS_MODEL",
        "ANTHROPIC_DEFAULT_HAIKU_MODEL",
    ] {
        assert_eq!(resolve_context_window(&after, key), resolve_context_window(&before, key));
    }
    let once = after.clone();
    migrate_legacy_suffix_to_context_windows(&mut after);
    assert_eq!(after, once);
    assert_eq!(context_window_target_from_settings(&after), Some(500_000));
}

#[test]
fn names_lose_the_windows_behind_them() {
    let mut settings = j(r#"{"env": {"ANTHROPIC_MODEL": "m[1M]", "OTHER": "o[1M]"}}"#);
    strip_legacy_suffixes_from_claude_models(&mut settings);
    assert_eq!(settings, j(r#"{"env": {"ANTHROPIC_MODEL": "m", "OTHER": "o[1M]"}}"#));
}

// Default windows

const KIMI: &str = r#"{"env": {"ANTHROPIC_BASE_URL": " https://api.kimi.com/coding/ "}}"#;
const GPT: &str = r#"{"env": {"ANTHROPIC_MODEL": "GPT-5.6"}}"#;

#[test]
fn static_defaults_go_in_and_come_out() {
    let mut settings = j(KIMI);
    apply_kimi_for_coding_context_defaults(&mut settings, &provider(KIMI));
    assert_eq!(settings["env"]["CLAUDE_CODE_MAX_CONTEXT_TOKENS"], "262144");
    assert_eq!(
        settings["autoSyncState"]["staticInjected"],
        j(r#"{"ACW": "262144", "MAX": "262144"}"#)
    );
    strip_injected_kimi_for_coding_context_defaults(&mut settings, &provider(KIMI));
    assert_eq!(settings["env"], j(KIMI)["env"]);

    let mut settings = j(GPT);
    apply_codex_oauth_claude_context_defaults(&mut settings, &codex_oauth(GPT));
    assert_eq!(settings["env"]["CLAUDE_CODE_AUTO_COMPACT_WINDOW"], "372000");
    strip_injected_codex_oauth_context_defaults(&mut settings, &codex_oauth(GPT));
    assert_eq!(settings["env"], j(GPT)["env"]);
}

#[test]
fn own_values_replace_what_a_snippet_put_there() {
    let own = codex_oauth(
        r#"{"env": {"ANTHROPIC_MODEL": "other", "CLAUDE_CODE_MAX_CONTEXT_TOKENS": "7"}}"#,
    );
    let mut settings = j(
        r#"{"env": {"CLAUDE_CODE_MAX_CONTEXT_TOKENS": "8", "CLAUDE_CODE_AUTO_COMPACT_WINDOW": "9"}}"#,
    );
    apply_codex_oauth_claude_context_defaults(&mut settings, &own);
    assert_eq!(settings["env"]["CLAUDE_CODE_MAX_CONTEXT_TOKENS"], "7");
    assert_eq!(settings["env"]["CLAUDE_CODE_AUTO_COMPACT_WINDOW"], "9");
}

#[test]
fn edited_values_stay() {
    let mut settings = j(KIMI);
    settings["env"]["CLAUDE_CODE_MAX_CONTEXT_TOKENS"] = Value::String("262145".to_string());
    let before = settings.clone();
    strip_injected_kimi_for_coding_context_defaults(&mut settings, &provider(KIMI));
    assert_eq!(settings, before);
}

#[test]
fn window_defaults_follow_the_ratio_where_there_is_one() {
    let text = |ratio: &str| {
        format!(
            r#"{{"env": {{}}, "contextWindows": {{"ANTHROPIC_MODEL": 200000}}{ratio}}}"#
        )
    };
    for (ratio, compact) in [
        ("", "200000"),
        (r#", "autoSyncCompactRatio": 0.5"#, "100000"),
        (r#", "autoSyncCompactRatio": 0.99"#, "190000"),
        (r#", "autoSyncCompactRatio": 1"#, "190000"),
    ] {
        let own = text(ratio);
        let mut settings = j(&own);
        apply_context_window_defaults(&mut settings, &provider(&own));
        assert_eq!(settings["env"]["CLAUDE_CODE_AUTO_COMPACT_WINDOW"], compact, "{ratio}");
        assert_eq!(settings["env"]["CLAUDE_CODE_MAX_CONTEXT_TOKENS"], "200000");
    }
}

#[test]
fn the_sync_state_is_put_in_where_there_is_room() {
    let mut settings = j(r#"{"autoSyncState": 5}"#);
    record_static_injected(&mut settings, "1", "2");
    assert_eq!(
        settings,
        j(r#"{"autoSyncState": {"staticInjected": {"ACW": "1", "MAX": "2"}}}"#)
    );
    clear_static_injected(&mut settings);
    assert_eq!(settings, j(r#"{"autoSyncState": {}}"#));
    let mut text = j("\"no object\"");
    assert!(auto_sync_state_mut(&mut text).is_none());
    assert_eq!(text, j("\"no object\""));
}

// Backfill

fn live_of(stored: &Provider) -> Value {
    let plan = write_live_with_common_config(None, &AppType::Claude, stored);
    match write_live_snapshot(&AppType::Claude, &plan.provider, false) {
        Ok(LiveWrite::ClaudeSettings(live)) => live,
        _ => panic!("the settings file must be written"),
    }
}

#[test]
fn settings_come_back_from_the_live_file_as_they_were() {
    for text in [
        r#"{"env": {"ANTHROPIC_MODEL": "m"}, "theme": "dark"}"#,
        r#"{"env": {"ANTHROPIC_MODEL": "m", "CLAUDE_CODE_SUBAGENT_MODEL": "s"},
            "contextWindows": {"ANTHROPIC_MODEL": 200000, "CLAUDE_CODE_SUBAGENT_MODEL": 1000000},
            "autoSyncContextWindow": true, "autoSyncCompactRatio": 0.8}"#,
        KIMI,
        r#"{"env": {"CLAUDE_CODE_MAX_CONTEXT_TOKENS": "5"},
            "contextWindows": {"ANTHROPIC_MODEL": 9}}"#,
        r#"{}"#,
    ] {
        let stored = provider(text);
        let back =
            strip_common_config_from_live_settings(None, &AppType::Claude, &stored, live_of(&stored));
        assert_eq!(back, stored.settings_config, "{text}");
    }
}

#[test]
fn settings_with_old_names_come_back_migrated_and_then_stay() {
    let stored = provider(r#"{"env": {"ANTHROPIC_MODEL": "m[1M]"}}"#);
    let back =
        strip_common_config_from_live_settings(None, &AppType::Claude, &stored, live_of(&stored));
    assert_eq!(
        back,
        j(r#"{"env": {"ANTHROPIC_MODEL": "m"}, "contextWindows": {"ANTHROPIC_MODEL": 1000000}}"#)
    );
    let mut again = provider("{}");
    again.settings_config = back.clone();
    let fixed =
        strip_common_config_from_live_settings(None, &AppType::Claude, &again, live_of(&again));
    assert_eq!(fixed, back);
}

#[test]
fn other_applications_settings_are_stored_as_they_are_read() {
    let live = j(r#"{"env": {"A": "1"}}"#);
    let p = provider("{}");
    for app_type in [AppType::Gemini, AppType::Hermes, AppType::ClaudeDesktop] {
        let back = restore_live_settings_for_provider_backfill(&app_type, &p, live.clone());
        assert_eq!(back, live);
    }
}

#[test]
fn a_config_that_is_no_toml_keeps_its_mcp_servers() {
    let live = codex_settings("mcp_servers = [");
    let back =
        restore_live_settings_for_provider_backfill(&AppType::GrokBuild, &provider("{}"), live.clone());
    assert_eq!(back, live);
}

#[test]
fn only_the_official_provider_drops_the_shared_session_route() {
    let mut p = provider("{}");
    assert!(!drops_shared_session_route(&p));
    p.category = Some("custom".to_string());
    assert!(!drops_shared_session_route(&p));
    p.category = Some("official".to_string());
    assert!(drops_shared_session_route(&p));
}

#[test]
fn sanitizing_leaves_everything_else() {
    assert_eq!(
        sanitize_claude_settings_for_live(&j(r#"{"apiFormat": 1, "api_format": 2, "model": "m"}"#)),
        j(r#"{"model": "m"}"#)
    );
    assert_eq!(sanitize_claude_settings_for_live(&j("[1]")), j("[1]"));
}

// The watcher

const TAKEN_OVER: &str = r#"{
    "model": "opus",
    "env": {"ANTHROPIC_AUTH_TOKEN": "PROXY_MANAGED", "KEEP": "1"},
    "theme": "dark",
    "apiFormat": "internal"
}"#;

const WATCHED: &str = r#"{
    "autoSyncContextWindow": true,
    "autoSyncCompactRatio": 0.8,
    "contextWindows": {"ANTHROPIC_DEFAULT_OPUS_MODEL": 200000}
}"#;

#[test]
fn the_watcher_leaves_its_own_write_alone() {
    let mut watcher = spawn_claude_settings_watcher(None, provider(WATCHED));
    let write = watcher.handle_settings_change(TAKEN_OVER).expect("there is something to write");
    assert_eq!((write.acw.as_str(), write.max.as_str()), ("160000", "200000"));
    let stored = watcher.written(&write);
    assert_eq!(
        stored["autoSyncState"]["lastWritten"],
        j(r#"{"ACW": "160000", "MAX": "200000"}"#)
    );
    assert!(watcher.handle_settings_change(&write.content).is_none());
}

#[test]
fn the_watcher_leaves_its_own_write_alone_whatever_becomes_of_floats() {
    let mut settings = j(TAKEN_OVER);
    settings["floats"] = j("[0.1, -0.0, 1e16, 5e-324, 1.7976931348623157e308, 43210.0]");
    let mut watcher = spawn_claude_settings_watcher(None, provider(WATCHED));
    let write =
        watcher.handle_settings_change(&settings.to_string()).expect("there is something to write");
    let read = j(&write.content);
    assert_eq!(read["env"]["CLAUDE_CODE_AUTO_COMPACT_WINDOW"], "160000");
    assert!(read["floats"].as_array().expect("array").iter().all(Value::is_f64));
    watcher.written(&write);
    assert!(watcher.handle_settings_change(&write.content).is_none());
}

#[test]
fn the_watcher_touches_nothing_else() {
    let watcher = spawn_claude_settings_watcher(None, provider(WATCHED));
    let write = watcher.handle_settings_change(TAKEN_OVER).expect("there is something to write");
    assert_eq!(
        j(&write.content),
        j(r#"{
            "model": "opus",
            "env": {
                "ANTHROPIC_AUTH_TOKEN": "PROXY_MANAGED",
                "KEEP": "1",
                "CLAUDE_CODE_AUTO_COMPACT_WINDOW": "160000",
                "CLAUDE_CODE_MAX_CONTEXT_TOKENS": "200000"
            },
            "theme": "dark"
        }"#)
    );
    assert!(is_claude_live_taken_over(&j(&write.content)));
}

#[test]
fn the_watcher_starts_from_what_the_file_holds() {
    let watcher = spawn_claude_settings_watcher(Some(TAKEN_OVER), provider(WATCHED));
    assert!(watcher.handle_settings_change(TAKEN_OVER).is_none());
    let broken = spawn_claude_settings_watcher(Some("{"), provider(WATCHED));
    assert!(broken.state.is_none());
    assert!(broken.handle_settings_change(TAKEN_OVER).is_some());
    assert!(broken.handle_settings_change("{").is_none());
}

#[test]
fn a_watcher_that_is_replaced_is_stopped() {
    let mut slot = Some(spawn_claude_settings_watcher(None, provider(WATCHED)));
    let replaced = replace_watcher(&mut slot, spawn_claude_settings_watcher(None, provider("{}")));
    let old = replaced.expect("there was one");
    assert!(old.shutdown);
    assert!(old.handle_settings_change(TAKEN_OVER).is_none());
    assert!(!slot.expect("there is one").shutdown);
}

#[test]
fn variables_are_written_into_objects_only() {
    let writes = build_env_writes(10, Ratio { bits: 0.5f64.to_bits() });
    assert_eq!(
        update_env_fields("[]", &writes),
        Err("top-level not object".to_string())
    );
    assert_eq!(
        update_env_fields(r#"{"env": 1}"#, &writes),
        Err("env not object".to_string())
    );
    assert_eq!(
        update_env_fields("{", &writes),
        Err(serde_json::from_str::<Value>("{").unwrap_err().to_string())
    );
    assert_eq!(
        update_env_fields("{}", &writes).expect("written"),
        "{\n  \"env\": {\n    \"CLAUDE_CODE_AUTO_COMPACT_WINDOW\": \"5\",\n    \
         \"CLAUDE_CODE_MAX_CONTEXT_TOKENS\": \"10\"\n  }\n}"
    );
}

#[test]
fn a_file_that_changed_is_not_written() {
    assert!(verify_file_unchanged("a", "a").is_ok());
    assert_eq!(
        verify_file_unchanged("a", "b"),
        Err("settings.json changed between read and write".to_string())
    );
}
