//! Backfill: the way of live settings back into the storage of a provider, when
//! another provider takes its place.
//!
//! What was put in for the live configuration alone comes out, and what only the
//! storage holds comes back.

use vstd::prelude::*;

use crate::common_config::{provider_uses_common_config, remove_common_config_from_settings};
use crate::context_defaults::{
    strip_injected_codex_oauth_context_defaults, strip_injected_kimi_for_coding_context_defaults,
    strip_injected_model_suffix_context_defaults,
};
use crate::json::{copy, get, get_text, set_entry, string};
use crate::model_window::{
    migrate_legacy_suffix_to_context_windows, strip_legacy_suffixes_from_claude_models,
};
use crate::provider::{AppType, Provider};
use crate::text::same_text;
use crate::toml_doc::{
    item_get, item_remove, parse_document, print_document, root_item, root_item_mut,
};

verus! {

use crate::common_config::{
    is_updated, optional_str, snippet_error, uses_common_config,
};
use crate::context_defaults::{
    acw_key, filled, forced, injected_compact_window, is_kimi, largest_window,
    law_fixed_defaults_go_by_variable, law_no_window_nothing_goes, lemma_fields_differ,
    lemma_keys_differ, listed_target, lists_no_window, max_key, targets_gpt56, unforced, with_codex_defaults,
    with_kimi_defaults, with_subagent_marker, with_window_defaults, without_codex_defaults,
    without_kimi_defaults, without_window_defaults, CODEX_OAUTH_CLAUDE_CONTEXT_TOKENS,
    KIMI_FOR_CODING_CONTEXT_TOKENS,
};
use crate::effective::{claude_effective, internal_fields, sanitized};
use crate::json::{tree, JsonTree};
use crate::model_window::{
    cleaned, cleaned_env, context_window, is_model_variable, law_cleaned_by_key, law_model_variables,
    lemma_cleaned_env, lemma_marker_comes_off, lemma_migrated_frame, lemma_migrated_windows, listed,
    migrated, model_keys, suffix_window, without_suffix,
};
use crate::provider::ProviderView;
use crate::text::decimal;
use crate::toml_doc::{
    has_entry, lemma_well_formed_table, parsed_layout, parsed_toml, root, toml_text, without_entry,
    DocumentLayout, EntryLayout, TomlTree,
};

/// Settings with a field that is there to be put back.
pub open spec fn with_field(settings: JsonTree, key: Seq<char>, value: Option<JsonTree>) -> JsonTree {
    match value {
        Some(value) => settings.set(key, value),
        None => settings,
    }
}

/// Live settings with the internal fields of the provider put back; windows behind
/// models' names count as listed.
pub open spec fn with_internal_fields(live: JsonTree, provider: ProviderView) -> JsonTree {
    let stored = provider.settings;
    with_field(
        with_field(
            with_field(
                with_field(
                    live,
                    "autoSyncContextWindow"@,
                    stored.get("autoSyncContextWindow"@),
                ),
                "autoSyncCompactRatio"@,
                stored.get("autoSyncCompactRatio"@),
            ),
            "contextWindows"@,
            migrated(stored).get("contextWindows"@),
        ),
        "autoSyncState"@,
        stored.get("autoSyncState"@),
    )
}

/// The assistant's live settings as they go into storage.
pub open spec fn claude_backfilled(live: JsonTree, provider: ProviderView) -> JsonTree {
    cleaned(
        without_window_defaults(
            with_internal_fields(
                without_kimi_defaults(without_codex_defaults(live, provider), provider),
                provider,
            ),
            provider,
        ),
    )
}

/// The text of a `config.toml` without its MCP servers, everything else written as before.
pub open spec fn without_mcp_servers(config: Seq<char>) -> Seq<char> {
    let table = parsed_toml(config)->Ok_0;
    let layout = parsed_layout(config);
    toml_text(
        table.with_table(table.table().remove("mcp_servers"@)),
        DocumentLayout {
            root: layout.root.with_entries(
                without_entry(layout.root.entries(), "mcp_servers"@),
            ),
            ..layout
        },
    )
}

/// Whether `result` is `settings` without the MCP servers in its `config.toml`.
/// Settings without such a text, with one that is no TOML, or with one that has no
/// MCP servers, stay as they are.
pub open spec fn is_without_mcp_servers(settings: JsonTree, result: JsonTree) -> bool {
    match settings.text_at("config"@) {
        Some(config) => if parsed_toml(config) is Ok && parsed_toml(config)->Ok_0.table().contains_key(
            "mcp_servers"@,
        ) {
            result == settings.set("config"@, JsonTree::Text(without_mcp_servers(config)))
        } else {
            result == settings
        },
        None => result == settings,
    }
}

/// Whether `result` is how live settings go into storage.
pub open spec fn is_restored(
    app_type: AppType,
    provider: ProviderView,
    live: JsonTree,
    result: JsonTree,
) -> bool {
    match app_type {
        AppType::Claude => result == claude_backfilled(live, provider),
        AppType::GrokBuild => is_without_mcp_servers(live, result),
        AppType::Codex => exists|stripped: JsonTree|
            #[trigger] is_without_mcp_servers(live, stripped) && result == with_field(
                stripped,
                "modelCatalog"@,
                provider.settings.get("modelCatalog"@),
            ),
        _ => result == live,
    }
}

fn restore_field(settings: &mut serde_json::Value, key: &str, value: Option<&serde_json::Value>)
    ensures
        tree(*final(settings)) == with_field(
            tree(*old(settings)),
            key@,
            match value {
                Some(value) => Some(tree(*value)),
                None => None,
            },
        ),
{
    if let Some(value) = value {
        set_entry(settings, key, copy(value));
    }
}

/// Puts the internal fields of a provider back into its live settings.
pub fn restore_claude_internal_fields_for_backfill(
    settings: &mut serde_json::Value,
    provider: &Provider,
)
    ensures
        tree(*final(settings)) == with_internal_fields(tree(*old(settings)), provider@),
{
    let mut with_windows = copy(&provider.settings_config);
    migrate_legacy_suffix_to_context_windows(&mut with_windows);
    let stored = &provider.settings_config;
    restore_field(settings, "autoSyncContextWindow", get(stored, "autoSyncContextWindow"));
    restore_field(settings, "autoSyncCompactRatio", get(stored, "autoSyncCompactRatio"));
    restore_field(settings, "contextWindows", get(&with_windows, "contextWindows"));
    restore_field(settings, "autoSyncState", get(stored, "autoSyncState"));
}

/// Takes the MCP servers out of the `config.toml` that settings hold. They have a
/// store of their own, and would come back from here after they were deleted there.
pub fn strip_mcp_servers_from_settings(settings: &mut serde_json::Value)
    ensures
        is_without_mcp_servers(tree(*old(settings)), tree(*final(settings))),
{
    let ghost before = tree(*settings);
    let config = match get_text(settings, "config") {
        Some(config) => config,
        None => {
            return;
        },
    };
    let mut document = match parse_document(config) {
        Ok(document) => document,
        Err(_) => {
            return;
        },
    };
    proof {
        lemma_well_formed_table(root(document));
    }
    if item_get(root_item(&document), "mcp_servers").is_none() {
        return;
    }
    item_remove(root_item_mut(&mut document), "mcp_servers");
    let text = print_document(&document);
    assert(text@ == without_mcp_servers(before.text_at("config"@)->0));
    set_entry(settings, "config", string(text));
}

/// Whether a route that all sessions share is taken out of Codex's live settings as they
/// go into storage: that of the official provider is there for the live configuration
/// alone.
pub fn drops_shared_session_route(provider: &Provider) -> (result: bool)
    ensures
        result == (provider@.category == Some("official"@)),
{
    match &provider.category {
        Some(category) => same_text(category.as_str(), "official"),
        None => false,
    }
}

/// Live settings as they go into the storage of a provider. Of Codex's settings, the
/// caller has put back the provider's token before, and takes the shared session route
/// out where [`drops_shared_session_route`] says so.
pub fn restore_live_settings_for_provider_backfill(
    app_type: &AppType,
    provider: &Provider,
    live_settings: serde_json::Value,
) -> (result: serde_json::Value)
    ensures
        is_restored(*app_type, provider@, tree(live_settings), tree(result)),
{
    let mut settings = live_settings;
    match app_type {
        AppType::Claude => {
            strip_injected_codex_oauth_context_defaults(&mut settings, provider);
            strip_injected_kimi_for_coding_context_defaults(&mut settings, provider);
            restore_claude_internal_fields_for_backfill(&mut settings, provider);
            strip_injected_model_suffix_context_defaults(&mut settings, provider);
            strip_legacy_suffixes_from_claude_models(&mut settings);
        },
        AppType::GrokBuild => {
            strip_mcp_servers_from_settings(&mut settings);
        },
        AppType::Codex => {
            strip_mcp_servers_from_settings(&mut settings);
            assert(is_without_mcp_servers(tree(live_settings), tree(settings)));
            restore_field(
                &mut settings,
                "modelCatalog",
                get(&provider.settings_config, "modelCatalog"),
            );
        },
        _ => {},
    }
    settings
}

/// Whether `result` is live settings without the common configuration, taken out where the
/// provider uses it and it can be.
pub open spec fn is_without_common_config(
    app_type: AppType,
    provider: ProviderView,
    snippet: Option<Seq<char>>,
    live: JsonTree,
    result: JsonTree,
) -> bool {
    if uses_common_config(app_type, provider, snippet) && snippet_error(
        app_type,
        live,
        snippet->0,
        false,
    ) is None {
        is_updated(app_type, live, snippet->0, false, result)
    } else {
        result == live
    }
}

/// Live settings without the common configuration, being `snippet`, where the provider
/// uses it and it can be taken out.
pub fn live_settings_without_common_config(
    snippet: Option<&str>,
    app_type: &AppType,
    provider: &Provider,
    live_settings: serde_json::Value,
) -> (result: serde_json::Value)
    ensures
        is_without_common_config(
            *app_type,
            provider@,
            optional_str(snippet),
            tree(live_settings),
            tree(result),
        ),
{
    if provider_uses_common_config(app_type, provider, snippet) {
        if let Some(snippet_text) = snippet {
            match remove_common_config_from_settings(app_type, &live_settings, snippet_text) {
                Ok(stripped) => {
                    return stripped;
                },
                Err(_) => {},
            }
        }
    }
    live_settings
}

/// Whether `result` is how live settings go into storage.
pub open spec fn is_backfilled(
    app_type: AppType,
    provider: ProviderView,
    snippet: Option<Seq<char>>,
    live: JsonTree,
    result: JsonTree,
) -> bool {
    exists|stripped: JsonTree|
        #[trigger] is_without_common_config(app_type, provider, snippet, live, stripped)
            && is_restored(app_type, provider, stripped, result)
}

/// Live settings as they go into the storage of a provider, the common configuration
/// being `snippet`; none, where it could not be loaded. For Codex, whose token goes back
/// in between, the two steps of this are also there one by one.
pub fn strip_common_config_from_live_settings(
    snippet: Option<&str>,
    app_type: &AppType,
    provider: &Provider,
    live_settings: serde_json::Value,
) -> (result: serde_json::Value)
    ensures
        is_backfilled(
            *app_type,
            provider@,
            optional_str(snippet),
            tree(live_settings),
            tree(result),
        ),
{
    let stripped = live_settings_without_common_config(
        snippet,
        app_type,
        provider,
        live_settings,
    );
    restore_live_settings_for_provider_backfill(app_type, provider, stripped)
}

/// The window that a provider's settings list, at its largest.
spec fn target(provider: ProviderView) -> Option<u64> {
    listed_target(migrated(provider.settings))
}

spec fn marker_env(env: JsonTree, provider: ProviderView) -> JsonTree {
    let key = "CLAUDE_CODE_SUBAGENT_MODEL"@;
    match context_window(provider.settings, key) {
        Some(window) => if window >= 1_000_000 && env.text_at(key) is Some && suffix_window(
            env.text_at(key)->0,
        ) is None {
            env.set(key, JsonTree::Text(env.text_at(key)->0 + "[1M]"@))
        } else {
            env
        },
        None => env,
    }
}

spec fn window_env(env: JsonTree, provider: ProviderView) -> JsonTree {
    match target(provider) {
        Some(window) => filled(
            filled(env, acw_key(), decimal(injected_compact_window(window, provider.settings))),
            max_key(),
            decimal(window as nat),
        ),
        None => env,
    }
}

spec fn static_env(
    env: JsonTree,
    provider: ProviderView,
    applies: bool,
    inject: bool,
    tokens: u64,
) -> JsonTree {
    if applies {
        forced(
            forced(env, provider.env(), max_key(), inject, decimal(tokens as nat)),
            provider.env(),
            acw_key(),
            inject,
            decimal(tokens as nat),
        )
    } else {
        env
    }
}

spec fn effective_env(env: JsonTree, provider: ProviderView) -> JsonTree {
    static_env(
        static_env(
            window_env(marker_env(env, provider), provider),
            provider,
            provider.codex_oauth(),
            targets_gpt56(provider.env()),
            CODEX_OAUTH_CLAUDE_CONTEXT_TOKENS,
        ),
        provider,
        is_kimi(provider),
        true,
        KIMI_FOR_CODING_CONTEXT_TOKENS,
    )
}

spec fn stripped_env(
    env: JsonTree,
    provider: ProviderView,
    applies: bool,
    acw: Seq<char>,
    max: Seq<char>,
) -> JsonTree {
    if applies {
        unforced(
            unforced(env, provider.env(), max_key(), max),
            provider.env(),
            acw_key(),
            acw,
        )
    } else {
        env
    }
}

spec fn backfilled_env(env: JsonTree, provider: ProviderView) -> JsonTree {
    let codex = decimal(CODEX_OAUTH_CLAUDE_CONTEXT_TOKENS as nat);
    let kimi = decimal(KIMI_FOR_CODING_CONTEXT_TOKENS as nat);
    let without_codex = stripped_env(
        env,
        provider,
        provider.codex_oauth() && targets_gpt56(provider.env()),
        codex,
        codex,
    );
    let without_kimi = stripped_env(without_codex, provider, is_kimi(provider), kimi, kimi);
    let without_window = match target(provider) {
        Some(window) => stripped_env(
            without_kimi,
            provider,
            true,
            decimal(injected_compact_window(window, provider.settings)),
            decimal(window as nat),
        ),
        None => without_kimi,
    };
    cleaned_env(without_window, model_keys().len())
}

/// The largest of the listed windows is there as soon as one is.
proof fn lemma_largest_window(windows: JsonTree, n: nat)
    requires
        n <= model_keys().len(),
    ensures
        largest_window(windows, n) is Some <==> exists|i: int|
            0 <= i < n && match windows.get(#[trigger] model_keys()[i]) {
                Some(value) => value is Natural,
                None => false,
            },
    decreases n,
{
    if n > 0 {
        lemma_largest_window(windows, (n - 1) as nat);
        if largest_window(windows, (n - 1) as nat) is Some {
            let i = choose|i: int|
                0 <= i < n - 1 && match windows.get(#[trigger] model_keys()[i]) {
                    Some(value) => value is Natural,
                    None => false,
                };
            assert(0 <= i < n && model_keys()[i] == model_keys()[i]);
        }
    }
}

/// Migration loses no listed window.
proof fn lemma_target_survives(settings: JsonTree)
    ensures
        listed_target(migrated(settings)) is None ==> listed_target(settings) is None,
{
    if listed_target(settings) is Some {
        let windows = settings.object_at("contextWindows"@)->0;
        lemma_largest_window(windows, model_keys().len());
        let i = choose|i: int|
            0 <= i < model_keys().len() && match windows.get(#[trigger] model_keys()[i]) {
                Some(value) => value is Natural,
                None => false,
            };
        lemma_migrated_windows(settings, model_keys().len(), i);
        assert(listed(settings, model_keys()[i]) == windows.get(model_keys()[i]));
        let after = migrated(settings).object_at("contextWindows"@)->0;
        assert(after.get(model_keys()[i]) == windows.get(model_keys()[i]));
        lemma_largest_window(after, model_keys().len());
    }
}

/// What effective settings are, field by field.
proof fn lemma_effective_fields(provider: ProviderView, key: Seq<char>)
    ensures
        ({
            let stored = provider.settings;
            let effective = claude_effective(stored, provider);
            &&& effective is Object <==> stored is Object
            &&& key != "env"@ && !internal_fields().contains(key) ==> effective.get(key)
                == stored.get(key)
            &&& stored.object_at("env"@) is None ==> effective.get("env"@) == stored.get("env"@)
            &&& stored.object_at("env"@) is Some ==> effective.get("env"@) == Some(
                effective_env(migrated(stored).object_at("env"@)->0, provider),
            )
        }),
{
    let stored = provider.settings;
    lemma_fields_differ();
    lemma_keys_differ();
    lemma_migrated_frame(stored, model_keys().len(), key);
    lemma_migrated_frame(stored, model_keys().len(), "contextWindows"@);
    lemma_target_survives(stored);
    let t0 = migrated(stored);
    let t1 = with_subagent_marker(t0, provider);
    let t2 = with_window_defaults(t1, provider);
    let t3 = with_codex_defaults(t2, provider);
    let t4 = with_kimi_defaults(t3, provider);
    assert(t1.object_at("contextWindows"@) == t0.object_at("contextWindows"@));
    assert(listed_target(t1) == target(provider));
    if stored.object_at("env"@) is Some {
        let e0 = t0.object_at("env"@)->0;
        assert(t1.object_at("env"@) == Some(marker_env(e0, provider)));
        assert(t2.object_at("env"@) == Some(window_env(marker_env(e0, provider), provider)));
    }
}

/// What backfilled settings are, field by field.
proof fn lemma_backfilled_fields(live: JsonTree, provider: ProviderView, key: Seq<char>)
    ensures
        ({
            let stored = provider.settings;
            let result = claude_backfilled(live, provider);
            &&& result is Object <==> live is Object
            &&& live.object_at("env"@) is None ==> result.get("env"@) == live.get("env"@)
            &&& live.object_at("env"@) matches Some(env) ==> result.get("env"@) == Some(
                backfilled_env(env, provider),
            )
            &&& key != "env"@ && !internal_fields().contains(key) ==> result.get(key) == live.get(
                key,
            )
            &&& live is Object && sanitized(live) == live && internal_fields().contains(key)
                ==> result.get(key) == if key == "autoSyncContextWindow"@ || key
                == "autoSyncCompactRatio"@ || key == "autoSyncState"@ {
                stored.get(key)
            } else if key == "contextWindows"@ {
                migrated(stored).get(key)
            } else {
                None
            }
        }),
{
    lemma_internal_names_differ();
    let t1 = without_kimi_defaults(without_codex_defaults(live, provider), provider);
    let t2 = with_internal_fields(t1, provider);
    let t3 = without_window_defaults(t2, provider);
    assert(sanitized(live).get(key) == if internal_fields().contains(key) {
        None
    } else {
        live.get(key)
    });
    if let Some(env) = live.object_at("env"@) {
        let codex = decimal(CODEX_OAUTH_CLAUDE_CONTEXT_TOKENS as nat);
        let kimi = decimal(KIMI_FOR_CODING_CONTEXT_TOKENS as nat);
        let e1 = stripped_env(
            stripped_env(
                env,
                provider,
                provider.codex_oauth() && targets_gpt56(provider.env()),
                codex,
                codex,
            ),
            provider,
            is_kimi(provider),
            kimi,
            kimi,
        );
        assert(t1.object_at("env"@) == Some(e1));
        assert(t2.object_at("env"@) == Some(e1));
        assert(t3.object_at("env"@) is Some);
        lemma_cleaned_env(t3.object_at("env"@)->0, model_keys().len(), key);
    }
}

/// The internal fields that say which format a provider's API has.
spec fn format_fields() -> Set<Seq<char>> {
    set!["api_format"@, "apiFormat"@, "openrouter_compat_mode"@, "openrouterCompatMode"@]
}

/// The internal fields and the environment have different names.
proof fn lemma_internal_names_differ()
    ensures
        !internal_fields().contains("env"@),
        !format_fields().contains("autoSyncContextWindow"@),
        !format_fields().contains("autoSyncCompactRatio"@),
        !format_fields().contains("contextWindows"@),
        !format_fields().contains("autoSyncState"@),
        "autoSyncContextWindow"@ != "autoSyncCompactRatio"@,
        "autoSyncContextWindow"@ != "contextWindows"@,
        "autoSyncContextWindow"@ != "autoSyncState"@,
        "autoSyncCompactRatio"@ != "contextWindows"@,
        "autoSyncCompactRatio"@ != "autoSyncState"@,
        "contextWindows"@ != "autoSyncState"@,
{
    reveal_strlit("env");
    reveal_strlit("api_format");
    reveal_strlit("apiFormat");
    reveal_strlit("openrouter_compat_mode");
    reveal_strlit("openrouterCompatMode");
    reveal_strlit("autoSyncContextWindow");
    reveal_strlit("autoSyncCompactRatio");
    reveal_strlit("contextWindows");
    reveal_strlit("autoSyncState");
    assert("env"@.len() == 3);
    assert("api_format"@.len() == 10);
    assert("apiFormat"@.len() == 9);
    assert("openrouter_compat_mode"@.len() == 22);
    assert("openrouterCompatMode"@.len() == 20);
    assert("openrouterCompatMode"@[0] == 'o');
    assert("autoSyncCompactRatio"@[0] == 'a');
    assert("autoSyncContextWindow"@.len() == 21);
    assert("autoSyncCompactRatio"@.len() == 20);
    assert("contextWindows"@.len() == 14);
    assert("autoSyncState"@.len() == 13);
}

/// The two context variables name no model.
proof fn lemma_context_keys_name_no_model()
    ensures
        !model_keys().contains(acw_key()),
        !model_keys().contains(max_key()),
{
    reveal_strlit("CLAUDE_CODE_AUTO_COMPACT_WINDOW");
    reveal_strlit("CLAUDE_CODE_MAX_CONTEXT_TOKENS");
    reveal_strlit("ANTHROPIC_MODEL");
    reveal_strlit("ANTHROPIC_DEFAULT_HAIKU_MODEL");
    reveal_strlit("ANTHROPIC_DEFAULT_SONNET_MODEL");
    reveal_strlit("ANTHROPIC_DEFAULT_OPUS_MODEL");
    reveal_strlit("ANTHROPIC_DEFAULT_FABLE_MODEL");
    reveal_strlit("CLAUDE_CODE_SUBAGENT_MODEL");
    assert(acw_key().len() == 31);
    assert(max_key().len() == 30);
    assert(max_key()[0] == 'C');
    assert("ANTHROPIC_DEFAULT_SONNET_MODEL"@[0] == 'A');
    assert("ANTHROPIC_MODEL"@.len() == 15);
    assert("ANTHROPIC_DEFAULT_HAIKU_MODEL"@.len() == 29);
    assert("ANTHROPIC_DEFAULT_SONNET_MODEL"@.len() == 30);
    assert("ANTHROPIC_DEFAULT_OPUS_MODEL"@.len() == 28);
    assert("ANTHROPIC_DEFAULT_FABLE_MODEL"@.len() == 29);
    assert("CLAUDE_CODE_SUBAGENT_MODEL"@.len() == 26);
    assert forall|i: int| 0 <= i < model_keys().len() implies #[trigger] model_keys()[i]
        != acw_key() && model_keys()[i] != max_key() by {
        assert(i == 0 || i == 1 || i == 2 || i == 3 || i == 4 || i == 5);
    }
}

/// What the way through the live configuration leaves of one variable.
proof fn lemma_round_trip_variable(env: JsonTree, provider: ProviderView, key: Seq<char>)
    requires
        env is Object,
        env.get(acw_key()) == match provider.env() {
            Some(stored) => stored.get(acw_key()),
            None => None,
        },
        env.get(max_key()) == match provider.env() {
            Some(stored) => stored.get(max_key()),
            None => None,
        },
    ensures
        backfilled_env(
            cleaned_env(effective_env(env, provider), model_keys().len()),
            provider,
        ) is Object,
        backfilled_env(
            cleaned_env(effective_env(env, provider), model_keys().len()),
            provider,
        ).get(key) == cleaned_env(
            cleaned_env(env, model_keys().len()),
            model_keys().len(),
        ).get(key),
{
    let n = model_keys().len();
    let sub = "CLAUDE_CODE_SUBAGENT_MODEL"@;
    lemma_keys_differ();
    lemma_context_keys_name_no_model();
    assert(model_keys()[5] == sub);
    assert(model_keys().contains(sub));
    let marked = marker_env(env, provider);
    let put_in = effective_env(env, provider);
    let live = cleaned_env(put_in, n);
    lemma_cleaned_env(put_in, n, key);
    let codex = decimal(CODEX_OAUTH_CLAUDE_CONTEXT_TOKENS as nat);
    let kimi = decimal(KIMI_FOR_CODING_CONTEXT_TOKENS as nat);
    let c = stripped_env(
        live,
        provider,
        provider.codex_oauth() && targets_gpt56(provider.env()),
        codex,
        codex,
    );
    let k = stripped_env(c, provider, is_kimi(provider), kimi, kimi);
    let w = match target(provider) {
        Some(window) => stripped_env(
            k,
            provider,
            true,
            decimal(injected_compact_window(window, provider.settings)),
            decimal(window as nat),
        ),
        None => k,
    };
    assert(backfilled_env(live, provider) == cleaned_env(w, n));
    assert(w is Object);
    lemma_cleaned_env(w, n, key);
    lemma_cleaned_env(env, n, key);
    lemma_cleaned_env(cleaned_env(env, n), n, key);
    if key == acw_key() || key == max_key() {
        assert(!exists|i: int| 0 <= i < n && #[trigger] model_keys()[i] == key) by {
            if exists|i: int| 0 <= i < n && #[trigger] model_keys()[i] == key {
                let i = choose|i: int| 0 <= i < n && #[trigger] model_keys()[i] == key;
                assert(model_keys().contains(model_keys()[i]));
            }
        }
        lemma_cleaned_env(put_in, n, acw_key());
        lemma_cleaned_env(put_in, n, max_key());
        assert(marked.get(key) == env.get(key));
        assert(live.get(key) == put_in.get(key));
        assert(w.get(key) == env.get(key));
    } else {
        assert(put_in.get(key) == marked.get(key));
        assert(w.get(key) == live.get(key));
        if marked.get(key) != env.get(key) {
            assert(key == sub);
            lemma_marker_comes_off(env.text_at(key)->0);
        }
    }
}

/// Law: what the live configuration got comes back into storage as it was stored,
/// where no common configuration is used. Windows behind models' names have moved to
/// `contextWindows` by then, and the format fields that the live file never gets are
/// gone.
pub proof fn law_live_round_trip(provider: ProviderView)
    ensures
        claude_backfilled(
            sanitized(cleaned(claude_effective(provider.settings, provider))),
            provider,
        ) == cleaned(cleaned(migrated(provider.settings))).unset("api_format"@).unset(
            "apiFormat"@,
        ).unset("openrouter_compat_mode"@).unset("openrouterCompatMode"@),
{
    let n = model_keys().len();
    let stored = provider.settings;
    let effective = claude_effective(stored, provider);
    let live = sanitized(cleaned(effective));
    let result = claude_backfilled(live, provider);
    let expected = cleaned(cleaned(migrated(stored))).unset("api_format"@).unset(
        "apiFormat"@,
    ).unset("openrouter_compat_mode"@).unset("openrouterCompatMode"@);
    lemma_internal_names_differ();
    lemma_migrated_frame(stored, n, acw_key());
    lemma_migrated_frame(stored, n, max_key());
    lemma_context_keys_name_no_model();
    lemma_effective_fields(provider, "env"@);
    lemma_backfilled_fields(live, provider, "env"@);
    if stored is Object {
        assert(live->Object_0 =~= sanitized(live)->Object_0);
        assert forall|key: Seq<char>| #[trigger] result.get(key) == expected.get(key) by {
            lemma_migrated_frame(stored, n, key);
            lemma_effective_fields(provider, key);
            lemma_backfilled_fields(live, provider, key);
            lemma_expected_fields(stored, key);
            assert(expected.get(key) == if format_fields().contains(key) {
                None
            } else {
                cleaned(cleaned(migrated(stored))).get(key)
            });
            if key == "env"@ && stored.object_at("env"@) is Some {
                let env = migrated(stored).object_at("env"@)->0;
                let back = backfilled_env(cleaned_env(effective_env(env, provider), n), provider);
                let clean = cleaned_env(cleaned_env(env, n), n);
                lemma_cleaned_env(effective_env(env, provider), n, key);
                lemma_cleaned_env(env, n, key);
                lemma_cleaned_env(cleaned_env(env, n), n, key);
                assert forall|k: Seq<char>| #[trigger] back.get(k) == clean.get(k) by {
                    lemma_round_trip_variable(env, provider, k);
                }
                lemma_round_trip_variable(env, provider, key);
                lemma_same_entries(back, clean);
            }
        }
        lemma_same_entries(result, expected);
    }
}

/// What stored settings are after migration and cleaning, field by field.
proof fn lemma_expected_fields(stored: JsonTree, key: Seq<char>)
    requires
        stored is Object,
    ensures
        ({
            let n = model_keys().len();
            let plain = cleaned(cleaned(migrated(stored)));
            &&& plain is Object
            &&& key != "env"@ ==> plain.get(key) == migrated(stored).get(key)
            &&& stored.object_at("env"@) is None ==> plain == stored
            &&& stored.object_at("env"@) is Some ==> plain.get("env"@) == Some(
                cleaned_env(
                    cleaned_env(migrated(stored).object_at("env"@)->0, n),
                    n,
                ),
            )
        }),
{
    let n = model_keys().len();
    lemma_migrated_frame(stored, n, key);
    if stored.object_at("env"@) is Some {
        lemma_cleaned_env(migrated(stored).object_at("env"@)->0, n, key);
    }
}

/// Two objects with the same entries are the same.
proof fn lemma_same_entries(a: JsonTree, b: JsonTree)
    requires
        a is Object,
        b is Object,
        forall|key: Seq<char>| #[trigger] a.get(key) == b.get(key),
    ensures
        a == b,
{
    let x = a->Object_0;
    let y = b->Object_0;
    assert forall|key: Seq<char>| #[trigger] x.contains_key(key) == y.contains_key(key) by {
        assert(a.get(key) == b.get(key));
    }
    assert forall|key: Seq<char>| #[trigger] x.contains_key(key) implies x[key] == y[key] by {
        assert(a.get(key) == b.get(key));
    }
    assert(x.dom() =~= y.dom());
    assert(x =~= y);
}

/// Law: where the stored settings of a Codex provider have a model catalog and the live settings
/// are an object, the backfilled settings have that same catalog, whatever the live settings have
/// there; where the stored settings have none, the one of the live settings stays. Every other
/// field but the `config.toml` stays as it is live.
pub proof fn law_stored_catalog_comes_back(
    provider: ProviderView,
    live: JsonTree,
    result: JsonTree,
    key: Seq<char>,
)
    requires
        live is Object,
        is_restored(AppType::Codex, provider, live, result),
    ensures
        provider.settings.get("modelCatalog"@) is Some ==> result.get("modelCatalog"@)
            == provider.settings.get("modelCatalog"@),
        provider.settings.get("modelCatalog"@) is None ==> result.get("modelCatalog"@) == live.get(
            "modelCatalog"@,
        ),
        key != "modelCatalog"@ && key != "config"@ ==> result.get(key) == live.get(key),
        live.text_at("config"@) is None ==> result.get("config"@) == live.get("config"@),
{
    lemma_catalog_is_not_config();
}

proof fn lemma_catalog_is_not_config()
    ensures
        "modelCatalog"@ != "config"@,
{
    reveal_strlit("modelCatalog");
    reveal_strlit("config");
    assert("modelCatalog"@.len() == 12);
    assert("config"@.len() == 6);
}

/// Law: the same holds of the whole way into storage, the common configuration taken out or not.
pub proof fn law_stored_catalog_comes_into_storage(
    provider: ProviderView,
    snippet: Option<Seq<char>>,
    live: JsonTree,
    result: JsonTree,
    key: Seq<char>,
)
    requires
        live is Object,
        is_backfilled(AppType::Codex, provider, snippet, live, result),
    ensures
        provider.settings.get("modelCatalog"@) is Some ==> result.get("modelCatalog"@)
            == provider.settings.get("modelCatalog"@),
        provider.settings.get("modelCatalog"@) is None ==> result.get("modelCatalog"@) == live.get(
            "modelCatalog"@,
        ),
        key != "modelCatalog"@ && key != "config"@ ==> result.get(key) == live.get(key),
{
    lemma_catalog_is_not_config();
    let stripped = choose|stripped: JsonTree|
        #[trigger] is_without_common_config(AppType::Codex, provider, snippet, live, stripped)
            && is_restored(AppType::Codex, provider, stripped, result);
    law_stored_catalog_comes_back(provider, stripped, result, key);
}

/// Law: the MCP servers go out of the `config.toml` on its way into the storage of Grok Build and
/// of Codex, and nothing else does: what it says then is what it said, without that one table,
/// and it is written as before, without that one entry. A `config.toml` that has none, or is no
/// TOML, stays as it is, and so does every other field.
pub proof fn law_mcp_servers_go(
    settings: JsonTree,
    result: JsonTree,
    key: Seq<char>,
) -> (written: (TomlTree, DocumentLayout))
    requires
        settings is Object,
        is_without_mcp_servers(settings, result),
    ensures
        key != "config"@ ==> result.get(key) == settings.get(key),
        settings.text_at("config"@) is None ==> result == settings,
        settings.text_at("config"@) matches Some(config) ==> {
            &&& parsed_toml(config) is Err ==> result == settings
            &&& parsed_toml(config) matches Ok(before) ==> {
                &&& !before.table().contains_key("mcp_servers"@) ==> result == settings
                &&& before.table().contains_key("mcp_servers"@) ==> {
                    &&& result.get("config"@) == Some(
                        JsonTree::Text(toml_text(written.0, written.1)),
                    )
                    &&& !written.0.table().contains_key("mcp_servers"@)
                    &&& key != "mcp_servers"@ ==> {
                        &&& written.0.table().contains_key(key) <==> before.table().contains_key(
                            key,
                        )
                        &&& before.table().contains_key(key) ==> written.0.table()[key]
                            == before.table()[key]
                    }
                    &&& written.1.trailing == parsed_layout(config).trailing
                    &&& forall|i: int|
                        0 <= i < parsed_layout(config).root.entries().len() ==> (
                        (#[trigger] parsed_layout(config).root.entries()[i]).key
                            != "mcp_servers"@ ==> written.1.root.entries().contains(
                            parsed_layout(config).root.entries()[i],
                        ))
                    &&& !has_entry(written.1.root.entries(), "mcp_servers"@)
                }
            }
        },
{
    let config = settings.text_at("config"@)->0;
    let table = parsed_toml(config)->Ok_0;
    let layout = parsed_layout(config);
    let entries = layout.root.entries();
    let left = without_entry(entries, "mcp_servers"@);
    lemma_entry_is_gone(entries, "mcp_servers"@);
    assert forall|i: int|
        0 <= i < entries.len() && (#[trigger] entries[i]).key != "mcp_servers"@ implies
        left.contains(entries[i]) by {
        lemma_other_entry_stays(entries, "mcp_servers"@, i);
    }
    let root = layout.root.with_entries(left);
    if !layout.root.is_table_like() {
        assert(entries.len() == 0);
        assert(root.entries().len() == 0);
    }
    (
        table.with_table(table.table().remove("mcp_servers"@)),
        DocumentLayout { root, ..layout },
    )
}

proof fn lemma_entry_is_gone(entries: Seq<EntryLayout>, key: Seq<char>)
    ensures
        !has_entry(without_entry(entries, key), key),
    decreases entries.len(),
{
    if entries.len() > 0 {
        lemma_entry_is_gone(entries.drop_last(), key);
        let before = without_entry(entries.drop_last(), key);
        let after = without_entry(entries, key);
        assert forall|i: int| 0 <= i < after.len() implies (#[trigger] after[i]).key != key by {
            if i < before.len() {
                assert(after[i] == before[i]);
            }
        }
    }
}

proof fn lemma_other_entry_stays(entries: Seq<EntryLayout>, key: Seq<char>, i: int)
    requires
        0 <= i < entries.len(),
        entries[i].key != key,
    ensures
        without_entry(entries, key).contains(entries[i]),
    decreases entries.len(),
{
    let before = without_entry(entries.drop_last(), key);
    let after = without_entry(entries, key);
    if i == entries.len() - 1 {
        assert(after[after.len() - 1] == entries[i]);
    } else {
        assert(entries.drop_last()[i] == entries[i]);
        lemma_other_entry_stays(entries.drop_last(), key, i);
        let j = choose|j: int| 0 <= j < before.len() && before[j] == entries[i];
        assert(after[j] == entries[i]);
    }
}

/// Law: the assistant's live settings go into storage with the stored sync fields, whatever the
/// live file has there, and with the windows that are listed or stand behind models' names in the
/// stored settings; a field of these that is not stored stays as it is live. Every other field but
/// the environment stays as it is live.
pub proof fn law_stored_sync_fields_come_back(
    provider: ProviderView,
    live: JsonTree,
    result: JsonTree,
    key: Seq<char>,
)
    requires
        live is Object,
        is_restored(AppType::Claude, provider, live, result),
    ensures
        key == "autoSyncContextWindow"@ || key == "autoSyncCompactRatio"@ || key == "autoSyncState"@
            ==> result.get(key) == match provider.settings.get(key) {
            Some(value) => Some(value),
            None => live.get(key),
        },
        result.get("contextWindows"@) == match migrated(provider.settings).get("contextWindows"@) {
            Some(windows) => Some(windows),
            None => live.get("contextWindows"@),
        },
        key != "env"@ && key != "autoSyncContextWindow"@ && key != "autoSyncCompactRatio"@ && key
            != "autoSyncState"@ && key != "contextWindows"@ ==> result.get(key) == live.get(key),
{
    lemma_internal_names_differ();
}

/// Law: of the assistant's live environment, a model goes into storage without the window behind
/// its name, a context variable that holds none of the defaults, or that the provider has itself,
/// as it is live, and any other variable as it is live.
pub proof fn law_live_environment_goes_into_storage(
    provider: ProviderView,
    live: JsonTree,
    result: JsonTree,
    key: Seq<char>,
)
    requires
        live.object_at("env"@) is Some,
        is_restored(AppType::Claude, provider, live, result),
    ensures
        ({
            let before = live.object_at("env"@)->0;
            let after = result.object_at("env"@);
            let own = provider.env() is Some && provider.env()->0.get(key) is Some;
            &&& after is Some
            &&& is_model_variable(key) ==> after->0.get(key) == match before.text_at(key) {
                Some(model) => Some(JsonTree::Text(without_suffix(model))),
                None => before.get(key),
            }
            &&& !is_model_variable(key) && key != "CLAUDE_CODE_MAX_CONTEXT_TOKENS"@ && key
                != "CLAUDE_CODE_AUTO_COMPACT_WINDOW"@ ==> after->0.get(key) == before.get(key)
            &&& !is_model_variable(key) && own ==> after->0.get(key) == before.get(key)
            &&& !is_model_variable(key) && !is_kimi(provider) && !provider.codex_oauth()
                && lists_no_window(migrated(provider.settings)) ==> after->0.get(key) == before.get(
                key,
            )
            &&& !is_model_variable(key) && before.text_at(key) is None ==> after->0.get(key)
                == before.get(key)
        }),
{
    lemma_internal_names_differ();
    let first = without_codex_defaults(live, provider);
    law_fixed_defaults_go_by_variable(live, provider, key);
    let second = without_kimi_defaults(first, provider);
    law_fixed_defaults_go_by_variable(first, provider, key);
    let third = with_internal_fields(second, provider);
    assert(third.object_at("env"@) == second.object_at("env"@));
    let fourth = without_window_defaults(third, provider);
    lemma_stripped_variable(third, provider, key);
    if lists_no_window(migrated(provider.settings)) {
        law_no_window_nothing_goes(third, provider);
    }
    law_cleaned_by_key(fourth, key);
    lemma_context_keys_name_no_model();
    law_model_variables(key);
    law_model_variables(acw_key());
    law_model_variables(max_key());
}

/// What taking the window defaults out leaves of one variable.
proof fn lemma_stripped_variable(settings: JsonTree, provider: ProviderView, key: Seq<char>)
    requires
        settings.object_at("env"@) is Some,
    ensures
        without_window_defaults(settings, provider).object_at("env"@) is Some,
        key != acw_key() && key != max_key() || provider.env() is Some && provider.env()->0.get(
            key,
        ) is Some || settings.object_at("env"@)->0.text_at(key) is None
            ==> without_window_defaults(settings, provider).object_at("env"@)->0.get(key)
            == settings.object_at("env"@)->0.get(key),
{
    lemma_keys_differ();
}

/// Law: the live settings of the applications other than the assistant, Codex and Grok Build go
/// into storage as they are, once the common configuration is out.
pub proof fn law_other_live_settings_stay(
    app_type: AppType,
    provider: ProviderView,
    live: JsonTree,
    result: JsonTree,
)
    requires
        !(app_type is Claude || app_type is Codex || app_type is GrokBuild),
    ensures
        is_restored(app_type, provider, live, result) <==> result == live,
{
}

/// Law: the common configuration is taken out of live settings only where the provider uses it
/// and it can be.
pub proof fn law_unused_common_config_stays(
    app_type: AppType,
    provider: ProviderView,
    snippet: Option<Seq<char>>,
    live: JsonTree,
    result: JsonTree,
)
    ensures
        !uses_common_config(app_type, provider, snippet) ==> (is_without_common_config(
            app_type,
            provider,
            snippet,
            live,
            result,
        ) <==> result == live),
        uses_common_config(app_type, provider, snippet) && snippet_error(
            app_type,
            live,
            snippet->0,
            false,
        ) is None ==> (is_without_common_config(app_type, provider, snippet, live, result)
            <==> is_updated(app_type, live, snippet->0, false, result)),
{
}

/// Law: Codex's live settings come out of the way into storage with the stored model catalog,
/// whatever the live settings have there, and with the live one where none is stored.
pub proof fn law_catalog_is_restored(
    provider: &Provider,
    live: serde_json::Value,
    result: serde_json::Value,
)
    requires
        call_ensures(
            restore_live_settings_for_provider_backfill,
            (&AppType::Codex, provider, live),
            result,
        ),
        tree(live) is Object,
    ensures
        tree(result).get("modelCatalog"@) == match provider@.settings.get("modelCatalog"@) {
            Some(catalog) => Some(catalog),
            None => tree(live).get("modelCatalog"@),
        },
{
    law_stored_catalog_comes_back(provider@, tree(live), tree(result), Seq::empty());
}

/// Law: the route that all sessions share is taken out for the official provider alone.
pub proof fn law_route_of_the_official_provider(provider: &Provider, result: bool)
    requires
        call_ensures(drops_shared_session_route, (provider,), result),
    ensures
        result <==> provider@.category is Some && provider@.category->0 == "official"@,
{
}

/// Law: on the way into storage the common configuration comes out first, where the provider uses
/// it and it can be taken out, and what is left is restored; in any other case the live settings
/// are.
pub proof fn law_two_steps_into_storage(
    app_type: AppType,
    provider: ProviderView,
    snippet: Option<Seq<char>>,
    live: JsonTree,
    stripped: JsonTree,
    result: JsonTree,
)
    ensures
        !uses_common_config(app_type, provider, snippet) || snippet_error(
            app_type,
            live,
            snippet->0,
            false,
        ) is Some ==> (is_backfilled(app_type, provider, snippet, live, result) <==> is_restored(
            app_type,
            provider,
            live,
            result,
        )),
        uses_common_config(app_type, provider, snippet) && snippet_error(
            app_type,
            live,
            snippet->0,
            false,
        ) is None && is_updated(app_type, live, snippet->0, false, stripped) ==> (is_backfilled(
            app_type,
            provider,
            snippet,
            live,
            result,
        ) <==> is_restored(app_type, provider, stripped, result)),
{
    let first = if uses_common_config(app_type, provider, snippet) && snippet_error(
        app_type,
        live,
        snippet->0,
        false,
    ) is None {
        stripped
    } else {
        live
    };
    if is_without_common_config(app_type, provider, snippet, live, first) {
        if is_backfilled(app_type, provider, snippet, live, result) {
            let other = choose|other: JsonTree|
                #[trigger] is_without_common_config(app_type, provider, snippet, live, other)
                    && is_restored(app_type, provider, other, result);
            assert(other == first);
        }
    }
}

/// Law: the stored sync fields are put back into live settings, whatever these have there.
pub proof fn law_sync_fields_are_put_back(
    settings: &mut serde_json::Value,
    provider: &Provider,
    key: Seq<char>,
)
    requires
        call_ensures(restore_claude_internal_fields_for_backfill, (settings, provider), ()),
        tree(*old(settings)) is Object,
    ensures
        key == "autoSyncContextWindow"@ || key == "autoSyncCompactRatio"@ || key == "autoSyncState"@
            ==> tree(*final(settings)).get(key) == match provider@.settings.get(key) {
            Some(value) => Some(value),
            None => tree(*old(settings)).get(key),
        },
        key != "autoSyncContextWindow"@ && key != "autoSyncCompactRatio"@ && key != "autoSyncState"@
            && key != "contextWindows"@ ==> tree(*final(settings)).get(key) == tree(
            *old(settings),
        ).get(key),
{
    lemma_internal_names_differ();
}

} // verus!
