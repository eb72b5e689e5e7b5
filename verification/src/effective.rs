//! Effective settings: what a provider's live configuration gets, made from its own
//! settings, the common configuration, and default context windows.

use vstd::prelude::*;

use crate::common_config::{
    apply_common_config_to_settings, provider_uses_common_config, remove_common_config_from_settings,
};
use crate::context_defaults::{
    apply_codex_oauth_claude_context_defaults, apply_context_window_defaults,
    apply_kimi_for_coding_context_defaults, auto_sync_state_mut,
    restore_claude_subagent_local_marker_for_effective,
};
use crate::json::{
    copy, get, get_object, map_get, map_insert, map_new, map_remove, object, set_entry, unset_entry,
};
use crate::json_merge::json_deep_merge;
use crate::model_window::{
    migrate_legacy_suffix_to_context_windows, strip_legacy_suffixes_from_claude_models,
};
use crate::provider::{AppType, Provider};
use crate::text::blank;

verus! {

use crate::common_config::{
    is_updated, law_provider_decides, optional_str, snippet_error, uses_common_config,
};
use crate::context_defaults::{
    compact_ratio, is_kimi, is_largest_listed, law_fixed_defaults_by_variable, law_own_values_win,
    law_subagent_marker,
    law_window_defaults_fill_what_is_missing, lemma_fields_differ, lists_no_window, sync_state,
    with_codex_defaults, with_kimi_defaults, with_subagent_marker, with_window_defaults,
};
use crate::json::{tree, JsonTree};
use crate::json_merge::{law_merged_by_key, merged};
use crate::model_window::{
    cleaned, is_model_variable, law_cleaned_by_key, law_migration_by_key, listed, migrated,
    named_model, without_suffix,
};
use crate::provider::ProviderView;
use crate::ratio::share;
use crate::text::{all_space, decimal, is_blank, law_blank};

/// The fields of settings that are for this library alone.
pub open spec fn internal_fields() -> Set<Seq<char>> {
    set![
        "api_format"@,
        "apiFormat"@,
        "openrouter_compat_mode"@,
        "openrouterCompatMode"@,
        "autoSyncContextWindow"@,
        "autoSyncCompactRatio"@,
        "contextWindows"@,
        "autoSyncState"@,
    ]
}

/// Settings without the fields that are for this library alone.
pub open spec fn sanitized(settings: JsonTree) -> JsonTree {
    match settings {
        JsonTree::Object(map) => JsonTree::Object(map.remove_keys(internal_fields())),
        _ => settings,
    }
}

/// The settings that the assistant's live file gets, the internal fields left out.
pub fn sanitize_claude_settings_for_live(settings: &serde_json::Value) -> (result: serde_json::Value)
    ensures
        tree(result) == sanitized(tree(*settings)),
{
    let mut value = copy(settings);
    unset_entry(&mut value, "api_format");
    unset_entry(&mut value, "apiFormat");
    unset_entry(&mut value, "openrouter_compat_mode");
    unset_entry(&mut value, "openrouterCompatMode");
    unset_entry(&mut value, "autoSyncContextWindow");
    unset_entry(&mut value, "autoSyncCompactRatio");
    unset_entry(&mut value, "contextWindows");
    unset_entry(&mut value, "autoSyncState");
    proof {
        if let JsonTree::Object(map) = tree(*settings) {
            assert(tree(value)->Object_0 =~= map.remove_keys(internal_fields()));
        }
    }
    value
}

/// Law: sanitizing leaves no internal field and touches no other.
pub proof fn law_sanitized(settings: JsonTree, key: Seq<char>)
    ensures
        sanitized(settings).get(key) == if internal_fields().contains(key) {
            None
        } else {
            settings.get(key)
        },
{
}

/// Stored settings that note the defaults which effective settings have injected.
pub open spec fn noting_injected(stored: JsonTree, effective: JsonTree) -> JsonTree {
    match effective.object_at("autoSyncState"@) {
        Some(state) => stored.set(
            "autoSyncState"@,
            match state.get("staticInjected"@) {
                Some(mark) => sync_state(stored).set("staticInjected"@, mark),
                None => sync_state(stored).unset("staticInjected"@),
            },
        ),
        None => stored,
    }
}

/// Notes in stored settings which defaults the effective settings have injected.
pub fn merge_auto_sync_state_into_provider(
    provider_settings: &mut serde_json::Value,
    effective_settings: &serde_json::Value,
)
    ensures
        tree(*final(provider_settings)) == noting_injected(
            tree(*old(provider_settings)),
            tree(*effective_settings),
        ),
{
    let effective_state = match get_object(effective_settings, "autoSyncState") {
        Some(state) => state,
        None => {
            return;
        },
    };
    let state = match auto_sync_state_mut(provider_settings) {
        Some(state) => state,
        None => {
            return;
        },
    };
    match map_get(effective_state, "staticInjected") {
        Some(mark) => {
            map_insert(state, "staticInjected".to_owned(), copy(mark));
        },
        None => {
            map_remove(state, "staticInjected");
        },
    }
}

/// Stored settings with the sync state of a watcher laid over their own.
pub open spec fn with_watcher_state(stored: JsonTree, watcher: JsonTree) -> JsonTree {
    match watcher.get("autoSyncState"@) {
        Some(state) => stored.set("autoSyncState"@, merged(sync_state(stored), state)),
        None => stored,
    }
}

/// Lays the sync state of a watcher over that of stored settings, and nothing else of
/// the watcher's settings.
pub fn merge_watcher_auto_sync_state(
    stored_settings: &mut serde_json::Value,
    watcher_settings: &serde_json::Value,
)
    ensures
        tree(*final(stored_settings)) == with_watcher_state(
            tree(*old(stored_settings)),
            tree(*watcher_settings),
        ),
{
    let watcher_state = match get(watcher_settings, "autoSyncState") {
        Some(state) => state,
        None => {
            return;
        },
    };
    let mut state = match get_object(stored_settings, "autoSyncState") {
        Some(_) => match get(stored_settings, "autoSyncState") {
            Some(state) => copy(state),
            None => object(map_new()),
        },
        None => object(map_new()),
    };
    json_deep_merge(&mut state, watcher_state);
    set_entry(stored_settings, "autoSyncState", state);
}

/// A provider as its watcher sees it: with the effective settings.
pub fn watcher_provider_from_effective(
    provider: &Provider,
    effective_settings: &serde_json::Value,
) -> (result: Provider)
    ensures
        result@ == (ProviderView { settings: tree(*effective_settings), ..provider@ }),
{
    let mut result = provider.clone();
    result.settings_config = copy(effective_settings);
    result
}

/// The assistant's settings with everything that the live file needs beside them.
pub open spec fn claude_effective(settings: JsonTree, provider: ProviderView) -> JsonTree {
    with_kimi_defaults(
        with_codex_defaults(
            with_window_defaults(with_subagent_marker(migrated(settings), provider), provider),
            provider,
        ),
        provider,
    )
}

/// Whether `result` is a provider's settings with the common configuration laid over
/// them, where it is used and can be.
pub open spec fn has_common_config(
    app_type: AppType,
    provider: ProviderView,
    snippet: Option<Seq<char>>,
    result: JsonTree,
) -> bool {
    if uses_common_config(app_type, provider, snippet) && snippet_error(
        app_type,
        provider.settings,
        snippet->0,
        true,
    ) is None {
        is_updated(app_type, provider.settings, snippet->0, true, result)
    } else {
        result == provider.settings
    }
}

/// Whether `result` is what a provider's live configuration gets.
pub open spec fn is_effective(
    app_type: AppType,
    provider: ProviderView,
    snippet: Option<Seq<char>>,
    result: JsonTree,
) -> bool {
    if app_type is Claude {
        exists|base: JsonTree|
            #[trigger] has_common_config(app_type, provider, snippet, base) && result
                == claude_effective(base, provider)
    } else {
        has_common_config(app_type, provider, snippet, result)
    }
}

/// What a provider's live configuration gets, the common configuration being
/// `snippet`. A common configuration that cannot be laid over is left out.
pub fn build_effective_settings_with_common_config(
    snippet: Option<&str>,
    app_type: &AppType,
    provider: &Provider,
) -> (result: serde_json::Value)
    ensures
        is_effective(*app_type, provider@, optional_str(snippet), tree(result)),
{
    let mut settings = copy(&provider.settings_config);
    if provider_uses_common_config(app_type, provider, snippet) {
        if let Some(snippet_text) = snippet {
            match apply_common_config_to_settings(
                app_type,
                &provider.settings_config,
                snippet_text,
            ) {
                Ok(applied) => {
                    settings = applied;
                },
                Err(_) => {},
            }
        }
    }
    assert(has_common_config(*app_type, provider@, optional_str(snippet), tree(settings)));
    if matches!(app_type, AppType::Claude) {
        migrate_legacy_suffix_to_context_windows(&mut settings);
        restore_claude_subagent_local_marker_for_effective(&mut settings, provider);
        apply_context_window_defaults(&mut settings, provider);
        apply_codex_oauth_claude_context_defaults(&mut settings, provider);
        apply_kimi_for_coding_context_defaults(&mut settings, provider);
    }
    settings
}

/// What there is to do to bring a provider into the live configuration.
pub struct LivePlan {
    /// The effective settings, with the windows behind models' names.
    pub effective: serde_json::Value,
    /// The provider to write, with its effective settings.
    pub provider: Provider,
    /// Whether it goes into the profile of the desktop assistant, rather than into a
    /// snapshot of its settings.
    pub desktop_profile: bool,
    /// The settings to store once the snapshot is written.
    pub store: Option<serde_json::Value>,
}

/// What there is to do to bring a provider into the live configuration. The assistant's
/// models are written without the windows behind their names, and the defaults that
/// were injected are noted in the stored settings.
pub fn write_live_with_common_config(
    snippet: Option<&str>,
    app_type: &AppType,
    provider: &Provider,
) -> (plan: LivePlan)
    ensures
        plan.desktop_profile == (*app_type is ClaudeDesktop),
        is_effective(*app_type, provider@, optional_str(snippet), tree(plan.effective)),
        ({
            let written = if *app_type is Claude {
                cleaned(tree(plan.effective))
            } else {
                tree(plan.effective)
            };
            &&& plan.provider@ == (ProviderView { settings: written, ..provider@ })
            &&& plan.store is Some <==> *app_type is Claude
            &&& plan.store matches Some(stored) ==> tree(stored) == noting_injected(
                provider@.settings,
                written,
            )
        }),
{
    let effective = build_effective_settings_with_common_config(snippet, app_type, provider);
    let mut settings = copy(&effective);
    let mut store = None;
    if matches!(app_type, AppType::Claude) {
        strip_legacy_suffixes_from_claude_models(&mut settings);
        let mut stored = copy(&provider.settings_config);
        merge_auto_sync_state_into_provider(&mut stored, &settings);
        store = Some(stored);
    }
    let mut effective_provider = provider.clone();
    effective_provider.settings_config = settings;
    LivePlan {
        effective,
        provider: effective_provider,
        desktop_profile: matches!(app_type, AppType::ClaudeDesktop),
        store,
    }
}

/// Whether `after` is a provider as it is stored: with the common configuration taken out of its
/// settings, where it says that it uses it and it can be.
pub open spec fn is_normalized(
    app_type: AppType,
    before: ProviderView,
    snippet: Option<Seq<char>>,
    after: ProviderView,
) -> bool {
    &&& after == (ProviderView { settings: after.settings, ..before })
    &&& if before.common_config_flag() == Some(true) && snippet is Some && !is_blank(snippet->0)
        && snippet_error(app_type, before.settings, snippet->0, false) is None {
        is_updated(app_type, before.settings, snippet->0, false, after.settings)
    } else {
        after.settings == before.settings
    }
}

/// Takes the common configuration, being `snippet`, out of a provider that says it
/// uses it, before it is stored. One that cannot be taken out stays.
pub fn normalize_provider_common_config_for_storage(
    snippet: Option<&str>,
    app_type: &AppType,
    provider: &mut Provider,
)
    ensures
        is_normalized(*app_type, old(provider)@, optional_str(snippet), final(provider)@),
{
    let enabled = match &provider.meta {
        Some(meta) => match meta.common_config_enabled {
            Some(enabled) => enabled,
            None => false,
        },
        None => false,
    };
    if !enabled {
        return;
    }
    if let Some(snippet_text) = snippet {
        if blank(snippet_text) {
            return;
        }
        match remove_common_config_from_settings(
            app_type,
            &provider.settings_config,
            snippet_text,
        ) {
            Ok(settings) => {
                provider.settings_config = settings;
            },
            Err(_) => {},
        }
    }
}

/// Law: the live file gets no field that is for this library alone, and every other one as it is.
pub proof fn law_fields_of_the_live_file(settings: JsonTree, key: Seq<char>)
    ensures
        sanitized(settings).get(key) == if key == "api_format"@ || key == "apiFormat"@ || key
            == "openrouter_compat_mode"@ || key == "openrouterCompatMode"@ || key
            == "autoSyncContextWindow"@ || key == "autoSyncCompactRatio"@ || key
            == "contextWindows"@ || key == "autoSyncState"@ {
            None
        } else {
            settings.get(key)
        },
{
}

/// Law: stored settings note the same injected defaults as the effective ones, or none where
/// those note none; without a sync state in the effective settings nothing changes. The rest of
/// the stored sync state, and every other field, stay.
pub proof fn law_injected_defaults_are_noted(
    stored: JsonTree,
    effective: JsonTree,
    key: Seq<char>,
)
    requires
        stored is Object,
    ensures
        effective.object_at("autoSyncState"@) is None ==> noting_injected(stored, effective)
            == stored,
        effective.object_at("autoSyncState"@) matches Some(state) ==> {
            let after = noting_injected(stored, effective).object_at("autoSyncState"@);
            &&& after is Some
            &&& after->0.get("staticInjected"@) == state.get("staticInjected"@)
            &&& key != "staticInjected"@ ==> after->0.get(key) == match stored.object_at(
                "autoSyncState"@,
            ) {
                Some(before) => before.get(key),
                None => None,
            }
        },
        key != "autoSyncState"@ ==> noting_injected(stored, effective).get(key) == stored.get(key),
{
}

/// Law: of a watcher's settings the sync state alone goes into the stored ones: what it has that
/// is no object takes its place there, and what it does not have stays. Every other field stays
/// as it is stored.
pub proof fn law_watcher_state_goes_into_storage(
    stored: JsonTree,
    watcher: JsonTree,
    key: Seq<char>,
)
    requires
        stored is Object,
    ensures
        key != "autoSyncState"@ ==> with_watcher_state(stored, watcher).get(key) == stored.get(key),
        watcher.get("autoSyncState"@) is None ==> with_watcher_state(stored, watcher) == stored,
        watcher.object_at("autoSyncState"@) matches Some(state) ==> {
            let before = match stored.object_at("autoSyncState"@) {
                Some(before) => before.get(key),
                None => None,
            };
            let after = with_watcher_state(stored, watcher).object_at("autoSyncState"@);
            &&& after is Some
            &&& state.get(key) is None ==> after->0.get(key) == before
            &&& state.get(key) is Some && (state.object_at(key) is None || before is None)
                ==> after->0.get(key) == state.get(key)
        },
{
    if let Some(state) = watcher.object_at("autoSyncState"@) {
        law_merged_by_key(sync_state(stored), state, key);
    }
}

/// Law: where a window is listed for a model variable, or stands behind a model's name, and the
/// settings have an environment, the environment of the effective settings has both context
/// variables. With a provider whose kind fixes no window, each that the environment did not have
/// before holds the decimal text that follows from the largest of those windows, whether or not
/// the other one was there, and each that it had holds what it held.
pub proof fn law_effective_has_both_variables(
    base: JsonTree,
    provider: ProviderView,
    window: u64,
)
    requires
        base.object_at("env"@) is Some,
        is_largest_listed(migrated(base), window) || lists_no_window(migrated(base))
            && is_largest_listed(provider.settings, window),
    ensures
        ({
            let before = base.object_at("env"@)->0;
            let after = claude_effective(base, provider).object_at("env"@);
            let max = "CLAUDE_CODE_MAX_CONTEXT_TOKENS"@;
            let acw = "CLAUDE_CODE_AUTO_COMPACT_WINDOW"@;
            let ratio = provider.settings.get("autoSyncCompactRatio"@);
            let own = match provider.env() {
                Some(env) => env,
                None => JsonTree::empty_object(),
            };
            &&& after is Some
            &&& after->0.get(max) is Some
            &&& after->0.get(acw) is Some
            &&& !is_kimi(provider) && !provider.codex_oauth() ==> {
                &&& before.get(max) is Some ==> after->0.get(max) == before.get(max)
                &&& before.get(max) is None ==> after->0.get(max) == Some(
                    JsonTree::Text(decimal(window as nat)),
                )
                &&& before.get(acw) is Some ==> after->0.get(acw) == before.get(acw)
                &&& before.get(acw) is None && ratio is None ==> after->0.get(acw) == Some(
                    JsonTree::Text(decimal(window as nat)),
                )
                &&& before.get(acw) is None && ratio is Some ==> after->0.get(acw) == Some(
                    JsonTree::Text(decimal(share(window, compact_ratio(provider.settings)))),
                )
            }
            &&& is_kimi(provider) ==> {
                &&& own.get(max) is None ==> after->0.get(max) == Some(
                    JsonTree::Text("262144"@),
                )
                &&& own.get(acw) is None ==> after->0.get(acw) == Some(
                    JsonTree::Text("262144"@),
                )
            }
        }),
{
    let max = "CLAUDE_CODE_MAX_CONTEXT_TOKENS"@;
    let acw = "CLAUDE_CODE_AUTO_COMPACT_WINDOW"@;
    lemma_context_variables_name_no_model();
    lemma_fields_differ();
    law_migration_by_key(base, max);
    law_migration_by_key(base, acw);
    let first = migrated(base);
    law_subagent_marker(first, provider, max);
    law_subagent_marker(first, provider, acw);
    law_subagent_marker(first, provider, "contextWindows"@);
    let second = with_subagent_marker(first, provider);
    assert(second.object_at("contextWindows"@) == first.object_at("contextWindows"@));
    assert forall|key: Seq<char>| #[trigger] listed(second, key) == listed(first, key) by {}
    if is_largest_listed(first, window) {
        let key = choose|key: Seq<char>|
            is_model_variable(key) && #[trigger] listed(first, key) == Some(
                JsonTree::Natural(window),
            );
        assert(listed(second, key) == Some(JsonTree::Natural(window)));
        assert(is_largest_listed(second, window));
    } else {
        assert(lists_no_window(second));
    }
    law_window_defaults_fill_what_is_missing(second, provider, window, max);
    law_window_defaults_fill_what_is_missing(second, provider, window, acw);
    let third = with_window_defaults(second, provider);
    law_fixed_defaults_by_variable(third, provider, max);
    law_fixed_defaults_by_variable(third, provider, acw);
    let fourth = with_codex_defaults(third, provider);
    law_fixed_defaults_by_variable(fourth, provider, max);
    law_fixed_defaults_by_variable(fourth, provider, acw);
}

/// The two context variables name no model.
proof fn lemma_context_variables_name_no_model()
    ensures
        !is_model_variable("CLAUDE_CODE_MAX_CONTEXT_TOKENS"@),
        !is_model_variable("CLAUDE_CODE_AUTO_COMPACT_WINDOW"@),
        "CLAUDE_CODE_MAX_CONTEXT_TOKENS"@ != "CLAUDE_CODE_SUBAGENT_MODEL"@,
        "CLAUDE_CODE_AUTO_COMPACT_WINDOW"@ != "CLAUDE_CODE_SUBAGENT_MODEL"@,
{
    reveal_strlit("CLAUDE_CODE_AUTO_COMPACT_WINDOW");
    reveal_strlit("CLAUDE_CODE_MAX_CONTEXT_TOKENS");
    reveal_strlit("ANTHROPIC_MODEL");
    reveal_strlit("ANTHROPIC_DEFAULT_HAIKU_MODEL");
    reveal_strlit("ANTHROPIC_DEFAULT_SONNET_MODEL");
    reveal_strlit("ANTHROPIC_DEFAULT_OPUS_MODEL");
    reveal_strlit("ANTHROPIC_DEFAULT_FABLE_MODEL");
    reveal_strlit("CLAUDE_CODE_SUBAGENT_MODEL");
    assert("CLAUDE_CODE_AUTO_COMPACT_WINDOW"@.len() == 31);
    assert("CLAUDE_CODE_MAX_CONTEXT_TOKENS"@.len() == 30);
    assert("CLAUDE_CODE_MAX_CONTEXT_TOKENS"@[0] == 'C');
    assert("ANTHROPIC_DEFAULT_SONNET_MODEL"@[0] == 'A');
    assert("ANTHROPIC_MODEL"@.len() == 15);
    assert("ANTHROPIC_DEFAULT_HAIKU_MODEL"@.len() == 29);
    assert("ANTHROPIC_DEFAULT_SONNET_MODEL"@.len() == 30);
    assert("ANTHROPIC_DEFAULT_OPUS_MODEL"@.len() == 28);
    assert("ANTHROPIC_DEFAULT_FABLE_MODEL"@.len() == 29);
    assert("CLAUDE_CODE_SUBAGENT_MODEL"@.len() == 26);
}

/// Law: effective settings have every variable but the context variables and the models as it
/// was, every field but the environment, the sync state and the listed windows as it was, and
/// each model but the subagent's without the window behind its name.
pub proof fn law_effective_touches_nothing_else(
    base: JsonTree,
    provider: ProviderView,
    key: Seq<char>,
)
    requires
        base.object_at("env"@) is Some,
    ensures
        ({
            let before = base.object_at("env"@)->0;
            let after = claude_effective(base, provider);
            let env = after.object_at("env"@);
            &&& env is Some
            &&& !is_model_variable(key) && key != "CLAUDE_CODE_MAX_CONTEXT_TOKENS"@ && key
                != "CLAUDE_CODE_AUTO_COMPACT_WINDOW"@ ==> env->0.get(key) == before.get(key)
            &&& is_model_variable(key) && key != "CLAUDE_CODE_SUBAGENT_MODEL"@ ==> match
                before.text_at(key) {
                Some(model) => env->0.get(key) == Some(JsonTree::Text(without_suffix(model))),
                None => env->0.text_at(key) is None,
            }
            &&& key != "env"@ && key != "autoSyncState"@ && key != "contextWindows"@ ==> after.get(
                key,
            ) == base.get(key)
        }),
{
    lemma_context_variables_name_no_model();
    lemma_fields_differ();
    let first = migrated(base);
    law_migration_by_key(base, key);
    law_migration_by_key(base, "autoSyncState"@);
    law_migration_by_key(base, "CLAUDE_CODE_MAX_CONTEXT_TOKENS"@);
    law_subagent_marker(first, provider, key);
    let second = with_subagent_marker(first, provider);
    lemma_window_defaults_frame(second, provider, key);
    let third = with_window_defaults(second, provider);
    law_fixed_defaults_by_variable(third, provider, key);
    let fourth = with_codex_defaults(third, provider);
    law_fixed_defaults_by_variable(fourth, provider, key);
}

proof fn lemma_window_defaults_frame(settings: JsonTree, provider: ProviderView, key: Seq<char>)
    requires
        settings.object_at("env"@) is Some,
    ensures
        with_window_defaults(settings, provider).object_at("env"@) is Some,
        key != "CLAUDE_CODE_MAX_CONTEXT_TOKENS"@ && key != "CLAUDE_CODE_AUTO_COMPACT_WINDOW"@
            ==> with_window_defaults(settings, provider).object_at("env"@)->0.get(key)
            == settings.object_at("env"@)->0.get(key),
        key != "env"@ && key != "autoSyncState"@ ==> with_window_defaults(settings, provider).get(
            key,
        ) == settings.get(key),
{
    lemma_fields_differ();
}

/// Law: a provider that does not use the common configuration, and one over whose settings it
/// cannot be laid, gets its own settings into the live configuration; the assistant's are
/// completed, and those of another application are left as they are.
pub proof fn law_own_settings_without_common_config(
    app_type: AppType,
    provider: ProviderView,
    snippet: Option<Seq<char>>,
    result: JsonTree,
)
    requires
        !uses_common_config(app_type, provider, snippet) || snippet_error(
            app_type,
            provider.settings,
            snippet->0,
            true,
        ) is Some,
    ensures
        is_effective(app_type, provider, snippet, result) <==> result == if app_type is Claude {
            claude_effective(provider.settings, provider)
        } else {
            provider.settings
        },
{
    assert(has_common_config(app_type, provider, snippet, provider.settings));
}

/// Law: a provider that uses the common configuration gets it into the live configuration, laid
/// over its own settings, and gets nothing else.
pub proof fn law_common_config_is_laid_over(
    app_type: AppType,
    provider: ProviderView,
    snippet: Seq<char>,
    base: JsonTree,
    result: JsonTree,
)
    requires
        uses_common_config(app_type, provider, Some(snippet)),
        snippet_error(app_type, provider.settings, snippet, true) is None,
        is_updated(app_type, provider.settings, snippet, true, base),
    ensures
        app_type is Claude ==> (is_effective(app_type, provider, Some(snippet), result) <==> result
            == claude_effective(base, provider)),
        !(app_type is Claude) ==> (is_effective(app_type, provider, Some(snippet), result)
            <==> result == base),
{
    assert(has_common_config(app_type, provider, Some(snippet), base));
    if app_type is Claude && is_effective(app_type, provider, Some(snippet), result) {
        let other = choose|other: JsonTree|
            #[trigger] has_common_config(app_type, provider, Some(snippet), other) && result
                == claude_effective(other, provider);
        assert(other == base);
    }
}

/// Law: the live settings of an assistant's provider that uses no common configuration have both
/// context variables, where its own have an environment and a window is listed, or stands behind a
/// model's name, for a model variable.
pub proof fn law_built_settings_have_both_variables(
    provider: &Provider,
    result: serde_json::Value,
    window: u64,
)
    requires
        call_ensures(
            build_effective_settings_with_common_config,
            (None::<&str>, &AppType::Claude, provider),
            result,
        ),
        provider@.env() is Some,
        is_largest_listed(migrated(provider@.settings), window),
    ensures
        ({
            let before = provider@.env()->0;
            let after = tree(result).object_at("env"@);
            let max = "CLAUDE_CODE_MAX_CONTEXT_TOKENS"@;
            let acw = "CLAUDE_CODE_AUTO_COMPACT_WINDOW"@;
            &&& after is Some
            &&& after->0.get(max) is Some
            &&& after->0.get(acw) is Some
            &&& before.get(max) is Some ==> after->0.get(max) == before.get(max)
            &&& before.get(acw) is Some ==> after->0.get(acw) == before.get(acw)
            &&& before.get(max) is None && !is_kimi(provider@) && !provider@.codex_oauth()
                ==> after->0.get(max) == Some(JsonTree::Text(decimal(window as nat)))
            &&& before.get(acw) is None && !is_kimi(provider@) && !provider@.codex_oauth()
                && provider@.settings.get("autoSyncCompactRatio"@) is None ==> after->0.get(acw)
                == Some(JsonTree::Text(decimal(window as nat)))
        }),
{
    law_provider_decides(AppType::Claude, provider@, Seq::empty());
    assert(optional_str(None::<&str>) is None);
    law_own_settings_without_common_config(AppType::Claude, provider@, None, tree(result));
    law_effective_has_both_variables(provider@.settings, provider@, window);
    if provider@.env()->0.get("CLAUDE_CODE_MAX_CONTEXT_TOKENS"@) is Some {
        lemma_own_variables_stay(provider@, "CLAUDE_CODE_MAX_CONTEXT_TOKENS"@);
    }
    if provider@.env()->0.get("CLAUDE_CODE_AUTO_COMPACT_WINDOW"@) is Some {
        lemma_own_variables_stay(provider@, "CLAUDE_CODE_AUTO_COMPACT_WINDOW"@);
    }
}

/// A context variable that a provider has itself is in its live settings.
proof fn lemma_own_variables_stay(provider: ProviderView, key: Seq<char>)
    requires
        key == "CLAUDE_CODE_MAX_CONTEXT_TOKENS"@ || key == "CLAUDE_CODE_AUTO_COMPACT_WINDOW"@,
        provider.env() is Some,
        provider.env()->0.get(key) is Some,
    ensures
        claude_effective(provider.settings, provider).object_at("env"@) is Some,
        claude_effective(provider.settings, provider).object_at("env"@)->0.get(key)
            == provider.env()->0.get(key),
{
    let base = provider.settings;
    lemma_context_variables_name_no_model();
    law_migration_by_key(base, key);
    let first = migrated(base);
    law_subagent_marker(first, provider, key);
    let second = with_subagent_marker(first, provider);
    law_own_values_win(second, provider, key);
    let third = with_window_defaults(second, provider);
    law_own_values_win(third, provider, key);
    law_fixed_defaults_by_variable(third, provider, key);
    let fourth = with_codex_defaults(third, provider);
    law_own_values_win(fourth, provider, key);
    law_fixed_defaults_by_variable(fourth, provider, key);
}

/// Law: the assistant's provider is written with its models' names alone, and the settings to
/// store note the injected defaults and keep every other field; for another application nothing is
/// stored, and its provider is written as its effective settings are. The profile of the desktop
/// assistant is for that alone.
pub proof fn law_plan_for_the_live_configuration(
    snippet: Option<&str>,
    app_type: &AppType,
    provider: &Provider,
    plan: LivePlan,
    key: Seq<char>,
)
    requires
        call_ensures(write_live_with_common_config, (snippet, app_type, provider), plan),
    ensures
        plan.desktop_profile <==> *app_type is ClaudeDesktop,
        plan.store is Some <==> *app_type is Claude,
        plan.provider@.id == provider@.id,
        plan.provider@.name == provider@.name,
        plan.provider@.category == provider@.category,
        plan.provider@.meta == provider@.meta,
        !(*app_type is Claude) ==> plan.provider@.settings == tree(plan.effective),
        *app_type is Claude && is_model_variable(key) ==> named_model(plan.provider@.settings, key)
            == match named_model(tree(plan.effective), key) {
            Some(model) => Some(without_suffix(model)),
            None => None,
        },
        *app_type is Claude && key != "env"@ ==> plan.provider@.settings.get(key) == tree(
            plan.effective,
        ).get(key),
        plan.store matches Some(stored) ==> {
            &&& provider@.settings is Object && key != "autoSyncState"@ ==> tree(stored).get(key)
                == provider@.settings.get(key)
            &&& provider@.settings is Object && (tree(plan.effective).object_at(
                "autoSyncState"@,
            ) is Some) ==> {
                &&& tree(stored).object_at("autoSyncState"@) is Some
                &&& tree(stored).object_at("autoSyncState"@)->0.get("staticInjected"@) == tree(
                    plan.effective,
                ).object_at("autoSyncState"@)->0.get("staticInjected"@)
            }
        },
{
    lemma_fields_differ();
    law_cleaned_by_key(tree(plan.effective), key);
    law_cleaned_by_key(tree(plan.effective), "autoSyncState"@);
    if provider@.settings is Object {
        law_injected_defaults_are_noted(provider@.settings, plan.provider@.settings, key);
    }
}

/// Law: a provider is stored with its settings as they are, unless it says itself that it uses the
/// common configuration, there is one, and it can be taken out; then it is taken out. Nothing else
/// of the provider changes.
pub proof fn law_stored_provider(
    app_type: AppType,
    before: ProviderView,
    snippet: Option<Seq<char>>,
    after: ProviderView,
)
    requires
        is_normalized(app_type, before, snippet, after),
    ensures
        after.id == before.id,
        after.name == before.name,
        after.website_url == before.website_url,
        after.category == before.category,
        after.meta == before.meta,
        before.meta is None || before.meta->0.common_config_enabled != Some(true)
            ==> after.settings == before.settings,
        snippet is None || all_space(snippet->0) ==> after.settings == before.settings,
        before.meta is Some && before.meta->0.common_config_enabled == Some(true)
            && snippet is Some && !all_space(snippet->0) ==> {
            &&& snippet_error(app_type, before.settings, snippet->0, false) is Some
                ==> after.settings == before.settings
            &&& snippet_error(app_type, before.settings, snippet->0, false) is None ==> is_updated(
                app_type,
                before.settings,
                snippet->0,
                false,
                after.settings,
            )
        },
{
    if snippet is Some {
        law_blank(snippet->0);
    }
}

/// Law: a watcher sees a provider as it is, but for its settings, which are the effective ones.
pub proof fn law_provider_of_a_watcher(
    provider: &Provider,
    effective: &serde_json::Value,
    result: Provider,
)
    requires
        call_ensures(watcher_provider_from_effective, (provider, effective), result),
    ensures
        result@.settings == tree(*effective),
        result@.id == provider@.id,
        result@.name == provider@.name,
        result@.meta == provider@.meta,
        result@.category == provider@.category,
{
}

/// Law: noting injected defaults, and taking over a watcher's sync state, change the sync state of
/// stored settings and nothing else in them.
pub proof fn law_only_the_sync_state_changes(
    noted: &mut serde_json::Value,
    joined: &mut serde_json::Value,
    effective: &serde_json::Value,
    key: Seq<char>,
)
    requires
        call_ensures(merge_auto_sync_state_into_provider, (noted, effective), ()),
        call_ensures(merge_watcher_auto_sync_state, (joined, effective), ()),
        tree(*old(noted)) is Object,
        tree(*old(joined)) is Object,
    ensures
        key != "autoSyncState"@ ==> tree(*final(noted)).get(key) == tree(*old(noted)).get(key)
            && tree(*final(joined)).get(key) == tree(*old(joined)).get(key),
        tree(*effective).object_at("autoSyncState"@) matches Some(state) ==> {
            let note = tree(*final(noted)).object_at("autoSyncState"@);
            let both = tree(*final(joined)).object_at("autoSyncState"@);
            &&& note is Some && both is Some
            &&& note->0.get("staticInjected"@) == state.get("staticInjected"@)
            &&& state.get(key) is Some && !(state.get(key)->0 is Object) ==> both->0.get(key)
                == state.get(key)
        },
{
    law_injected_defaults_are_noted(tree(*old(noted)), tree(*effective), key);
    law_watcher_state_goes_into_storage(tree(*old(joined)), tree(*effective), key);
}

/// Law: a provider that does not say that it uses the common configuration is stored as it is.
pub proof fn law_provider_is_stored_as_it_is(
    snippet: Option<&str>,
    app_type: &AppType,
    provider: &mut Provider,
)
    requires
        call_ensures(
            normalize_provider_common_config_for_storage,
            (snippet, app_type, provider),
            (),
        ),
    ensures
        old(provider)@.meta is None || old(provider)@.meta->0.common_config_enabled != Some(true)
            ==> final(provider)@ == old(provider)@,
        snippet is None ==> final(provider)@ == old(provider)@,
        final(provider)@.id == old(provider)@.id,
        final(provider)@.meta == old(provider)@.meta,
{
    law_stored_provider(*app_type, old(provider)@, optional_str(snippet), final(provider)@);
}

} // verus!
