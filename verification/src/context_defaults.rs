//! Default context windows in the environment of a live configuration: how they get
//! in, and how they are taken out again before the settings go back into storage.
//!
//! Two environment variables are concerned: the window at which a conversation is
//! compacted, and the largest context. A default never takes the place of a value
//! that the provider's own settings hold.

use vstd::prelude::*;

use crate::json::{
    as_float_bits, as_str, as_u64, copy, get, get_object, get_object_mut, map_get, map_insert,
    map_new, map_remove, object, set_entry, string, JsonMap,
};
use crate::model_window::{
    claude_model_env_key, migrate_legacy_suffix_to_context_windows, parse_context_window_suffix,
    resolve_context_window, CLAUDE_MODEL_ENV_KEY_COUNT,
};
use crate::provider::Provider;
use crate::ratio::{share_of, Ratio, HIGHEST_RATIO_BITS};
use crate::text::{
    joined, same_text, starts_with_any_case, to_decimal, trim, trim_end_slashes,
};

verus! {

use crate::json::{entries, lemma_set_same, tree, JsonTree};
use crate::model_window::{
    context_window, is_model_variable, law_model_variables, listed, migrated, model_keys,
    suffix_window,
};
use crate::provider::ProviderView;
use crate::ratio::share;
use crate::text::{
    all_space, ascii_lower, begins_with_any_case, decimal, is_blank, is_space, law_end_slashes,
    law_only_end_slashes_go, law_trimmed, trimmed, without_end_slashes,
};

/// The catalog window of gpt-5.6 behind a ChatGPT login, for both variables.
pub const CODEX_OAUTH_CLAUDE_CONTEXT_TOKENS: u64 = 372_000;

/// The window that Kimi For Coding serves, for both variables.
pub const KIMI_FOR_CODING_CONTEXT_TOKENS: u64 = 262_144;

/// The variable that holds the window at which a conversation is compacted.
pub open spec fn acw_key() -> Seq<char> {
    "CLAUDE_CODE_AUTO_COMPACT_WINDOW"@
}

/// The variable that holds the largest context.
pub open spec fn max_key() -> Seq<char> {
    "CLAUDE_CODE_MAX_CONTEXT_TOKENS"@
}

/// The model that an environment names under a key, if it is one of gpt-5.6 or blank.
pub open spec fn is_gpt56_or_blank(model: JsonTree) -> bool {
    match model {
        JsonTree::Text(name) => is_blank(name) || begins_with_any_case(trimmed(name), "gpt-5.6"@),
        _ => false,
    }
}

/// Whether an environment names models, and all that it names are of gpt-5.6.
pub open spec fn targets_gpt56(env: Option<JsonTree>) -> bool {
    match env {
        Some(env) => {
            &&& forall|i: int|
                0 <= i < model_keys().len() ==> match env.get(#[trigger] model_keys()[i]) {
                    Some(model) => is_gpt56_or_blank(model),
                    None => true,
                }
            &&& exists|i: int|
                0 <= i < model_keys().len() && match env.text_at(#[trigger] model_keys()[i]) {
                    Some(name) => !is_blank(name),
                    None => false,
                }
        },
        None => false,
    }
}

/// Whether a provider's endpoint is that of Kimi For Coding.
pub open spec fn is_kimi(provider: ProviderView) -> bool {
    match provider.env() {
        Some(env) => match env.text_at("ANTHROPIC_BASE_URL"@) {
            Some(url) => without_end_slashes(trimmed(url)) == "https://api.kimi.com/coding"@,
            None => false,
        },
        None => false,
    }
}

/// The window that a provider's kind fixes, whatever its settings list.
pub open spec fn static_window(provider: ProviderView) -> Option<u64> {
    if is_kimi(provider) {
        Some(KIMI_FOR_CODING_CONTEXT_TOKENS)
    } else if provider.codex_oauth() && targets_gpt56(provider.env()) {
        Some(CODEX_OAUTH_CLAUDE_CONTEXT_TOKENS)
    } else {
        None
    }
}

/// The mark that says which defaults were injected.
pub open spec fn injected_mark(acw: Seq<char>, max: Seq<char>) -> JsonTree {
    JsonTree::empty_object().set("ACW"@, JsonTree::Text(acw)).set("MAX"@, JsonTree::Text(max))
}

/// The sync state of settings; an empty one where there is none.
pub open spec fn sync_state(settings: JsonTree) -> JsonTree {
    match settings.object_at("autoSyncState"@) {
        Some(state) => state,
        None => JsonTree::empty_object(),
    }
}

/// Settings whose sync state says that these defaults were injected.
pub open spec fn marked_injected(settings: JsonTree, acw: Seq<char>, max: Seq<char>) -> JsonTree {
    settings.set(
        "autoSyncState"@,
        sync_state(settings).set("staticInjected"@, injected_mark(acw, max)),
    )
}

/// Settings whose sync state says of no default that it was injected.
pub open spec fn marked_explicit(settings: JsonTree) -> JsonTree {
    match settings.object_at("autoSyncState"@) {
        Some(state) => settings.set("autoSyncState"@, state.unset("staticInjected"@)),
        None => settings,
    }
}

/// Whether a provider's own environment has a variable.
pub open spec fn stored_has(stored: Option<JsonTree>, key: Seq<char>) -> bool {
    match stored {
        Some(env) => env.get(key) is Some,
        None => false,
    }
}

/// An environment in which a variable has the provider's own value, or else a
/// default, where one is to be injected.
pub open spec fn forced(
    env: JsonTree,
    stored: Option<JsonTree>,
    key: Seq<char>,
    inject: bool,
    default: Seq<char>,
) -> JsonTree {
    if stored_has(stored, key) {
        env.set(key, stored->0.get(key)->0)
    } else if inject {
        env.set(key, JsonTree::Text(default))
    } else {
        env
    }
}

/// Settings with the defaults of a provider's kind.
pub open spec fn with_static_defaults(
    settings: JsonTree,
    stored: Option<JsonTree>,
    inject: bool,
    default: Seq<char>,
) -> JsonTree {
    match settings.object_at("env"@) {
        Some(env) => {
            let changed = settings.set(
                "env"@,
                forced(
                    forced(env, stored, max_key(), inject, default),
                    stored,
                    acw_key(),
                    inject,
                    default,
                ),
            );
            if stored_has(stored, max_key()) || stored_has(stored, acw_key()) {
                marked_explicit(changed)
            } else if inject {
                marked_injected(changed, default, default)
            } else {
                changed
            }
        },
        None => settings,
    }
}

/// Settings with the defaults for gpt-5.6 behind a ChatGPT login.
pub open spec fn with_codex_defaults(settings: JsonTree, provider: ProviderView) -> JsonTree {
    if provider.codex_oauth() {
        with_static_defaults(
            settings,
            provider.env(),
            targets_gpt56(provider.env()),
            decimal(CODEX_OAUTH_CLAUDE_CONTEXT_TOKENS as nat),
        )
    } else {
        settings
    }
}

/// Settings with the defaults for Kimi For Coding.
pub open spec fn with_kimi_defaults(settings: JsonTree, provider: ProviderView) -> JsonTree {
    if is_kimi(provider) {
        with_static_defaults(
            settings,
            provider.env(),
            true,
            decimal(KIMI_FOR_CODING_CONTEXT_TOKENS as nat),
        )
    } else {
        settings
    }
}

/// The larger of two windows, of which either may be missing.
pub open spec fn larger(a: Option<u64>, b: Option<u64>) -> Option<u64> {
    match (a, b) {
        (Some(x), Some(y)) => if x >= y {
            Some(x)
        } else {
            Some(y)
        },
        (None, _) => b,
        (_, None) => a,
    }
}

/// The largest window that is listed for the first `n` model variables.
pub open spec fn largest_window(windows: JsonTree, n: nat) -> Option<u64>
    decreases n,
{
    if n == 0 {
        None
    } else {
        larger(
            largest_window(windows, (n - 1) as nat),
            match windows.get(model_keys()[n - 1]) {
                Some(value) => value.natural(),
                None => None,
            },
        )
    }
}

/// The largest window that `contextWindows` lists for a model variable.
pub open spec fn listed_target(settings: JsonTree) -> Option<u64> {
    match settings.object_at("contextWindows"@) {
        Some(windows) => largest_window(windows, model_keys().len()),
        None => None,
    }
}

/// The compact ratio of a provider's settings: 0.95, where it is missing or not from
/// 0.2 to 0.95.
pub open spec fn compact_ratio(settings: JsonTree) -> Ratio {
    match settings.get("autoSyncCompactRatio"@) {
        Some(JsonTree::Float(bits)) => Ratio { bits }.or_default(),
        _ => Ratio { bits: HIGHEST_RATIO_BITS },
    }
}

/// The compact window that is injected for a window: its share by the provider's
/// ratio, or all of it, where the provider has none.
pub open spec fn injected_compact_window(window: u64, settings: JsonTree) -> nat {
    if settings.get("autoSyncCompactRatio"@) is Some {
        share(window, compact_ratio(settings))
    } else {
        window as nat
    }
}

/// An environment in which a variable that it does not have has a default.
pub open spec fn filled(env: JsonTree, key: Seq<char>, default: Seq<char>) -> JsonTree {
    if env.get(key) is Some {
        env
    } else {
        env.set(key, JsonTree::Text(default))
    }
}

/// Settings with the defaults that follow from the listed windows.
pub open spec fn with_window_defaults(settings: JsonTree, provider: ProviderView) -> JsonTree {
    let target = match listed_target(settings) {
        Some(target) => Some(target),
        None => listed_target(provider.settings),
    };
    match target {
        Some(window) => match settings.object_at("env"@) {
            Some(env) => {
                let acw = decimal(injected_compact_window(window, provider.settings));
                let max = decimal(window as nat);
                let changed = settings.set(
                    "env"@,
                    filled(filled(env, acw_key(), acw), max_key(), max),
                );
                if stored_has(provider.env(), acw_key()) || stored_has(provider.env(), max_key()) {
                    marked_explicit(changed)
                } else if env.get(acw_key()) is None && env.get(max_key()) is None {
                    marked_injected(changed, acw, max)
                } else {
                    changed
                }
            },
            None => settings,
        },
        None => marked_explicit(settings),
    }
}

/// Settings in which a subagent's model of a million tokens or more is marked so.
pub open spec fn with_subagent_marker(settings: JsonTree, provider: ProviderView) -> JsonTree {
    let key = "CLAUDE_CODE_SUBAGENT_MODEL"@;
    match context_window(provider.settings, key) {
        Some(window) => if window >= 1_000_000 {
            match settings.object_at("env"@) {
                Some(env) => match env.text_at(key) {
                    Some(model) => if suffix_window(model) is None {
                        settings.set("env"@, env.set(key, JsonTree::Text(model + "[1M]"@)))
                    } else {
                        settings
                    },
                    None => settings,
                },
                None => settings,
            }
        } else {
            settings
        },
        None => settings,
    }
}

/// An environment without a variable that holds an injected default; a value that
/// the provider's own environment has stays, and so does any other value.
pub open spec fn unforced(
    env: JsonTree,
    stored: Option<JsonTree>,
    key: Seq<char>,
    default: Seq<char>,
) -> JsonTree {
    if !stored_has(stored, key) && env.text_at(key) == Some(default) {
        env.unset(key)
    } else {
        env
    }
}

/// Settings without injected defaults in the environment.
pub open spec fn without_defaults(
    settings: JsonTree,
    stored: Option<JsonTree>,
    acw: Seq<char>,
    max: Seq<char>,
) -> JsonTree {
    match settings.object_at("env"@) {
        Some(env) => settings.set(
            "env"@,
            unforced(unforced(env, stored, max_key(), max), stored, acw_key(), acw),
        ),
        None => settings,
    }
}

/// Settings without the defaults for gpt-5.6 behind a ChatGPT login.
pub open spec fn without_codex_defaults(settings: JsonTree, provider: ProviderView) -> JsonTree {
    if provider.codex_oauth() && targets_gpt56(provider.env()) {
        let default = decimal(CODEX_OAUTH_CLAUDE_CONTEXT_TOKENS as nat);
        without_defaults(settings, provider.env(), default, default)
    } else {
        settings
    }
}

/// Settings without the defaults for Kimi For Coding.
pub open spec fn without_kimi_defaults(settings: JsonTree, provider: ProviderView) -> JsonTree {
    if is_kimi(provider) {
        let default = decimal(KIMI_FOR_CODING_CONTEXT_TOKENS as nat);
        without_defaults(settings, provider.env(), default, default)
    } else {
        settings
    }
}

/// Settings without the defaults that follow from the provider's listed windows.
pub open spec fn without_window_defaults(settings: JsonTree, provider: ProviderView) -> JsonTree {
    match listed_target(migrated(provider.settings)) {
        Some(window) => without_defaults(
            settings,
            provider.env(),
            decimal(injected_compact_window(window, provider.settings)),
            decimal(window as nat),
        ),
        None => settings,
    }
}

/// Whether an environment names models, and all that it names are of gpt-5.6.
pub fn provider_env_targets_gpt56(provider_env: Option<&JsonMap>) -> (result: bool)
    ensures
        result == targets_gpt56(
            match provider_env {
                Some(env) => Some(JsonTree::Object(entries(*env))),
                None => None,
            },
        ),
{
    let env = match provider_env {
        Some(env) => env,
        None => {
            return false;
        },
    };
    let ghost whole = JsonTree::Object(entries(*env));
    let mut saw_model = false;
    let mut i: usize = 0;
    while i < CLAUDE_MODEL_ENV_KEY_COUNT
        invariant
            i <= CLAUDE_MODEL_ENV_KEY_COUNT,
            provider_env == Some(env),
            whole == JsonTree::Object(entries(*env)),
            forall|k: int|
                0 <= k < i ==> match whole.get(#[trigger] model_keys()[k]) {
                    Some(model) => is_gpt56_or_blank(model),
                    None => true,
                },
            saw_model <==> exists|k: int|
                0 <= k < i && match whole.text_at(#[trigger] model_keys()[k]) {
                    Some(name) => !is_blank(name),
                    None => false,
                },
        decreases CLAUDE_MODEL_ENV_KEY_COUNT - i,
    {
        let key = claude_model_env_key(i);
        assert(key@ == model_keys()[i as int]);
        if let Some(value) = map_get(env, key) {
            let name = match as_str(value) {
                Some(name) => trim(name),
                None => {
                    return false;
                },
            };
            if !name.is_empty() {
                saw_model = true;
                if !starts_with_any_case(name, "gpt-5.6") {
                    return false;
                }
            }
        }
        i += 1;
    }
    saw_model
}

/// Whether a provider's endpoint is that of Kimi For Coding.
pub fn is_kimi_for_coding_provider(provider: &Provider) -> (result: bool)
    ensures
        result == is_kimi(provider@),
{
    if let Some(env) = get_object(&provider.settings_config, "env") {
        if let Some(value) = map_get(env, "ANTHROPIC_BASE_URL") {
            if let Some(url) = as_str(value) {
                return same_text(trim_end_slashes(trim(url)), "https://api.kimi.com/coding");
            }
        }
    }
    false
}

/// The window that a provider's kind fixes, whatever its settings list.
pub fn static_context_window_fallback(provider: &Provider) -> (result: Option<u64>)
    ensures
        result == static_window(provider@),
{
    if is_kimi_for_coding_provider(provider) {
        Some(KIMI_FOR_CODING_CONTEXT_TOKENS)
    } else if provider.is_codex_oauth() && provider_env_targets_gpt56(
        get_object(&provider.settings_config, "env"),
    ) {
        Some(CODEX_OAUTH_CLAUDE_CONTEXT_TOKENS)
    } else {
        None
    }
}

/// The sync state of settings for change; an empty one is put in where there is
/// none. Only an object has room for it.
pub fn auto_sync_state_mut(settings: &mut serde_json::Value) -> (result: Option<&mut JsonMap>)
    ensures
        result is Some <==> tree(*old(settings)) is Object,
        result is None ==> tree(*final(settings)) == tree(*old(settings)),
        result matches Some(state) ==> {
            &&& JsonTree::Object(entries(*state)) == sync_state(tree(*old(settings)))
            &&& tree(*final(settings)) == tree(*old(settings)).set(
                "autoSyncState"@,
                JsonTree::Object(entries(*final(state))),
            )
        },
{
    let ghost before = tree(*settings);
    if get_object(settings, "autoSyncState").is_none() {
        set_entry(settings, "autoSyncState", object(map_new()));
    }
    proof {
        if before is Object {
            let map = before->Object_0;
            assert forall|state: JsonTree|
                #![trigger map.insert("autoSyncState"@, state)]
                map.insert("autoSyncState"@, JsonTree::empty_object()).insert(
                    "autoSyncState"@,
                    state,
                ) == map.insert("autoSyncState"@, state) by {
                assert(map.insert("autoSyncState"@, JsonTree::empty_object()).insert(
                    "autoSyncState"@,
                    state,
                ) =~= map.insert("autoSyncState"@, state));
            }
        }
    }
    get_object_mut(settings, "autoSyncState")
}

/// The mark that says which defaults were injected.
pub fn window_mark(acw: &str, max: &str) -> (result: serde_json::Value)
    ensures
        tree(result) == injected_mark(acw@, max@),
{
    let mut mark = object(map_new());
    set_entry(&mut mark, "ACW", string(acw.to_owned()));
    set_entry(&mut mark, "MAX", string(max.to_owned()));
    mark
}

/// Notes in the sync state that these defaults were injected.
pub fn record_static_injected(settings: &mut serde_json::Value, acw: &str, max: &str)
    ensures
        tree(*final(settings)) == marked_injected(tree(*old(settings)), acw@, max@),
{
    if let Some(state) = auto_sync_state_mut(settings) {
        map_insert(state, "staticInjected".to_owned(), window_mark(acw, max));
    }
}

/// Notes in the sync state that no default was injected.
pub fn clear_static_injected(settings: &mut serde_json::Value)
    ensures
        tree(*final(settings)) == marked_explicit(tree(*old(settings))),
{
    if let Some(state) = get_object_mut(settings, "autoSyncState") {
        map_remove(state, "staticInjected");
    }
}

/// Gives a variable the provider's own value, or else the default, where it is to be
/// injected; says whether the value is the provider's own.
fn force_default(
    env: &mut JsonMap,
    provider_env: Option<&JsonMap>,
    key: &str,
    inject: bool,
    default: &str,
) -> (explicit: bool)
    ensures
        explicit == stored_has(
            match provider_env {
                Some(stored) => Some(JsonTree::Object(entries(*stored))),
                None => None,
            },
            key@,
        ),
        JsonTree::Object(entries(*final(env))) == forced(
            JsonTree::Object(entries(*old(env))),
            match provider_env {
                Some(stored) => Some(JsonTree::Object(entries(*stored))),
                None => None,
            },
            key@,
            inject,
            default@,
        ),
{
    if let Some(stored) = provider_env {
        if let Some(value) = map_get(stored, key) {
            map_insert(env, key.to_owned(), copy(value));
            return true;
        }
    }
    if inject {
        map_insert(env, key.to_owned(), string(default.to_owned()));
    }
    false
}

fn apply_static_defaults(
    settings: &mut serde_json::Value,
    provider_env: Option<&JsonMap>,
    inject: bool,
    default: &str,
)
    ensures
        tree(*final(settings)) == with_static_defaults(
            tree(*old(settings)),
            match provider_env {
                Some(stored) => Some(JsonTree::Object(entries(*stored))),
                None => None,
            },
            inject,
            default@,
        ),
{
    let explicit = match get_object_mut(settings, "env") {
        Some(env) => {
            let explicit_max = force_default(
                env,
                provider_env,
                "CLAUDE_CODE_MAX_CONTEXT_TOKENS",
                inject,
                default,
            );
            let explicit_acw = force_default(
                env,
                provider_env,
                "CLAUDE_CODE_AUTO_COMPACT_WINDOW",
                inject,
                default,
            );
            explicit_max || explicit_acw
        },
        None => {
            return;
        },
    };
    if explicit {
        clear_static_injected(settings);
    } else if inject {
        record_static_injected(settings, default, default);
    }
}

/// Puts in the defaults for gpt-5.6 behind a ChatGPT login.
pub fn apply_codex_oauth_claude_context_defaults(
    settings: &mut serde_json::Value,
    provider: &Provider,
)
    ensures
        tree(*final(settings)) == with_codex_defaults(tree(*old(settings)), provider@),
{
    if !provider.is_codex_oauth() {
        return;
    }
    let provider_env = get_object(&provider.settings_config, "env");
    let inject = provider_env_targets_gpt56(provider_env);
    let default = to_decimal(CODEX_OAUTH_CLAUDE_CONTEXT_TOKENS);
    apply_static_defaults(settings, provider_env, inject, default.as_str());
}

/// Puts in the defaults for Kimi For Coding.
pub fn apply_kimi_for_coding_context_defaults(settings: &mut serde_json::Value, provider: &Provider)
    ensures
        tree(*final(settings)) == with_kimi_defaults(tree(*old(settings)), provider@),
{
    if !is_kimi_for_coding_provider(provider) {
        return;
    }
    let provider_env = get_object(&provider.settings_config, "env");
    let default = to_decimal(KIMI_FOR_CODING_CONTEXT_TOKENS);
    apply_static_defaults(settings, provider_env, true, default.as_str());
}

/// The largest window that `contextWindows` lists for a model variable.
pub fn context_window_target_from_settings(settings: &serde_json::Value) -> (result: Option<u64>)
    ensures
        result == listed_target(tree(*settings)),
{
    let windows = match get_object(settings, "contextWindows") {
        Some(windows) => windows,
        None => {
            return None;
        },
    };
    let ghost whole = JsonTree::Object(entries(*windows));
    let mut largest: Option<u64> = None;
    let mut i: usize = 0;
    while i < CLAUDE_MODEL_ENV_KEY_COUNT
        invariant
            i <= CLAUDE_MODEL_ENV_KEY_COUNT,
            whole == JsonTree::Object(entries(*windows)),
            largest == largest_window(whole, i as nat),
        decreases CLAUDE_MODEL_ENV_KEY_COUNT - i,
    {
        if let Some(value) = map_get(windows, claude_model_env_key(i)) {
            if let Some(window) = as_u64(value) {
                largest = match largest {
                    Some(best) => if best >= window {
                        Some(best)
                    } else {
                        Some(window)
                    },
                    None => Some(window),
                };
            }
        }
        i += 1;
    }
    largest
}

/// The largest window that a provider lists, windows behind models' names included.
pub fn claude_context_window_target(provider: &Provider) -> (result: Option<u64>)
    ensures
        result == listed_target(migrated(provider@.settings)),
{
    let mut settings = copy(&provider.settings_config);
    migrate_legacy_suffix_to_context_windows(&mut settings);
    context_window_target_from_settings(&settings)
}

/// The compact ratio of a provider: 0.95, where it is missing or not from 0.2 to
/// 0.95.
pub fn provider_compact_ratio(provider: &Provider) -> (result: Ratio)
    ensures
        result == compact_ratio(provider@.settings),
        result.valid(),
{
    if let Some(value) = get(&provider.settings_config, "autoSyncCompactRatio") {
        if let Some(bits) = as_float_bits(value) {
            let ratio = Ratio { bits };
            if ratio.is_valid() {
                return ratio;
            }
        }
    }
    Ratio { bits: HIGHEST_RATIO_BITS }
}

/// The values of the two variables that are injected for a window.
fn window_defaults(window: u64, provider: &Provider) -> (result: (String, String))
    ensures
        result.0@ == decimal(injected_compact_window(window, provider@.settings)),
        result.1@ == decimal(window as nat),
{
    let compact: u64 = if get(&provider.settings_config, "autoSyncCompactRatio").is_some() {
        share_of(window, provider_compact_ratio(provider))
    } else {
        window
    };
    (to_decimal(compact), to_decimal(window))
}

/// Gives a variable that is missing a default; says whether it was missing.
fn fill_default(env: &mut JsonMap, key: &str, default: &str) -> (missing: bool)
    ensures
        missing == (JsonTree::Object(entries(*old(env))).get(key@) is None),
        JsonTree::Object(entries(*final(env))) == filled(
            JsonTree::Object(entries(*old(env))),
            key@,
            default@,
        ),
{
    if map_get(env, key).is_some() {
        return false;
    }
    map_insert(env, key.to_owned(), string(default.to_owned()));
    true
}

fn provider_env_has(provider: &Provider, key: &str) -> (result: bool)
    ensures
        result == stored_has(provider@.env(), key@),
{
    match get_object(&provider.settings_config, "env") {
        Some(env) => map_get(env, key).is_some(),
        None => false,
    }
}

/// The two variables have two names.
pub proof fn lemma_keys_differ()
    ensures
        acw_key() != max_key(),
{
    reveal_strlit("CLAUDE_CODE_AUTO_COMPACT_WINDOW");
    reveal_strlit("CLAUDE_CODE_MAX_CONTEXT_TOKENS");
    assert("CLAUDE_CODE_AUTO_COMPACT_WINDOW"@.len() != "CLAUDE_CODE_MAX_CONTEXT_TOKENS"@.len());
}

/// Puts in the defaults that follow from the listed windows.
pub fn apply_context_window_defaults(settings: &mut serde_json::Value, provider: &Provider)
    ensures
        tree(*final(settings)) == with_window_defaults(tree(*old(settings)), provider@),
{
    let listed = match context_window_target_from_settings(settings) {
        Some(target) => Some(target),
        None => context_window_target_from_settings(&provider.settings_config),
    };
    let target: u64 = match listed {
        Some(target) => target,
        None => {
            clear_static_injected(settings);
            return;
        },
    };
    let (acw, max) = window_defaults(target, provider);
    proof {
        lemma_keys_differ();
    }
    let both_missing = match get_object_mut(settings, "env") {
        Some(env) => {
            let acw_missing = fill_default(env, "CLAUDE_CODE_AUTO_COMPACT_WINDOW", acw.as_str());
            let max_missing = fill_default(env, "CLAUDE_CODE_MAX_CONTEXT_TOKENS", max.as_str());
            acw_missing && max_missing
        },
        None => {
            return;
        },
    };
    if provider_env_has(provider, "CLAUDE_CODE_AUTO_COMPACT_WINDOW") || provider_env_has(
        provider,
        "CLAUDE_CODE_MAX_CONTEXT_TOKENS",
    ) {
        clear_static_injected(settings);
    } else if both_missing {
        record_static_injected(settings, acw.as_str(), max.as_str());
    }
}

/// Marks a subagent's model of a million tokens or more.
pub fn restore_claude_subagent_local_marker_for_effective(
    settings: &mut serde_json::Value,
    provider: &Provider,
)
    ensures
        tree(*final(settings)) == with_subagent_marker(tree(*old(settings)), provider@),
{
    match resolve_context_window(&provider.settings_config, "CLAUDE_CODE_SUBAGENT_MODEL") {
        Some(window) => if window < 1_000_000 {
            return;
        },
        None => {
            return;
        },
    }
    proof {
        let before = tree(*settings);
        if before.get("env"@) is Some {
            lemma_set_same(before, "env"@);
        }
    }
    let env = match get_object_mut(settings, "env") {
        Some(env) => env,
        None => {
            return;
        },
    };
    let marked = match map_get(env, "CLAUDE_CODE_SUBAGENT_MODEL") {
        Some(value) => match as_str(value) {
            Some(model) => if parse_context_window_suffix(model).1.is_some() {
                None
            } else {
                Some(joined(model, "[1M]"))
            },
            None => None,
        },
        None => None,
    };
    if let Some(marked) = marked {
        map_insert(env, "CLAUDE_CODE_SUBAGENT_MODEL".to_owned(), string(marked));
    }
}

/// Takes out a variable that holds an injected default.
fn unforce_default(env: &mut JsonMap, provider: &Provider, key: &str, default: &str)
    ensures
        JsonTree::Object(entries(*final(env))) == unforced(
            JsonTree::Object(entries(*old(env))),
            provider@.env(),
            key@,
            default@,
        ),
{
    if provider_env_has(provider, key) {
        return;
    }
    let injected = match map_get(env, key) {
        Some(value) => match as_str(value) {
            Some(text) => same_text(text, default),
            None => false,
        },
        None => false,
    };
    if injected {
        map_remove(env, key);
    }
}

fn strip_defaults(settings: &mut serde_json::Value, provider: &Provider, acw: &str, max: &str)
    ensures
        tree(*final(settings)) == without_defaults(
            tree(*old(settings)),
            provider@.env(),
            acw@,
            max@,
        ),
{
    if let Some(env) = get_object_mut(settings, "env") {
        unforce_default(env, provider, "CLAUDE_CODE_MAX_CONTEXT_TOKENS", max);
        unforce_default(env, provider, "CLAUDE_CODE_AUTO_COMPACT_WINDOW", acw);
    }
}

/// Takes out the defaults for gpt-5.6 behind a ChatGPT login.
pub fn strip_injected_codex_oauth_context_defaults(
    settings: &mut serde_json::Value,
    provider: &Provider,
)
    ensures
        tree(*final(settings)) == without_codex_defaults(tree(*old(settings)), provider@),
{
    if !provider.is_codex_oauth() || !provider_env_targets_gpt56(
        get_object(&provider.settings_config, "env"),
    ) {
        return;
    }
    let default = to_decimal(CODEX_OAUTH_CLAUDE_CONTEXT_TOKENS);
    strip_defaults(settings, provider, default.as_str(), default.as_str());
}

/// Takes out the defaults for Kimi For Coding.
pub fn strip_injected_kimi_for_coding_context_defaults(
    settings: &mut serde_json::Value,
    provider: &Provider,
)
    ensures
        tree(*final(settings)) == without_kimi_defaults(tree(*old(settings)), provider@),
{
    if !is_kimi_for_coding_provider(provider) {
        return;
    }
    let default = to_decimal(KIMI_FOR_CODING_CONTEXT_TOKENS);
    strip_defaults(settings, provider, default.as_str(), default.as_str());
}

/// Takes out the defaults that follow from the provider's listed windows.
pub fn strip_injected_model_suffix_context_defaults(
    settings: &mut serde_json::Value,
    provider: &Provider,
)
    ensures
        tree(*final(settings)) == without_window_defaults(tree(*old(settings)), provider@),
{
    let window: u64 = match claude_context_window_target(provider) {
        Some(window) => window,
        None => {
            return;
        },
    };
    let (acw, max) = window_defaults(window, provider);
    strip_defaults(settings, provider, acw.as_str(), max.as_str());
}

/// Law: a value that the provider's own environment has is the one that comes into
/// the live environment, whatever the provider's kind, and stays when the defaults
/// are taken out.
pub proof fn law_own_values_win(settings: JsonTree, provider: ProviderView, key: Seq<char>)
    requires
        key == acw_key() || key == max_key(),
        settings.object_at("env"@) is Some,
        stored_has(provider.env(), key),
        settings.object_at("env"@)->0.get(key) == provider.env()->0.get(key),
    ensures
        with_window_defaults(settings, provider).object_at("env"@) is Some,
        with_window_defaults(settings, provider).object_at("env"@)->0.get(key)
            == provider.env()->0.get(key),
        with_codex_defaults(settings, provider).object_at("env"@)->0.get(key)
            == provider.env()->0.get(key),
        with_kimi_defaults(settings, provider).object_at("env"@)->0.get(key)
            == provider.env()->0.get(key),
        without_window_defaults(settings, provider).object_at("env"@)->0.get(key)
            == provider.env()->0.get(key),
        without_codex_defaults(settings, provider).object_at("env"@)->0.get(key)
            == provider.env()->0.get(key),
        without_kimi_defaults(settings, provider).object_at("env"@)->0.get(key)
            == provider.env()->0.get(key),
{
    lemma_keys_differ();
    lemma_fields_differ();
}

/// Law: a provider whose kind has defaults gets its own value into the live environment,
/// even where something else, such as a shared snippet, put another one there before.
pub proof fn law_own_values_replace_others(
    settings: JsonTree,
    provider: ProviderView,
    key: Seq<char>,
)
    requires
        key == acw_key() || key == max_key(),
        settings.object_at("env"@) is Some,
        stored_has(provider.env(), key),
    ensures
        provider.codex_oauth() ==> with_codex_defaults(settings, provider).object_at(
            "env"@,
        ) is Some && with_codex_defaults(settings, provider).object_at("env"@)->0.get(key)
            == provider.env()->0.get(key),
        is_kimi(provider) ==> with_kimi_defaults(settings, provider).object_at("env"@) is Some
            && with_kimi_defaults(settings, provider).object_at("env"@)->0.get(key)
            == provider.env()->0.get(key),
{
    lemma_keys_differ();
    lemma_fields_differ();
}

/// The fields of settings that are spoken of here have different names.
pub proof fn lemma_fields_differ()
    ensures
        "env"@ != "autoSyncState"@,
        "env"@ != "contextWindows"@,
        "contextWindows"@ != "autoSyncState"@,
{
    reveal_strlit("env");
    reveal_strlit("autoSyncState");
    reveal_strlit("contextWindows");
    assert("env"@.len() == 3);
    assert("autoSyncState"@.len() == 13);
    assert("contextWindows"@.len() == 14);
}

/// Law: the defaults of a provider's kind, once put in, are taken out again without a
/// trace in the environment, where it had neither variable.
pub proof fn law_static_defaults_come_out(settings: JsonTree, provider: ProviderView)
    requires
        settings.object_at("env"@) is Some,
        settings.object_at("env"@)->0.get(acw_key()) is None,
        settings.object_at("env"@)->0.get(max_key()) is None,
        !stored_has(provider.env(), acw_key()),
        !stored_has(provider.env(), max_key()),
    ensures
        without_codex_defaults(with_codex_defaults(settings, provider), provider).object_at("env"@)
            == settings.object_at("env"@),
        without_kimi_defaults(with_kimi_defaults(settings, provider), provider).object_at("env"@)
            == settings.object_at("env"@),
{
    lemma_keys_differ();
    lemma_fields_differ();
    let env = settings.object_at("env"@)->0;
    lemma_forced_comes_out(
        env,
        provider.env(),
        decimal(CODEX_OAUTH_CLAUDE_CONTEXT_TOKENS as nat),
    );
    lemma_forced_comes_out(env, provider.env(), decimal(KIMI_FOR_CODING_CONTEXT_TOKENS as nat));
}

proof fn lemma_forced_comes_out(env: JsonTree, stored: Option<JsonTree>, default: Seq<char>)
    requires
        env is Object,
        env.get(acw_key()) is None,
        env.get(max_key()) is None,
        !stored_has(stored, acw_key()),
        !stored_has(stored, max_key()),
    ensures
        ({
            let put_in = forced(
                forced(env, stored, max_key(), true, default),
                stored,
                acw_key(),
                true,
                default,
            );
            unforced(unforced(put_in, stored, max_key(), default), stored, acw_key(), default) == env
        }),
{
    lemma_keys_differ();
    let map = env->Object_0;
    let text = JsonTree::Text(default);
    assert(map.insert(max_key(), text).insert(acw_key(), text).remove(max_key()).remove(acw_key())
        =~= map);
}

/// Law: a value in the live environment that is no injected default stays when the
/// defaults are taken out.
pub proof fn law_edited_values_stay(
    settings: JsonTree,
    stored: Option<JsonTree>,
    acw: Seq<char>,
    max: Seq<char>,
    key: Seq<char>,
)
    requires
        settings.object_at("env"@) is Some,
        key == acw_key() ==> settings.object_at("env"@)->0.text_at(key) != Some(acw),
        key == max_key() ==> settings.object_at("env"@)->0.text_at(key) != Some(max),
    ensures
        without_defaults(settings, stored, acw, max).object_at("env"@) is Some,
        without_defaults(settings, stored, acw, max).object_at("env"@)->0.get(key)
            == settings.object_at("env"@)->0.get(key),
{
    lemma_keys_differ();
}

/// Law: the largest listed window is one that is listed for a model variable, and no model
/// variable has a larger one; there is none only where no model variable has any.
pub proof fn law_largest_listed_window(settings: JsonTree, key: Seq<char>)
    ensures
        listed_target(settings) matches Some(window) ==> exists|variable: Seq<char>|
            is_model_variable(variable) && #[trigger] listed(settings, variable) == Some(
                JsonTree::Natural(window),
            ),
        is_model_variable(key) ==> (listed(settings, key) matches Some(JsonTree::Natural(other))
            ==> listed_target(settings) is Some && other <= listed_target(settings)->0),
{
    if let Some(windows) = settings.object_at("contextWindows"@) {
        lemma_largest_window(windows, model_keys().len());
        law_model_variables(key);
        if is_model_variable(key) {
            let i = choose|i: int| 0 <= i < model_keys().len() && #[trigger] model_keys()[i] == key;
            assert(windows.get(model_keys()[i]) == listed(settings, key));
        }
        if let Some(window) = listed_target(settings) {
            let i = choose|i: int|
                0 <= i < model_keys().len() && windows.get(#[trigger] model_keys()[i]) == Some(
                    JsonTree::Natural(window),
                );
            let variable = model_keys()[i];
            law_model_variables(variable);
            assert(listed(settings, variable) == Some(JsonTree::Natural(window)));
        }
    }
}

proof fn lemma_largest_window(windows: JsonTree, n: nat)
    requires
        n <= model_keys().len(),
    ensures
        largest_window(windows, n) matches Some(window) ==> exists|i: int|
            0 <= i < n && windows.get(#[trigger] model_keys()[i]) == Some(
                JsonTree::Natural(window),
            ),
        forall|i: int|
            0 <= i < n ==> (windows.get(#[trigger] model_keys()[i]) matches Some(
                JsonTree::Natural(other),
            ) ==> largest_window(windows, n) is Some && other <= largest_window(windows, n)->0),
    decreases n,
{
    if n > 0 {
        let m = (n - 1) as nat;
        lemma_largest_window(windows, m);
        if let Some(window) = largest_window(windows, n) {
            if largest_window(windows, m) == Some(window) {
                let i = choose|i: int|
                    0 <= i < m && windows.get(#[trigger] model_keys()[i]) == Some(
                        JsonTree::Natural(window),
                    );
                assert(0 <= i < n && windows.get(model_keys()[i]) == Some(
                    JsonTree::Natural(window),
                ));
            } else {
                assert(windows.get(model_keys()[m as int]) == Some(JsonTree::Natural(window)));
            }
        }
    }
}

/// Whether a window is listed for a model variable, and none larger for another.
pub open spec fn is_largest_listed(settings: JsonTree, window: u64) -> bool {
    &&& exists|key: Seq<char>|
        is_model_variable(key) && #[trigger] listed(settings, key) == Some(
            JsonTree::Natural(window),
        )
    &&& forall|key: Seq<char>|
        is_model_variable(key) ==> (#[trigger] listed(settings, key) matches Some(
            JsonTree::Natural(other),
        ) ==> other <= window)
}

/// Whether no window is listed for any model variable.
pub open spec fn lists_no_window(settings: JsonTree) -> bool {
    forall|key: Seq<char>|
        is_model_variable(key) ==> !(#[trigger] listed(settings, key) is Some && listed(
            settings,
            key,
        )->0 is Natural)
}

/// The largest listed window is the one that counts.
proof fn lemma_listed_target(settings: JsonTree, window: u64)
    ensures
        is_largest_listed(settings, window) ==> listed_target(settings) == Some(window),
        lists_no_window(settings) ==> listed_target(settings) is None,
{
    if is_largest_listed(settings, window) {
        let key = choose|key: Seq<char>|
            is_model_variable(key) && #[trigger] listed(settings, key) == Some(
                JsonTree::Natural(window),
            );
        law_largest_listed_window(settings, key);
    }
    law_largest_listed_window(settings, Seq::empty());
}

/// Law: where a window is listed for a model variable and the settings have an environment, it
/// has both context variables afterwards. The one for the largest context has, if it was
/// missing, the largest listed window in decimal; the one for compacting, if it was missing,
/// the same, or the share of it by the provider's ratio, where the provider has one. Each is
/// filled whether or not the other was there, and one that was there stays. The settings' own
/// list counts before the provider's. Nothing else in the environment changes, and no field
/// but the sync state.
pub proof fn law_window_defaults_fill_what_is_missing(
    settings: JsonTree,
    provider: ProviderView,
    window: u64,
    key: Seq<char>,
)
    requires
        settings.object_at("env"@) is Some,
        is_largest_listed(settings, window) || lists_no_window(settings) && is_largest_listed(
            provider.settings,
            window,
        ),
    ensures
        ({
            let before = settings.object_at("env"@)->0;
            let after = with_window_defaults(settings, provider).object_at("env"@);
            let max = "CLAUDE_CODE_MAX_CONTEXT_TOKENS"@;
            let acw = "CLAUDE_CODE_AUTO_COMPACT_WINDOW"@;
            let ratio = provider.settings.get("autoSyncCompactRatio"@);
            &&& after is Some
            &&& after->0.get(max) == match before.get(max) {
                Some(value) => Some(value),
                None => Some(JsonTree::Text(decimal(window as nat))),
            }
            &&& before.get(acw) is Some ==> after->0.get(acw) == before.get(acw)
            &&& before.get(acw) is None && ratio is None ==> after->0.get(acw) == Some(
                JsonTree::Text(decimal(window as nat)),
            )
            &&& before.get(acw) is None && ratio is Some ==> after->0.get(acw) == Some(
                JsonTree::Text(decimal(share(window, compact_ratio(provider.settings)))),
            )
            &&& key != max && key != acw ==> after->0.get(key) == before.get(key)
        }),
        key != "env"@ && key != "autoSyncState"@ ==> with_window_defaults(settings, provider).get(
            key,
        ) == settings.get(key),
{
    lemma_listed_target(settings, window);
    lemma_listed_target(provider.settings, window);
    lemma_keys_differ();
    lemma_fields_differ();
}

/// Law: where no window is listed, in the settings or by the provider, or the settings have no
/// environment, the window defaults leave every field but the sync state alone.
pub proof fn law_no_window_no_defaults(settings: JsonTree, provider: ProviderView, key: Seq<char>)
    requires
        lists_no_window(settings) && lists_no_window(provider.settings) || settings.object_at(
            "env"@,
        ) is None,
        key != "autoSyncState"@,
    ensures
        with_window_defaults(settings, provider).get(key) == settings.get(key),
{
    lemma_listed_target(settings, 0);
    lemma_listed_target(provider.settings, 0);
}

/// Law: the sync state notes the window defaults as put in where both were, and the provider
/// has neither variable; where the provider has one, or no window is listed, it notes none;
/// where one was there already, the note stays. The rest of the sync state stays in any case.
pub proof fn law_window_defaults_are_noted(
    settings: JsonTree,
    provider: ProviderView,
    window: u64,
    key: Seq<char>,
)
    requires
        settings.object_at("env"@) is Some,
        is_largest_listed(settings, window) || lists_no_window(settings) && is_largest_listed(
            provider.settings,
            window,
        ),
    ensures
        ({
            let env = settings.object_at("env"@)->0;
            let after = with_window_defaults(settings, provider);
            let filled = after.object_at("env"@)->0;
            let max = "CLAUDE_CODE_MAX_CONTEXT_TOKENS"@;
            let acw = "CLAUDE_CODE_AUTO_COMPACT_WINDOW"@;
            let own = provider.env() is Some && (provider.env()->0.get(acw) is Some
                || provider.env()->0.get(max) is Some);
            let before_state = settings.object_at("autoSyncState"@);
            let state = after.object_at("autoSyncState"@);
            &&& own ==> state is None || state->0.get("staticInjected"@) is None
            &&& !own && env.get(acw) is None && env.get(max) is None ==> {
                &&& state is Some
                &&& state->0.get("staticInjected"@) is Some
                &&& state->0.get("staticInjected"@)->0.get("ACW"@) == filled.get(acw)
                &&& state->0.get("staticInjected"@)->0.get("MAX"@) == filled.get(max)
            }
            &&& !own && (env.get(acw) is Some || env.get(max) is Some) ==> after.get(
                "autoSyncState"@,
            ) == settings.get("autoSyncState"@)
            &&& before_state is Some && key != "staticInjected"@ ==> state is Some && state->0.get(
                key,
            ) == before_state->0.get(key)
        }),
{
    lemma_listed_target(settings, window);
    lemma_listed_target(provider.settings, window);
    lemma_keys_differ();
    lemma_fields_differ();
    reveal_strlit("ACW");
    reveal_strlit("MAX");
    assert("ACW"@[0] == 'A');
    assert("MAX"@[0] == 'M');
}

/// The decimal digits of the two windows that are fixed.
proof fn lemma_fixed_windows()
    ensures
        decimal(262_144) == "262144"@,
        decimal(372_000) == "372000"@,
{
    reveal_with_fuel(decimal, 7);
    reveal_strlit("262144");
    reveal_strlit("372000");
    assert(decimal(262_144) =~= "262144"@);
    assert(decimal(372_000) =~= "372000"@);
}

/// Law: the endpoint of Kimi For Coding is its address, with any white space around it and any
/// slashes behind it.
pub proof fn law_kimi_endpoint(
    provider: ProviderView,
    before: Seq<char>,
    slashes: Seq<char>,
    after: Seq<char>,
)
    requires
        all_space(before),
        all_space(after),
        forall|i: int| 0 <= i < slashes.len() ==> #[trigger] slashes[i] == '/',
        provider.env() is Some,
        provider.env()->0.text_at("ANTHROPIC_BASE_URL"@) == Some(
            before + ("https://api.kimi.com/coding"@ + slashes) + after,
        ),
    ensures
        is_kimi(provider),
{
    let address = "https://api.kimi.com/coding"@;
    reveal_strlit("https://api.kimi.com/coding");
    assert(address.len() == 27);
    assert(address[0] == 'h');
    assert(address.last() == 'g');
    let s = address + slashes;
    assert(s[0] == 'h');
    if slashes.len() > 0 {
        assert(s.last() == slashes[slashes.len() - 1]);
    } else {
        assert(s =~= address);
    }
    law_trimmed(before, s, after);
    law_end_slashes(address, slashes);
}

/// Law: an endpoint is that of Kimi For Coding only where it is its address, but for white space
/// around it and slashes behind it.
pub proof fn law_kimi_endpoint_alone(provider: ProviderView)
    requires
        is_kimi(provider),
    ensures
        provider.env() is Some,
        provider.env()->0.text_at("ANTHROPIC_BASE_URL"@) is Some,
        ({
            let url = trimmed(provider.env()->0.text_at("ANTHROPIC_BASE_URL"@)->0);
            &&& url.len() >= 27
            &&& url.take(27) == "https://api.kimi.com/coding"@
            &&& forall|i: int| 27 <= i < url.len() ==> #[trigger] url[i] == '/'
        }),
{
    reveal_strlit("https://api.kimi.com/coding");
    assert("https://api.kimi.com/coding"@.len() == 27);
    law_only_end_slashes_go(trimmed(provider.env()->0.text_at("ANTHROPIC_BASE_URL"@)->0));
}

/// Law: a model is one of gpt-5.6 where its name begins so, in capitals or not, with any white
/// space around it; no other text that is not blank is one, and nothing that is no text.
pub proof fn law_gpt56_names(before: Seq<char>, rest: Seq<char>, after: Seq<char>, model: JsonTree)
    requires
        all_space(before),
        all_space(after),
        rest.len() > 0 ==> !is_space(rest.last()),
    ensures
        is_gpt56_or_blank(JsonTree::Text(before + ("gpt-5.6"@ + rest) + after)),
        is_gpt56_or_blank(JsonTree::Text(before + ("GPT-5.6"@ + rest) + after)),
        is_gpt56_or_blank(model) ==> model is Text,
        model matches JsonTree::Text(name) ==> {
            let cut = trimmed(name);
            &&& cut.len() == 0 ==> is_gpt56_or_blank(model)
            &&& is_gpt56_or_blank(model) && cut.len() > 0 ==> {
                &&& cut.len() >= 7
                &&& cut.skip(3).take(4) == "-5.6"@
                &&& cut[0] == 'g' || cut[0] == 'G'
                &&& cut[1] == 'p' || cut[1] == 'P'
                &&& cut[2] == 't' || cut[2] == 'T'
            }
        },
{
    reveal_strlit("gpt-5.6");
    reveal_strlit("GPT-5.6");
    reveal_strlit("-5.6");
    let small = "gpt-5.6"@ + rest;
    let large = "GPT-5.6"@ + rest;
    assert(small[0] == 'g' && large[0] == 'G');
    if rest.len() == 0 {
        assert(small.last() == '6' && large.last() == '6');
    } else {
        assert(small.last() == rest.last() && large.last() == rest.last());
    }
    law_trimmed(before, small, after);
    law_trimmed(before, large, after);
    assert forall|i: int| 0 <= i < 7 implies ascii_lower(large[i]) == #[trigger] "gpt-5.6"@[i] by {}
    assert forall|i: int| 0 <= i < 7 implies ascii_lower(small[i]) == #[trigger] "gpt-5.6"@[i] by {}
    if let JsonTree::Text(name) = model {
        let cut = trimmed(name);
        if is_gpt56_or_blank(model) && cut.len() > 0 {
            assert("gpt-5.6"@[0] == 'g' && "gpt-5.6"@[1] == 'p' && "gpt-5.6"@[2] == 't');
            assert("gpt-5.6"@[3] == '-' && "gpt-5.6"@[4] == '5' && "gpt-5.6"@[5] == '.'
                && "gpt-5.6"@[6] == '6');
            assert(cut.skip(3).take(4) =~= "-5.6"@);
        }
    }
}

/// Law: an environment is meant for gpt-5.6 where every model variable that it has is one of
/// gpt-5.6 or blank, and one of them is not blank.
pub proof fn law_environment_for_gpt56(env: JsonTree, key: Seq<char>)
    ensures
        !targets_gpt56(None),
        targets_gpt56(Some(env)) && is_model_variable(key) && env.get(key) is Some
            ==> is_gpt56_or_blank(env.get(key)->0),
        (forall|k: Seq<char>| is_model_variable(k) ==> !(#[trigger] env.get(k) is Some))
            ==> !targets_gpt56(Some(env)),
        (forall|k: Seq<char>|
            is_model_variable(k) && #[trigger] env.get(k) is Some ==> is_gpt56_or_blank(
                env.get(k)->0,
            )) && is_model_variable(key) && (env.text_at(key) matches Some(name)
            && trimmed(name).len() > 0) ==> targets_gpt56(Some(env)),
{
    law_model_variables(key);
    assert forall|i: int| 0 <= i < model_keys().len() implies is_model_variable(
        #[trigger] model_keys()[i],
    ) by {
        law_model_variables(model_keys()[i]);
    }
    if is_model_variable(key) {
        let i = choose|i: int| 0 <= i < model_keys().len() && #[trigger] model_keys()[i] == key;
        assert(env.get(model_keys()[i]) == env.get(key));
    }
}

/// Law: the window that a provider's kind fixes is 262144 for Kimi For Coding, 372000 for a
/// ChatGPT login with models of gpt-5.6 alone, and there is none for any other provider.
pub proof fn law_fixed_windows(provider: ProviderView)
    ensures
        is_kimi(provider) ==> static_window(provider) == Some(262_144u64),
        !is_kimi(provider) && provider.codex_oauth() && targets_gpt56(provider.env())
            ==> static_window(provider) == Some(372_000u64),
        !is_kimi(provider) && !(provider.codex_oauth() && targets_gpt56(provider.env()))
            ==> static_window(provider) is None,
{
}

/// Law: a provider whose kind fixes a window has both context variables in the live environment
/// afterwards: its own value of each, where it has one, or else the fixed window. Behind a
/// ChatGPT login with other models its own values come in, and nothing else. Any other variable
/// stays, and so does everything with a provider of another kind.
pub proof fn law_fixed_defaults_by_variable(
    settings: JsonTree,
    provider: ProviderView,
    key: Seq<char>,
)
    requires
        settings.object_at("env"@) is Some,
    ensures
        ({
            let before = settings.object_at("env"@)->0;
            let kimi = with_kimi_defaults(settings, provider);
            let codex = with_codex_defaults(settings, provider);
            let concerned = key == "CLAUDE_CODE_MAX_CONTEXT_TOKENS"@ || key
                == "CLAUDE_CODE_AUTO_COMPACT_WINDOW"@;
            let own = provider.env() is Some && provider.env()->0.get(key) is Some;
            &&& !is_kimi(provider) ==> kimi == settings
            &&& !provider.codex_oauth() ==> codex == settings
            &&& kimi.object_at("env"@) is Some && codex.object_at("env"@) is Some
            &&& !concerned ==> kimi.object_at("env"@)->0.get(key) == before.get(key)
                && codex.object_at("env"@)->0.get(key) == before.get(key)
            &&& concerned && own && is_kimi(provider) ==> kimi.object_at("env"@)->0.get(key)
                == provider.env()->0.get(key)
            &&& concerned && own && provider.codex_oauth() ==> codex.object_at("env"@)->0.get(key)
                == provider.env()->0.get(key)
            &&& concerned && !own && is_kimi(provider) ==> kimi.object_at("env"@)->0.get(key)
                == Some(JsonTree::Text("262144"@))
            &&& concerned && !own && provider.codex_oauth() && targets_gpt56(provider.env())
                ==> codex.object_at("env"@)->0.get(key) == Some(JsonTree::Text("372000"@))
            &&& concerned && !own && provider.codex_oauth() && !targets_gpt56(provider.env())
                ==> codex.object_at("env"@)->0.get(key) == before.get(key)
        }),
        key != "env"@ && key != "autoSyncState"@ ==> with_kimi_defaults(settings, provider).get(key)
            == settings.get(key) && with_codex_defaults(settings, provider).get(key)
            == settings.get(key),
{
    lemma_keys_differ();
    lemma_fields_differ();
    lemma_fixed_windows();
}

/// Law: the sync state notes a fixed window as put in for both variables, where the provider has
/// neither; where it has one, it notes none. The rest of the sync state stays.
pub proof fn law_fixed_defaults_are_noted(
    settings: JsonTree,
    provider: ProviderView,
    key: Seq<char>,
)
    requires
        settings.object_at("env"@) is Some,
        is_kimi(provider),
    ensures
        ({
            let max = "CLAUDE_CODE_MAX_CONTEXT_TOKENS"@;
            let acw = "CLAUDE_CODE_AUTO_COMPACT_WINDOW"@;
            let own = provider.env()->0.get(acw) is Some || provider.env()->0.get(max) is Some;
            let before = settings.object_at("autoSyncState"@);
            let state = with_kimi_defaults(settings, provider).object_at("autoSyncState"@);
            &&& own ==> state is None || state->0.get("staticInjected"@) is None
            &&& !own ==> {
                &&& state is Some
                &&& state->0.get("staticInjected"@) is Some
                &&& state->0.get("staticInjected"@)->0.get("ACW"@) == Some(
                    JsonTree::Text("262144"@),
                )
                &&& state->0.get("staticInjected"@)->0.get("MAX"@) == Some(
                    JsonTree::Text("262144"@),
                )
            }
            &&& before is Some && key != "staticInjected"@ ==> state is Some && state->0.get(key)
                == before->0.get(key)
        }),
{
    lemma_keys_differ();
    lemma_fields_differ();
    lemma_fixed_windows();
    reveal_strlit("ACW");
    reveal_strlit("MAX");
    assert("ACW"@[0] == 'A');
    assert("MAX"@[0] == 'M');
}

/// Law: the same holds of a ChatGPT login with models of gpt-5.6 alone; with other models the
/// sync state stays as it is, unless the provider has one of the variables.
pub proof fn law_codex_defaults_are_noted(
    settings: JsonTree,
    provider: ProviderView,
    key: Seq<char>,
)
    requires
        settings.object_at("env"@) is Some,
        provider.codex_oauth(),
    ensures
        ({
            let max = "CLAUDE_CODE_MAX_CONTEXT_TOKENS"@;
            let acw = "CLAUDE_CODE_AUTO_COMPACT_WINDOW"@;
            let own = provider.env() is Some && (provider.env()->0.get(acw) is Some
                || provider.env()->0.get(max) is Some);
            let before = settings.object_at("autoSyncState"@);
            let after = with_codex_defaults(settings, provider);
            let state = after.object_at("autoSyncState"@);
            &&& own ==> state is None || state->0.get("staticInjected"@) is None
            &&& !own && targets_gpt56(provider.env()) ==> {
                &&& state is Some
                &&& state->0.get("staticInjected"@) is Some
                &&& state->0.get("staticInjected"@)->0.get("ACW"@) == Some(
                    JsonTree::Text("372000"@),
                )
                &&& state->0.get("staticInjected"@)->0.get("MAX"@) == Some(
                    JsonTree::Text("372000"@),
                )
            }
            &&& !own && !targets_gpt56(provider.env()) ==> after.get("autoSyncState"@)
                == settings.get("autoSyncState"@)
            &&& before is Some && key != "staticInjected"@ ==> state is Some && state->0.get(key)
                == before->0.get(key)
        }),
{
    lemma_keys_differ();
    lemma_fields_differ();
    lemma_fixed_windows();
    reveal_strlit("ACW");
    reveal_strlit("MAX");
    assert("ACW"@[0] == 'A');
    assert("MAX"@[0] == 'M');
}

/// Law: a fixed window goes out of the environment before it is stored, from each of the two
/// variables that holds it and that the provider does not have itself; any other value stays,
/// and so does everything with a provider of another kind.
pub proof fn law_fixed_defaults_go_by_variable(
    settings: JsonTree,
    provider: ProviderView,
    key: Seq<char>,
)
    requires
        settings.object_at("env"@) is Some,
    ensures
        ({
            let before = settings.object_at("env"@)->0;
            let kimi = without_kimi_defaults(settings, provider);
            let codex = without_codex_defaults(settings, provider);
            let concerned = (key == "CLAUDE_CODE_MAX_CONTEXT_TOKENS"@ || key
                == "CLAUDE_CODE_AUTO_COMPACT_WINDOW"@) && !(provider.env() is Some
                && provider.env()->0.get(key) is Some);
            &&& kimi.object_at("env"@) is Some && codex.object_at("env"@) is Some
            &&& kimi.object_at("env"@)->0.get(key) == if is_kimi(provider) && concerned
                && before.get(key) == Some(JsonTree::Text("262144"@)) {
                None
            } else {
                before.get(key)
            }
            &&& codex.object_at("env"@)->0.get(key) == if provider.codex_oauth() && targets_gpt56(
                provider.env(),
            ) && concerned && before.get(key) == Some(JsonTree::Text("372000"@)) {
                None
            } else {
                before.get(key)
            }
        }),
        key != "env"@ ==> without_kimi_defaults(settings, provider).get(key) == settings.get(key)
            && without_codex_defaults(settings, provider).get(key) == settings.get(key),
{
    lemma_keys_differ();
    lemma_fixed_windows();
}

/// Law: the defaults that follow from the provider's largest window go out of the environment
/// before it is stored, each from its variable alone, where the variable holds it and the
/// provider does not have it itself; any other value stays.
pub proof fn law_window_defaults_go_by_variable(
    settings: JsonTree,
    provider: ProviderView,
    window: u64,
    key: Seq<char>,
)
    requires
        settings.object_at("env"@) is Some,
        is_largest_listed(migrated(provider.settings), window),
    ensures
        ({
            let before = settings.object_at("env"@)->0;
            let after = without_window_defaults(settings, provider);
            let own = provider.env() is Some && provider.env()->0.get(key) is Some;
            let ratio = provider.settings.get("autoSyncCompactRatio"@);
            let default = if key == "CLAUDE_CODE_AUTO_COMPACT_WINDOW"@ && ratio is Some {
                decimal(share(window, compact_ratio(provider.settings)))
            } else {
                decimal(window as nat)
            };
            let concerned = key == "CLAUDE_CODE_MAX_CONTEXT_TOKENS"@ || key
                == "CLAUDE_CODE_AUTO_COMPACT_WINDOW"@;
            &&& after.object_at("env"@) is Some
            &&& after.object_at("env"@)->0.get(key) == if concerned && !own && before.get(key)
                == Some(JsonTree::Text(default)) {
                None
            } else {
                before.get(key)
            }
            &&& key != "env"@ ==> after.get(key) == settings.get(key)
        }),
{
    lemma_listed_target(migrated(provider.settings), window);
    lemma_keys_differ();
}

/// Law: where the provider has no window, behind a model's name or listed, nothing is taken out
/// for one.
pub proof fn law_no_window_nothing_goes(settings: JsonTree, provider: ProviderView)
    requires
        lists_no_window(migrated(provider.settings)),
    ensures
        without_window_defaults(settings, provider) == settings,
{
    lemma_listed_target(migrated(provider.settings), 0);
}

/// Law: the compact ratio is the float that the provider has under its name, where that is from
/// 0.2 to 0.95, and 0.95 in any other case.
pub proof fn law_compact_ratio(settings: JsonTree)
    ensures
        settings.get("autoSyncCompactRatio"@) matches Some(JsonTree::Float(bits)) && (
        0x3fc9_9999_9999_999a <= bits <= 0x3fee_6666_6666_6666) ==> compact_ratio(settings)
            == (Ratio { bits: settings.get("autoSyncCompactRatio"@)->0->Float_0 }),
        !(settings.get("autoSyncCompactRatio"@) matches Some(JsonTree::Float(bits)) && (
        0x3fc9_9999_9999_999a <= bits <= 0x3fee_6666_6666_6666)) ==> compact_ratio(settings)
            == (Ratio { bits: 0x3fee_6666_6666_6666 }),
{
}

/// Law: a subagent's model whose window is a million tokens or more is marked so in the live
/// environment, unless a window stands behind its name; a smaller one is not. Nothing else
/// changes.
pub proof fn law_subagent_marker(
    settings: JsonTree,
    provider: ProviderView,
    key: Seq<char>,
)
    requires
        settings.object_at("env"@) is Some,
    ensures
        ({
            let subagent = "CLAUDE_CODE_SUBAGENT_MODEL"@;
            let before = settings.object_at("env"@)->0;
            let after = with_subagent_marker(settings, provider);
            let window = context_window(provider.settings, subagent);
            &&& after.object_at("env"@) is Some
            &&& before.text_at(subagent) matches Some(model) ==> after.object_at("env"@)->0.get(
                subagent,
            ) == Some(
                JsonTree::Text(
                    if window is Some && window->0 >= 1_000_000 && suffix_window(model) is None {
                        model + "[1M]"@
                    } else {
                        model
                    },
                ),
            )
            &&& before.text_at(subagent) is None || key != subagent ==> after.object_at(
                "env"@,
            )->0.get(key) == before.get(key)
            &&& key != "env"@ ==> after.get(key) == settings.get(key)
        }),
{
}

/// Law: where no window is listed the sync state notes no injected default any more, and where the
/// settings have no environment nothing changes at all, once a window is listed.
pub proof fn law_no_window_no_note(settings: JsonTree, provider: ProviderView, key: Seq<char>)
    ensures
        lists_no_window(settings) && lists_no_window(provider.settings) ==> {
            let before = settings.object_at("autoSyncState"@);
            let after = with_window_defaults(settings, provider).object_at("autoSyncState"@);
            &&& before is None ==> with_window_defaults(settings, provider) == settings
            &&& before is Some ==> after is Some && after->0.get("staticInjected"@) is None
            &&& before is Some && key != "staticInjected"@ ==> after->0.get(key) == before->0.get(
                key,
            )
        },
        settings.object_at("env"@) is None && !(lists_no_window(settings) && lists_no_window(
            provider.settings,
        )) ==> with_window_defaults(settings, provider) == settings,
{
    lemma_listed_target(settings, 0);
    lemma_listed_target(provider.settings, 0);
    if settings.object_at("env"@) is None && !(lists_no_window(settings) && lists_no_window(
        provider.settings,
    )) {
        let lister = if lists_no_window(settings) {
            provider.settings
        } else {
            settings
        };
        let variable = choose|variable: Seq<char>|
            is_model_variable(variable) && #[trigger] listed(lister, variable) is Some && listed(
                lister,
                variable,
            )->0 is Natural;
        law_largest_listed_window(lister, variable);
    }
}

/// Law: a note of injected defaults holds both of them, and clearing the note takes it out; either
/// leaves the rest of the sync state, and every other field, as it is.
pub proof fn law_notes_of_injected_defaults(
    settings: JsonTree,
    acw: Seq<char>,
    max: Seq<char>,
    key: Seq<char>,
)
    requires
        settings is Object,
    ensures
        ({
            let before = match settings.object_at("autoSyncState"@) {
                Some(state) => state,
                None => JsonTree::empty_object(),
            };
            let noted = marked_injected(settings, acw, max);
            let cleared = marked_explicit(settings);
            let state = noted.object_at("autoSyncState"@);
            &&& state is Some
            &&& state->0.get("staticInjected"@) is Some
            &&& state->0.get("staticInjected"@)->0.get("ACW"@) == Some(JsonTree::Text(acw))
            &&& state->0.get("staticInjected"@)->0.get("MAX"@) == Some(JsonTree::Text(max))
            &&& key != "ACW"@ && key != "MAX"@ ==> state->0.get("staticInjected"@)->0.get(
                key,
            ) is None
            &&& key != "staticInjected"@ ==> state->0.get(key) == before.get(key)
            &&& key != "autoSyncState"@ ==> noted.get(key) == settings.get(key) && cleared.get(key)
                == settings.get(key)
            &&& settings.object_at("autoSyncState"@) is None ==> cleared == settings
            &&& settings.object_at("autoSyncState"@) is Some ==> {
                &&& cleared.object_at("autoSyncState"@) is Some
                &&& cleared.object_at("autoSyncState"@)->0.get("staticInjected"@) is None
                &&& key != "staticInjected"@ ==> cleared.object_at("autoSyncState"@)->0.get(key)
                    == before.get(key)
            }
        }),
{
    reveal_strlit("ACW");
    reveal_strlit("MAX");
    assert("ACW"@[0] == 'A');
    assert("MAX"@[0] == 'M');
}

/// Law: the window that a provider's context variables follow is the largest that is listed for a
/// model variable or stands behind a model's name; there is none only where there is no such.
pub proof fn law_window_of_a_provider(provider: &Provider, result: Option<u64>, window: u64)
    requires
        call_ensures(claude_context_window_target, (provider,), result),
    ensures
        is_largest_listed(migrated(provider@.settings), window) ==> result == Some(window),
        lists_no_window(migrated(provider@.settings)) ==> result is None,
        result matches Some(found) ==> is_largest_listed(migrated(provider@.settings), found),
{
    let settings = migrated(provider@.settings);
    lemma_listed_target(settings, window);
    law_largest_listed_window(settings, Seq::empty());
    if let Some(found) = result {
        assert forall|key: Seq<char>| is_model_variable(key) implies (#[trigger] listed(
            settings,
            key,
        ) matches Some(JsonTree::Natural(other)) ==> other <= found) by {
            law_largest_listed_window(settings, key);
        }
    }
}

/// Law: a provider is behind a ChatGPT login where its kind is said to be, and only there.
pub proof fn law_kind_of_login(provider: ProviderView)
    ensures
        provider.codex_oauth() <==> provider.meta is Some && provider.meta->0.provider_type == Some(
            "codex_oauth"@,
        ),
        provider.env() == provider.settings.object_at("env"@),
{
}

/// Law: once the window defaults are put in, an environment has both context variables, where a
/// window is listed; each that it did not have holds the text that follows from the largest listed
/// window, whether or not it had the other.
pub proof fn law_both_variables_are_put_in(
    settings: &mut serde_json::Value,
    provider: &Provider,
    window: u64,
)
    requires
        call_ensures(apply_context_window_defaults, (settings, provider), ()),
        tree(*old(settings)).object_at("env"@) is Some,
        is_largest_listed(tree(*old(settings)), window),
    ensures
        ({
            let before = tree(*old(settings)).object_at("env"@)->0;
            let after = tree(*final(settings)).object_at("env"@);
            let max = "CLAUDE_CODE_MAX_CONTEXT_TOKENS"@;
            let acw = "CLAUDE_CODE_AUTO_COMPACT_WINDOW"@;
            let compact = if provider@.settings.get("autoSyncCompactRatio"@) is Some {
                share(window, compact_ratio(provider@.settings))
            } else {
                window as nat
            };
            &&& after is Some
            &&& before.get(max) is Some ==> after->0.get(max) == before.get(max)
            &&& before.get(max) is None ==> after->0.get(max) == Some(
                JsonTree::Text(decimal(window as nat)),
            )
            &&& before.get(acw) is Some ==> after->0.get(acw) == before.get(acw)
            &&& before.get(acw) is None ==> after->0.get(acw) == Some(
                JsonTree::Text(decimal(compact)),
            )
        }),
{
    law_window_defaults_fill_what_is_missing(
        tree(*old(settings)),
        provider@,
        window,
        Seq::empty(),
    );
}

/// Law: once the defaults of a provider's kind are put in, each context variable holds the
/// provider's own value, or else the fixed window.
pub proof fn law_fixed_windows_are_put_in(
    kimi: &mut serde_json::Value,
    codex: &mut serde_json::Value,
    provider: &Provider,
    key: Seq<char>,
)
    requires
        call_ensures(apply_kimi_for_coding_context_defaults, (kimi, provider), ()),
        call_ensures(apply_codex_oauth_claude_context_defaults, (codex, provider), ()),
        tree(*old(kimi)).object_at("env"@) is Some,
        tree(*old(codex)).object_at("env"@) is Some,
        key == "CLAUDE_CODE_MAX_CONTEXT_TOKENS"@ || key == "CLAUDE_CODE_AUTO_COMPACT_WINDOW"@,
    ensures
        tree(*final(kimi)).object_at("env"@) is Some,
        tree(*final(codex)).object_at("env"@) is Some,
        ({
            let own = match provider@.env() {
                Some(env) => env.get(key),
                None => None,
            };
            let with_kimi = tree(*final(kimi)).object_at("env"@)->0.get(key);
            let with_codex = tree(*final(codex)).object_at("env"@)->0.get(key);
            &&& !is_kimi(provider@) ==> tree(*final(kimi)) == tree(*old(kimi))
            &&& !provider@.codex_oauth() ==> tree(*final(codex)) == tree(*old(codex))
            &&& is_kimi(provider@) && own is Some ==> with_kimi == own
            &&& is_kimi(provider@) && own is None ==> with_kimi == Some(JsonTree::Text("262144"@))
            &&& provider@.codex_oauth() && own is Some ==> with_codex == own
            &&& provider@.codex_oauth() && own is None && targets_gpt56(provider@.env())
                ==> with_codex == Some(JsonTree::Text("372000"@))
            &&& provider@.codex_oauth() && own is None && !targets_gpt56(provider@.env())
                ==> with_codex == tree(*old(codex)).object_at("env"@)->0.get(key)
        }),
{
    law_fixed_defaults_by_variable(tree(*old(kimi)), provider@, key);
    law_fixed_defaults_by_variable(tree(*old(codex)), provider@, key);
}

/// Law: the defaults of a provider's kind are taken out of each context variable that holds them,
/// unless the provider has the variable itself; any other value stays.
pub proof fn law_fixed_windows_are_taken_out(
    kimi: &mut serde_json::Value,
    codex: &mut serde_json::Value,
    provider: &Provider,
    key: Seq<char>,
)
    requires
        call_ensures(strip_injected_kimi_for_coding_context_defaults, (kimi, provider), ()),
        call_ensures(strip_injected_codex_oauth_context_defaults, (codex, provider), ()),
        tree(*old(kimi)).object_at("env"@) is Some,
        tree(*old(codex)).object_at("env"@) is Some,
        key == "CLAUDE_CODE_MAX_CONTEXT_TOKENS"@ || key == "CLAUDE_CODE_AUTO_COMPACT_WINDOW"@,
    ensures
        tree(*final(kimi)).object_at("env"@) is Some,
        tree(*final(codex)).object_at("env"@) is Some,
        ({
            let own = provider@.env() is Some && provider@.env()->0.get(key) is Some;
            let kimi_before = tree(*old(kimi)).object_at("env"@)->0.get(key);
            let codex_before = tree(*old(codex)).object_at("env"@)->0.get(key);
            let gone_from_kimi = is_kimi(provider@) && !own && kimi_before == Some(
                JsonTree::Text("262144"@),
            );
            let gone_from_codex = provider@.codex_oauth() && targets_gpt56(provider@.env()) && !own
                && codex_before == Some(JsonTree::Text("372000"@));
            &&& tree(*final(kimi)).object_at("env"@)->0.get(key) == (if gone_from_kimi {
                None
            } else {
                kimi_before
            })
            &&& tree(*final(codex)).object_at("env"@)->0.get(key) == (if gone_from_codex {
                None
            } else {
                codex_before
            })
        }),
{
    law_fixed_defaults_go_by_variable(tree(*old(kimi)), provider@, key);
    law_fixed_defaults_go_by_variable(tree(*old(codex)), provider@, key);
}

/// Law: the window that a provider's kind fixes is found by its endpoint, or by its login and its
/// models, and by nothing else.
pub proof fn law_fixed_window_is_found(provider: &Provider, result: Option<u64>)
    requires
        call_ensures(static_context_window_fallback, (provider,), result),
    ensures
        is_kimi(provider@) ==> result == Some(262_144u64),
        !is_kimi(provider@) && provider@.codex_oauth() && targets_gpt56(provider@.env()) ==> result
            == Some(372_000u64),
        result is Some ==> is_kimi(provider@) || provider@.codex_oauth() && targets_gpt56(
            provider@.env(),
        ),
{
    law_fixed_windows(provider@);
}

} // verus!
