//! The watcher of the assistant's settings file: when the user switches the model, the
//! context variables in the file follow.
//!
//! The watcher remembers what it saw or wrote last. A change to the file that leaves
//! the model and both variables as remembered, such as the watcher's own write, is
//! none to act upon. Reading and writing the file is up to the caller.

use vstd::prelude::*;

use crate::context_defaults::{
    auto_sync_state_mut, provider_compact_ratio, static_context_window_fallback, window_mark,
};
use crate::effective::sanitize_claude_settings_for_live;
use crate::json::{
    as_bool, as_object, as_object_mut, as_str, copy, get, get_object, get_text, map_get, map_insert,
    map_new, object, parse, print_pretty, set_entry, string, JsonMap,
};
use crate::model_window::resolve_context_window;
use crate::provider::Provider;
use crate::ratio::{share_of, Ratio, HIGHEST_RATIO_BITS};
use crate::text::{same_text, to_decimal};

verus! {

use crate::context_defaults::{
    acw_key, compact_ratio, injected_mark, lemma_keys_differ, max_key, static_window, sync_state,
};
use crate::common_config::optional_str;
use crate::effective::{internal_fields, sanitized};
use crate::json::{
    alike, entries, lemma_alike_entries, lemma_alike_without_floats, lemma_set_keeps, parsed_json,
    pretty_json, tree, JsonTree,
};
use crate::model_window::{context_window, listed, named_model, suffix_window};
use crate::provider::{optional_text, ProviderView};
use crate::ratio::{law_ratio_or_default, law_share_within_window, share};
use crate::text::decimal;

/// The model that is in use, and the window that its variables are to follow.
#[derive(Debug, Clone, PartialEq, Eq)]
pub struct ActiveModelWindow {
    pub model: String,
    pub window: u64,
}

/// What the watcher remembers of the settings file.
#[derive(Debug, Clone, PartialEq, Eq)]
pub struct WatcherSnapshot {
    pub model: Option<String>,
    pub acw: Option<String>,
    pub max: Option<String>,
}

/// The mathematical value of a [`WatcherSnapshot`].
pub struct SnapshotView {
    pub model: Option<Seq<char>>,
    pub acw: Option<Seq<char>>,
    pub max: Option<Seq<char>>,
}

impl View for WatcherSnapshot {
    type V = SnapshotView;

    open spec fn view(&self) -> SnapshotView {
        SnapshotView {
            model: optional_text(self.model),
            acw: optional_text(self.acw),
            max: optional_text(self.max),
        }
    }
}

/// What is remembered, where anything is.
pub open spec fn remembered(state: Option<WatcherSnapshot>) -> Option<SnapshotView> {
    match state {
        Some(snapshot) => Some(snapshot@),
        None => None,
    }
}

/// The variable that names the model of a role.
pub open spec fn role_key(role: Seq<char>) -> Option<Seq<char>> {
    if role == "sonnet"@ {
        Some("ANTHROPIC_DEFAULT_SONNET_MODEL"@)
    } else if role == "opus"@ {
        Some("ANTHROPIC_DEFAULT_OPUS_MODEL"@)
    } else if role == "fable"@ {
        Some("ANTHROPIC_DEFAULT_FABLE_MODEL"@)
    } else if role == "haiku"@ {
        Some("ANTHROPIC_DEFAULT_HAIKU_MODEL"@)
    } else if role == "subagent"@ {
        Some("CLAUDE_CODE_SUBAGENT_MODEL"@)
    } else {
        None
    }
}

/// The window of the role that the settings file has in use: the one that the
/// provider's settings give, or else the one that its kind fixes.
pub open spec fn active_window(settings: JsonTree, provider: ProviderView) -> Option<u64> {
    match settings.text_at("model"@) {
        Some(role) => match role_key(role) {
            Some(key) => match context_window(provider.settings, key) {
                Some(window) => Some(window),
                None => static_window(provider),
            },
            None => None,
        },
        None => None,
    }
}

fn role_env_key(role: &str) -> (result: Option<&'static str>)
    ensures
        optional_str(result) == role_key(role@),
{
    if same_text(role, "sonnet") {
        Some("ANTHROPIC_DEFAULT_SONNET_MODEL")
    } else if same_text(role, "opus") {
        Some("ANTHROPIC_DEFAULT_OPUS_MODEL")
    } else if same_text(role, "fable") {
        Some("ANTHROPIC_DEFAULT_FABLE_MODEL")
    } else if same_text(role, "haiku") {
        Some("ANTHROPIC_DEFAULT_HAIKU_MODEL")
    } else if same_text(role, "subagent") {
        Some("CLAUDE_CODE_SUBAGENT_MODEL")
    } else {
        None
    }
}

/// The role that the settings file has in use, and its window.
pub fn resolve_active_model_window(settings: &serde_json::Value, provider: &Provider) -> (result:
    Option<ActiveModelWindow>)
    ensures
        result is Some <==> active_window(tree(*settings), provider@) is Some,
        result matches Some(active) ==> {
            &&& active_window(tree(*settings), provider@) == Some(active.window)
            &&& tree(*settings).text_at("model"@) == Some(active.model@)
        },
{
    let role = match get_text(settings, "model") {
        Some(role) => role,
        None => {
            return None;
        },
    };
    let key = match role_env_key(role) {
        Some(key) => key,
        None => {
            return None;
        },
    };
    let window = match resolve_context_window(&provider.settings_config, key) {
        Some(window) => Some(window),
        None => static_context_window_fallback(provider),
    };
    match window {
        Some(window) => Some(ActiveModelWindow { model: role.to_owned(), window }),
        None => None,
    }
}

/// What the two variables are to hold for a window: its share by a ratio, 0.95 in
/// place of one that is not valid, and the window itself.
pub fn build_env_writes(window: u64, ratio: Ratio) -> (result: Vec<(&'static str, String)>)
    ensures
        result@.len() == 2,
        result@[0].0@ == acw_key(),
        result@[0].1@ == decimal(share(window, ratio.or_default())),
        result@[1].0@ == max_key(),
        result@[1].1@ == decimal(window as nat),
{
    let taken = if ratio.is_valid() {
        ratio
    } else {
        Ratio { bits: HIGHEST_RATIO_BITS }
    };
    let acw = to_decimal(share_of(window, taken));
    vec![
        ("CLAUDE_CODE_AUTO_COMPACT_WINDOW", acw),
        ("CLAUDE_CODE_MAX_CONTEXT_TOKENS", to_decimal(window)),
    ]
}

fn copied(text: Option<&str>) -> (result: Option<String>)
    ensures
        optional_text(result) == optional_str(text),
{
    match text {
        Some(text) => Some(text.to_owned()),
        None => None,
    }
}

fn same_optional(a: &Option<String>, b: Option<&str>) -> (result: bool)
    ensures
        result == (optional_text(*a) == optional_str(b)),
{
    match (a, b) {
        (Some(a), Some(b)) => same_text(a.as_str(), b),
        (None, None) => true,
        _ => false,
    }
}

/// Whether the model or one of the variables is not as remembered. Nothing is
/// remembered by asking.
pub fn should_process(
    state: &Option<WatcherSnapshot>,
    new_model: Option<&str>,
    new_acw: Option<&str>,
    new_max: Option<&str>,
) -> (result: bool)
    ensures
        result == (remembered(*state) != Some(
            SnapshotView {
                model: optional_str(new_model),
                acw: optional_str(new_acw),
                max: optional_str(new_max),
            },
        )),
{
    match state {
        Some(snapshot) => !(same_optional(&snapshot.model, new_model) && same_optional(
            &snapshot.acw,
            new_acw,
        ) && same_optional(&snapshot.max, new_max)),
        None => true,
    }
}

/// Remembers the model and the variables.
pub fn record_processed_state(
    state: &mut Option<WatcherSnapshot>,
    model: Option<&str>,
    acw: Option<&str>,
    max: Option<&str>,
)
    ensures
        remembered(*final(state)) == Some(
            SnapshotView {
                model: optional_str(model),
                acw: optional_str(acw),
                max: optional_str(max),
            },
        ),
{
    *state = Some(WatcherSnapshot { model: copied(model), acw: copied(acw), max: copied(max) });
}

/// A variable of the settings file.
pub open spec fn variable(settings: JsonTree, key: Seq<char>) -> Option<Seq<char>> {
    match settings.object_at("env"@) {
        Some(env) => env.text_at(key),
        None => None,
    }
}

/// What there is to remember of a settings file.
pub open spec fn snapshot_of(settings: JsonTree) -> SnapshotView {
    SnapshotView {
        model: settings.text_at("model"@),
        acw: variable(settings, acw_key()),
        max: variable(settings, max_key()),
    }
}

fn env_text<'a>(settings: &'a serde_json::Value, key: &str) -> (result: Option<&'a str>)
    ensures
        optional_str(result) == variable(tree(*settings), key@),
{
    match get_object(settings, "env") {
        Some(env) => match map_get(env, key) {
            Some(value) => as_str(value),
            None => None,
        },
        None => None,
    }
}

/// What there is to remember of a settings file.
pub fn take_snapshot(settings: &serde_json::Value) -> (result: WatcherSnapshot)
    ensures
        result@ == snapshot_of(tree(*settings)),
{
    WatcherSnapshot {
        model: copied(get_text(settings, "model")),
        acw: copied(env_text(settings, "CLAUDE_CODE_AUTO_COMPACT_WINDOW")),
        max: copied(env_text(settings, "CLAUDE_CODE_MAX_CONTEXT_TOKENS")),
    }
}

/// Whether the proxy has put its placeholder into the settings file.
pub open spec fn taken_over(settings: JsonTree) -> bool {
    variable(settings, "ANTHROPIC_AUTH_TOKEN"@) == Some("PROXY_MANAGED"@)
}

/// Whether the proxy has put its placeholder into the settings file.
pub fn is_claude_live_taken_over(settings: &serde_json::Value) -> (result: bool)
    ensures
        result == taken_over(tree(*settings)),
{
    match env_text(settings, "ANTHROPIC_AUTH_TOKEN") {
        Some(token) => same_text(token, "PROXY_MANAGED"),
        None => false,
    }
}

/// Whether a provider's settings say that the variables are to follow the model.
pub open spec fn auto_sync(settings: JsonTree) -> bool {
    settings.get("autoSyncContextWindow"@) == Some(JsonTree::Bool(true))
}

/// Whether the variables are to follow the model; not, where nothing is said.
pub fn effective_auto_sync_enabled(provider: &Provider) -> (result: bool)
    ensures
        result == auto_sync(provider@.settings),
{
    match get(&provider.settings_config, "autoSyncContextWindow") {
        Some(value) => match as_bool(value) {
            Some(enabled) => enabled,
            None => false,
        },
        None => false,
    }
}

/// An environment with the first `n` variables of a list written.
pub open spec fn written_env(env: JsonTree, writes: Seq<(&'static str, String)>, n: nat) -> JsonTree
    decreases n,
{
    if n == 0 {
        env
    } else {
        written_env(env, writes, (n - 1) as nat).set(
            writes[n - 1].0@,
            JsonTree::Text(writes[n - 1].1@),
        )
    }
}

/// A settings file with variables written, and without internal fields.
pub open spec fn written_settings(settings: JsonTree, writes: Seq<(&'static str, String)>) -> JsonTree {
    let env = match settings.get("env"@) {
        Some(env) => env,
        None => JsonTree::empty_object(),
    };
    sanitized(settings).set("env"@, written_env(env, writes, writes.len()))
}

/// Why variables cannot be written into the text of a settings file.
pub open spec fn write_error(content: Seq<char>) -> Option<Seq<char>> {
    match parsed_json(content) {
        Err(words) => Some(words),
        Ok(settings) => if !(settings is Object) {
            Some("top-level not object"@)
        } else if settings.get("env"@) is Some && settings.object_at("env"@) is None {
            Some("env not object"@)
        } else {
            None
        },
    }
}

/// The environment is no internal field.
proof fn lemma_env_is_not_internal()
    ensures
        !internal_fields().contains("env"@),
        !internal_fields().contains("model"@),
        "env"@ != "model"@,
{
    reveal_strlit("env");
    reveal_strlit("model");
    reveal_strlit("api_format");
    reveal_strlit("apiFormat");
    reveal_strlit("openrouter_compat_mode");
    reveal_strlit("openrouterCompatMode");
    reveal_strlit("autoSyncContextWindow");
    reveal_strlit("autoSyncCompactRatio");
    reveal_strlit("contextWindows");
    reveal_strlit("autoSyncState");
    assert("env"@.len() == 3);
    assert("model"@.len() == 5);
    assert("api_format"@.len() == 10);
    assert("apiFormat"@.len() == 9);
    assert("openrouter_compat_mode"@.len() == 22);
    assert("openrouterCompatMode"@.len() == 20);
    assert("autoSyncContextWindow"@.len() == 21);
    assert("autoSyncCompactRatio"@.len() == 20);
    assert("contextWindows"@.len() == 14);
    assert("autoSyncState"@.len() == 13);
}

fn write_variables(env: &mut JsonMap, writes: &Vec<(&'static str, String)>)
    ensures
        JsonTree::Object(entries(*final(env))) == written_env(
            JsonTree::Object(entries(*old(env))),
            writes@,
            writes@.len(),
        ),
{
    let mut i: usize = 0;
    while i < writes.len()
        invariant
            i <= writes.len(),
            JsonTree::Object(entries(*env)) == written_env(
                JsonTree::Object(entries(*old(env))),
                writes@,
                i as nat,
            ),
        decreases writes.len() - i,
    {
        map_insert(env, writes[i].0.to_owned(), string(writes[i].1.clone()));
        i += 1;
    }
}

/// Writing variables puts no float in, and nothing that would nest too deep to be read.
proof fn lemma_written_settings(settings: JsonTree, writes: Seq<(&'static str, String)>)
    requires
        settings is Object,
        settings.get("env"@) is Some ==> settings.object_at("env"@) is Some,
    ensures
        settings.float_free() ==> written_settings(settings, writes).float_free(),
        settings.nests_within(127) ==> written_settings(settings, writes).nests_within(127),
{
    let map = settings->Object_0;
    let clean = sanitized(settings);
    assert(clean is Object && clean->Object_0 == map.remove_keys(internal_fields()));
    let env = match settings.get("env"@) {
        Some(env) => env,
        None => JsonTree::empty_object(),
    };
    assert(JsonTree::empty_object().nests_within(126)) by {
        assert(JsonTree::empty_object()->Object_0 == Map::<Seq<char>, JsonTree>::empty());
    }
    assert(JsonTree::empty_object().float_free()) by {
        assert(JsonTree::empty_object()->Object_0 == Map::<Seq<char>, JsonTree>::empty());
    }
    lemma_written_env(env, writes, writes.len());
    lemma_set_keeps(clean, "env"@, written_env(env, writes, writes.len()), 126);
    if settings.float_free() {
        assert(env.float_free());
        assert(clean.float_free());
    }
    if settings.nests_within(127) {
        assert(env.nests_within(126));
        assert(clean.nests_within(127));
    }
}

proof fn lemma_written_env(env: JsonTree, writes: Seq<(&'static str, String)>, n: nat)
    requires
        n <= writes.len(),
    ensures
        env.float_free() ==> written_env(env, writes, n).float_free(),
        env.nests_within(126) ==> written_env(env, writes, n).nests_within(126),
    decreases n,
{
    if n > 0 {
        lemma_written_env(env, writes, (n - 1) as nat);
        lemma_set_keeps(
            written_env(env, writes, (n - 1) as nat),
            writes[n - 1].0@,
            JsonTree::Text(writes[n - 1].1@),
            125,
        );
    }
}

/// The text of a settings file with variables written, everything else but the
/// internal fields kept.
pub fn update_env_fields(content: &str, writes: &Vec<(&'static str, String)>) -> (result: Result<
    String,
    String,
>)
    ensures
        result is Err <==> write_error(content@) is Some,
        result matches Err(words) ==> write_error(content@) == Some(words@),
        result matches Ok(text) ==> {
            let settings = written_settings(parsed_json(content@)->Ok_0, writes@);
            &&& text@ == pretty_json(settings)
            &&& parsed_json(text@) is Ok
            &&& alike(parsed_json(text@)->Ok_0, settings)
            &&& parsed_json(content@)->Ok_0.float_free() ==> parsed_json(text@)->Ok_0 == settings
        },
{
    let parsed = match parse(content) {
        Ok(parsed) => parsed,
        Err(words) => {
            return Err(words);
        },
    };
    if as_object(&parsed).is_none() {
        return Err("top-level not object".to_owned());
    }
    proof {
        lemma_env_is_not_internal();
    }
    let mut settings = sanitize_claude_settings_for_live(&parsed);
    assert(tree(settings).get("env"@) == tree(parsed).get("env"@));
    let mut env = match get(&settings, "env") {
        Some(env) => copy(env),
        None => object(map_new()),
    };
    match as_object_mut(&mut env) {
        Some(map) => {
            write_variables(map, writes);
        },
        None => {
            return Err("env not object".to_owned());
        },
    }
    set_entry(&mut settings, "env", env);
    proof {
        lemma_written_settings(tree(parsed), writes@);
    }
    let text = print_pretty(&settings);
    proof {
        if tree(parsed).float_free() {
            lemma_alike_without_floats(parsed_json(text@)->Ok_0, tree(settings));
        }
    }
    Ok(text)
}

/// Fails if a file was changed since it was read.
pub fn verify_file_unchanged(current: &str, expected: &str) -> (result: Result<(), String>)
    ensures
        result is Ok <==> current@ == expected@,
        result matches Err(words) ==> words@ == "settings.json changed between read and write"@,
{
    if same_text(current, expected) {
        Ok(())
    } else {
        Err("settings.json changed between read and write".to_owned())
    }
}

/// A write that the watcher wants made.
#[derive(Debug)]
pub struct WatcherWrite {
    /// The text to write in place of the one that was read.
    pub content: String,
    pub model: String,
    pub window: u64,
    pub acw: String,
    pub max: String,
}

/// The watcher of the assistant's settings file.
#[derive(Debug)]
pub struct ClaudeSettingsWatcher {
    /// What was seen or written last.
    pub state: Option<WatcherSnapshot>,
    /// The provider in use, with its effective settings.
    pub provider: Provider,
    /// Whether the watcher has been stopped.
    pub shutdown: bool,
}

/// Why a settings file is left alone.
pub open spec fn left_alone(
    state: Option<SnapshotView>,
    provider: ProviderView,
    settings: JsonTree,
) -> bool {
    ||| !taken_over(settings)
    ||| state == Some(snapshot_of(settings))
    ||| !auto_sync(provider.settings)
    ||| static_window(provider) is Some
    ||| active_window(settings, provider) is None
}

/// A settings file with the two context variables written for a window.
pub open spec fn synced(settings: JsonTree, acw: Seq<char>, max: Seq<char>) -> JsonTree {
    let env = match settings.get("env"@) {
        Some(env) => env,
        None => JsonTree::empty_object(),
    };
    sanitized(settings).set(
        "env"@,
        env.set(acw_key(), JsonTree::Text(acw)).set(max_key(), JsonTree::Text(max)),
    )
}

/// A provider's settings that note what was written last.
pub open spec fn noting_written(settings: JsonTree, acw: Seq<char>, max: Seq<char>) -> JsonTree {
    settings.set(
        "autoSyncState"@,
        sync_state(settings).set("lastWritten"@, injected_mark(acw, max)),
    )
}

/// Notes in a provider's settings what was written last.
pub fn record_last_written(provider: &mut Provider, acw: &str, max: &str)
    ensures
        final(provider)@ == (ProviderView {
            settings: noting_written(old(provider)@.settings, acw@, max@),
            ..old(provider)@
        }),
{
    if let Some(state) = auto_sync_state_mut(&mut provider.settings_config) {
        map_insert(state, "lastWritten".to_owned(), window_mark(acw, max));
    }
}

/// A watcher that starts from the text of the settings file, where there is one. A
/// text that is no JSON is not remembered.
pub fn spawn_claude_settings_watcher(content: Option<&str>, provider: Provider) -> (result:
    ClaudeSettingsWatcher)
    ensures
        remembered(result.state) == match content {
            Some(content) => match parsed_json(content@) {
                Ok(settings) => Some(snapshot_of(settings)),
                Err(_) => None,
            },
            None => None,
        },
        result.provider@ == provider@,
        !result.shutdown,
{
    let state = match content {
        Some(content) => match parse(content) {
            Ok(settings) => Some(take_snapshot(&settings)),
            Err(_) => None,
        },
        None => None,
    };
    ClaudeSettingsWatcher { state, provider, shutdown: false }
}

impl ClaudeSettingsWatcher {
    /// What is to be written, now that the settings file holds `content`; nothing,
    /// where the file is to be left alone. The watcher itself stays as it is until
    /// the write has been made.
    pub fn handle_settings_change(&self, content: &str) -> (result: Option<WatcherWrite>)
        ensures
            result is None <==> self.shutdown || parsed_json(content@) is Err || left_alone(
                remembered(self.state),
                self.provider@,
                parsed_json(content@)->Ok_0,
            ),
            result matches Some(write) ==> {
                let settings = parsed_json(content@)->Ok_0;
                let after = synced(settings, write.acw@, write.max@);
                &&& settings.text_at("model"@) == Some(write.model@)
                &&& active_window(settings, self.provider@) == Some(write.window)
                &&& write.acw@ == decimal(
                    share(write.window, compact_ratio(self.provider@.settings)),
                )
                &&& write.max@ == decimal(write.window as nat)
                &&& write.content@ == pretty_json(after)
                &&& parsed_json(write.content@) is Ok
                &&& alike(parsed_json(write.content@)->Ok_0, after)
                &&& settings.float_free() ==> parsed_json(write.content@)->Ok_0 == after
                &&& snapshot_of(parsed_json(write.content@)->Ok_0) == (SnapshotView {
                    model: Some(write.model@),
                    acw: Some(write.acw@),
                    max: Some(write.max@),
                })
                &&& taken_over(parsed_json(write.content@)->Ok_0)
            },
    {
        if self.shutdown {
            return None;
        }
        let settings = match parse(content) {
            Ok(settings) => settings,
            Err(_) => {
                return None;
            },
        };
        if !is_claude_live_taken_over(&settings) {
            return None;
        }
        if !should_process(
            &self.state,
            get_text(&settings, "model"),
            env_text(&settings, "CLAUDE_CODE_AUTO_COMPACT_WINDOW"),
            env_text(&settings, "CLAUDE_CODE_MAX_CONTEXT_TOKENS"),
        ) {
            return None;
        }
        if !effective_auto_sync_enabled(&self.provider) {
            return None;
        }
        if static_context_window_fallback(&self.provider).is_some() {
            return None;
        }
        let active = match resolve_active_model_window(&settings, &self.provider) {
            Some(active) => active,
            None => {
                return None;
            },
        };
        let writes = build_env_writes(active.window, provider_compact_ratio(&self.provider));
        let content = match update_env_fields(content, &writes) {
            Ok(content) => content,
            Err(_) => {
                return None;
            },
        };
        proof {
            let env = tree(settings).object_at("env"@)->0;
            assert(written_env(env, writes@, 1) == env.set(
                acw_key(),
                JsonTree::Text(writes@[0].1@),
            )) by {
                assert(written_env(env, writes@, 0) == env);
            }
            assert(written_env(env, writes@, 2) == written_env(env, writes@, 1).set(
                max_key(),
                JsonTree::Text(writes@[1].1@),
            ));
            let after = synced(tree(settings), writes@[0].1@, writes@[1].1@);
            law_own_write_is_left_alone(
                tree(settings),
                self.provider@,
                active.model@,
                writes@[0].1@,
                writes@[1].1@,
            );
            law_write_touches_nothing_else(
                tree(settings),
                writes@[0].1@,
                writes@[1].1@,
                Seq::empty(),
            );
            lemma_alike_settings(parsed_json(content@)->Ok_0, after);
        }
        Some(
            WatcherWrite {
                content,
                model: active.model,
                window: active.window,
                acw: writes[0].1.clone(),
                max: writes[1].1.clone(),
            },
        )
    }

    /// Remembers a write that has been made, and hands out the provider's settings to
    /// store. Whether storing them succeeds makes no difference here: the file holds
    /// the new values either way.
    pub fn written(&mut self, write: &WatcherWrite) -> (result: serde_json::Value)
        ensures
            remembered(final(self).state) == Some(
                SnapshotView {
                    model: Some(write.model@),
                    acw: Some(write.acw@),
                    max: Some(write.max@),
                },
            ),
            final(self).provider@ == (ProviderView {
                settings: noting_written(old(self).provider@.settings, write.acw@, write.max@),
                ..old(self).provider@
            }),
            final(self).shutdown == old(self).shutdown,
            tree(result) == final(self).provider@.settings,
    {
        record_last_written(&mut self.provider, write.acw.as_str(), write.max.as_str());
        record_processed_state(
            &mut self.state,
            Some(write.model.as_str()),
            Some(write.acw.as_str()),
            Some(write.max.as_str()),
        );
        copy(&self.provider.settings_config)
    }

    /// Stops the watcher.
    pub fn stop(&mut self)
        ensures
            *final(self) == (ClaudeSettingsWatcher { shutdown: true, ..*old(self) }),
    {
        self.shutdown = true;
    }
}

/// Puts a watcher in the place of the one in use, and hands that one out, stopped.
pub fn replace_watcher(slot: &mut Option<ClaudeSettingsWatcher>, new: ClaudeSettingsWatcher) -> (replaced:
    Option<ClaudeSettingsWatcher>)
    ensures
        *final(slot) == Some(new),
        match *old(slot) {
            Some(before) => replaced == Some(ClaudeSettingsWatcher { shutdown: true, ..before }),
            None => replaced is None,
        },
{
    let mut before = slot.take();
    *slot = Some(new);
    if let Some(watcher) = before.as_mut() {
        watcher.stop();
    }
    before
}

/// Documents that are alike have the same model and variables.
proof fn lemma_alike_settings(a: JsonTree, b: JsonTree)
    requires
        alike(a, b),
    ensures
        snapshot_of(a) == snapshot_of(b),
        taken_over(a) == taken_over(b),
{
    lemma_alike_entries(a, b, "model"@);
    lemma_alike_entries(a, b, "env"@);
    if a.object_at("env"@) is Some {
        let x = a.object_at("env"@)->0;
        let y = b.object_at("env"@)->0;
        lemma_alike_entries(x, y, acw_key());
        lemma_alike_entries(x, y, max_key());
        lemma_alike_entries(x, y, "ANTHROPIC_AUTH_TOKEN"@);
    }
}

/// Law: a file that reads like what the watcher wrote itself, whatever has become of its
/// floats, is nothing to act upon.
pub proof fn law_own_text_is_left_alone(
    settings: JsonTree,
    provider: ProviderView,
    model: Seq<char>,
    acw: Seq<char>,
    max: Seq<char>,
    read: JsonTree,
)
    requires
        settings is Object,
        settings.text_at("model"@) == Some(model),
        settings.get("env"@) is Some ==> settings.object_at("env"@) is Some,
        alike(read, synced(settings, acw, max)),
    ensures
        left_alone(
            Some(SnapshotView { model: Some(model), acw: Some(acw), max: Some(max) }),
            provider,
            read,
        ),
{
    law_own_write_is_left_alone(settings, provider, model, acw, max);
    lemma_alike_settings(read, synced(settings, acw, max));
}

/// Law: what the watcher wrote itself is nothing to act upon.
pub proof fn law_own_write_is_left_alone(
    settings: JsonTree,
    provider: ProviderView,
    model: Seq<char>,
    acw: Seq<char>,
    max: Seq<char>,
)
    requires
        settings is Object,
        settings.text_at("model"@) == Some(model),
        settings.get("env"@) is Some ==> settings.object_at("env"@) is Some,
    ensures
        snapshot_of(synced(settings, acw, max)) == (SnapshotView {
            model: Some(model),
            acw: Some(acw),
            max: Some(max),
        }),
        left_alone(
            Some(SnapshotView { model: Some(model), acw: Some(acw), max: Some(max) }),
            provider,
            synced(settings, acw, max),
        ),
{
    lemma_keys_differ();
    lemma_env_is_not_internal();
}

/// Law: a write changes the two context variables, takes out the internal fields, and
/// leaves everything else in the settings file as it was.
pub proof fn law_write_touches_nothing_else(
    settings: JsonTree,
    acw: Seq<char>,
    max: Seq<char>,
    key: Seq<char>,
)
    requires
        settings is Object,
        settings.get("env"@) is Some ==> settings.object_at("env"@) is Some,
    ensures
        key != "env"@ && !internal_fields().contains(key) ==> synced(settings, acw, max).get(key)
            == settings.get(key),
        internal_fields().contains(key) ==> synced(settings, acw, max).get(key) is None,
        synced(settings, acw, max).object_at("env"@) is Some,
        key != acw_key() && key != max_key() ==> synced(settings, acw, max).object_at(
            "env"@,
        )->0.get(key) == match settings.object_at("env"@) {
            Some(env) => env.get(key),
            None => None,
        },
        taken_over(settings) ==> taken_over(synced(settings, acw, max)),
{
    lemma_keys_differ();
    lemma_env_is_not_internal();
    reveal_strlit("ANTHROPIC_AUTH_TOKEN");
    reveal_strlit("CLAUDE_CODE_AUTO_COMPACT_WINDOW");
    reveal_strlit("CLAUDE_CODE_MAX_CONTEXT_TOKENS");
    assert("ANTHROPIC_AUTH_TOKEN"@.len() == 20);
    assert(acw_key().len() == 31);
    assert(max_key().len() == 30);
}

/// Whether a variable names the model of a role.
pub open spec fn is_variable_of(role: Seq<char>, key: Seq<char>) -> bool {
    ||| role == "sonnet"@ && key == "ANTHROPIC_DEFAULT_SONNET_MODEL"@
    ||| role == "opus"@ && key == "ANTHROPIC_DEFAULT_OPUS_MODEL"@
    ||| role == "fable"@ && key == "ANTHROPIC_DEFAULT_FABLE_MODEL"@
    ||| role == "haiku"@ && key == "ANTHROPIC_DEFAULT_HAIKU_MODEL"@
    ||| role == "subagent"@ && key == "CLAUDE_CODE_SUBAGENT_MODEL"@
}

/// The roles have different names.
proof fn lemma_roles_differ()
    ensures
        forall|role: Seq<char>, key: Seq<char>| #[trigger]
            is_variable_of(role, key) ==> role_key(role) == Some(key),
{
    reveal_strlit("sonnet");
    reveal_strlit("opus");
    reveal_strlit("fable");
    reveal_strlit("haiku");
    reveal_strlit("subagent");
    assert("sonnet"@.len() == 6);
    assert("opus"@.len() == 4);
    assert("fable"@.len() == 5 && "fable"@[0] == 'f');
    assert("haiku"@.len() == 5 && "haiku"@[0] == 'h');
    assert("subagent"@.len() == 8);
}

/// Law: the window of the role in use is the one that is listed for the variable of that role,
/// or else the one behind the name of that variable's model, or else the one that the provider's
/// kind fixes. Where there is none of these there is no window, and the settings file is left
/// alone, whatever windows the other model variables have.
pub proof fn law_window_of_the_role_in_use(
    state: Option<SnapshotView>,
    settings: JsonTree,
    provider: ProviderView,
    role: Seq<char>,
    key: Seq<char>,
)
    requires
        settings.text_at("model"@) == Some(role),
        is_variable_of(role, key),
    ensures
        ({
            let listing = listed(provider.settings, key);
            let model = named_model(provider.settings, key);
            let behind_name = if model is Some {
                suffix_window(model->0)
            } else {
                None
            };
            let is_listed = listing is Some && listing->0 is Natural;
            &&& is_listed ==> active_window(settings, provider) == Some(listing->0->Natural_0)
            &&& !is_listed && behind_name is Some ==> active_window(settings, provider)
                == behind_name
            &&& !is_listed && behind_name is None ==> active_window(settings, provider)
                == static_window(provider)
            &&& !is_listed && behind_name is None && static_window(provider) is None ==> {
                &&& active_window(settings, provider) is None
                &&& left_alone(state, provider, settings)
            }
        }),
{
    lemma_roles_differ();
}

/// Law: two providers that list the same for the variable of the role in use, name the same
/// model there, and whose kind fixes no window have the same window, whatever else they list
/// and name.
pub proof fn law_other_models_do_not_count(
    settings: JsonTree,
    provider: ProviderView,
    other: ProviderView,
    role: Seq<char>,
    key: Seq<char>,
)
    requires
        settings.text_at("model"@) == Some(role),
        is_variable_of(role, key),
        listed(provider.settings, key) == listed(other.settings, key),
        named_model(provider.settings, key) == named_model(other.settings, key),
        static_window(provider) is None,
        static_window(other) is None,
    ensures
        active_window(settings, provider) == active_window(settings, other),
{
    lemma_roles_differ();
}

/// Law: where the settings file names no role, or none that is known, there is no window, and
/// the file is left alone.
pub proof fn law_unknown_role_is_left_alone(
    state: Option<SnapshotView>,
    settings: JsonTree,
    provider: ProviderView,
)
    requires
        settings.text_at("model"@) matches Some(role) ==> forall|key: Seq<char>|
            !#[trigger] is_variable_of(role, key),
    ensures
        active_window(settings, provider) is None,
        left_alone(state, provider, settings),
{
    if let Some(role) = settings.text_at("model"@) {
        if let Some(key) = role_key(role) {
            assert(is_variable_of(role, key));
        }
    }
}

/// Law: a settings file is left alone where the proxy has not put its placeholder in, where the
/// provider does not say that the variables are to follow the model, and where its kind fixes a
/// window. Where none of these holds and the role in use has a window, the file is left alone
/// only if the model and both variables are as remembered.
pub proof fn law_when_a_file_is_left_alone(
    state: Option<SnapshotView>,
    settings: JsonTree,
    provider: ProviderView,
)
    ensures
        ({
            let env = settings.object_at("env"@);
            let placed = env is Some && env->0.get("ANTHROPIC_AUTH_TOKEN"@) == Some(
                JsonTree::Text("PROXY_MANAGED"@),
            );
            let follow = provider.settings.get("autoSyncContextWindow"@) == Some(
                JsonTree::Bool(true),
            );
            let as_remembered = state is Some && {
                &&& state->0.model == settings.text_at("model"@)
                &&& state->0.acw == named_model(settings, "CLAUDE_CODE_AUTO_COMPACT_WINDOW"@)
                &&& state->0.max == named_model(settings, "CLAUDE_CODE_MAX_CONTEXT_TOKENS"@)
            };
            &&& !placed ==> left_alone(state, provider, settings)
            &&& !follow ==> left_alone(state, provider, settings)
            &&& static_window(provider) is Some ==> left_alone(state, provider, settings)
            &&& as_remembered ==> left_alone(state, provider, settings)
            &&& placed && follow && static_window(provider) is None && !as_remembered
                && active_window(settings, provider) is Some ==> !left_alone(
                state,
                provider,
                settings,
            )
        }),
{
}

/// Law: a write gives the two context variables the two values, and a later one replaces them.
pub proof fn law_write_sets_both_variables(
    settings: JsonTree,
    acw: Seq<char>,
    max: Seq<char>,
)
    requires
        settings is Object,
        settings.get("env"@) is Some ==> settings.object_at("env"@) is Some,
    ensures
        ({
            let after = synced(settings, acw, max).object_at("env"@);
            &&& after is Some
            &&& after->0.get("CLAUDE_CODE_AUTO_COMPACT_WINDOW"@) == Some(JsonTree::Text(acw))
            &&& after->0.get("CLAUDE_CODE_MAX_CONTEXT_TOKENS"@) == Some(JsonTree::Text(max))
        }),
{
    lemma_keys_differ();
    lemma_env_is_not_internal();
}

/// Law: a list of variables that is written leaves each with the last value that the list has
/// for it, and every other variable, and every field that is not internal, as it was.
pub proof fn law_written_variables(
    settings: JsonTree,
    writes: Seq<(&'static str, String)>,
    key: Seq<char>,
    i: int,
)
    requires
        settings is Object,
        settings.get("env"@) is Some ==> settings.object_at("env"@) is Some,
    ensures
        ({
            let after = written_settings(settings, writes);
            let env = after.object_at("env"@);
            &&& env is Some
            &&& 0 <= i < writes.len() && (forall|j: int|
                i < j < writes.len() ==> (#[trigger] writes[j]).0@ != writes[i].0@) ==> env->0.get(
                writes[i].0@,
            ) == Some(JsonTree::Text(writes[i].1@))
            &&& (forall|j: int| 0 <= j < writes.len() ==> (#[trigger] writes[j]).0@ != key)
                ==> env->0.get(key) == match settings.object_at("env"@) {
                Some(before) => before.get(key),
                None => None,
            }
            &&& key != "env"@ && !internal_fields().contains(key) ==> after.get(key)
                == settings.get(key)
            &&& internal_fields().contains(key) ==> after.get(key) is None
        }),
{
    lemma_env_is_not_internal();
    let env = match settings.get("env"@) {
        Some(env) => env,
        None => JsonTree::empty_object(),
    };
    lemma_written_values(env, writes, writes.len(), key, i);
}

proof fn lemma_written_values(
    env: JsonTree,
    writes: Seq<(&'static str, String)>,
    n: nat,
    key: Seq<char>,
    i: int,
)
    requires
        env is Object,
        n <= writes.len(),
    ensures
        written_env(env, writes, n) is Object,
        0 <= i < n && (forall|j: int| i < j < n ==> (#[trigger] writes[j]).0@ != writes[i].0@)
            ==> written_env(env, writes, n).get(writes[i].0@) == Some(JsonTree::Text(writes[i].1@)),
        (forall|j: int| 0 <= j < n ==> (#[trigger] writes[j]).0@ != key) ==> written_env(
            env,
            writes,
            n,
        ).get(key) == env.get(key),
    decreases n,
{
    if n > 0 {
        lemma_written_values(env, writes, (n - 1) as nat, key, i);
    }
}

/// Law: variables cannot be written into a text that is no JSON, that is no object, or whose
/// environment is no object, and into any other they can.
pub proof fn law_what_can_be_written(content: Seq<char>)
    ensures
        write_error(content) is None <==> {
            &&& parsed_json(content) is Ok
            &&& parsed_json(content)->Ok_0 is Object
            &&& parsed_json(content)->Ok_0.get("env"@) matches Some(env) ==> env is Object
        },
        parsed_json(content) matches Err(words) ==> write_error(content) == Some(words),
        parsed_json(content) is Ok && !(parsed_json(content)->Ok_0 is Object) ==> write_error(content)
            == Some("top-level not object"@),
        parsed_json(content) is Ok && parsed_json(content)->Ok_0 is Object && write_error(
            content,
        ) is Some ==> write_error(content) == Some("env not object"@),
{
}

/// Law: the note of what was written last holds both values; the rest of the sync state and
/// every other field stay.
pub proof fn law_last_write_is_noted(
    settings: JsonTree,
    acw: Seq<char>,
    max: Seq<char>,
    key: Seq<char>,
)
    requires
        settings is Object,
    ensures
        ({
            let after = noting_written(settings, acw, max);
            let state = after.object_at("autoSyncState"@);
            &&& state is Some
            &&& state->0.get("lastWritten"@) is Some
            &&& state->0.get("lastWritten"@)->0.get("ACW"@) == Some(JsonTree::Text(acw))
            &&& state->0.get("lastWritten"@)->0.get("MAX"@) == Some(JsonTree::Text(max))
            &&& key != "lastWritten"@ ==> state->0.get(key) == match settings.object_at(
                "autoSyncState"@,
            ) {
                Some(before) => before.get(key),
                None => None,
            }
            &&& key != "autoSyncState"@ ==> after.get(key) == settings.get(key)
        }),
{
    reveal_strlit("ACW");
    reveal_strlit("MAX");
    assert("ACW"@[0] == 'A');
    assert("MAX"@[0] == 'M');
}

/// Law: the watcher gives a window for the role in use only from the variable of that role: the
/// one that is listed there, the one behind its model's name, or the one that the provider's kind
/// fixes, the first of these that there is.
pub proof fn law_active_window_is_resolved(
    settings: &serde_json::Value,
    provider: &Provider,
    result: Option<ActiveModelWindow>,
    role: Seq<char>,
    key: Seq<char>,
)
    requires
        call_ensures(resolve_active_model_window, (settings, provider), result),
        tree(*settings).text_at("model"@) == Some(role),
        is_variable_of(role, key),
    ensures
        ({
            let listing = listed(provider@.settings, key);
            let model = named_model(provider@.settings, key);
            let is_listed = listing is Some && listing->0 is Natural;
            let is_behind_name = model is Some && suffix_window(model->0) is Some;
            &&& result is Some ==> result->0.model@ == role
            &&& is_listed ==> result is Some && result->0.window == listing->0->Natural_0
            &&& !is_listed && is_behind_name ==> result is Some && Some(result->0.window)
                == suffix_window(model->0)
            &&& !is_listed && !is_behind_name ==> (result is Some <==> static_window(
                provider@,
            ) is Some)
            &&& !is_listed && !is_behind_name && result is Some ==> static_window(provider@)
                == Some(result->0.window)
        }),
{
    law_window_of_the_role_in_use(None, tree(*settings), provider@, role, key);
}

/// Law: a settings file is left alone where nothing is listed for the variable of the role in use,
/// its model has no window behind its name and the provider's kind fixes none, whatever windows
/// the other model variables have.
pub proof fn law_no_window_no_write(
    watcher: &ClaudeSettingsWatcher,
    content: &str,
    result: Option<WatcherWrite>,
    role: Seq<char>,
    key: Seq<char>,
)
    requires
        call_ensures(ClaudeSettingsWatcher::handle_settings_change, (watcher, content), result),
        parsed_json(content@) is Ok,
        parsed_json(content@)->Ok_0.text_at("model"@) == Some(role),
        is_variable_of(role, key),
        listed(watcher.provider@.settings, key) is None,
        named_model(watcher.provider@.settings, key) matches Some(model) ==> suffix_window(
            model,
        ) is None,
        static_window(watcher.provider@) is None,
    ensures
        result is None,
{
    law_window_of_the_role_in_use(
        remembered(watcher.state),
        parsed_json(content@)->Ok_0,
        watcher.provider@,
        role,
        key,
    );
}

/// Law: where the proxy has its placeholder in the file, the provider says that the variables are
/// to follow the model, its kind fixes no window, one is listed for the variable of the role in
/// use, and the file is not as remembered, both variables are written: the listed window in
/// decimal, and its share by the provider's ratio. A watcher that was stopped writes nothing.
pub proof fn law_listed_window_is_written(
    watcher: &ClaudeSettingsWatcher,
    content: &str,
    result: Option<WatcherWrite>,
    role: Seq<char>,
    key: Seq<char>,
    window: u64,
)
    requires
        call_ensures(ClaudeSettingsWatcher::handle_settings_change, (watcher, content), result),
        parsed_json(content@) is Ok,
        parsed_json(content@)->Ok_0.text_at("model"@) == Some(role),
        is_variable_of(role, key),
        named_model(parsed_json(content@)->Ok_0, "ANTHROPIC_AUTH_TOKEN"@) == Some(
            "PROXY_MANAGED"@,
        ),
        watcher.provider@.settings.get("autoSyncContextWindow"@) == Some(JsonTree::Bool(true)),
        static_window(watcher.provider@) is None,
        listed(watcher.provider@.settings, key) == Some(JsonTree::Natural(window)),
        watcher.state is None || watcher.state->0@.model != Some(role),
    ensures
        watcher.shutdown ==> result is None,
        !watcher.shutdown ==> {
            &&& result is Some
            &&& result->0.model@ == role
            &&& result->0.window == window
            &&& result->0.max@ == decimal(window as nat)
            &&& result->0.acw@ == decimal(
                share(window, compact_ratio(watcher.provider@.settings)),
            )
        },
{
    law_window_of_the_role_in_use(
        remembered(watcher.state),
        parsed_json(content@)->Ok_0,
        watcher.provider@,
        role,
        key,
    );
    assert(taken_over(parsed_json(content@)->Ok_0));
}

/// Law: a file is to be acted upon unless the model and both variables are as remembered; before
/// anything is remembered it always is.
pub proof fn law_changes_are_processed(
    state: &Option<WatcherSnapshot>,
    new_model: Option<&str>,
    new_acw: Option<&str>,
    new_max: Option<&str>,
    result: bool,
)
    requires
        call_ensures(should_process, (state, new_model, new_acw, new_max), result),
    ensures
        *state is None ==> result,
        *state matches Some(snapshot) ==> {
            &&& snapshot@.model != optional_str(new_model) ==> result
            &&& snapshot@.acw != optional_str(new_acw) ==> result
            &&& snapshot@.max != optional_str(new_max) ==> result
            &&& snapshot@.model == optional_str(new_model) && snapshot@.acw == optional_str(new_acw)
                && snapshot@.max == optional_str(new_max) ==> !result
        },
{
}

/// Law: what is to be written for a window is both context variables, each once: the window in
/// decimal for the largest context, and for compacting its share, by 0.95 where the ratio is not
/// from 0.2 to 0.95. The share is never larger than the window.
pub proof fn law_variables_for_a_window(
    window: u64,
    ratio: Ratio,
    result: Vec<(&'static str, String)>,
)
    requires
        call_ensures(build_env_writes, (window, ratio), result),
    ensures
        result@.len() == 2,
        result@[0].0@ == "CLAUDE_CODE_AUTO_COMPACT_WINDOW"@,
        result@[1].0@ == "CLAUDE_CODE_MAX_CONTEXT_TOKENS"@,
        result@[1].1@ == decimal(window as nat),
        0x3fc9_9999_9999_999a <= ratio.bits <= 0x3fee_6666_6666_6666 ==> result@[0].1@ == decimal(
            share(window, ratio),
        ) && share(window, ratio) <= window,
        !(0x3fc9_9999_9999_999a <= ratio.bits <= 0x3fee_6666_6666_6666) ==> result@[0].1@
            == decimal(share(window, Ratio { bits: 0x3fee_6666_6666_6666 })) && share(
            window,
            Ratio { bits: 0x3fee_6666_6666_6666 },
        ) <= window,
{
    law_ratio_or_default(ratio);
    law_share_within_window(window, ratio.or_default());
}

/// Law: a watcher starts out with what the settings file holds, where it is there and is JSON, and
/// with nothing remembered in any other case. It runs until it is stopped.
pub proof fn law_watcher_starts_from_the_file(
    content: Option<&str>,
    provider: Provider,
    result: ClaudeSettingsWatcher,
)
    requires
        call_ensures(spawn_claude_settings_watcher, (content, provider), result),
    ensures
        !result.shutdown,
        result.provider@ == provider@,
        content is None ==> result.state is None,
        content matches Some(text) ==> (result.state is Some <==> parsed_json(text@) is Ok),
        content matches Some(text) && result.state is Some ==> {
            let settings = parsed_json(content->0@)->Ok_0;
            &&& result.state->0@.model == settings.text_at("model"@)
            &&& result.state->0@.acw == named_model(settings, "CLAUDE_CODE_AUTO_COMPACT_WINDOW"@)
            &&& result.state->0@.max == named_model(settings, "CLAUDE_CODE_MAX_CONTEXT_TOKENS"@)
        },
{
}

/// Law: a watcher that starts from a settings file leaves that file alone until it changes.
pub proof fn law_nothing_to_do_at_the_start(
    content: &str,
    provider: Provider,
    watcher: ClaudeSettingsWatcher,
    result: Option<WatcherWrite>,
)
    requires
        call_ensures(spawn_claude_settings_watcher, (Some(content), provider), watcher),
        call_ensures(ClaudeSettingsWatcher::handle_settings_change, (&watcher, content), result),
    ensures
        result is None,
{
}

/// Law: a write goes ahead only where the file still holds what was read.
pub proof fn law_changed_file_is_not_overwritten(
    current: &str,
    expected: &str,
    result: Result<(), String>,
)
    requires
        call_ensures(verify_file_unchanged, (current, expected), result),
    ensures
        current@ == expected@ ==> result is Ok,
        current@ != expected@ ==> result is Err,
{
}

/// Law: a write that has been made is remembered as it was made, and noted in the provider's
/// settings, which are handed out to be stored; nothing else of the watcher changes.
pub proof fn law_made_write_is_remembered(
    watcher: &mut ClaudeSettingsWatcher,
    write: &WatcherWrite,
    result: serde_json::Value,
    key: Seq<char>,
)
    requires
        call_ensures(ClaudeSettingsWatcher::written, (watcher, write), result),
        old(watcher).provider@.settings is Object,
    ensures
        final(watcher).state is Some,
        final(watcher).state->0@.model == Some(write.model@),
        final(watcher).state->0@.acw == Some(write.acw@),
        final(watcher).state->0@.max == Some(write.max@),
        final(watcher).shutdown == old(watcher).shutdown,
        final(watcher).provider@.id == old(watcher).provider@.id,
        final(watcher).provider@.settings == tree(result),
        key != "autoSyncState"@ ==> tree(result).get(key) == old(watcher).provider@.settings.get(
            key,
        ),
        tree(result).object_at("autoSyncState"@) is Some,
        tree(result).object_at("autoSyncState"@)->0.get("lastWritten"@) is Some,
        tree(result).object_at("autoSyncState"@)->0.get("lastWritten"@)->0.get("ACW"@) == Some(
            JsonTree::Text(write.acw@),
        ),
        tree(result).object_at("autoSyncState"@)->0.get("lastWritten"@)->0.get("MAX"@) == Some(
            JsonTree::Text(write.max@),
        ),
{
    law_last_write_is_noted(old(watcher).provider@.settings, write.acw@, write.max@, key);
}

/// Law: a file that holds what the watcher has written is left alone once the write is remembered.
pub proof fn law_own_write_is_not_answered(
    watcher: &ClaudeSettingsWatcher,
    content: &str,
    write: WatcherWrite,
    after: &ClaudeSettingsWatcher,
    text: &str,
    result: Option<WatcherWrite>,
)
    requires
        call_ensures(
            ClaudeSettingsWatcher::handle_settings_change,
            (watcher, content),
            Some(write),
        ),
        remembered(after.state) == Some(
            SnapshotView {
                model: Some(write.model@),
                acw: Some(write.acw@),
                max: Some(write.max@),
            },
        ),
        text@ == write.content@,
        call_ensures(ClaudeSettingsWatcher::handle_settings_change, (after, text), result),
    ensures
        result is None,
{
}

/// Law: the watcher in use is replaced by the new one as it is, and handed out stopped; what it
/// remembered stays with it.
pub proof fn law_replaced_watcher_is_stopped(
    slot: &mut Option<ClaudeSettingsWatcher>,
    new: ClaudeSettingsWatcher,
    replaced: Option<ClaudeSettingsWatcher>,
)
    requires
        call_ensures(replace_watcher, (slot, new), replaced),
    ensures
        *final(slot) == Some(new),
        replaced is Some <==> *old(slot) is Some,
        replaced matches Some(before) ==> before.shutdown && before.state == old(slot)->0.state
            && before.provider == old(slot)->0.provider,
{
}

/// Law: what is recorded as processed is not processed again, and anything else is.
pub proof fn law_recorded_state_is_processed_once(
    state: &mut Option<WatcherSnapshot>,
    model: Option<&str>,
    acw: Option<&str>,
    max: Option<&str>,
    new_model: Option<&str>,
    result: bool,
)
    requires
        call_ensures(record_processed_state, (state, model, acw, max), ()),
        call_ensures(should_process, (&*final(state), new_model, acw, max), result),
    ensures
        result <==> optional_str(new_model) != optional_str(model),
{
}

} // verus!
