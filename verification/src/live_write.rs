//! What goes into the live configuration of an application.

use vstd::prelude::*;

use crate::effective::sanitize_claude_settings_for_live;
use crate::error::{AppError, Notice};
use crate::json::{
    as_object, as_object_mut, copy, get, get_text, is_null, map_get, map_insert, map_keys, map_new,
    object, JsonMap,
};
use crate::provider::{copy_optional, AppType, Provider};
use crate::text::joined;

verus! {

use crate::effective::{law_fields_of_the_live_file, sanitized};
use crate::error::ErrorView;
use crate::json::{entries, tree, JsonTree};
use crate::provider::{optional_text, ProviderView};

/// A write to the live configuration of an application.
pub enum LiveWrite {
    /// These settings are the assistant's settings file.
    ClaudeSettings(serde_json::Value),
    /// Codex gets this login and this `config.toml`, with the catalog of the settings.
    Codex {
        settings: serde_json::Value,
        category: Option<String>,
        auth: serde_json::Value,
        config: Option<String>,
    },
    /// Gemini's files are written as `write_gemini_live` says.
    Gemini,
    /// Grok's configuration is written from the provider.
    GrokBuild,
    /// This entry of OpenCode's configuration, by its type or as it is.
    OpenCode { id: String, config: serde_json::Value, typed: bool },
    /// This entry of OpenClaw's configuration, by its type or as it is.
    OpenClaw { id: String, config: serde_json::Value, typed: bool },
    /// This entry of Hermes's configuration.
    Hermes { id: String, config: serde_json::Value },
}

/// The mathematical value of a [`LiveWrite`].
pub enum WriteView {
    ClaudeSettings(JsonTree),
    Codex {
        settings: JsonTree,
        category: Option<Seq<char>>,
        auth: JsonTree,
        config: Option<Seq<char>>,
    },
    Gemini,
    GrokBuild,
    OpenCode { id: Seq<char>, config: JsonTree, typed: bool },
    OpenClaw { id: Seq<char>, config: JsonTree, typed: bool },
    Hermes { id: Seq<char>, config: JsonTree },
}

impl View for LiveWrite {
    type V = WriteView;

    open spec fn view(&self) -> WriteView {
        match self {
            LiveWrite::ClaudeSettings(settings) => WriteView::ClaudeSettings(tree(*settings)),
            LiveWrite::Codex { settings, category, auth, config } => WriteView::Codex {
                settings: tree(*settings),
                category: optional_text(*category),
                auth: tree(*auth),
                config: optional_text(*config),
            },
            LiveWrite::Gemini => WriteView::Gemini,
            LiveWrite::GrokBuild => WriteView::GrokBuild,
            LiveWrite::OpenCode { id, config, typed } => WriteView::OpenCode {
                id: id@,
                config: tree(*config),
                typed: *typed,
            },
            LiveWrite::OpenClaw { id, config, typed } => WriteView::OpenClaw {
                id: id@,
                config: tree(*config),
                typed: *typed,
            },
            LiveWrite::Hermes { id, config } => WriteView::Hermes { id: id@, config: tree(*config) },
        }
    }
}

/// The entry that a provider has in OpenCode's configuration: its settings, or, where
/// they are a whole configuration, the entry in there under the provider's id, if
/// there is one.
pub open spec fn opencode_entry(provider: ProviderView) -> JsonTree {
    let settings = provider.settings;
    if settings.get("$schema"@) is Some || settings.get("provider"@) is Some {
        match settings.get("provider"@) {
            Some(entries) => match entries.get(provider.id) {
                Some(entry) => entry,
                None => settings,
            },
            None => settings,
        }
    } else {
        settings
    }
}

/// What is written for a provider, or why nothing can be. `typed` says whether the
/// entry of an additive configuration has the type that is expected there.
pub open spec fn live_write(app_type: AppType, provider: ProviderView, typed: bool) -> Result<
    WriteView,
    ErrorView,
> {
    let settings = provider.settings;
    match app_type {
        AppType::Claude => Ok(WriteView::ClaudeSettings(sanitized(settings))),
        AppType::ClaudeDesktop => Err(ErrorView::Localized(Notice::DesktopNeedsSwitch)),
        AppType::Codex => if !(settings is Object) {
            Err(ErrorView::Config("Codex 供应商配置必须是 JSON 对象"@))
        } else {
            match settings.get("auth"@) {
                Some(auth) => Ok(
                    WriteView::Codex {
                        settings,
                        category: provider.category,
                        auth,
                        config: settings.text_at("config"@),
                    },
                ),
                None => Err(ErrorView::Config("Codex 供应商配置缺少 'auth' 字段"@)),
            }
        },
        AppType::Gemini => Ok(WriteView::Gemini),
        AppType::GrokBuild => Ok(WriteView::GrokBuild),
        AppType::OpenCode => {
            let config = opencode_entry(provider);
            if typed || config.get("npm"@) is Some || config.get("options"@) is Some {
                Ok(WriteView::OpenCode { id: provider.id, config, typed })
            } else {
                Err(
                    ErrorView::Message(
                        "OpenCode provider '"@ + provider.id
                            + "' has invalid config structure for live config (must contain 'npm' or 'options')"@,
                    ),
                )
            }
        },
        AppType::OpenClaw => if typed || settings.get("baseUrl"@) is Some || settings.get(
            "api"@,
        ) is Some || settings.get("models"@) is Some {
            Ok(WriteView::OpenClaw { id: provider.id, config: settings, typed })
        } else {
            Err(
                ErrorView::Message(
                    "OpenClaw provider '"@ + provider.id
                        + "' has invalid config structure for live config (must contain 'baseUrl', 'api', or 'models')"@,
                ),
            )
        },
        AppType::Hermes => Ok(WriteView::Hermes { id: provider.id, config: settings }),
    }
}

/// The entry that a provider has in OpenCode's configuration.
pub fn opencode_config_to_write(provider: &Provider) -> (result: serde_json::Value)
    ensures
        tree(result) == opencode_entry(provider@),
{
    let settings = &provider.settings_config;
    if get(settings, "$schema").is_some() || get(settings, "provider").is_some() {
        if let Some(entries) = get(settings, "provider") {
            if let Some(entry) = get(entries, provider.id.as_str()) {
                return copy(entry);
            }
        }
    }
    copy(settings)
}

fn provider_message(before: &str, id: &str, after: &str) -> (result: AppError)
    ensures
        result@ == ErrorView::Message(before@ + id@ + after@),
{
    let start = joined(before, id);
    AppError::Message(joined(start.as_str(), after))
}

/// What is written for a provider. `typed` says whether the entry of an additive
/// configuration has the type that is expected there; one that has not is written as
/// it is, where it looks like one.
pub fn write_live_snapshot(app_type: &AppType, provider: &Provider, typed: bool) -> (result: Result<
    LiveWrite,
    AppError,
>)
    ensures
        match result {
            Ok(write) => live_write(*app_type, provider@, typed) == Ok::<WriteView, ErrorView>(
                write@,
            ),
            Err(error) => live_write(*app_type, provider@, typed) == Err::<WriteView, ErrorView>(
                error@,
            ),
        },
{
    let settings = &provider.settings_config;
    match app_type {
        AppType::Claude => Ok(
            LiveWrite::ClaudeSettings(sanitize_claude_settings_for_live(settings)),
        ),
        AppType::ClaudeDesktop => Err(AppError::Localized(Notice::DesktopNeedsSwitch)),
        AppType::Codex => {
            if as_object(settings).is_none() {
                return Err(AppError::Config("Codex 供应商配置必须是 JSON 对象".to_owned()));
            }
            match get(settings, "auth") {
                Some(auth) => Ok(
                    LiveWrite::Codex {
                        settings: copy(settings),
                        category: copy_optional(&provider.category),
                        auth: copy(auth),
                        config: match get_text(settings, "config") {
                            Some(config) => Some(config.to_owned()),
                            None => None,
                        },
                    },
                ),
                None => Err(AppError::Config("Codex 供应商配置缺少 'auth' 字段".to_owned())),
            }
        },
        AppType::Gemini => Ok(LiveWrite::Gemini),
        AppType::GrokBuild => Ok(LiveWrite::GrokBuild),
        AppType::OpenCode => {
            let config = opencode_config_to_write(provider);
            if typed || get(&config, "npm").is_some() || get(&config, "options").is_some() {
                Ok(LiveWrite::OpenCode { id: provider.id.clone(), config, typed })
            } else {
                Err(
                    provider_message(
                        "OpenCode provider '",
                        provider.id.as_str(),
                        "' has invalid config structure for live config (must contain 'npm' or 'options')",
                    ),
                )
            }
        },
        AppType::OpenClaw => {
            if typed || get(settings, "baseUrl").is_some() || get(settings, "api").is_some() || get(
                settings,
                "models",
            ).is_some() {
                Ok(
                    LiveWrite::OpenClaw {
                        id: provider.id.clone(),
                        config: copy(settings),
                        typed,
                    },
                )
            } else {
                Err(
                    provider_message(
                        "OpenClaw provider '",
                        provider.id.as_str(),
                        "' has invalid config structure for live config (must contain 'baseUrl', 'api', or 'models')",
                    ),
                )
            }
        },
        AppType::Hermes => Ok(
            LiveWrite::Hermes { id: provider.id.clone(), config: copy(settings) },
        ),
    }
}

/// How a Gemini provider logs in.
#[derive(Debug, Clone, Copy, PartialEq, Eq, Structural)]
pub enum GeminiAuthType {
    Packycode,
    GoogleOfficial,
    Generic,
}

/// What the caller found when it read a file.
pub enum FileRead {
    Missing,
    Failed(AppError),
    Read(serde_json::Value),
}

/// The mathematical value of a [`FileRead`].
pub enum FileView {
    Missing,
    Failed(ErrorView),
    Read(JsonTree),
}

impl View for FileRead {
    type V = FileView;

    open spec fn view(&self) -> FileView {
        match self {
            FileRead::Missing => FileView::Missing,
            FileRead::Failed(error) => FileView::Failed(error@),
            FileRead::Read(value) => FileView::Read(tree(*value)),
        }
    }
}

/// Environment variables, in the order in which they are written.
pub type EnvVars = Vec<(String, String)>;

/// A write to Gemini's files.
pub struct GeminiWrite {
    /// The variables of the `.env` file.
    pub env: EnvVars,
    /// The settings file; left alone where there is none.
    pub config: Option<serde_json::Value>,
    /// Whether the settings are then to select the OAuth login, rather than an API key.
    pub oauth: bool,
}

/// `new` laid over `old`, entry by entry; something that is no object stays.
pub open spec fn overlaid(old: JsonTree, new: JsonTree) -> JsonTree {
    match (old, new) {
        (JsonTree::Object(old), JsonTree::Object(new)) => JsonTree::Object(
            old.union_prefer_right(new),
        ),
        _ => old,
    }
}

/// The settings file that Gemini gets: that of the provider laid over what is there,
/// or what is there, where the provider has none.
pub open spec fn gemini_config(settings: JsonTree, existing: FileView) -> Result<
    Option<JsonTree>,
    ErrorView,
> {
    match settings.get("config"@) {
        Some(JsonTree::Object(config)) => Ok(
            Some(
                overlaid(
                    match existing {
                        FileView::Read(value) => value,
                        _ => JsonTree::empty_object(),
                    },
                    JsonTree::Object(config),
                ),
            ),
        ),
        Some(JsonTree::Null) | None => match existing {
            FileView::Missing => Ok(None),
            FileView::Failed(error) => Err(error),
            FileView::Read(value) => Ok(Some(value)),
        },
        Some(_) => Err(ErrorView::Localized(Notice::GeminiInvalidConfig)),
    }
}

fn overlay(target: &mut serde_json::Value, source: &JsonMap)
    ensures
        tree(*final(target)) == overlaid(
            tree(*old(target)),
            JsonTree::Object(entries(*source)),
        ),
{
    if let Some(map) = as_object_mut(target) {
        overlay_entries(map, source);
    }
}

fn overlay_entries(map: &mut JsonMap, source: &JsonMap)
    ensures
        entries(*final(map)) == entries(*old(map)).union_prefer_right(entries(*source)),
{
    let ghost before = entries(*map);
    let ghost new = entries(*source);
    let ghost mut done: Set<Seq<char>> = Set::empty();
    let keys = map_keys(source);
    let mut n: usize = 0;
    while n < keys.len()
        invariant
            n <= keys.len(),
            new == entries(*source),
            forall|i: int| 0 <= i < keys@.len() ==> new.contains_key(#[trigger] keys@[i]@),
            forall|i: int| 0 <= i < n ==> done.contains(#[trigger] keys@[i]@),
            forall|key: Seq<char>| #[trigger] done.contains(key) ==> new.contains_key(key),
            forall|key: Seq<char>| #[trigger]
                entries(*map).contains_key(key) <==> before.contains_key(key) || done.contains(key),
            forall|key: Seq<char>| #[trigger]
                entries(*map).contains_key(key) ==> entries(*map)[key] == (if done.contains(key) {
                    new[key]
                } else {
                    before[key]
                }),
        decreases keys.len() - n,
    {
        let key = keys[n].as_str();
        assert(new.contains_key(key@));
        if let Some(value) = map_get(source, key) {
            map_insert(map, key.to_owned(), copy(value));
        }
        proof {
            done = done.insert(key@);
        }
        n += 1;
    }
    proof {
        assert forall|key: Seq<char>| new.contains_key(key) implies done.contains(key) by {
            let i = choose|i: int| 0 <= i < keys@.len() && #[trigger] keys@[i]@ == key;
            assert(done.contains(keys@[i]@));
        }
        assert(entries(*map) =~= before.union_prefer_right(new));
    }
}

/// What Gemini's files get. `env` is what the provider's variables were read as,
/// `existing` the settings file that is there, and `strict` the outcome of checking
/// that the provider has an API key, which an OAuth login does not need.
pub fn write_gemini_live(
    provider: &Provider,
    auth_type: GeminiAuthType,
    env: Result<EnvVars, AppError>,
    existing: FileRead,
    strict: Result<(), AppError>,
) -> (result: Result<GeminiWrite, AppError>)
    ensures
        match env {
            Err(error) => result is Err && result->Err_0@ == error@,
            Ok(env) => match gemini_config(provider@.settings, existing@) {
                Err(error) => result is Err && result->Err_0@ == error,
                Ok(config) => if strict is Err && !(auth_type is GoogleOfficial) {
                    result is Err && result->Err_0@ == strict->Err_0@
                } else {
                    &&& result is Ok
                    &&& result->Ok_0.env@ == env@
                    &&& result->Ok_0.config is Some <==> config is Some
                    &&& config is Some ==> tree(result->Ok_0.config->0) == config->0
                    &&& result->Ok_0.oauth == (auth_type is GoogleOfficial)
                },
            },
        },
{
    let env = match env {
        Ok(env) => env,
        Err(error) => {
            return Err(error);
        },
    };
    let own = match get(&provider.settings_config, "config") {
        Some(value) => match as_object(value) {
            Some(config) => Some(config),
            None => {
                if !is_null(value) {
                    return Err(AppError::Localized(Notice::GeminiInvalidConfig));
                }
                None
            },
        },
        None => None,
    };
    let config = match own {
        Some(own) => {
            let mut value = match existing {
                FileRead::Read(value) => value,
                _ => object(map_new()),
            };
            overlay(&mut value, own);
            Some(value)
        },
        None => match existing {
            FileRead::Missing => None,
            FileRead::Failed(error) => {
                return Err(error);
            },
            FileRead::Read(value) => Some(value),
        },
    };
    let oauth = matches!(auth_type, GeminiAuthType::GoogleOfficial);
    if !oauth {
        match strict {
            Ok(_) => {},
            Err(error) => {
                return Err(error);
            },
        }
    }
    Ok(GeminiWrite { env, config, oauth })
}

/// A live file.
#[derive(Debug, Clone, Copy, PartialEq, Eq, Structural)]
pub enum LiveFile {
    ClaudeSettings,
    CodexAuth,
    CodexConfig,
    GeminiEnv,
    GeminiSettings,
}

/// The live files of an application as they were.
pub enum LiveSnapshot {
    Claude { settings: Option<serde_json::Value> },
    Codex { auth: Option<serde_json::Value>, config: Option<String> },
    Gemini { env: Option<EnvVars>, config: Option<serde_json::Value> },
}

/// A step on the way back to a snapshot.
pub enum RestoreAction {
    WriteJson(LiveFile, serde_json::Value),
    WriteText(LiveFile, String),
    WriteEnv(LiveFile, EnvVars),
    Delete(LiveFile),
}

/// The mathematical value of environment variables.
pub open spec fn env_view(env: Seq<(String, String)>) -> Seq<(Seq<char>, Seq<char>)> {
    env.map_values(|pair: (String, String)| (pair.0@, pair.1@))
}

/// The mathematical value of a [`RestoreAction`].
pub enum RestoreView {
    WriteJson(LiveFile, JsonTree),
    WriteText(LiveFile, Seq<char>),
    WriteEnv(LiveFile, Seq<(Seq<char>, Seq<char>)>),
    Delete(LiveFile),
}

impl View for RestoreAction {
    type V = RestoreView;

    open spec fn view(&self) -> RestoreView {
        match self {
            RestoreAction::WriteJson(file, value) => RestoreView::WriteJson(*file, tree(*value)),
            RestoreAction::WriteText(file, text) => RestoreView::WriteText(*file, text@),
            RestoreAction::WriteEnv(file, env) => RestoreView::WriteEnv(*file, env_view(env@)),
            RestoreAction::Delete(file) => RestoreView::Delete(*file),
        }
    }
}

/// The step for one file: it is written as it was; one that was not there is deleted,
/// if it is there now.
pub open spec fn restore_step(write: Option<RestoreView>, file: LiveFile, exists: bool) -> Seq<
    RestoreView,
> {
    match write {
        Some(write) => seq![write],
        None => if exists {
            seq![RestoreView::Delete(file)]
        } else {
            Seq::empty()
        },
    }
}

fn json_step(file: LiveFile, value: &Option<serde_json::Value>, exists: bool) -> (result: Vec<
    RestoreAction,
>)
    ensures
        views(result@) == restore_step(
            match value {
                Some(value) => Some(RestoreView::WriteJson(file, tree(*value))),
                None => None,
            },
            file,
            exists,
        ),
{
    let mut result: Vec<RestoreAction> = Vec::new();
    match value {
        Some(value) => {
            result.push(RestoreAction::WriteJson(file, copy(value)));
        },
        None => {
            if exists {
                result.push(RestoreAction::Delete(file));
            }
        },
    }
    assert(views(result@) =~= restore_step(
        match value {
            Some(value) => Some(RestoreView::WriteJson(file, tree(*value))),
            None => None,
        },
        file,
        exists,
    ));
    result
}

/// The mathematical value of a sequence of steps.
pub open spec fn views(actions: Seq<RestoreAction>) -> Seq<RestoreView> {
    actions.map_values(|action: RestoreAction| action@)
}

fn copy_env(env: &EnvVars) -> (result: EnvVars)
    ensures
        env_view(result@) == env_view(env@),
{
    let mut result: EnvVars = Vec::new();
    let mut i: usize = 0;
    while i < env.len()
        invariant
            i <= env.len(),
            result@.len() == i,
            forall|k: int|
                0 <= k < i ==> (#[trigger] result@[k]).0@ == env@[k].0@ && result@[k].1@
                    == env@[k].1@,
        decreases env.len() - i,
    {
        result.push((env[i].0.clone(), env[i].1.clone()));
        i += 1;
    }
    assert(env_view(result@) =~= env_view(env@));
    result
}

impl LiveSnapshot {
    /// The steps back to this snapshot. `first_exists` and `second_exists` say which of
    /// the application's files are there now.
    pub open spec fn restored(self, first_exists: bool, second_exists: bool) -> Seq<RestoreView> {
        match self {
            LiveSnapshot::Claude { settings } => restore_step(
                match settings {
                    Some(value) => Some(
                        RestoreView::WriteJson(LiveFile::ClaudeSettings, tree(value)),
                    ),
                    None => None,
                },
                LiveFile::ClaudeSettings,
                first_exists,
            ),
            LiveSnapshot::Codex { auth, config } => restore_step(
                match auth {
                    Some(value) => Some(RestoreView::WriteJson(LiveFile::CodexAuth, tree(value))),
                    None => None,
                },
                LiveFile::CodexAuth,
                first_exists,
            ) + restore_step(
                match config {
                    Some(text) => Some(RestoreView::WriteText(LiveFile::CodexConfig, text@)),
                    None => None,
                },
                LiveFile::CodexConfig,
                second_exists,
            ),
            LiveSnapshot::Gemini { env, config } => restore_step(
                match env {
                    Some(env) => Some(RestoreView::WriteEnv(LiveFile::GeminiEnv, env_view(env@))),
                    None => None,
                },
                LiveFile::GeminiEnv,
                first_exists,
            ) + restore_step(
                match config {
                    Some(value) => Some(
                        RestoreView::WriteJson(LiveFile::GeminiSettings, tree(value)),
                    ),
                    None => None,
                },
                LiveFile::GeminiSettings,
                second_exists,
            ),
        }
    }

    /// The steps back to this snapshot, in order.
    pub fn restore(&self, first_exists: bool, second_exists: bool) -> (result: Vec<RestoreAction>)
        ensures
            views(result@) == self.restored(first_exists, second_exists),
    {
        match self {
            LiveSnapshot::Claude { settings } => json_step(
                LiveFile::ClaudeSettings,
                settings,
                first_exists,
            ),
            LiveSnapshot::Codex { auth, config } => {
                let mut result = json_step(LiveFile::CodexAuth, auth, first_exists);
                match config {
                    Some(text) => {
                        result.push(RestoreAction::WriteText(LiveFile::CodexConfig, text.clone()));
                    },
                    None => {
                        if second_exists {
                            result.push(RestoreAction::Delete(LiveFile::CodexConfig));
                        }
                    },
                }
                assert(views(result@) =~= self.restored(first_exists, second_exists));
                result
            },
            LiveSnapshot::Gemini { env, config } => {
                let mut result: Vec<RestoreAction> = Vec::new();
                match env {
                    Some(env) => {
                        result.push(RestoreAction::WriteEnv(LiveFile::GeminiEnv, copy_env(env)));
                    },
                    None => {
                        if first_exists {
                            result.push(RestoreAction::Delete(LiveFile::GeminiEnv));
                        }
                    },
                }
                let mut second = json_step(LiveFile::GeminiSettings, config, second_exists);
                let ghost first_views = views(result@);
                let ghost second_views = views(second@);
                result.append(&mut second);
                assert(views(result@) =~= first_views + second_views);
                assert(views(result@) =~= self.restored(first_exists, second_exists));
                result
            },
        }
    }
}

/// Law: the assistant's settings file gets every field of the settings as it is but those that are
/// for this library alone, which it does not get.
pub proof fn law_settings_are_written(
    provider: &Provider,
    typed: bool,
    result: Result<LiveWrite, AppError>,
    key: Seq<char>,
)
    requires
        call_ensures(write_live_snapshot, (&AppType::Claude, provider, typed), result),
    ensures
        result is Ok,
        result->Ok_0 is ClaudeSettings,
        tree(result->Ok_0->ClaudeSettings_0).get(key) == if key == "api_format"@ || key
            == "apiFormat"@ || key == "openrouter_compat_mode"@ || key == "openrouterCompatMode"@
            || key == "autoSyncContextWindow"@ || key == "autoSyncCompactRatio"@ || key
            == "contextWindows"@ || key == "autoSyncState"@ {
            None
        } else {
            provider@.settings.get(key)
        },
{
    law_fields_of_the_live_file(provider@.settings, key);
}

/// Law: Codex gets the login, the `config.toml` and the category of the provider, where its
/// settings are an object with a login, and only there.
pub proof fn law_codex_login_is_written(
    provider: &Provider,
    typed: bool,
    result: Result<LiveWrite, AppError>,
)
    requires
        call_ensures(write_live_snapshot, (&AppType::Codex, provider, typed), result),
    ensures
        result is Ok <==> provider@.settings is Object && provider@.settings.get("auth"@) is Some,
        result matches Ok(write) ==> {
            &&& write is Codex
            &&& Some(tree(write->Codex_auth)) == provider@.settings.get("auth"@)
            &&& tree(write->Codex_settings) == provider@.settings
            &&& optional_text(write->Codex_category) == provider@.category
            &&& optional_text(write->Codex_config) == provider@.settings.text_at("config"@)
        },
{
}

/// Law: an entry of an additive configuration is written under the provider's id. OpenClaw's and
/// Hermes's is the provider's settings; OpenCode's is, too, unless they hold a whole configuration
/// with an entry under that id. One that is not of the expected type is written where it has one
/// of the fields that such an entry has, and is refused where it has none; Hermes's is written in
/// any case.
pub proof fn law_additive_entry_is_written(
    app_type: &AppType,
    provider: &Provider,
    typed: bool,
    result: Result<LiveWrite, AppError>,
)
    requires
        call_ensures(write_live_snapshot, (app_type, provider, typed), result),
    ensures
        *app_type is Hermes ==> result is Ok && result->Ok_0 is Hermes && {
            &&& result->Ok_0->Hermes_id@ == provider@.id
            &&& tree(result->Ok_0->Hermes_config) == provider@.settings
        },
        *app_type is OpenClaw ==> {
            let settings = provider@.settings;
            &&& result is Ok <==> typed || settings.get("baseUrl"@) is Some || settings.get(
                "api"@,
            ) is Some || settings.get("models"@) is Some
            &&& result is Ok ==> {
                &&& result->Ok_0 is OpenClaw
                &&& result->Ok_0->OpenClaw_id@ == provider@.id
                &&& tree(result->Ok_0->OpenClaw_config) == settings
                &&& result->Ok_0->OpenClaw_typed == typed
            }
        },
        *app_type is OpenCode ==> {
            let settings = provider@.settings;
            let inner = match settings.get("provider"@) {
                Some(entries) => entries.get(provider@.id),
                None => None,
            };
            let entry = if inner is Some {
                inner->0
            } else {
                settings
            };
            &&& result is Ok <==> typed || entry.get("npm"@) is Some || entry.get(
                "options"@,
            ) is Some
            &&& result is Ok ==> {
                &&& result->Ok_0 is OpenCode
                &&& result->Ok_0->OpenCode_id@ == provider@.id
                &&& tree(result->Ok_0->OpenCode_config) == entry
                &&& result->Ok_0->OpenCode_typed == typed
            }
        },
        *app_type is Gemini ==> result is Ok && result->Ok_0 is Gemini,
        *app_type is GrokBuild ==> result is Ok && result->Ok_0 is GrokBuild,
        *app_type is ClaudeDesktop ==> result is Err,
{
    assert(provider.id@ == provider@.id);
}

/// Law: Gemini's settings file gets every field of the provider's, and keeps every other field
/// that is there; where the provider has none, it stays as it is, or is left alone where it is
/// not there. A file that cannot be read stands in the way only where the provider has none.
pub proof fn law_gemini_settings_are_overlaid(
    settings: JsonTree,
    existing: FileView,
    key: Seq<char>,
)
    ensures
        settings.object_at("config"@) matches Some(own) ==> {
            let result = gemini_config(settings, existing);
            &&& result is Ok
            &&& result->Ok_0 is Some
            &&& !(existing is Read) ==> result->Ok_0->0 == own
            &&& existing is Read && existing->Read_0 is Object ==> {
                &&& own.get(key) is Some ==> result->Ok_0->0.get(key) == own.get(key)
                &&& own.get(key) is None ==> result->Ok_0->0.get(key) == existing->Read_0.get(key)
            }
            &&& existing is Read && !(existing->Read_0 is Object) ==> result->Ok_0->0
                == existing->Read_0
        },
        settings.get("config"@) is None || settings.get("config"@) == Some(JsonTree::Null) ==> {
            &&& existing is Missing ==> gemini_config(settings, existing) == Ok::<
                Option<JsonTree>,
                ErrorView,
            >(None)
            &&& existing matches FileView::Read(value) ==> gemini_config(settings, existing) == Ok::<
                Option<JsonTree>,
                ErrorView,
            >(Some(value))
            &&& existing matches FileView::Failed(error) ==> gemini_config(settings, existing)
                == Err::<Option<JsonTree>, ErrorView>(error)
        },
        settings.get("config"@) is Some && !(settings.get("config"@)->0 is Object || settings.get(
            "config"@,
        )->0 is Null) ==> gemini_config(settings, existing) is Err,
{
    if let Some(own) = settings.object_at("config"@) {
        assert(own is Object);
        assert(Map::<Seq<char>, JsonTree>::empty().union_prefer_right(own->Object_0)
            =~= own->Object_0);
    }
}

/// Law: Gemini's files are written with the variables that were read and the settings file that
/// the provider's leads to. The settings select the OAuth login for Google's own login alone, which
/// needs no API key; any other needs one.
pub proof fn law_gemini_login(
    provider: &Provider,
    auth_type: GeminiAuthType,
    env: Result<EnvVars, AppError>,
    existing: FileRead,
    strict: Result<(), AppError>,
    result: Result<GeminiWrite, AppError>,
)
    requires
        call_ensures(write_gemini_live, (provider, auth_type, env, existing, strict), result),
    ensures
        result is Ok <==> env is Ok && gemini_config(provider@.settings, existing@) is Ok && (
        strict is Ok || auth_type is GoogleOfficial),
        result matches Ok(write) ==> {
            &&& write.env@ == env->Ok_0@
            &&& write.oauth <==> auth_type is GoogleOfficial
            &&& write.config is None <==> gemini_config(provider@.settings, existing@)->Ok_0 is None
        },
        env matches Err(error) ==> result matches Err(reported) && reported@ == error@,
{
}

/// Law: on the way back to a snapshot each file that was there is written as it was, each that was
/// not there is deleted where it is there now, and nothing else is done.
pub proof fn law_snapshot_comes_back(
    snapshot: LiveSnapshot,
    first_exists: bool,
    second_exists: bool,
)
    ensures
        snapshot matches LiveSnapshot::Claude { settings } ==> {
            let steps = snapshot.restored(first_exists, second_exists);
            &&& settings matches Some(value) ==> steps == seq![
                RestoreView::WriteJson(LiveFile::ClaudeSettings, tree(value)),
            ]
            &&& settings is None && first_exists ==> steps == seq![
                RestoreView::Delete(LiveFile::ClaudeSettings),
            ]
            &&& settings is None && !first_exists ==> steps.len() == 0
        },
        snapshot matches LiveSnapshot::Codex { auth, config } ==> {
            let steps = snapshot.restored(first_exists, second_exists);
            let first: int = if auth is Some || first_exists {
                1
            } else {
                0
            };
            let second: int = if config is Some || second_exists {
                1
            } else {
                0
            };
            &&& steps.len() == first + second
            &&& auth matches Some(value) ==> steps[0] == RestoreView::WriteJson(
                LiveFile::CodexAuth,
                tree(value),
            )
            &&& auth is None && first_exists ==> steps[0] == RestoreView::Delete(
                LiveFile::CodexAuth,
            )
            &&& config matches Some(text) ==> steps.last() == RestoreView::WriteText(
                LiveFile::CodexConfig,
                text@,
            )
            &&& config is None && second_exists ==> steps.last() == RestoreView::Delete(
                LiveFile::CodexConfig,
            )
        },
        snapshot matches LiveSnapshot::Gemini { env, config } ==> {
            let steps = snapshot.restored(first_exists, second_exists);
            let first: int = if env is Some || first_exists {
                1
            } else {
                0
            };
            let second: int = if config is Some || second_exists {
                1
            } else {
                0
            };
            &&& steps.len() == first + second
            &&& env matches Some(env) ==> steps[0] == RestoreView::WriteEnv(
                LiveFile::GeminiEnv,
                env_view(env@),
            )
            &&& env is None && first_exists ==> steps[0] == RestoreView::Delete(
                LiveFile::GeminiEnv,
            )
            &&& config matches Some(value) ==> steps.last() == RestoreView::WriteJson(
                LiveFile::GeminiSettings,
                tree(value),
            )
            &&& config is None && second_exists ==> steps.last() == RestoreView::Delete(
                LiveFile::GeminiSettings,
            )
        },
{
}

/// Law: what cannot be written is refused in words that name the provider, or what it lacks.
pub proof fn law_refused_write_is_explained(
    app_type: &AppType,
    provider: &Provider,
    result: Result<LiveWrite, AppError>,
)
    requires
        call_ensures(write_live_snapshot, (app_type, provider, false), result),
        result is Err,
    ensures
        *app_type is ClaudeDesktop ==> result->Err_0@ == ErrorView::Localized(
            Notice::DesktopNeedsSwitch,
        ),
        *app_type is Codex && !(provider@.settings is Object) ==> result->Err_0@
            == ErrorView::Config("Codex 供应商配置必须是 JSON 对象"@),
        *app_type is Codex && provider@.settings is Object ==> result->Err_0@ == ErrorView::Config(
            "Codex 供应商配置缺少 'auth' 字段"@,
        ),
        *app_type is OpenCode ==> result->Err_0@ == ErrorView::Message(
            "OpenCode provider '"@ + provider@.id
                + "' has invalid config structure for live config (must contain 'npm' or 'options')"@,
        ),
        *app_type is OpenClaw ==> result->Err_0@ == ErrorView::Message(
            "OpenClaw provider '"@ + provider@.id
                + "' has invalid config structure for live config (must contain 'baseUrl', 'api', or 'models')"@,
        ),
{
}

} // verus!
