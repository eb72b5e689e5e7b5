//! What the live configuration of an application is read as, and whether it becomes
//! the first provider of an application.

use vstd::prelude::*;

use crate::backfill::strip_mcp_servers_from_settings;
use crate::error::{AppError, Notice};
use crate::json::{copy, get, map_new, object, set_entry};
use crate::live_write::FileRead;
use crate::provider::{AppType, Provider};

verus! {

use crate::backfill::is_without_mcp_servers;
use crate::error::ErrorView;
use crate::json::{tree, JsonTree};
use crate::live_write::FileView;
use crate::provider::ProviderView;

/// Gemini's settings: the variables of its `.env` file, and its settings file.
pub open spec fn gemini_settings(env: JsonTree, config: JsonTree) -> JsonTree {
    JsonTree::empty_object().set(
        "env"@,
        match env.get("env"@) {
            Some(variables) => variables,
            None => JsonTree::empty_object(),
        },
    ).set("config"@, config)
}

/// What Gemini's two files are read as.
pub open spec fn gemini_read(env: FileView, config: FileView, missing: ErrorView) -> Result<
    JsonTree,
    ErrorView,
> {
    match env {
        FileView::Missing => Err(missing),
        FileView::Failed(error) => Err(error),
        FileView::Read(env) => match config {
            FileView::Missing => Ok(gemini_settings(env, JsonTree::empty_object())),
            FileView::Failed(error) => Err(error),
            FileView::Read(config) => Ok(gemini_settings(env, config)),
        },
    }
}

/// What one file is read as.
pub open spec fn file_read(file: FileView, missing: ErrorView) -> Result<JsonTree, ErrorView> {
    match file {
        FileView::Missing => Err(missing),
        FileView::Failed(error) => Err(error),
        FileView::Read(value) => Ok(value),
    }
}

/// What is read by a reader that reports a missing file itself.
pub open spec fn reported(file: FileView) -> Result<JsonTree, ErrorView>
    recommends
        !(file is Missing),
{
    match file {
        FileView::Missing => arbitrary(),
        FileView::Failed(error) => Err(error),
        FileView::Read(value) => Ok(value),
    }
}

/// What the live configuration of an application is read as. `first` is its file, or
/// the first of its two files, and `second` the other one: Codex's model catalog, or
/// Gemini's settings.
pub open spec fn live_settings(app_type: AppType, first: FileView, second: FileView) -> Result<
    JsonTree,
    ErrorView,
> {
    match app_type {
        AppType::Codex => match reported(first) {
            Ok(settings) => Ok(
                match second {
                    FileView::Read(catalog) => settings.set("modelCatalog"@, catalog),
                    _ => settings,
                },
            ),
            Err(error) => Err(error),
        },
        AppType::Claude => file_read(first, ErrorView::Localized(Notice::SettingsMissing)),
        AppType::ClaudeDesktop => Err(ErrorView::Localized(Notice::DesktopReadUnsupported)),
        AppType::Gemini => gemini_read(
            first,
            second,
            ErrorView::Localized(Notice::GeminiEnvMissing),
        ),
        AppType::OpenCode => file_read(first, ErrorView::Localized(Notice::OpenCodeMissing)),
        AppType::GrokBuild => reported(first),
        AppType::OpenClaw => file_read(first, ErrorView::Localized(Notice::OpenClawMissing)),
        AppType::Hermes => file_read(first, ErrorView::Localized(Notice::HermesMissing)),
    }
}

/// The value and the error of a result.
pub open spec fn outcome(result: Result<serde_json::Value, AppError>) -> Result<JsonTree, ErrorView> {
    match result {
        Ok(value) => Ok(tree(value)),
        Err(error) => Err(error@),
    }
}

fn read_file(file: FileRead, missing: AppError) -> (result: Result<serde_json::Value, AppError>)
    ensures
        outcome(result) == file_read(file@, missing@),
{
    match file {
        FileRead::Missing => Err(missing),
        FileRead::Failed(error) => Err(error),
        FileRead::Read(value) => Ok(value),
    }
}

fn read_reported(file: FileRead) -> (result: Result<serde_json::Value, AppError>)
    requires
        !(file is Missing),
    ensures
        outcome(result) == reported(file@),
{
    match file {
        FileRead::Missing => unreached(),
        FileRead::Failed(error) => Err(error),
        FileRead::Read(value) => Ok(value),
    }
}

fn combine_gemini(env: &serde_json::Value, config: serde_json::Value) -> (result: serde_json::Value)
    ensures
        tree(result) == gemini_settings(tree(*env), tree(config)),
{
    let variables = match get(env, "env") {
        Some(variables) => copy(variables),
        None => object(map_new()),
    };
    let mut result = object(map_new());
    set_entry(&mut result, "env", variables);
    set_entry(&mut result, "config", config);
    result
}

fn read_gemini(env: FileRead, config: FileRead, missing: AppError) -> (result: Result<
    serde_json::Value,
    AppError,
>)
    ensures
        outcome(result) == gemini_read(env@, config@, missing@),
{
    match read_file(env, missing) {
        Ok(env) => match config {
            FileRead::Missing => Ok(combine_gemini(&env, object(map_new()))),
            FileRead::Failed(error) => Err(error),
            FileRead::Read(config) => Ok(combine_gemini(&env, config)),
        },
        Err(error) => Err(error),
    }
}

/// What the live configuration of an application is read as. The readers of Codex's
/// and Grok's configuration report a missing file themselves.
pub fn read_live_settings(app_type: AppType, first: FileRead, second: FileRead) -> (result: Result<
    serde_json::Value,
    AppError,
>)
    requires
        app_type is Codex || app_type is GrokBuild ==> !(first is Missing),
    ensures
        outcome(result) == live_settings(app_type, first@, second@),
{
    match app_type {
        AppType::Codex => match read_reported(first) {
            Ok(settings) => {
                let mut settings = settings;
                if let FileRead::Read(catalog) = second {
                    set_entry(&mut settings, "modelCatalog", catalog);
                }
                Ok(settings)
            },
            Err(error) => Err(error),
        },
        AppType::Claude => read_file(first, AppError::Localized(Notice::SettingsMissing)),
        AppType::ClaudeDesktop => Err(AppError::Localized(Notice::DesktopReadUnsupported)),
        AppType::Gemini => read_gemini(
            first,
            second,
            AppError::Localized(Notice::GeminiEnvMissing),
        ),
        AppType::OpenCode => read_file(first, AppError::Localized(Notice::OpenCodeMissing)),
        AppType::GrokBuild => read_reported(first),
        AppType::OpenClaw => read_file(first, AppError::Localized(Notice::OpenClawMissing)),
        AppType::Hermes => read_file(first, AppError::Localized(Notice::HermesMissing)),
    }
}

/// What there is to find out before a live configuration becomes a provider.
#[derive(Debug, Clone, Copy, PartialEq, Eq, Structural)]
pub enum ImportQuestion {
    /// Whether there are providers already, seeds of the official ones aside.
    StoredProviders,
    /// Whether the proxy has taken the live configuration over.
    Takeover,
    /// What the live configuration holds.
    Live,
}

/// What the caller found in the live configuration.
pub struct LiveFound {
    /// Its file, or the first of its two files. The assistant's models have their
    /// present names in it.
    pub first: FileRead,
    /// Gemini's settings.
    pub second: FileRead,
    /// The outcome of checking Grok's configuration.
    pub grok_check: Result<(), AppError>,
    /// Whether Codex's login holds an API key, its own or the provider's.
    pub codex_has_key: bool,
    /// Whether Codex's login holds that of a user.
    pub codex_has_login: bool,
}

/// What to do next on the way from a live configuration to a provider.
pub enum ImportStep {
    /// Find this out and ask again.
    Ask(ImportQuestion),
    /// There is nothing to import.
    Skip,
    /// The live configuration cannot be imported.
    Fail(AppError),
    /// Save this provider and make it the current one. Then put in the seed of Grok's
    /// official provider, if `seed_official`.
    Save { provider: Provider, seed_official: bool },
}

/// Why what was found cannot be imported.
pub open spec fn import_error(app_type: AppType, found: LiveFound) -> Option<ErrorView> {
    match app_type {
        AppType::Codex => match found.first@ {
            FileView::Failed(error) => Some(error),
            _ => None,
        },
        AppType::GrokBuild => match found.first@ {
            FileView::Failed(error) => Some(error),
            _ => match found.grok_check {
                Err(error) => Some(error@),
                Ok(_) => None,
            },
        },
        AppType::Claude => match file_read(
            found.first@,
            ErrorView::Localized(Notice::SettingsMissing),
        ) {
            Err(error) => Some(error),
            Ok(_) => None,
        },
        AppType::Gemini => match gemini_read(
            found.first@,
            found.second@,
            ErrorView::Localized(Notice::GeminiLiveMissing),
        ) {
            Err(error) => Some(error),
            Ok(_) => None,
        },
        _ => Some(ErrorView::Localized(Notice::DesktopImportUnsupported)),
    }
}

/// Whether `settings` are the settings of the provider that is made of what was found.
pub open spec fn is_imported(app_type: AppType, found: LiveFound, settings: JsonTree) -> bool {
    match found.first@ {
        FileView::Read(value) => match app_type {
            AppType::GrokBuild => is_without_mcp_servers(value, settings),
            AppType::Gemini => Ok::<JsonTree, ErrorView>(settings) == gemini_read(
                found.first@,
                found.second@,
                ErrorView::Localized(Notice::GeminiLiveMissing),
            ),
            _ => settings == value,
        },
        _ => false,
    }
}

/// The category of the provider: Codex's is the official one, if the login holds that
/// of a user and no key.
pub open spec fn import_category(app_type: AppType, found: LiveFound) -> Seq<char> {
    if app_type is Codex && found.codex_has_login && !found.codex_has_key {
        "official"@
    } else {
        "custom"@
    }
}

/// The provider that is made of what was found in a live configuration.
fn imported_provider(app_type: AppType, found: LiveFound) -> (result: Result<Provider, AppError>)
    requires
        !app_type.additive(),
        app_type is Codex || app_type is GrokBuild ==> !(found.first is Missing),
    ensures
        match result {
            Err(error) => import_error(app_type, found) == Some(error@),
            Ok(provider) => {
                &&& import_error(app_type, found) is None
                &&& is_imported(app_type, found, provider@.settings)
                &&& provider@ == (ProviderView {
                    category: Some(import_category(app_type, found)),
                    ..ProviderView::plain("default"@, "default"@, provider@.settings, None)
                })
            },
        },
{
    let official = matches!(app_type, AppType::Codex) && found.codex_has_login
        && !found.codex_has_key;
    let settings = match app_type {
        AppType::Codex => read_reported(found.first),
        AppType::GrokBuild => match read_reported(found.first) {
            Ok(settings) => match found.grok_check {
                Ok(_) => {
                    let mut settings = settings;
                    strip_mcp_servers_from_settings(&mut settings);
                    Ok(settings)
                },
                Err(error) => Err(error),
            },
            Err(error) => Err(error),
        },
        AppType::Claude => read_file(found.first, AppError::Localized(Notice::SettingsMissing)),
        AppType::Gemini => read_gemini(
            found.first,
            found.second,
            AppError::Localized(Notice::GeminiLiveMissing),
        ),
        _ => Err(AppError::Localized(Notice::DesktopImportUnsupported)),
    };
    match settings {
        Ok(settings) => {
            let mut provider = Provider::with_id(
                "default".to_owned(),
                "default".to_owned(),
                settings,
                None,
            );
            provider.category = Some(
                if official {
                    "official".to_owned()
                } else {
                    "custom".to_owned()
                },
            );
            Ok(provider)
        },
        Err(error) => Err(error),
    }
}

/// What to do next on the way from a live configuration to the provider `default`,
/// by what has been found out so far. Nothing is found out that is not needed: an
/// additive application, or one that has providers, imports nothing, and a live
/// configuration that the proxy has taken over, or the desktop assistant's,
/// is not read.
pub fn import_default_config(
    app_type: AppType,
    has_stored: Option<Result<bool, AppError>>,
    taken_over: Option<bool>,
    found: Option<LiveFound>,
) -> (step: ImportStep)
    requires
        found matches Some(found) ==> app_type is Codex || app_type is GrokBuild ==> !(
        found.first is Missing),
    ensures
        if app_type.additive() {
            step is Skip
        } else {
            match has_stored {
                None => step == ImportStep::Ask(ImportQuestion::StoredProviders),
                Some(Err(error)) => step is Fail && step->Fail_0@ == error@,
                Some(Ok(true)) => step is Skip,
                Some(Ok(false)) => match taken_over {
                    None => step == ImportStep::Ask(ImportQuestion::Takeover),
                    Some(true) => step is Fail && step->Fail_0@ == ErrorView::Localized(
                        Notice::LiveTakenOver,
                    ),
                    Some(false) => if app_type is ClaudeDesktop {
                        step is Fail && step->Fail_0@ == ErrorView::Localized(
                            Notice::DesktopImportUnsupported,
                        )
                    } else {
                        match found {
                            None => step == ImportStep::Ask(ImportQuestion::Live),
                            Some(found) => match import_error(app_type, found) {
                                Some(error) => step is Fail && step->Fail_0@ == error,
                                None => {
                                    &&& step is Save
                                    &&& is_imported(app_type, found, step->provider@.settings)
                                    &&& step->provider@ == (ProviderView {
                                        category: Some(import_category(app_type, found)),
                                        ..ProviderView::plain(
                                            "default"@,
                                            "default"@,
                                            step->provider@.settings,
                                            None,
                                        )
                                    })
                                    &&& step->seed_official == (app_type is GrokBuild)
                                },
                            },
                        }
                    },
                },
            }
        },
{
    if app_type.is_additive_mode() {
        return ImportStep::Skip;
    }
    match has_stored {
        None => {
            return ImportStep::Ask(ImportQuestion::StoredProviders);
        },
        Some(Err(error)) => {
            return ImportStep::Fail(error);
        },
        Some(Ok(has_stored)) => {
            if has_stored {
                return ImportStep::Skip;
            }
        },
    }
    match taken_over {
        None => {
            return ImportStep::Ask(ImportQuestion::Takeover);
        },
        Some(taken_over) => {
            if taken_over {
                return ImportStep::Fail(AppError::Localized(Notice::LiveTakenOver));
            }
        },
    }
    if matches!(app_type, AppType::ClaudeDesktop) {
        return ImportStep::Fail(AppError::Localized(Notice::DesktopImportUnsupported));
    }
    let found = match found {
        Some(found) => found,
        None => {
            return ImportStep::Ask(ImportQuestion::Live);
        },
    };
    match imported_provider(app_type, found) {
        Ok(provider) => ImportStep::Save {
            provider,
            seed_official: matches!(app_type, AppType::GrokBuild),
        },
        Err(error) => ImportStep::Fail(error),
    }
}

/// Whether an application's live configuration is imported when the program starts:
/// only where no provider is stored at all, seeds included, so that a deleted
/// `default` does not come back at every start. An additive application never is.
pub fn should_import_default_config_on_startup(
    app_type: &AppType,
    has_any_provider: Result<bool, AppError>,
) -> (result: Result<bool, AppError>)
    ensures
        app_type.additive() ==> result is Ok && !result->Ok_0,
        !app_type.additive() ==> match has_any_provider {
            Ok(has_any) => result is Ok && result->Ok_0 == !has_any,
            Err(error) => result is Err && result->Err_0@ == error@,
        },
{
    if app_type.is_additive_mode() {
        return Ok(false);
    }
    match has_any_provider {
        Ok(has_any) => Ok(!has_any),
        Err(error) => Err(error),
    }
}

/// Law: the live configuration of the assistant, OpenCode, Grok Build, OpenClaw and Hermes is what
/// its file holds; it cannot be read where the file cannot be, or is missing. That of the desktop
/// assistant is never read.
pub proof fn law_one_file_is_read(
    app_type: AppType,
    first: FileRead,
    second: FileRead,
    result: Result<serde_json::Value, AppError>,
)
    requires
        call_ensures(read_live_settings, (app_type, first, second), result),
    ensures
        app_type is Claude || app_type is OpenCode || app_type is GrokBuild || app_type is OpenClaw
            || app_type is Hermes ==> {
            &&& first matches FileRead::Read(value) ==> result matches Ok(settings) && tree(
                settings,
            ) == tree(value)
            &&& first matches FileRead::Failed(error) ==> result matches Err(reported)
                && reported@ == error@
            &&& first is Missing && !(app_type is GrokBuild) ==> result is Err
        },
        app_type is ClaudeDesktop ==> result is Err,
{
    assert(outcome(result) == live_settings(app_type, first@, second@));
}

/// Law: Codex's live configuration is what its file holds, with the model catalog, where one can
/// be read, in the place of any other; no other field changes. It cannot be read only where its
/// file cannot be.
pub proof fn law_codex_files_are_read(
    first: FileRead,
    second: FileRead,
    result: Result<serde_json::Value, AppError>,
    key: Seq<char>,
)
    requires
        call_ensures(read_live_settings, (AppType::Codex, first, second), result),
    ensures
        first matches FileRead::Failed(error) ==> result matches Err(reported) && reported@
            == error@,
        first matches FileRead::Read(value) ==> {
            &&& result is Ok
            &&& key != "modelCatalog"@ ==> tree(result->Ok_0).get(key) == tree(value).get(key)
            &&& second is Read && tree(value) is Object ==> tree(result->Ok_0).get(
                "modelCatalog"@,
            ) == Some(tree(second->Read_0))
            &&& !(second is Read) ==> tree(result->Ok_0) == tree(value)
        },
{
    assert(outcome(result) == live_settings(AppType::Codex, first@, second@));
}

/// Law: Gemini's live configuration is the variables of its `.env` file and what its settings file
/// holds, either of them empty where nothing is there. It cannot be read where one of the two
/// files cannot be, or the `.env` file is missing.
pub proof fn law_gemini_files_are_read(
    first: FileRead,
    second: FileRead,
    result: Result<serde_json::Value, AppError>,
    key: Seq<char>,
)
    requires
        call_ensures(read_live_settings, (AppType::Gemini, first, second), result),
    ensures
        result is Ok <==> first is Read && !(second is Failed),
        first matches FileRead::Failed(error) ==> result matches Err(reported) && reported@
            == error@,
        first is Read ==> (second matches FileRead::Failed(error) ==> result matches Err(reported)
            && reported@ == error@),
        result matches Ok(settings) ==> {
            let variables = tree(first->Read_0).get("env"@);
            &&& variables is Some ==> tree(settings).get("env"@) == variables
            &&& variables is None ==> tree(settings).get("env"@) == Some(JsonTree::empty_object())
            &&& second is Read ==> tree(settings).get("config"@) == Some(tree(second->Read_0))
            &&& second is Missing ==> tree(settings).get("config"@) == Some(
                JsonTree::empty_object(),
            )
            &&& key != "env"@ && key != "config"@ ==> tree(settings).get(key) is None
        },
{
    assert(outcome(result) == live_settings(AppType::Gemini, first@, second@));
    lemma_env_is_not_config();
}

proof fn lemma_env_is_not_config()
    ensures
        "env"@ != "config"@,
{
    reveal_strlit("env");
    reveal_strlit("config");
    assert("env"@.len() == 3);
    assert("config"@.len() == 6);
}

/// Law: nothing is imported for an additive application, where providers are stored, or where the
/// proxy has taken the live configuration over; and nothing before all of this is known. The
/// desktop assistant's configuration is never imported.
pub proof fn law_when_nothing_is_imported(
    app_type: AppType,
    has_stored: Option<Result<bool, AppError>>,
    taken_over: Option<bool>,
    found: Option<LiveFound>,
    step: ImportStep,
)
    requires
        call_ensures(import_default_config, (app_type, has_stored, taken_over, found), step),
    ensures
        app_type is OpenCode || app_type is OpenClaw || app_type is Hermes ==> step is Skip,
        has_stored matches Some(Ok(true)) ==> step is Skip,
        step is Skip ==> app_type is OpenCode || app_type is OpenClaw || app_type is Hermes
            || has_stored matches Some(Ok(true)),
        step is Save ==> {
            &&& has_stored matches Some(Ok(false))
            &&& taken_over == Some(false)
            &&& found is Some
            &&& found->0.first is Read
            &&& app_type is Claude || app_type is Codex || app_type is Gemini
                || app_type is GrokBuild
        },
        taken_over == Some(true) ==> !(step is Save),
        app_type is ClaudeDesktop ==> !(step is Save),
{
}

/// Law: what is imported becomes a provider with the id and the name `default`, without a website
/// or anything else known of it. It is an official one where it is Codex's and its login holds
/// that of a user and no key, and a custom one in any other case. The seed of the official provider
/// goes with Grok Build's alone.
pub proof fn law_imported_provider(
    app_type: AppType,
    has_stored: Option<Result<bool, AppError>>,
    taken_over: Option<bool>,
    found: Option<LiveFound>,
    step: ImportStep,
)
    requires
        call_ensures(import_default_config, (app_type, has_stored, taken_over, found), step),
        step is Save,
    ensures
        step->provider@.id == "default"@,
        step->provider@.name == "default"@,
        step->provider@.website_url is None,
        step->provider@.meta is None,
        app_type is Codex && found->0.codex_has_login && !found->0.codex_has_key
            ==> step->provider@.category == Some("official"@),
        !(app_type is Codex && found->0.codex_has_login && !found->0.codex_has_key)
            ==> step->provider@.category == Some("custom"@),
        step->seed_official <==> app_type is GrokBuild,
        app_type is Claude || app_type is Codex ==> step->provider@.settings == tree(
            found->0.first->Read_0,
        ),
        app_type is GrokBuild ==> found->0.grok_check is Ok && is_without_mcp_servers(
            tree(found->0.first->Read_0),
            step->provider@.settings,
        ),
        app_type is Gemini ==> {
            let file = tree(found->0.first->Read_0);
            &&& !(found->0.second is Failed)
            &&& file.get("env"@) is Some ==> step->provider@.settings.get("env"@) == file.get(
                "env"@,
            )
            &&& found->0.second is Read ==> step->provider@.settings.get("config"@) == Some(
                tree(found->0.second->Read_0),
            )
        },
{
    lemma_env_is_not_config();
}

/// Law: a live configuration that can be read is imported, where nothing speaks against it.
pub proof fn law_live_configuration_is_imported(
    app_type: AppType,
    found: LiveFound,
    step: ImportStep,
)
    requires
        app_type is Claude || app_type is Codex || app_type is Gemini || app_type is GrokBuild,
        found.first is Read,
        app_type is Gemini ==> !(found.second is Failed),
        app_type is GrokBuild ==> found.grok_check is Ok,
        call_ensures(
            import_default_config,
            (app_type, Some(Ok::<bool, AppError>(false)), Some(false), Some(found)),
            step,
        ),
    ensures
        step is Save,
{
}

/// Law: an application's live configuration is imported at the start of the program only where no
/// provider is stored, and where it is not additive; whether one is stored is of no account for an
/// additive one.
pub proof fn law_import_on_startup(
    app_type: &AppType,
    has_any_provider: Result<bool, AppError>,
    result: Result<bool, AppError>,
)
    requires
        call_ensures(should_import_default_config_on_startup, (app_type, has_any_provider), result),
    ensures
        result == Ok::<bool, AppError>(true) <==> has_any_provider == Ok::<bool, AppError>(false)
            && !(*app_type is OpenCode || *app_type is OpenClaw || *app_type is Hermes),
        result is Err <==> has_any_provider is Err && !(*app_type is OpenCode
            || *app_type is OpenClaw || *app_type is Hermes),
{
}

/// Law: a live configuration whose file is missing is reported by the application it is missing
/// for.
pub proof fn law_missing_file_is_reported(
    app_type: AppType,
    second: FileRead,
    result: Result<serde_json::Value, AppError>,
)
    requires
        !(app_type is Codex || app_type is GrokBuild),
        call_ensures(read_live_settings, (app_type, FileRead::Missing, second), result),
    ensures
        result is Err,
        result->Err_0@ == ErrorView::Localized(
            match app_type {
                AppType::Claude => Notice::SettingsMissing,
                AppType::Gemini => Notice::GeminiEnvMissing,
                AppType::OpenCode => Notice::OpenCodeMissing,
                AppType::OpenClaw => Notice::OpenClawMissing,
                AppType::Hermes => Notice::HermesMissing,
                _ => Notice::DesktopReadUnsupported,
            },
        ),
{
    assert(outcome(result) == live_settings(app_type, FileView::Missing, second@));
}

/// Law: what cannot be imported is reported: the file that cannot be read, or is missing, the check
/// of Grok Build's configuration that failed, and the takeover by the proxy, whatever was found.
pub proof fn law_failed_import_is_reported(
    app_type: AppType,
    taken_over: bool,
    found: LiveFound,
    step: ImportStep,
)
    requires
        !(app_type is OpenCode || app_type is OpenClaw || app_type is Hermes),
        app_type is Codex || app_type is GrokBuild ==> !(found.first is Missing),
        call_ensures(
            import_default_config,
            (app_type, Some(Ok::<bool, AppError>(false)), Some(taken_over), Some(found)),
            step,
        ),
    ensures
        taken_over ==> step is Fail && step->Fail_0@ == ErrorView::Localized(Notice::LiveTakenOver),
        !taken_over && app_type is ClaudeDesktop ==> step is Fail && step->Fail_0@
            == ErrorView::Localized(Notice::DesktopImportUnsupported),
        !taken_over && !(app_type is ClaudeDesktop) ==> {
            &&& found.first matches FileRead::Failed(error) ==> step is Fail && step->Fail_0@
                == error@
            &&& found.first is Missing && app_type is Claude ==> step is Fail && step->Fail_0@
                == ErrorView::Localized(Notice::SettingsMissing)
            &&& found.first is Missing && app_type is Gemini ==> step is Fail && step->Fail_0@
                == ErrorView::Localized(Notice::GeminiLiveMissing)
        },
        !taken_over && found.first is Read && app_type is GrokBuild ==> (
        found.grok_check matches Err(error) ==> step is Fail && step->Fail_0@ == error@),
        !taken_over && found.first is Read && app_type is Gemini ==> (
        found.second matches FileRead::Failed(error) ==> step is Fail && step->Fail_0@ == error@),
{
}

} // verus!
