//! Writing, reading, importing and syncing live configurations.

use live_config::error::{AppError, Notice};
use live_config::json::{json_text, read_json};
use live_config::live_import::{
    contains_id, import_hermes_providers_from_live, import_openclaw_providers_from_live,
    import_opencode_providers_from_live, provider_exists_in_live_config,
    remove_hermes_provider_from_live, remove_openclaw_provider_from_live,
    remove_opencode_provider_from_live, LiveEntry,
};
use live_config::live_read::{
    import_default_config, read_live_settings, should_import_default_config_on_startup,
    ImportQuestion, ImportStep, LiveFound,
};
use live_config::live_write::{
    opencode_config_to_write, write_gemini_live, write_live_snapshot, FileRead, GeminiAuthType,
    LiveFile, LiveSnapshot, LiveWrite, RestoreAction,
};
use live_config::provider::{AppType, Provider, ProviderMeta};
use live_config::sync::{
    start_live_sync, sync_all_providers_to_live, sync_current_provider_for_app_respecting_takeover,
    sync_current_provider_for_app_to_live, sync_current_to_live, AppSync, SyncAction, TakeoverSync,
};
use serde_json::Value;

fn j(text: &str) -> Value {
    serde_json::from_str(text).expect("valid JSON")
}

fn provider(id: &str, settings: &str) -> Provider {
    Provider::with_id(id.to_string(), format!("name of {id}"), j(settings), None)
}

fn managed(id: &str, flag: Option<bool>) -> Provider {
    let mut result = provider(id, "{}");
    let mut meta = ProviderMeta::default();
    meta.live_config_managed = flag;
    result.meta = Some(meta);
    result
}

fn failure(words: &str) -> AppError {
    AppError::Io(words.to_string())
}

fn notice<T>(result: Result<T, AppError>) -> Option<Notice> {
    match result {
        Err(AppError::Localized(notice)) => Some(notice),
        _ => None,
    }
}

// Writing

#[test]
fn the_desktop_assistant_is_written_by_a_switch_only() {
    assert_eq!(
        notice(write_live_snapshot(&AppType::ClaudeDesktop, &provider("p", "{}"), true)),
        Some(Notice::DesktopNeedsSwitch)
    );
}

#[test]
fn codex_needs_an_object_with_a_login() {
    match write_live_snapshot(&AppType::Codex, &provider("p", "[]"), false) {
        Err(AppError::Config(words)) => assert_eq!(words, "Codex 供应商配置必须是 JSON 对象"),
        _ => panic!("settings must be an object"),
    }
    match write_live_snapshot(&AppType::Codex, &provider("p", "{}"), false) {
        Err(AppError::Config(words)) => assert_eq!(words, "Codex 供应商配置缺少 'auth' 字段"),
        _ => panic!("a login must be there"),
    }
    let mut p = provider("p", r#"{"auth": {"OPENAI_API_KEY": "k"}, "config": "a = 1"}"#);
    p.category = Some("custom".to_string());
    match write_live_snapshot(&AppType::Codex, &p, false) {
        Ok(LiveWrite::Codex { settings, category, auth, config }) => {
            assert_eq!(settings, p.settings_config);
            assert_eq!(category.as_deref(), Some("custom"));
            assert_eq!(auth, j(r#"{"OPENAI_API_KEY": "k"}"#));
            assert_eq!(config.as_deref(), Some("a = 1"));
        }
        _ => panic!("Codex must be written"),
    }
    match write_live_snapshot(&AppType::Codex, &provider("p", r#"{"auth": 1, "config": 2}"#), false) {
        Ok(LiveWrite::Codex { config, .. }) => assert_eq!(config, None),
        _ => panic!("Codex must be written"),
    }
}

#[test]
fn opencode_takes_its_entry_out_of_a_whole_configuration() {
    let whole = provider("mine", r#"{"$schema": "s", "provider": {"mine": {"npm": "x"}}}"#);
    assert_eq!(opencode_config_to_write(&whole), j(r#"{"npm": "x"}"#));
    let other = provider("mine", r#"{"provider": {"theirs": {"npm": "x"}}}"#);
    assert_eq!(opencode_config_to_write(&other), other.settings_config);
    match write_live_snapshot(&AppType::OpenCode, &whole, false) {
        Ok(LiveWrite::OpenCode { id, config, typed }) => {
            assert_eq!(id, "mine");
            assert_eq!(config, j(r#"{"npm": "x"}"#));
            assert!(!typed);
        }
        _ => panic!("the entry must be written"),
    }
    match write_live_snapshot(&AppType::OpenCode, &other, false) {
        Err(AppError::Message(words)) => assert_eq!(
            words,
            "OpenCode provider 'mine' has invalid config structure for live config (must contain 'npm' or 'options')"
        ),
        _ => panic!("this is no entry"),
    }
    assert!(write_live_snapshot(&AppType::OpenCode, &other, true).is_ok());
}

#[test]
fn openclaw_and_hermes_entries_are_written() {
    match write_live_snapshot(&AppType::OpenClaw, &provider("c", r#"{"x": 1}"#), false) {
        Err(AppError::Message(words)) => assert_eq!(
            words,
            "OpenClaw provider 'c' has invalid config structure for live config (must contain 'baseUrl', 'api', or 'models')"
        ),
        _ => panic!("this is no entry"),
    }
    for settings in [r#"{"baseUrl": ""}"#, r#"{"api": ""}"#, r#"{"models": []}"#] {
        match write_live_snapshot(&AppType::OpenClaw, &provider("c", settings), false) {
            Ok(LiveWrite::OpenClaw { id, config, typed }) => {
                assert_eq!((id.as_str(), config, typed), ("c", j(settings), false))
            }
            _ => panic!("the entry must be written"),
        }
    }
    match write_live_snapshot(&AppType::Hermes, &provider("h", "[7]"), false) {
        Ok(LiveWrite::Hermes { id, config }) => {
            assert_eq!((id.as_str(), config), ("h", j("[7]")))
        }
        _ => panic!("the entry must be written"),
    }
    assert!(matches!(
        write_live_snapshot(&AppType::Gemini, &provider("g", "{}"), false),
        Ok(LiveWrite::Gemini)
    ));
    assert!(matches!(
        write_live_snapshot(&AppType::GrokBuild, &provider("g", "{}"), false),
        Ok(LiveWrite::GrokBuild)
    ));
}

fn variables() -> Vec<(String, String)> {
    vec![("A".to_string(), "1".to_string())]
}

#[test]
fn gemini_settings_are_laid_over_what_is_there() {
    let p = provider("g", r#"{"config": {"ui": {"x": 1}, "new": 2}}"#);
    let write = write_gemini_live(
        &p,
        GeminiAuthType::Generic,
        Ok(variables()),
        FileRead::Read(j(r#"{"mcpServers": {"m": 1}, "ui": {"y": 2}}"#)),
        Ok(()),
    )
    .expect("written");
    assert_eq!(write.env, variables());
    assert_eq!(
        write.config,
        Some(j(r#"{"mcpServers": {"m": 1}, "ui": {"x": 1}, "new": 2}"#))
    );
    assert!(!write.oauth);
    for existing in [FileRead::Missing, FileRead::Failed(failure("unreadable"))] {
        let write = write_gemini_live(&p, GeminiAuthType::Generic, Ok(variables()), existing, Ok(()))
            .expect("written");
        assert_eq!(write.config, Some(p.settings_config["config"].clone()));
    }
}

#[test]
fn gemini_settings_stay_where_the_provider_has_none() {
    for settings in ["{}", r#"{"config": null}"#] {
        let p = provider("g", settings);
        let keep = write_gemini_live(
            &p,
            GeminiAuthType::Packycode,
            Ok(variables()),
            FileRead::Read(j("[1]")),
            Ok(()),
        );
        assert_eq!(keep.expect("written").config, Some(j("[1]")));
        let none = write_gemini_live(
            &p,
            GeminiAuthType::Packycode,
            Ok(variables()),
            FileRead::Missing,
            Ok(()),
        );
        assert_eq!(none.expect("written").config, None);
        let failed = write_gemini_live(
            &p,
            GeminiAuthType::Packycode,
            Ok(variables()),
            FileRead::Failed(failure("unreadable")),
            Ok(()),
        );
        assert!(matches!(failed, Err(AppError::Io(words)) if words == "unreadable"));
    }
}

#[test]
fn gemini_refuses_settings_of_another_kind() {
    for settings in [r#"{"config": 1}"#, r#"{"config": []}"#, r#"{"config": "x"}"#] {
        let refused = write_gemini_live(
            &provider("g", settings),
            GeminiAuthType::GoogleOfficial,
            Ok(variables()),
            FileRead::Missing,
            Ok(()),
        );
        assert_eq!(notice(refused), Some(Notice::GeminiInvalidConfig));
    }
}

#[test]
fn gemini_asks_for_a_key_unless_it_logs_in() {
    let p = provider("g", "{}");
    let strict = || Err(failure("no key"));
    for auth_type in [GeminiAuthType::Packycode, GeminiAuthType::Generic] {
        let refused =
            write_gemini_live(&p, auth_type, Ok(variables()), FileRead::Missing, strict());
        assert!(matches!(refused, Err(AppError::Io(words)) if words == "no key"));
    }
    let write = write_gemini_live(
        &p,
        GeminiAuthType::GoogleOfficial,
        Ok(variables()),
        FileRead::Missing,
        strict(),
    )
    .expect("no key is needed");
    assert!(write.oauth);
    let unread = write_gemini_live(
        &p,
        GeminiAuthType::GoogleOfficial,
        Err(failure("bad variables")),
        FileRead::Missing,
        Ok(()),
    );
    assert!(matches!(unread, Err(AppError::Io(words)) if words == "bad variables"));
}

#[test]
fn a_snapshot_is_restored_file_by_file() {
    let steps = LiveSnapshot::Claude { settings: Some(j("{}")) }.restore(true, false);
    assert!(matches!(
        steps.as_slice(),
        [RestoreAction::WriteJson(LiveFile::ClaudeSettings, value)] if *value == j("{}")
    ));
    let steps = LiveSnapshot::Claude { settings: None }.restore(true, false);
    assert!(matches!(steps.as_slice(), [RestoreAction::Delete(LiveFile::ClaudeSettings)]));
    assert!(LiveSnapshot::Claude { settings: None }.restore(false, true).is_empty());

    let codex = LiveSnapshot::Codex { auth: None, config: Some("a = 1".to_string()) };
    let steps = codex.restore(true, true);
    assert!(matches!(
        steps.as_slice(),
        [
            RestoreAction::Delete(LiveFile::CodexAuth),
            RestoreAction::WriteText(LiveFile::CodexConfig, text),
        ] if text == "a = 1"
    ));
    let codex = LiveSnapshot::Codex { auth: Some(j("1")), config: None };
    assert!(matches!(
        codex.restore(false, true).as_slice(),
        [
            RestoreAction::WriteJson(LiveFile::CodexAuth, _),
            RestoreAction::Delete(LiveFile::CodexConfig),
        ]
    ));
    assert_eq!(codex.restore(false, false).len(), 1);

    let gemini = LiveSnapshot::Gemini { env: Some(variables()), config: Some(j("[2]")) };
    assert!(matches!(
        gemini.restore(false, false).as_slice(),
        [
            RestoreAction::WriteEnv(LiveFile::GeminiEnv, env),
            RestoreAction::WriteJson(LiveFile::GeminiSettings, value),
        ] if *env == variables() && *value == j("[2]")
    ));
    let gemini = LiveSnapshot::Gemini { env: None, config: None };
    assert!(matches!(
        gemini.restore(true, true).as_slice(),
        [
            RestoreAction::Delete(LiveFile::GeminiEnv),
            RestoreAction::Delete(LiveFile::GeminiSettings),
        ]
    ));
    assert!(gemini.restore(false, false).is_empty());
}

// Reading

#[test]
fn missing_files_are_reported_by_application() {
    for (app_type, expected) in [
        (AppType::Claude, Notice::SettingsMissing),
        (AppType::ClaudeDesktop, Notice::DesktopReadUnsupported),
        (AppType::Gemini, Notice::GeminiEnvMissing),
        (AppType::OpenCode, Notice::OpenCodeMissing),
        (AppType::OpenClaw, Notice::OpenClawMissing),
        (AppType::Hermes, Notice::HermesMissing),
    ] {
        let read = read_live_settings(app_type, FileRead::Missing, FileRead::Missing);
        assert_eq!(notice(read), Some(expected));
    }
}

#[test]
fn files_are_read_as_they_are() {
    for app_type in [
        AppType::Claude,
        AppType::Codex,
        AppType::GrokBuild,
        AppType::OpenCode,
        AppType::OpenClaw,
        AppType::Hermes,
    ] {
        let read = read_live_settings(app_type, FileRead::Read(j(r#"{"a": 1}"#)), FileRead::Missing);
        assert_eq!(read.expect("read"), j(r#"{"a": 1}"#));
        let failed =
            read_live_settings(app_type, FileRead::Failed(failure("broken")), FileRead::Missing);
        assert!(matches!(failed, Err(AppError::Io(words)) if words == "broken"));
    }
}

#[test]
fn codex_gets_its_catalog_where_it_can_be_read() {
    let first = || FileRead::Read(j(r#"{"auth": {}}"#));
    let with = read_live_settings(AppType::Codex, first(), FileRead::Read(j(r#"{"models": []}"#)));
    assert_eq!(with.expect("read"), j(r#"{"auth": {}, "modelCatalog": {"models": []}}"#));
    let without = read_live_settings(AppType::Codex, first(), FileRead::Failed(failure("broken")));
    assert_eq!(without.expect("read"), j(r#"{"auth": {}}"#));
}

#[test]
fn gemini_is_read_from_two_files() {
    let env = || FileRead::Read(j(r#"{"env": {"K": "v"}}"#));
    let both = read_live_settings(AppType::Gemini, env(), FileRead::Read(j(r#"{"ui": 1}"#)));
    assert_eq!(both.expect("read"), j(r#"{"env": {"K": "v"}, "config": {"ui": 1}}"#));
    let one = read_live_settings(AppType::Gemini, env(), FileRead::Missing);
    assert_eq!(one.expect("read"), j(r#"{"env": {"K": "v"}, "config": {}}"#));
    let bare = read_live_settings(AppType::Gemini, FileRead::Read(j("{}")), FileRead::Missing);
    assert_eq!(bare.expect("read"), j(r#"{"env": {}, "config": {}}"#));
    let failed = read_live_settings(AppType::Gemini, env(), FileRead::Failed(failure("broken")));
    assert!(matches!(failed, Err(AppError::Io(words)) if words == "broken"));
}

// Importing a default

fn found(first: FileRead) -> Option<LiveFound> {
    Some(LiveFound {
        first,
        second: FileRead::Missing,
        grok_check: Ok(()),
        codex_has_key: false,
        codex_has_login: false,
    })
}

fn import(app_type: AppType, found: Option<LiveFound>) -> ImportStep {
    import_default_config(app_type, Some(Ok(false)), Some(false), found)
}

#[test]
fn an_import_asks_for_one_thing_after_the_other() {
    let ask = |step: ImportStep| match step {
        ImportStep::Ask(question) => Some(question),
        _ => None,
    };
    let app_type = AppType::Claude;
    assert_eq!(
        ask(import_default_config(app_type, None, None, None)),
        Some(ImportQuestion::StoredProviders)
    );
    assert_eq!(
        ask(import_default_config(app_type, Some(Ok(false)), None, None)),
        Some(ImportQuestion::Takeover)
    );
    assert_eq!(ask(import(app_type, None)), Some(ImportQuestion::Live));
}

#[test]
fn an_import_is_skipped_or_refused() {
    for app_type in [AppType::OpenCode, AppType::OpenClaw, AppType::Hermes] {
        assert!(matches!(import_default_config(app_type, None, None, None), ImportStep::Skip));
    }
    let app_type = AppType::Claude;
    assert!(matches!(
        import_default_config(app_type, Some(Ok(true)), None, None),
        ImportStep::Skip
    ));
    assert!(matches!(
        import_default_config(app_type, Some(Err(AppError::Database("x".to_string()))), None, None),
        ImportStep::Fail(AppError::Database(_))
    ));
    assert!(matches!(
        import_default_config(app_type, Some(Ok(false)), Some(true), None),
        ImportStep::Fail(AppError::Localized(Notice::LiveTakenOver))
    ));
    assert!(matches!(
        import(AppType::ClaudeDesktop, None),
        ImportStep::Fail(AppError::Localized(Notice::DesktopImportUnsupported))
    ));
    assert!(matches!(
        import(AppType::Claude, found(FileRead::Missing)),
        ImportStep::Fail(AppError::Localized(Notice::SettingsMissing))
    ));
    assert!(matches!(
        import(AppType::Gemini, found(FileRead::Missing)),
        ImportStep::Fail(AppError::Localized(Notice::GeminiLiveMissing))
    ));
    assert!(matches!(
        import(AppType::Codex, found(FileRead::Failed(failure("broken")))),
        ImportStep::Fail(AppError::Io(_))
    ));
}

fn saved(step: ImportStep) -> (Provider, bool) {
    match step {
        ImportStep::Save { provider, seed_official } => (provider, seed_official),
        _ => panic!("a provider must be saved"),
    }
}

#[test]
fn an_import_makes_the_default_provider() {
    let (p, seed) = saved(import(AppType::Claude, found(FileRead::Read(j(r#"{"a": 1}"#)))));
    assert_eq!((p.id.as_str(), p.name.as_str()), ("default", "default"));
    assert_eq!(p.settings_config, j(r#"{"a": 1}"#));
    assert_eq!(p.category.as_deref(), Some("custom"));
    assert!(p.website_url.is_none() && p.meta.is_none());
    assert!(!seed);
}

#[test]
fn codex_is_official_by_login_alone() {
    for (login, key, category) in [
        (true, false, "official"),
        (true, true, "custom"),
        (false, false, "custom"),
        (false, true, "custom"),
    ] {
        let mut live = found(FileRead::Read(j("{}"))).expect("found");
        live.codex_has_login = login;
        live.codex_has_key = key;
        let (p, _) = saved(import(AppType::Codex, Some(live)));
        assert_eq!(p.category.as_deref(), Some(category));
    }
}

#[test]
fn grok_is_checked_and_loses_its_mcp_servers() {
    let settings = r#"{"config": "model = \"m\"\n[mcp_servers.x]\ncommand = \"y\"\n"}"#;
    let (p, seed) = saved(import(AppType::GrokBuild, found(FileRead::Read(j(settings)))));
    let config = p.settings_config["config"].as_str().expect("text");
    assert!(config.contains("model = \"m\"") && !config.contains("mcp_servers"));
    assert_eq!(p.category.as_deref(), Some("custom"));
    assert!(seed);
    let mut live = found(FileRead::Read(j(settings))).expect("found");
    live.grok_check = Err(failure("no model"));
    assert!(matches!(
        import(AppType::GrokBuild, Some(live)),
        ImportStep::Fail(AppError::Io(words)) if words == "no model"
    ));
}

#[test]
fn startup_imports_into_an_empty_store_only() {
    let ask = |app_type: AppType, has_any: bool| {
        should_import_default_config_on_startup(&app_type, Ok(has_any)).expect("known")
    };
    assert!(ask(AppType::Claude, false));
    assert!(!ask(AppType::Claude, true));
    assert!(!ask(AppType::Hermes, false));
    let failed = should_import_default_config_on_startup(
        &AppType::Codex,
        Err(AppError::Database("locked".to_string())),
    );
    assert!(matches!(failed, Err(AppError::Database(_))));
    let additive = should_import_default_config_on_startup(
        &AppType::OpenCode,
        Err(AppError::Database("locked".to_string())),
    );
    assert_eq!(additive.ok(), Some(false));
}

// Importing entries

fn entry(id: &str, name: Option<&str>, settings: &str) -> LiveEntry {
    LiveEntry {
        id: id.to_string(),
        name: name.map(str::to_string),
        settings: Some(j(settings)),
        models: vec![name.map(str::to_string), Some("second".to_string())],
    }
}

#[test]
fn new_entries_become_managed_providers() {
    let entries = vec![entry("a", Some("A"), r#"{"x": 1}"#), entry("b", None, "{}")];
    let opencode = import_opencode_providers_from_live(&entries, &vec![], &vec![None, None]);
    assert_eq!(opencode.len(), 2);
    assert_eq!((opencode[0].id.as_str(), opencode[0].name.as_str()), ("a", "A"));
    assert_eq!(opencode[0].settings_config, j(r#"{"x": 1}"#));
    assert_eq!(
        opencode[0].meta.as_ref().and_then(|meta| meta.live_config_managed),
        Some(true)
    );
    assert_eq!(opencode[1].name, "b");
    let openclaw = import_openclaw_providers_from_live(&entries, &vec![], &vec![None, None]);
    assert_eq!(openclaw[0].name, "A");
    let hermes = import_hermes_providers_from_live(&entries, &vec![], &vec![None, None]);
    assert_eq!(hermes[0].name, "a");
}

#[test]
fn openclaw_entries_are_named_by_their_first_model() {
    let mut named = entry("a", Some("not this"), "{}");
    named.models = vec![Some("first".to_string()), Some("second".to_string())];
    let mut unnamed = entry("b", Some("not this"), "{}");
    unnamed.models = vec![None, Some("second".to_string())];
    let saved =
        import_openclaw_providers_from_live(&vec![named, unnamed], &vec![], &vec![None, None]);
    assert_eq!((saved[0].name.as_str(), saved[1].name.as_str()), ("first", "b"));
}

#[test]
fn entries_without_what_they_need_are_passed_over() {
    let mut unwritable = entry("a", None, "{}");
    unwritable.settings = None;
    let mut empty = entry("b", None, "{}");
    empty.models = Vec::new();
    let entries = vec![unwritable, empty, entry(" ", None, "{}")];
    let none = || vec![None, None, None];
    let ids = |providers: Vec<Provider>| {
        providers.into_iter().map(|p| p.id).collect::<Vec<String>>()
    };
    let opencode = import_opencode_providers_from_live(&entries, &vec![], &none());
    assert_eq!(ids(opencode), ["b", " "]);
    let openclaw = import_openclaw_providers_from_live(&entries, &vec![], &none());
    assert!(openclaw.is_empty());
    let hermes = import_hermes_providers_from_live(&entries, &vec![], &none());
    assert_eq!(ids(hermes), ["b"]);
}

#[test]
fn stored_providers_are_saved_only_when_changed() {
    let mut stored = provider("a", r#"{"x": 1}"#);
    stored.category = Some("kept".to_string());
    let known = vec!["a".to_string()];
    let same = vec![entry("a", None, r#"{"x": 1}"#)];
    let renamed = vec![entry("a", Some("new"), r#"{"x": 1}"#)];
    let changed = vec![entry("a", Some("new"), r#"{"x": 2}"#)];
    let found = || vec![Some(stored.clone())];

    assert!(import_opencode_providers_from_live(&same, &known, &found()).is_empty());
    assert!(import_openclaw_providers_from_live(&renamed, &known, &found()).is_empty());
    assert!(import_hermes_providers_from_live(&renamed, &known, &found()).is_empty());

    let saved = import_opencode_providers_from_live(&renamed, &known, &found());
    assert_eq!(saved[0].name, "new");
    assert_eq!(saved[0].category.as_deref(), Some("kept"));
    let saved = import_openclaw_providers_from_live(&changed, &known, &found());
    assert_eq!(saved[0].name, "name of a");
    assert_eq!(saved[0].settings_config, j(r#"{"x": 2}"#));
    assert!(saved[0].meta.is_none());

    // A provider that went away in between is not made anew.
    assert!(import_opencode_providers_from_live(&changed, &known, &vec![None]).is_empty());
}

#[test]
fn a_second_import_saves_nothing() {
    let entries = vec![
        entry("a", Some("A"), r#"{"x": 1.5}"#),
        entry("b", None, "{}"),
        entry("c", Some("C"), r#"{"y": [0.0]}"#),
    ];
    let stored = provider("c", r#"{"y": []}"#);
    let first_found = vec![None, None, Some(stored)];
    let saved = import_opencode_providers_from_live(&entries, &vec!["c".to_string()], &first_found);
    assert_eq!(saved.len(), 3);
    let ids: Vec<String> = saved.iter().map(|p| p.id.clone()).collect();
    let found: Vec<Option<Provider>> = saved.into_iter().map(Some).collect();
    assert!(import_opencode_providers_from_live(&entries, &ids, &found).is_empty());
    assert!(import_openclaw_providers_from_live(&entries, &ids, &found).is_empty());
    assert!(import_hermes_providers_from_live(&entries, &ids, &found).is_empty());
}

#[test]
fn entries_are_found_and_removed_by_id() {
    let ids = vec!["a".to_string(), "b".to_string()];
    assert!(contains_id(&ids, "b") && !contains_id(&ids, "c"));
    for app_type in [AppType::OpenCode, AppType::OpenClaw, AppType::Hermes] {
        let exists =
            |id: &str| provider_exists_in_live_config(&app_type, id, Ok(ids.clone())).expect("read");
        assert!(exists("a") && !exists("c"));
        assert!(provider_exists_in_live_config(&app_type, "a", Err(failure("broken"))).is_err());
    }
    let other = provider_exists_in_live_config(&AppType::Claude, "a", Err(failure("broken")));
    assert_eq!(other.ok(), Some(false));
    assert_eq!(remove_hermes_provider_from_live(true, "a").as_deref(), Some("a"));
    assert_eq!(remove_openclaw_provider_from_live(true, "a").as_deref(), Some("a"));
    assert_eq!(remove_opencode_provider_from_live(true, "a").as_deref(), Some("a"));
    assert_eq!(remove_hermes_provider_from_live(false, "a"), None);
    assert_eq!(remove_openclaw_provider_from_live(false, "a"), None);
    assert_eq!(remove_opencode_provider_from_live(false, "a"), None);
}

// Syncing

#[test]
fn providers_are_synced_unless_they_say_not_to() {
    let providers = vec![
        managed("a", None),
        managed("b", Some(false)),
        managed("c", Some(true)),
        provider("d", "{}"),
    ];
    assert_eq!(sync_all_providers_to_live(&providers), [0, 2, 3]);
}

#[test]
fn one_application_is_synced_by_its_mode() {
    let providers = vec![provider("a", "{}"), provider("b", "{}")];
    let sync = |app_type: AppType, id: Option<&str>| {
        sync_current_provider_for_app_to_live(&app_type, id, &providers)
    };
    assert_eq!(sync(AppType::Hermes, None), AppSync::All);
    assert_eq!(sync(AppType::Codex, None), AppSync::Nothing);
    assert_eq!(sync(AppType::Codex, Some("b")), AppSync::Current(1));
    assert_eq!(sync(AppType::Codex, Some("gone")), AppSync::McpOnly);
}

#[test]
fn a_takeover_sends_the_provider_to_the_backup() {
    let providers = vec![provider("a", "{}"), provider("b", "{}")];
    let sync = |app_type: AppType, id: Option<&str>, backup: bool, live: bool| {
        sync_current_provider_for_app_respecting_takeover(&app_type, id, &providers, backup, live)
    };
    assert_eq!(sync(AppType::Claude, Some("b"), false, false), TakeoverSync::Live(1));
    assert_eq!(sync(AppType::Claude, Some("b"), true, false), TakeoverSync::Backup(1));
    assert_eq!(sync(AppType::Claude, Some("b"), false, true), TakeoverSync::Backup(1));
    assert_eq!(sync(AppType::ClaudeDesktop, Some("b"), true, true), TakeoverSync::Live(1));
    assert_eq!(sync(AppType::Claude, None, true, true), TakeoverSync::Nothing);
    assert_eq!(sync(AppType::Claude, Some("gone"), false, false), TakeoverSync::Nothing);
}

/// Syncs everything; `fails` says which steps fail.
fn run(fails: &dyn Fn(&str) -> bool) -> (Vec<String>, Result<(), AppError>) {
    let mut done: Vec<String> = Vec::new();
    let (mut state, mut action) = start_live_sync();
    loop {
        let step = match action {
            SyncAction::Providers { app_type, all } => format!("providers {app_type:?} {all}"),
            SyncAction::Mcp => "mcp".to_string(),
            SyncAction::Skills(app_type) => format!("skills {app_type:?}"),
            SyncAction::Done(outcome) => return (done, outcome),
        };
        let outcome = if fails(&step) { Err(failure(&step)) } else { Ok(()) };
        done.push(step);
        (state, action) = sync_current_to_live(state, outcome);
    }
}

#[test]
fn everything_is_synced_in_order() {
    let (done, outcome) = run(&|_| false);
    assert!(outcome.is_ok());
    let apps = AppType::all();
    let mut expected: Vec<String> = Vec::new();
    for app_type in &apps {
        expected.push(format!("providers {app_type:?} {}", app_type.is_additive_mode()));
    }
    expected.push("mcp".to_string());
    for app_type in &apps {
        expected.push(format!("skills {app_type:?}"));
    }
    assert_eq!(done, expected);
}

#[test]
fn a_failure_of_mcp_is_kept_for_the_end() {
    let (all, _) = run(&|_| false);
    let (done, outcome) = run(&|step| step == "mcp" || step.starts_with("skills"));
    assert_eq!(done, all);
    assert!(matches!(outcome, Err(AppError::Io(words)) if words == "mcp"));
    let (done, outcome) = run(&|step| step.starts_with("skills"));
    assert_eq!(done, all);
    assert!(outcome.is_ok());
}

#[test]
fn a_failure_among_the_providers_ends_the_sync() {
    let (done, outcome) = run(&|step| step == "providers Codex false");
    assert_eq!(done.last().map(String::as_str), Some("providers Codex false"));
    assert_eq!(done.len(), 3);
    assert!(matches!(outcome, Err(AppError::Io(words)) if words == "providers Codex false"));
}

// Messages

#[test]
fn errors_are_worded() {
    let invalid = |app_type: AppType| {
        AppError::InvalidCommonConfig { app_type, words: "why".to_string() }
            .text("Product", "product")
    };
    assert_eq!(invalid(AppType::Claude), "Invalid Product common config: why");
    assert_eq!(invalid(AppType::Gemini), "Invalid Gemini common config: why");
    assert_eq!(
        AppError::Localized(Notice::SettingsMissing).text("Product", "product"),
        "Product settings file is missing"
    );
    assert_eq!(failure("broken").text("Product", "product"), "broken");
    assert_eq!(AppType::ClaudeDesktop.shown_name("Product"), "Product Desktop");
}

#[test]
fn json_texts_are_read_and_written() {
    assert_eq!(read_json("[1, {}]"), Ok(j("[1, {}]")));
    assert_eq!(json_text(&j("[1]")), "[\n  1\n]");
    assert_eq!(
        read_json("[1"),
        Err(serde_json::from_str::<Value>("[1").unwrap_err().to_string())
    );
}

#[test]
fn messages_are_worded_in_two_languages() {
    let words = Notice::SettingsMissing.words("Product", "product");
    assert_eq!(words.key, "product.live.missing");
    assert_eq!(words.zh, "Product Code 配置文件不存在");
    assert_eq!(words.en, "Product settings file is missing");
    let words = Notice::DesktopReadUnsupported.words("Product", "product");
    assert_eq!(words.key, "product_desktop.live.read_unsupported");
    assert_eq!(
        words.zh,
        "Product Desktop 3P 配置不支持作为通用 live 配置导入，请使用“从 Product 导入兼容供应商”。"
    );
    assert_eq!(
        words.en,
        "Product Desktop 3P configuration cannot be imported as a generic live config. Use 'Import compatible providers from Product' instead."
    );
    let words = Notice::DesktopImportUnsupported.words("Product", "product");
    assert_eq!(words.key, "product_desktop.import_unsupported");
    assert_eq!(
        words.en,
        "Product Desktop 3P config cannot be imported through the generic import flow. Use 'Import compatible providers from Product' instead."
    );
    let words = Notice::DesktopNeedsSwitch.words("Product", "product");
    assert_eq!(words.key, "product_desktop.live.requires_db_context");
    assert_eq!(words.zh, "Product Desktop 配置写入需要通过供应商切换流程执行");
    for (notice, key, en) in [
        (
            Notice::LiveTakenOver,
            "provider.import.live_taken_over",
            "The live config is currently taken over by the proxy (contains placeholders) and cannot be imported as a provider. Disable proxy takeover or restore the live config first.",
        ),
        (Notice::GeminiEnvMissing, "gemini.env.missing", "Gemini .env file not found"),
        (Notice::GeminiLiveMissing, "gemini.live.missing", "Gemini configuration file is missing"),
        (
            Notice::GeminiInvalidConfig,
            "gemini.validation.invalid_config",
            "Gemini config invalid: config must be an object or null",
        ),
        (Notice::OpenCodeMissing, "opencode.config.missing", "OpenCode configuration file not found"),
        (Notice::OpenClawMissing, "openclaw.config.missing", "OpenClaw configuration file not found"),
        (Notice::HermesMissing, "hermes.config.missing", "Hermes configuration file not found"),
    ] {
        let words = notice.words("Product", "product");
        assert_eq!((words.key.as_str(), words.en.as_str()), (key, en));
    }
}
