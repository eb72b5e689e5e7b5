//! The common configuration of an application: a snippet that is laid over the
//! settings of the providers that use it, and taken out before they are stored.
//!
//! For the assistant and for Gemini the snippet is JSON and joins their settings; for
//! Codex it is TOML and joins the text of `config.toml`. Other applications have none.

use vstd::prelude::*;

use crate::error::AppError;
use crate::json::{as_object, copy, get, get_text, parse, set_entry, string};
use crate::json_merge::{json_deep_merge, json_deep_remove, json_is_subset};
use crate::provider::{AppType, Provider};
use crate::text::{blank, trim};
use crate::toml_doc::{new_document, parse_document, print_document, root_item, root_item_mut};
use crate::toml_merge::{merge_toml_table_like, remove_toml_table_like, toml_item_is_subset};

verus! {

use crate::error::ErrorView;
use crate::json::{parsed_json, tree, JsonTree};
use crate::json_merge::{
    contains, disjoint, law_contained_object, law_contained_scalar, law_contains_itself,
    law_merged_by_key, law_merged_contains_source, law_removed_keeps_other_values,
    law_removed_undoes_merged, merged, removed,
};
use crate::provider::ProviderView;
use crate::text::{all_space, is_blank, law_blank, trimmed};
use crate::toml_doc::{
    document_layout, has_entry, lemma_empty_table, parsed_layout, parsed_toml, root, toml_text, DocumentLayout,
    TomlTree,
};
use crate::toml_layout::{
    distinct_keys, is_thinned, law_entries_that_stay_are_untouched, law_merging_keeps_layout,
    law_taking_out_keeps_layout, left_layout, merged_layout,
};
use crate::toml_merge::{
    law_toml_contained_table, law_toml_merged_by_key, law_toml_other_keys_untouched,
    law_toml_removed_keeps_other_values, law_toml_removed_undoes_merged, toml_contains, toml_disjoint, toml_merged, toml_removed,
};

/// What a `config.toml` says; a blank one says nothing.
pub open spec fn read_toml(text: Seq<char>) -> Result<TomlTree, Seq<char>> {
    if is_blank(text) {
        Ok(TomlTree::Table(Map::empty()))
    } else {
        parsed_toml(text)
    }
}

/// How a `config.toml` is written.
pub open spec fn read_layout(text: Seq<char>) -> DocumentLayout {
    if is_blank(text) {
        DocumentLayout::blank()
    } else {
        parsed_layout(text)
    }
}

/// What a `config.toml` says with a snippet laid over it, or taken out of it.
pub open spec fn updated_toml(config: TomlTree, snippet: TomlTree, enabled: bool) -> TomlTree {
    if enabled {
        toml_merged(config, snippet)
    } else {
        toml_removed(config, snippet)
    }
}

/// How a `config.toml` is written with a snippet laid over it, or taken out of it. The text
/// behind its last entry stays.
pub open spec fn updated_layout(
    config: Seq<char>,
    snippet: Seq<char>,
    enabled: bool,
) -> DocumentLayout {
    let layout = read_layout(config);
    DocumentLayout {
        root: if enabled {
            merged_layout(layout.root, parsed_layout(snippet).root)
        } else {
            left_layout(layout.root, read_toml(config)->Ok_0, parsed_toml(snippet)->Ok_0)
        },
        ..layout
    }
}

/// The text of a `config.toml` with a snippet laid over it, or taken out of it.
pub open spec fn updated_text(config: Seq<char>, snippet: Seq<char>, enabled: bool) -> Seq<char> {
    toml_text(
        updated_toml(read_toml(config)->Ok_0, parsed_toml(snippet)->Ok_0, enabled),
        updated_layout(config, snippet, enabled),
    )
}

/// Why a snippet cannot be laid over, or taken out of, a `config.toml`: the words for
/// the first of the two texts that is no TOML.
pub open spec fn toml_update_error(
    config: Seq<char>,
    snippet: Seq<char>,
    config_words: Seq<char>,
) -> Option<ErrorView> {
    match read_toml(config) {
        Err(words) => Some(ErrorView::Message(config_words + words)),
        Ok(_) => match parsed_toml(trimmed(snippet)) {
            Err(words) => Some(
                ErrorView::Message("Invalid Codex common config snippet: "@ + words),
            ),
            Ok(_) => None,
        },
    }
}

/// Lays a snippet over the text of a `config.toml`, or takes it out.
fn update_toml(config_toml: &str, snippet_toml: &str, enabled: bool, config_words: &str) -> (result:
    Result<String, AppError>)
    ensures
        result is Err <==> toml_update_error(config_toml@, snippet_toml@, config_words@) is Some,
        result matches Err(error) ==> toml_update_error(
            config_toml@,
            snippet_toml@,
            config_words@,
        ) == Some(error@),
        result matches Ok(text) ==> text@ == updated_text(
            config_toml@,
            trimmed(snippet_toml@),
            enabled,
        ),
{
    let mut target = if blank(config_toml) {
        let document = new_document();
        proof {
            lemma_empty_table(root(document));
        }
        document
    } else {
        match parse_document(config_toml) {
            Ok(document) => document,
            Err(words) => {
                return Err(AppError::message(config_words, words.as_str()));
            },
        }
    };
    let source = match parse_document(trim(snippet_toml)) {
        Ok(document) => document,
        Err(words) => {
            return Err(
                AppError::message("Invalid Codex common config snippet: ", words.as_str()),
            );
        },
    };
    if enabled {
        merge_toml_table_like(root_item_mut(&mut target), root_item(&source));
    } else {
        remove_toml_table_like(root_item_mut(&mut target), root_item(&source));
    }
    let text = print_document(&target);
    assert(root(target) == updated_toml(
        read_toml(config_toml@)->Ok_0,
        parsed_toml(trimmed(snippet_toml@))->Ok_0,
        enabled,
    ));
    assert(document_layout(target) == updated_layout(
        config_toml@,
        trimmed(snippet_toml@),
        enabled,
    ));
    Ok(text)
}

/// Lays a snippet over the text of a `config.toml`, or takes it out. What stays is written
/// as before, in its order: comments are kept, and no header appears. A blank snippet
/// changes nothing.
pub fn update_toml_common_config_snippet(
    config_toml: &str,
    snippet_toml: &str,
    enabled: bool,
) -> (result: Result<String, AppError>)
    ensures
        is_blank(snippet_toml@) ==> result is Ok && result->Ok_0@ == config_toml@,
        !is_blank(snippet_toml@) ==> {
            &&& result is Err <==> toml_update_error(
                config_toml@,
                snippet_toml@,
                "Invalid Codex config.toml: "@,
            ) is Some
            &&& result matches Err(error) ==> toml_update_error(
                config_toml@,
                snippet_toml@,
                "Invalid Codex config.toml: "@,
            ) == Some(error@)
            &&& result matches Ok(text) ==> text@ == updated_text(
                config_toml@,
                trimmed(snippet_toml@),
                enabled,
            )
        },
{
    if blank(snippet_toml) {
        return Ok(config_toml.to_owned());
    }
    update_toml(config_toml, snippet_toml, enabled, "Invalid Codex config.toml: ")
}

/// The `config.toml` that settings hold.
pub open spec fn config_text(settings: JsonTree) -> Seq<char> {
    match settings.text_at("config"@) {
        Some(text) => text,
        None => Seq::empty(),
    }
}

/// Whether settings contain a snippet. A blank snippet, one that cannot be read, and
/// one of an application that has none are contained nowhere.
pub open spec fn contains_snippet(app_type: AppType, settings: JsonTree, snippet: Seq<char>) -> bool {
    &&& !is_blank(snippet)
    &&& match app_type {
        AppType::Claude => match parsed_json(trimmed(snippet)) {
            Ok(source) => source is Object && contains(settings, source),
            Err(_) => false,
        },
        AppType::Codex => {
            &&& !is_blank(config_text(settings))
            &&& parsed_toml(config_text(settings)) is Ok
            &&& parsed_toml(trimmed(snippet)) is Ok
            &&& toml_contains(
                parsed_toml(config_text(settings))->Ok_0,
                parsed_toml(trimmed(snippet))->Ok_0,
            )
        },
        AppType::Gemini => match parsed_json(trimmed(snippet)) {
            Ok(source) => source is Object && match settings.object_at("env"@) {
                Some(env) => contains(env, source),
                None => false,
            },
            Err(_) => false,
        },
        _ => false,
    }
}

/// Why a snippet cannot be laid over settings, or taken out of them.
pub open spec fn snippet_error(
    app_type: AppType,
    settings: JsonTree,
    snippet: Seq<char>,
    enabled: bool,
) -> Option<ErrorView> {
    if is_blank(snippet) {
        None
    } else {
        match app_type {
            AppType::Claude => match parsed_json(trimmed(snippet)) {
                Ok(_) => None,
                Err(words) => Some(ErrorView::InvalidCommonConfig { app_type, words }),
            },
            AppType::Codex => toml_update_error(
                config_text(settings),
                snippet,
                if enabled {
                    "Invalid Codex config.toml while applying common config: "@
                } else {
                    "Invalid Codex config.toml while removing common config: "@
                },
            ),
            AppType::Gemini => match parsed_json(trimmed(snippet)) {
                Ok(_) => None,
                Err(words) => Some(ErrorView::InvalidCommonConfig { app_type, words }),
            },
            _ => None,
        }
    }
}

/// Whether `result` is `settings` with a snippet laid over, or taken out.
pub open spec fn is_updated(
    app_type: AppType,
    settings: JsonTree,
    snippet: Seq<char>,
    enabled: bool,
    result: JsonTree,
) -> bool {
    let source = parsed_json(trimmed(snippet))->Ok_0;
    if is_blank(snippet) {
        result == settings
    } else {
        match app_type {
            AppType::Claude => result == if enabled {
                merged(settings, source)
            } else {
                removed(settings, source)
            },
            AppType::Codex => result == settings.set(
                "config"@,
                JsonTree::Text(updated_text(config_text(settings), trimmed(snippet), enabled)),
            ),
            AppType::Gemini => result == match settings.get("env"@) {
                Some(env) => settings.set(
                    "env"@,
                    if enabled {
                        merged(env, source)
                    } else {
                        removed(env, source)
                    },
                ),
                None => if enabled {
                    settings.set("env"@, source)
                } else {
                    settings
                },
            },
            _ => result == settings,
        }
    }
}

/// Whether settings contain a snippet.
pub fn settings_contain_common_config(
    app_type: &AppType,
    settings: &serde_json::Value,
    snippet: &str,
) -> (result: bool)
    ensures
        result == contains_snippet(*app_type, tree(*settings), snippet@),
{
    let trimmed_snippet = trim(snippet);
    if trimmed_snippet.is_empty() {
        return false;
    }
    match app_type {
        AppType::Claude => match parse(trimmed_snippet) {
            Ok(source) => as_object(&source).is_some() && json_is_subset(settings, &source),
            Err(_) => false,
        },
        AppType::Codex => codex_text_contains(codex_config(settings), trimmed_snippet),
        AppType::Gemini => match parse(trimmed_snippet) {
            Ok(source) => as_object(&source).is_some() && match get(settings, "env") {
                Some(env) => as_object(env).is_some() && json_is_subset(env, &source),
                None => false,
            },
            Err(_) => false,
        },
        _ => false,
    }
}

/// The `config.toml` that settings hold.
fn codex_config(settings: &serde_json::Value) -> (result: &str)
    ensures
        result@ == config_text(tree(*settings)),
{
    proof {
        reveal_strlit("");
        assert(""@ =~= Seq::<char>::empty());
    }
    match get_text(settings, "config") {
        Some(config) => config,
        None => "",
    }
}

/// Whether the text of a `config.toml` contains a snippet.
fn codex_text_contains(config: &str, snippet: &str) -> (result: bool)
    ensures
        result == (!is_blank(config@) && parsed_toml(config@) is Ok && parsed_toml(snippet@) is Ok
            && toml_contains(parsed_toml(config@)->Ok_0, parsed_toml(snippet@)->Ok_0)),
{
    if blank(config) {
        return false;
    }
    match (parse_document(config), parse_document(snippet)) {
        (Ok(target), Ok(source)) => toml_item_is_subset(root_item(&target), root_item(&source)),
        _ => false,
    }
}

/// Whether the common configuration is laid over a provider's settings: as the
/// provider says, and where it says nothing, if its settings contain it. A blank
/// snippet is laid over nothing.
pub open spec fn uses_common_config(
    app_type: AppType,
    provider: ProviderView,
    snippet: Option<Seq<char>>,
) -> bool {
    match snippet {
        Some(snippet) => match provider.common_config_flag() {
            Some(enabled) => enabled && !is_blank(snippet),
            None => contains_snippet(app_type, provider.settings, snippet),
        },
        None => false,
    }
}

/// The characters of a text that may be missing.
pub open spec fn optional_str(text: Option<&str>) -> Option<Seq<char>> {
    match text {
        Some(text) => Some(text@),
        None => None,
    }
}

/// Whether the common configuration is laid over a provider's settings.
pub fn provider_uses_common_config(
    app_type: &AppType,
    provider: &Provider,
    snippet: Option<&str>,
) -> (result: bool)
    ensures
        result == uses_common_config(*app_type, provider@, optional_str(snippet)),
{
    let snippet = match snippet {
        Some(snippet) => snippet,
        None => {
            return false;
        },
    };
    let flag = match &provider.meta {
        Some(meta) => meta.common_config_enabled,
        None => None,
    };
    match flag {
        Some(enabled) => enabled && !blank(snippet),
        None => settings_contain_common_config(app_type, &provider.settings_config, snippet),
    }
}

/// Puts a snippet into the `config.toml` of settings, or takes it out.
fn update_codex_settings(settings: &serde_json::Value, snippet: &str, enabled: bool) -> (result:
    Result<serde_json::Value, AppError>)
    requires
        !is_blank(snippet@),
    ensures
        result is Err <==> snippet_error(
            AppType::Codex,
            tree(*settings),
            snippet@,
            enabled,
        ) is Some,
        result matches Err(error) ==> snippet_error(
            AppType::Codex,
            tree(*settings),
            snippet@,
            enabled,
        ) == Some(error@),
        result matches Ok(value) ==> is_updated(
            AppType::Codex,
            tree(*settings),
            snippet@,
            enabled,
            tree(value),
        ),
{
    let config = codex_config(settings);
    let config_words = if enabled {
        "Invalid Codex config.toml while applying common config: "
    } else {
        "Invalid Codex config.toml while removing common config: "
    };
    match update_toml(config, snippet, enabled, config_words) {
        Ok(text) => {
            let mut value = copy(settings);
            set_entry(&mut value, "config", string(text));
            Ok(value)
        },
        Err(error) => Err(error),
    }
}

/// Takes a snippet out of settings.
pub fn remove_common_config_from_settings(
    app_type: &AppType,
    settings: &serde_json::Value,
    snippet: &str,
) -> (result: Result<serde_json::Value, AppError>)
    ensures
        result is Err <==> snippet_error(*app_type, tree(*settings), snippet@, false) is Some,
        result matches Err(error) ==> snippet_error(*app_type, tree(*settings), snippet@, false)
            == Some(error@),
        result matches Ok(value) ==> is_updated(
            *app_type,
            tree(*settings),
            snippet@,
            false,
            tree(value),
        ),
{
    let trimmed_snippet = trim(snippet);
    if trimmed_snippet.is_empty() {
        return Ok(copy(settings));
    }
    match app_type {
        AppType::Claude => match parse(trimmed_snippet) {
            Ok(source) => {
                let mut value = copy(settings);
                json_deep_remove(&mut value, &source);
                Ok(value)
            },
            Err(words) => Err(AppError::InvalidCommonConfig { app_type: *app_type, words }),
        },
        AppType::Codex => update_codex_settings(settings, snippet, false),
        AppType::Gemini => match parse(trimmed_snippet) {
            Ok(source) => {
                let mut value = copy(settings);
                if let Some(env) = get(settings, "env") {
                    let mut env = copy(env);
                    json_deep_remove(&mut env, &source);
                    set_entry(&mut value, "env", env);
                }
                Ok(value)
            },
            Err(words) => Err(AppError::InvalidCommonConfig { app_type: *app_type, words }),
        },
        _ => Ok(copy(settings)),
    }
}

/// Lays a snippet over settings. A JSON snippet that was laid over them is contained in
/// them from then on.
pub fn apply_common_config_to_settings(
    app_type: &AppType,
    settings: &serde_json::Value,
    snippet: &str,
) -> (result: Result<serde_json::Value, AppError>)
    ensures
        result is Err <==> snippet_error(*app_type, tree(*settings), snippet@, true) is Some,
        result matches Err(error) ==> snippet_error(*app_type, tree(*settings), snippet@, true)
            == Some(error@),
        result matches Ok(value) ==> is_updated(
            *app_type,
            tree(*settings),
            snippet@,
            true,
            tree(value),
        ),
        result matches Ok(value) ==> {
            &&& !is_blank(snippet@)
            &&& *app_type is Claude || (*app_type is Gemini && tree(*settings) is Object)
            &&& parsed_json(trimmed(snippet@))->Ok_0 is Object
        } ==> contains_snippet(*app_type, tree(value), snippet@),
{
    let trimmed_snippet = trim(snippet);
    if trimmed_snippet.is_empty() {
        return Ok(copy(settings));
    }
    match app_type {
        AppType::Claude => match parse(trimmed_snippet) {
            Ok(source) => {
                let mut value = copy(settings);
                proof {
                    law_merged_contains_source(tree(*settings), tree(source));
                }
                json_deep_merge(&mut value, &source);
                Ok(value)
            },
            Err(words) => Err(AppError::InvalidCommonConfig { app_type: *app_type, words }),
        },
        AppType::Codex => update_codex_settings(settings, snippet, true),
        AppType::Gemini => match parse(trimmed_snippet) {
            Ok(source) => {
                let mut value = copy(settings);
                match get(settings, "env") {
                    Some(env) => {
                        let mut env = copy(env);
                        proof {
                            law_merged_contains_source(tree(env), tree(source));
                        }
                        json_deep_merge(&mut env, &source);
                        set_entry(&mut value, "env", env);
                    },
                    None => {
                        proof {
                            law_contains_itself(tree(source));
                        }
                        set_entry(&mut value, "env", source);
                    },
                }
                Ok(value)
            },
            Err(words) => Err(AppError::InvalidCommonConfig { app_type: *app_type, words }),
        },
        _ => Ok(copy(settings)),
    }
}

/// Law: a JSON snippet that shares no value with what it is laid over is taken out again
/// without a trace.
pub proof fn law_snippet_comes_out(
    app_type: AppType,
    settings: JsonTree,
    snippet: Seq<char>,
    applied: JsonTree,
    back: JsonTree,
)
    requires
        app_type is Claude || app_type is Gemini,
        parsed_json(trimmed(snippet)) is Ok,
        parsed_json(trimmed(snippet))->Ok_0.nan_free(),
        app_type is Claude ==> disjoint(settings, parsed_json(trimmed(snippet))->Ok_0),
        app_type is Gemini ==> settings.get("env"@) is Some && disjoint(
            settings.get("env"@)->0,
            parsed_json(trimmed(snippet))->Ok_0,
        ),
        is_updated(app_type, settings, snippet, true, applied),
        is_updated(app_type, applied, snippet, false, back),
    ensures
        back == settings,
{
    let source = parsed_json(trimmed(snippet))->Ok_0;
    if !is_blank(snippet) {
        if app_type is Claude {
            law_removed_undoes_merged(settings, source);
        } else {
            let env = settings.get("env"@)->0;
            law_removed_undoes_merged(env, source);
            assert(applied.get("env"@) == Some(merged(env, source)));
            assert(back->Object_0 =~= settings->Object_0);
        }
    }
}

/// Law: a TOML snippet that shares no value with a `config.toml` is taken out again, where
/// the text that it was laid over says what was written: the config says what it said before,
/// and what stays is written as in that text.
pub proof fn law_toml_snippet_comes_out(
    settings: JsonTree,
    snippet: Seq<char>,
    applied: JsonTree,
    back: JsonTree,
)
    requires
        settings is Object,
        !is_blank(snippet),
        parsed_toml(trimmed(snippet)) is Ok,
        parsed_toml(trimmed(snippet))->Ok_0.comparable(),
        read_toml(config_text(settings)) is Ok,
        toml_disjoint(
            read_toml(config_text(settings))->Ok_0,
            parsed_toml(trimmed(snippet))->Ok_0,
        ),
        is_updated(AppType::Codex, settings, snippet, true, applied),
        read_toml(config_text(applied)) == Ok::<TomlTree, Seq<char>>(
            updated_toml(
                read_toml(config_text(settings))->Ok_0,
                parsed_toml(trimmed(snippet))->Ok_0,
                true,
            ),
        ),
        is_updated(AppType::Codex, applied, snippet, false, back),
    ensures
        ({
            let config = read_toml(config_text(settings))->Ok_0;
            let source = parsed_toml(trimmed(snippet))->Ok_0;
            let layout = read_layout(config_text(applied));
            back == settings.set(
                "config"@,
                JsonTree::Text(
                    toml_text(
                        config,
                        (DocumentLayout {
                            root: left_layout(
                                layout.root,
                                updated_toml(config, source, true),
                                source,
                            ),
                            ..layout
                        }),
                    ),
                ),
            )
        }),
{
    let config = read_toml(config_text(settings))->Ok_0;
    let source = parsed_toml(trimmed(snippet))->Ok_0;
    law_toml_removed_undoes_merged(config, source);
    assert(back->Object_0 =~= settings->Object_0.insert(
        "config"@,
        JsonTree::Text(config_text(back)),
    ));
}

/// Law: what a provider says about the common configuration counts, and where it says nothing it
/// counts whether its settings contain the snippet. Nothing, and nothing but white space, is used
/// by no provider.
pub proof fn law_provider_decides(
    app_type: AppType,
    provider: ProviderView,
    snippet: Seq<char>,
)
    ensures
        !uses_common_config(app_type, provider, None),
        all_space(snippet) ==> !uses_common_config(app_type, provider, Some(snippet)),
        !all_space(snippet) && provider.meta is Some
            && provider.meta->0.common_config_enabled is Some ==> uses_common_config(
            app_type,
            provider,
            Some(snippet),
        ) == provider.meta->0.common_config_enabled->0,
        provider.meta is None || provider.meta->0.common_config_enabled is None
            ==> uses_common_config(app_type, provider, Some(snippet)) == contains_snippet(
            app_type,
            provider.settings,
            snippet,
        ),
{
    law_blank(snippet);
}

/// Law: settings contain a JSON snippet where each of its fields is contained, for the assistant
/// in the settings, for Gemini in their environment. A text, number or truth value of the snippet
/// is then there unchanged. What is no object is contained nowhere.
pub proof fn law_contained_json_snippet(
    app_type: AppType,
    settings: JsonTree,
    snippet: Seq<char>,
    key: Seq<char>,
)
    requires
        app_type is Claude || app_type is Gemini,
        contains_snippet(app_type, settings, snippet),
    ensures
        parsed_json(trimmed(snippet)) is Ok,
        ({
            let source = parsed_json(trimmed(snippet))->Ok_0;
            let place = if app_type is Claude {
                Some(settings)
            } else {
                settings.object_at("env"@)
            };
            &&& source is Object
            &&& place is Some && place->0 is Object
            &&& source.get(key) is Some ==> place->0.get(key) is Some && contains(
                place->0.get(key)->0,
                source.get(key)->0,
            )
            &&& source.get(key) is Some && !(source.get(key)->0 is Object || source.get(
                key,
            )->0 is Array || source.get(key)->0 is Float) ==> place->0.get(key) == source.get(key)
        }),
{
    let source = parsed_json(trimmed(snippet))->Ok_0;
    let place = if app_type is Claude {
        settings
    } else {
        settings.object_at("env"@)->0
    };
    law_contained_object(place, source);
    if source.get(key) is Some && !(source.get(key)->0 is Object || source.get(key)->0 is Array
        || source.get(key)->0 is Float) {
        law_contained_scalar(place.get(key)->0, source.get(key)->0);
    }
}

/// Law: where each field of a JSON snippet is contained in its place, the settings contain the
/// snippet.
pub proof fn law_json_snippet_is_found(
    app_type: AppType,
    settings: JsonTree,
    snippet: Seq<char>,
)
    requires
        app_type is Claude || app_type is Gemini,
        !all_space(snippet),
        parsed_json(trimmed(snippet)) is Ok,
        parsed_json(trimmed(snippet))->Ok_0 is Object,
        ({
            let source = parsed_json(trimmed(snippet))->Ok_0;
            let place = if app_type is Claude {
                settings
            } else {
                match settings.get("env"@) {
                    Some(env) => env,
                    None => JsonTree::Null,
                }
            };
            place is Object && forall|key: Seq<char>| #[trigger]
                source.get(key) is Some ==> place.get(key) is Some && contains(
                    place.get(key)->0,
                    source.get(key)->0,
                )
        }),
    ensures
        contains_snippet(app_type, settings, snippet),
{
    law_blank(snippet);
    let source = parsed_json(trimmed(snippet))->Ok_0;
    if app_type is Claude {
        law_contained_object(settings, source);
    } else {
        law_contained_object(settings.get("env"@)->0, source);
    }
}

/// Law: Codex's settings contain a TOML snippet where their `config.toml` has each of its keys,
/// with something that contains the snippet's, and only there.
pub proof fn law_contained_toml_snippet(settings: JsonTree, snippet: Seq<char>)
    requires
        parsed_toml(trimmed(snippet)) is Ok,
        parsed_toml(trimmed(snippet))->Ok_0 is Table,
        !all_space(snippet),
    ensures
        contains_snippet(AppType::Codex, settings, snippet) <==> {
            &&& settings.text_at("config"@) is Some
            &&& !all_space(settings.text_at("config"@)->0)
            &&& parsed_toml(settings.text_at("config"@)->0) is Ok
            &&& {
                let config = parsed_toml(settings.text_at("config"@)->0)->Ok_0;
                let source = parsed_toml(trimmed(snippet))->Ok_0;
                config.is_table_like() && forall|key: Seq<char>| #[trigger]
                    source.table().contains_key(key) ==> config.table().contains_key(key)
                        && toml_contains(config.table()[key], source.table()[key])
            }
        },
{
    law_blank(snippet);
    law_blank(config_text(settings));
    law_toml_contained_table(
        parsed_toml(config_text(settings))->Ok_0,
        parsed_toml(trimmed(snippet))->Ok_0,
    );
}

/// Law: the applications other than the assistant, Codex and Gemini have no common configuration:
/// none is found in their settings, laid over them or taken out of them, and none fails. A
/// snippet of nothing but white space changes no settings either.
pub proof fn law_no_common_config(
    app_type: AppType,
    settings: JsonTree,
    snippet: Seq<char>,
    enabled: bool,
    result: JsonTree,
)
    requires
        !(app_type is Claude || app_type is Codex || app_type is Gemini) || all_space(snippet),
    ensures
        !contains_snippet(app_type, settings, snippet),
        snippet_error(app_type, settings, snippet, enabled) is None,
        is_updated(app_type, settings, snippet, enabled, result) <==> result == settings,
{
    law_blank(snippet);
}

/// Law: a JSON snippet can be laid over settings, and taken out, where it is JSON; a TOML snippet,
/// where both it and the `config.toml` are TOML, a blank `config.toml` among them.
pub proof fn law_when_a_snippet_can_be_laid_over(
    app_type: AppType,
    settings: JsonTree,
    snippet: Seq<char>,
    enabled: bool,
)
    requires
        !all_space(snippet),
    ensures
        app_type is Claude || app_type is Gemini ==> (snippet_error(
            app_type,
            settings,
            snippet,
            enabled,
        ) is None <==> parsed_json(trimmed(snippet)) is Ok),
        app_type is Codex ==> (snippet_error(app_type, settings, snippet, enabled) is None <==> {
            &&& parsed_toml(trimmed(snippet)) is Ok
            &&& settings.text_at("config"@) matches Some(config) ==> all_space(config)
                || parsed_toml(config) is Ok
        }),
{
    law_blank(snippet);
    law_blank(config_text(settings));
}

/// Law: laying a JSON snippet over settings, for Gemini over their environment, gives each field
/// of the snippet that is no object its value there and keeps every field that the snippet does
/// not have. Taking it out takes out the texts, numbers and truth values that are the snippet's,
/// and keeps all others. Nothing outside the place of the snippet changes.
pub proof fn law_json_snippet_by_key(
    app_type: AppType,
    settings: JsonTree,
    snippet: Seq<char>,
    enabled: bool,
    result: JsonTree,
    key: Seq<char>,
)
    requires
        app_type is Claude || app_type is Gemini,
        !all_space(snippet),
        parsed_json(trimmed(snippet)) is Ok,
        parsed_json(trimmed(snippet))->Ok_0 is Object,
        settings is Object,
        app_type is Gemini ==> settings.object_at("env"@) is Some,
        is_updated(app_type, settings, snippet, enabled, result),
    ensures
        ({
            let source = parsed_json(trimmed(snippet))->Ok_0;
            let before = if app_type is Claude {
                settings
            } else {
                settings.object_at("env"@)->0
            };
            let after = if app_type is Claude {
                Some(result)
            } else {
                result.object_at("env"@)
            };
            &&& app_type is Gemini && key != "env"@ ==> result.get(key) == settings.get(key)
            &&& after is Some && after->0 is Object
            &&& source.get(key) is None ==> after->0.get(key) == before.get(key)
            &&& enabled && source.get(key) is Some && source.object_at(key) is None
                ==> after->0.get(key) == source.get(key)
            &&& enabled && source.object_at(key) is Some && before.object_at(key) is None
                ==> after->0.get(key) == source.get(key)
            &&& enabled && source.object_at(key) is Some && before.object_at(key) is Some
                ==> after->0.get(key) == Some(
                merged(before.object_at(key)->0, source.object_at(key)->0),
            )
            &&& !enabled && before.get(key) is Some && !(before.get(key)->0 is Object
                || before.get(key)->0 is Array || before.get(key)->0 is Float) ==> after->0.get(key)
                == (if source.get(key) == before.get(key) {
                None
            } else {
                before.get(key)
            })
            &&& !enabled && before.get(key) is None ==> after->0.get(key) is None
        }),
{
    law_blank(snippet);
    let source = parsed_json(trimmed(snippet))->Ok_0;
    let before = if app_type is Claude {
        settings
    } else {
        settings.object_at("env"@)->0
    };
    law_merged_by_key(before, source, key);
    law_removed_keeps_other_values(before, source, key);
    lemma_removed_is_object(before, source, key);
}

proof fn lemma_removed_is_object(target: JsonTree, source: JsonTree, key: Seq<char>)
    requires
        target is Object,
        source is Object,
    ensures
        removed(target, source) is Object,
        source.get(key) is None ==> removed(target, source).get(key) == target.get(key),
{
}

/// Law: Gemini's settings without an environment get the snippet as one, and lose nothing when it
/// is taken out.
pub proof fn law_gemini_without_environment(
    settings: JsonTree,
    snippet: Seq<char>,
    enabled: bool,
    result: JsonTree,
)
    requires
        !all_space(snippet),
        settings is Object,
        settings.get("env"@) is None,
        is_updated(AppType::Gemini, settings, snippet, enabled, result),
    ensures
        enabled ==> result.get("env"@) == Some(parsed_json(trimmed(snippet))->Ok_0),
        !enabled ==> result == settings,
{
    law_blank(snippet);
}

/// Law: laying a TOML snippet over Codex's settings, or taking it out, changes their `config.toml`
/// alone. What it says then has each entry that the snippet does not have as before; once the
/// snippet was laid over, each of the snippet's, joined where both are tables; once it was taken
/// out, each text, integer, truth value and point in time that is not the snippet's. The text
/// behind the last entry stays.
pub proof fn law_toml_snippet_by_key(
    settings: JsonTree,
    snippet: Seq<char>,
    enabled: bool,
    result: JsonTree,
    key: Seq<char>,
) -> (written: (TomlTree, DocumentLayout))
    requires
        settings is Object,
        settings.text_at("config"@) is Some,
        !all_space(settings.text_at("config"@)->0),
        !all_space(snippet),
        parsed_toml(settings.text_at("config"@)->0) is Ok,
        parsed_toml(settings.text_at("config"@)->0)->Ok_0 is Table,
        parsed_toml(trimmed(snippet)) is Ok,
        parsed_toml(trimmed(snippet))->Ok_0 is Table,
        is_updated(AppType::Codex, settings, snippet, enabled, result),
    ensures
        result.get("config"@) == Some(JsonTree::Text(toml_text(written.0, written.1))),
        key != "config"@ ==> result.get(key) == settings.get(key),
        written.1.trailing == parsed_layout(settings.text_at("config"@)->0).trailing,
        ({
            let had = parsed_toml(settings.text_at("config"@)->0)->Ok_0.table();
            let source = parsed_toml(trimmed(snippet))->Ok_0.table();
            let has = written.0.table();
            &&& written.0 is Table
            &&& !source.contains_key(key) ==> {
                &&& has.contains_key(key) <==> had.contains_key(key)
                &&& had.contains_key(key) ==> has[key] == had[key]
            }
            &&& enabled && source.contains_key(key) ==> {
                &&& has.contains_key(key)
                &&& !(had.contains_key(key) && had[key].is_table_like()
                    && source[key].is_table_like()) ==> has[key] == source[key]
                &&& had.contains_key(key) && had[key].is_table_like() && source[key].is_table_like()
                    ==> has[key] == toml_merged(had[key], source[key])
            }
            &&& !enabled ==> (has.contains_key(key) ==> had.contains_key(key))
            &&& !enabled && had.contains_key(key) && (had[key] is Text || had[key] is Integer
                || had[key] is Bool || had[key] is Datetime) ==> {
                &&& has.contains_key(key) <==> !(source.contains_key(key) && source[key]
                    == had[key])
                &&& has.contains_key(key) ==> has[key] == had[key]
            }
        }),
{
    let config = settings.text_at("config"@)->0;
    law_blank(snippet);
    law_blank(config);
    let had = parsed_toml(config)->Ok_0;
    let source = parsed_toml(trimmed(snippet))->Ok_0;
    law_toml_merged_by_key(had, source, key);
    law_toml_removed_keeps_other_values(had, source, key);
    if !source.table().contains_key(key) {
        law_toml_other_keys_untouched(had, source, key);
    }
    (updated_toml(had, source, enabled), updated_layout(config, trimmed(snippet), enabled))
}

/// Law: taking a snippet out of a `config.toml` keeps every value that is not the snippet's: a
/// key of both whose value is neither table nor array and does not contain the snippet's has the
/// same value in what is written. A text, an integer, a truth value or a point in time goes only
/// where the snippet has the very same.
pub proof fn law_values_survive_the_snippet(
    config: &str,
    snippet: &str,
    result: Result<String, AppError>,
    key: Seq<char>,
) -> (written: (TomlTree, DocumentLayout))
    requires
        call_ensures(update_toml_common_config_snippet, (config, snippet, false), result),
        !all_space(config@),
        !all_space(snippet@),
        parsed_toml(config@) is Ok,
        parsed_toml(config@)->Ok_0 is Table,
        parsed_toml(trimmed(snippet@)) is Ok,
        parsed_toml(trimmed(snippet@))->Ok_0 is Table,
    ensures
        result is Ok,
        result->Ok_0@ == toml_text(written.0, written.1),
        ({
            let had = parsed_toml(config@)->Ok_0.table();
            let gone = parsed_toml(trimmed(snippet@))->Ok_0.table();
            let left = written.0.table();
            &&& left.contains_key(key) ==> had.contains_key(key)
            &&& had.contains_key(key) && !gone.contains_key(key) ==> left.contains_key(key)
                && left[key] == had[key]
            &&& had.contains_key(key) && gone.contains_key(key) && !(had[key].is_table_like()
                || had[key] is Array) && !toml_contains(had[key], gone[key])
                ==> left.contains_key(key) && left[key] == had[key]
            &&& had.contains_key(key) && (had[key] is Text || had[key] is Integer || had[key] is Bool
                || had[key] is Datetime) ==> {
                &&& left.contains_key(key) <==> !(gone.contains_key(key) && gone[key] == had[key])
                &&& left.contains_key(key) ==> left[key] == had[key]
            }
        }),
{
    law_blank(snippet@);
    law_blank(config@);
    let had = parsed_toml(config@)->Ok_0;
    let gone = parsed_toml(trimmed(snippet@))->Ok_0;
    law_toml_removed_keeps_other_values(had, gone, key);
    if !gone.table().contains_key(key) {
        law_toml_other_keys_untouched(had, gone, key);
    }
    (updated_toml(had, gone, false), updated_layout(config@, trimmed(snippet@), false))
}

/// Law: laying a snippet over a `config.toml` keeps every entry that the snippet does not have and
/// gives each that it has the snippet's value, joined where both are tables. A blank snippet
/// leaves the text as it is.
pub proof fn law_snippet_is_laid_over(
    config: &str,
    snippet: &str,
    enabled: bool,
    result: Result<String, AppError>,
    key: Seq<char>,
) -> (written: (TomlTree, DocumentLayout))
    requires
        call_ensures(update_toml_common_config_snippet, (config, snippet, enabled), result),
    ensures
        all_space(snippet@) ==> result is Ok && result->Ok_0@ == config@,
        !all_space(snippet@) ==> (result is Ok <==> (all_space(config@) || parsed_toml(
            config@,
        ) is Ok) && parsed_toml(trimmed(snippet@)) is Ok),
        enabled && !all_space(snippet@) && result is Ok ==> result->Ok_0@ == toml_text(
            written.0,
            written.1,
        ),
        enabled && result is Ok && !all_space(snippet@) && !all_space(config@) && parsed_toml(
            config@,
        )->Ok_0 is Table && parsed_toml(trimmed(snippet@))->Ok_0 is Table ==> {
            let had = parsed_toml(config@)->Ok_0.table();
            let new = parsed_toml(trimmed(snippet@))->Ok_0.table();
            let both = written.0.table();
            &&& both.contains_key(key) <==> had.contains_key(key) || new.contains_key(key)
            &&& had.contains_key(key) && !new.contains_key(key) ==> both[key] == had[key]
            &&& new.contains_key(key) && !(had.contains_key(key) && had[key].is_table_like()
                && new[key].is_table_like()) ==> both[key] == new[key]
        },
        enabled && result is Ok && !all_space(snippet@) && all_space(config@) && parsed_toml(
            trimmed(snippet@),
        )->Ok_0 is Table ==> {
            let new = parsed_toml(trimmed(snippet@))->Ok_0.table();
            &&& written.0.table().contains_key(key) <==> new.contains_key(key)
            &&& new.contains_key(key) ==> written.0.table()[key] == new[key]
        },
{
    law_blank(snippet@);
    law_blank(config@);
    let had = read_toml(config@)->Ok_0;
    let new = parsed_toml(trimmed(snippet@))->Ok_0;
    law_toml_merged_by_key(had, new, key);
    (updated_toml(had, new, enabled), updated_layout(config@, trimmed(snippet@), enabled))
}

/// Law: an error about a snippet says which of the texts could not be read, in the parser's words:
/// for a JSON snippet the snippet, for a TOML snippet the `config.toml` before the snippet.
pub proof fn law_words_about_a_snippet(
    app_type: AppType,
    settings: JsonTree,
    snippet: Seq<char>,
    enabled: bool,
)
    requires
        !all_space(snippet),
    ensures
        app_type is Claude || app_type is Gemini ==> (parsed_json(trimmed(snippet)) matches Err(
            words,
        ) ==> snippet_error(app_type, settings, snippet, enabled) == Some(
            ErrorView::InvalidCommonConfig { app_type, words },
        )),
        app_type is Codex ==> {
            let config = settings.text_at("config"@);
            let readable = config is None || all_space(config->0) || parsed_toml(config->0) is Ok;
            &&& !readable && enabled ==> snippet_error(app_type, settings, snippet, enabled) == Some(
                ErrorView::Message(
                    "Invalid Codex config.toml while applying common config: "@ + parsed_toml(
                        config->0,
                    )->Err_0,
                ),
            )
            &&& !readable && !enabled ==> snippet_error(app_type, settings, snippet, enabled)
                == Some(
                ErrorView::Message(
                    "Invalid Codex config.toml while removing common config: "@ + parsed_toml(
                        config->0,
                    )->Err_0,
                ),
            )
            &&& readable && parsed_toml(trimmed(snippet)) is Err ==> snippet_error(
                app_type,
                settings,
                snippet,
                enabled,
            ) == Some(
                ErrorView::Message(
                    "Invalid Codex common config snippet: "@ + parsed_toml(
                        trimmed(snippet),
                    )->Err_0,
                ),
            )
        },
{
    law_blank(snippet);
    law_blank(config_text(settings));
}

/// Law: in the text of a `config.toml` that a snippet was laid over, every entry stands where it
/// stood, with its key and the comments in front of it, and one that the snippet does not have is
/// written just as before; new entries come behind. Of a text that a snippet was taken out of,
/// every entry that the snippet does not have is written just as before, and what stays stands in
/// its order.
pub proof fn law_comments_survive_the_snippet(
    settings: JsonTree,
    snippet: Seq<char>,
    enabled: bool,
    result: JsonTree,
    i: int,
) -> (written: (TomlTree, DocumentLayout))
    requires
        settings is Object,
        settings.text_at("config"@) is Some,
        !all_space(settings.text_at("config"@)->0),
        !all_space(snippet),
        parsed_toml(settings.text_at("config"@)->0) is Ok,
        parsed_toml(settings.text_at("config"@)->0)->Ok_0 is Table,
        parsed_toml(trimmed(snippet)) is Ok,
        parsed_toml(trimmed(snippet))->Ok_0 is Table,
        parsed_layout(settings.text_at("config"@)->0).root is Table,
        parsed_layout(trimmed(snippet)).root is Table,
        distinct_keys(parsed_layout(settings.text_at("config"@)->0).root.entries()),
        distinct_keys(parsed_layout(trimmed(snippet)).root.entries()),
        0 <= i < parsed_layout(settings.text_at("config"@)->0).root.entries().len(),
        is_updated(AppType::Codex, settings, snippet, enabled, result),
    ensures
        result.get("config"@) == Some(JsonTree::Text(toml_text(written.0, written.1))),
        ({
            let before = parsed_layout(settings.text_at("config"@)->0);
            let entry = before.root.entries()[i];
            let after = written.1.root;
            let source = parsed_toml(trimmed(snippet))->Ok_0.table();
            &&& written.1.trailing == before.trailing
            &&& after.with_entries(before.root.entries()) == before.root
            &&& enabled ==> {
                &&& i < after.entries().len()
                &&& after.entries()[i].key == entry.key
                &&& after.entries()[i].form == entry.form
                &&& !has_entry(parsed_layout(trimmed(snippet)).root.entries(), entry.key)
                    ==> after.entries()[i] == entry
            }
            &&& !enabled ==> {
                &&& is_thinned(before.root.entries(), after.entries())
                &&& !source.contains_key(entry.key) ==> after.entries().contains(entry)
            }
        }),
{
    let config = settings.text_at("config"@)->0;
    law_blank(snippet);
    law_blank(config);
    let had = parsed_toml(config)->Ok_0;
    let source = parsed_toml(trimmed(snippet))->Ok_0;
    let layout = parsed_layout(config).root;
    if enabled {
        law_merging_keeps_layout(layout, parsed_layout(trimmed(snippet)).root, i);
    } else {
        law_taking_out_keeps_layout(layout, had, source);
        law_entries_that_stay_are_untouched(layout, had, source, i);
    }
    (updated_toml(had, source, enabled), updated_layout(config, trimmed(snippet), enabled))
}

/// Law: whether a provider uses the common configuration is what it says, and otherwise whether its
/// settings contain it.
pub proof fn law_use_is_decided(
    app_type: &AppType,
    provider: &Provider,
    snippet: Option<&str>,
    result: bool,
    contained: bool,
)
    requires
        call_ensures(provider_uses_common_config, (app_type, provider, snippet), result),
        snippet matches Some(text) ==> call_ensures(
            settings_contain_common_config,
            (app_type, &provider.settings_config, text),
            contained,
        ),
    ensures
        snippet is None ==> !result,
        snippet matches Some(text) && all_space(text@) ==> !result,
        snippet matches Some(text) && !all_space(text@) && provider@.meta is Some
            && provider@.meta->0.common_config_enabled is Some ==> result
            == provider@.meta->0.common_config_enabled->0,
        snippet is Some && (provider@.meta is None
            || provider@.meta->0.common_config_enabled is None) ==> result == contained,
{
    if let Some(text) = snippet {
        law_provider_decides(*app_type, provider@, text@);
    }
}

/// Law: a JSON snippet is laid over settings, and taken out of them, field by field: a field that
/// the snippet does not have stays, one that is no object gets the snippet's value, and a text,
/// number or truth value goes only where it is the snippet's.
pub proof fn law_settings_with_and_without_snippet(
    app_type: &AppType,
    settings: &serde_json::Value,
    snippet: &str,
    applied: serde_json::Value,
    left: serde_json::Value,
    key: Seq<char>,
)
    requires
        *app_type is Claude,
        call_ensures(
            apply_common_config_to_settings,
            (app_type, settings, snippet),
            Ok(applied),
        ),
        call_ensures(
            remove_common_config_from_settings,
            (app_type, settings, snippet),
            Ok(left),
        ),
        !all_space(snippet@),
        tree(*settings) is Object,
        parsed_json(trimmed(snippet@)) is Ok,
        parsed_json(trimmed(snippet@))->Ok_0 is Object,
    ensures
        ({
            let source = parsed_json(trimmed(snippet@))->Ok_0;
            let before = tree(*settings);
            &&& source.get(key) is None ==> tree(applied).get(key) == before.get(key) && tree(
                left,
            ).get(key) == before.get(key)
            &&& source.get(key) is Some && !(source.get(key)->0 is Object) ==> tree(applied).get(key)
                == source.get(key)
            &&& before.get(key) is Some && !(before.get(key)->0 is Object || before.get(
                key,
            )->0 is Array || before.get(key)->0 is Float) ==> tree(left).get(key) == (
            if source.get(key) == before.get(key) {
                None
            } else {
                before.get(key)
            })
        }),
{
    law_json_snippet_by_key(*app_type, tree(*settings), snippet@, true, tree(applied), key);
    law_json_snippet_by_key(*app_type, tree(*settings), snippet@, false, tree(left), key);
}

} // verus!
