//! Providers of additive live configurations: which of them go into the store, which
//! of them stay in the configuration.

use vstd::prelude::*;

use crate::error::AppError;
use crate::json::{copy, equal};
use crate::provider::{AppType, Provider, ProviderMeta};
use crate::text::{blank, same_text};

verus! {

use crate::json::{json_eq, lemma_equals_itself, tree, JsonTree};
use crate::provider::{optional_text, MetaView, ProviderView};
use crate::text::{all_space, is_blank, law_blank};

/// An entry of an additive live configuration.
pub struct LiveEntry {
    pub id: String,
    /// The name that OpenCode's configuration gives it.
    pub name: Option<String>,
    /// The settings; none where they could not be written out as JSON.
    pub settings: Option<serde_json::Value>,
    /// The models that OpenClaw's configuration defines, by the names it gives them.
    pub models: Vec<Option<String>>,
}

/// The mathematical value of a [`LiveEntry`].
pub struct EntryView {
    pub id: Seq<char>,
    pub name: Option<Seq<char>>,
    pub settings: Option<JsonTree>,
    pub models: Seq<Option<Seq<char>>>,
}

impl View for LiveEntry {
    type V = EntryView;

    open spec fn view(&self) -> EntryView {
        EntryView {
            id: self.id@,
            name: optional_text(self.name),
            settings: match self.settings {
                Some(settings) => Some(tree(settings)),
                None => None,
            },
            models: self.models@.map_values(|name: Option<String>| optional_text(name)),
        }
    }
}

/// A provider that comes new into the store from a live configuration.
pub open spec fn new_provider(id: Seq<char>, name: Seq<char>, settings: JsonTree) -> ProviderView {
    ProviderView {
        meta: Some(MetaView { live_config_managed: Some(true), ..MetaView::none() }),
        ..ProviderView::plain(id, name, settings, None)
    }
}

/// What a store knows of an entry.
pub enum StoredEntry {
    /// No provider has the entry's id.
    Unknown,
    /// A provider has the entry's id, but could not be had.
    Unavailable,
    /// The provider that has the entry's id.
    Found(ProviderView),
}

/// What the store knows of an entry, by the ids in it and the provider that was found.
pub open spec fn stored_entry(
    id: Seq<char>,
    existing_ids: Seq<String>,
    found: Option<Provider>,
) -> StoredEntry {
    if exists|i: int| 0 <= i < existing_ids.len() && #[trigger] existing_ids[i]@ == id {
        match found {
            Some(provider) => StoredEntry::Found(provider@),
            None => StoredEntry::Unavailable,
        }
    } else {
        StoredEntry::Unknown
    }
}

/// The provider to save for an entry: a new one, or the one that is stored, if its
/// name or settings have changed.
pub open spec fn saved(
    id: Seq<char>,
    new_name: Seq<char>,
    changed_name: Option<Seq<char>>,
    settings: JsonTree,
    stored: StoredEntry,
) -> Option<ProviderView> {
    match stored {
        StoredEntry::Unknown => Some(new_provider(id, new_name, settings)),
        StoredEntry::Unavailable => None,
        StoredEntry::Found(provider) => {
            let name = match changed_name {
                Some(name) => name,
                None => provider.name,
            };
            if !json_eq(provider.settings, settings) || provider.name != name {
                Some(ProviderView { name, settings, ..provider })
            } else {
                None
            }
        },
    }
}

/// A name, or else an id.
pub open spec fn name_or_id(name: Option<Seq<char>>, id: Seq<char>) -> Seq<char> {
    match name {
        Some(name) => name,
        None => id,
    }
}

/// The provider to save for an entry of OpenCode's configuration, whose name is kept up.
pub open spec fn opencode_saved(entry: EntryView, stored: StoredEntry) -> Option<ProviderView> {
    match entry.settings {
        Some(settings) => saved(
            entry.id,
            name_or_id(entry.name, entry.id),
            entry.name,
            settings,
            stored,
        ),
        None => None,
    }
}

/// The provider to save for an entry of OpenClaw's configuration, which is named by its
/// first model; none without an id or a model.
pub open spec fn openclaw_saved(entry: EntryView, stored: StoredEntry) -> Option<ProviderView> {
    if is_blank(entry.id) || entry.models.len() == 0 {
        None
    } else {
        match entry.settings {
            Some(settings) => saved(
                entry.id,
                name_or_id(entry.models[0], entry.id),
                None,
                settings,
                stored,
            ),
            None => None,
        }
    }
}

/// The provider to save for an entry of Hermes's configuration, which is named by its
/// id; none without one.
pub open spec fn hermes_saved(entry: EntryView, stored: StoredEntry) -> Option<ProviderView> {
    if is_blank(entry.id) {
        None
    } else {
        match entry.settings {
            Some(settings) => saved(entry.id, entry.id, None, settings, stored),
            None => None,
        }
    }
}

/// The provider to save for an entry of an additive configuration.
pub open spec fn entry_saved(app_type: AppType, entry: EntryView, stored: StoredEntry) -> Option<
    ProviderView,
> {
    match app_type {
        AppType::OpenCode => opencode_saved(entry, stored),
        AppType::OpenClaw => openclaw_saved(entry, stored),
        _ => hermes_saved(entry, stored),
    }
}

/// The providers to save for the first `n` entries of an additive configuration, in
/// order.
pub open spec fn all_saved(
    app_type: AppType,
    entries: Seq<LiveEntry>,
    existing_ids: Seq<String>,
    found: Seq<Option<Provider>>,
    n: nat,
) -> Seq<ProviderView>
    decreases n,
{
    if n == 0 {
        Seq::empty()
    } else {
        let before = all_saved(app_type, entries, existing_ids, found, (n - 1) as nat);
        let entry = entries[n - 1]@;
        let stored = stored_entry(entry.id, existing_ids, found[n - 1]);
        match entry_saved(app_type, entry, stored) {
            Some(provider) => before.push(provider),
            None => before,
        }
    }
}

/// The mathematical value of a list of providers.
pub open spec fn provider_views(providers: Seq<Provider>) -> Seq<ProviderView> {
    providers.map_values(|provider: Provider| provider@)
}

/// Whether an id is in a list.
pub fn contains_id(ids: &Vec<String>, id: &str) -> (result: bool)
    ensures
        result == exists|i: int| 0 <= i < ids@.len() && #[trigger] ids@[i]@ == id@,
{
    let mut i: usize = 0;
    while i < ids.len()
        invariant
            i <= ids.len(),
            forall|k: int| 0 <= k < i ==> #[trigger] ids@[k]@ != id@,
        decreases ids.len() - i,
    {
        if same_text(ids[i].as_str(), id) {
            assert(ids@[i as int]@ == id@);
            return true;
        }
        i += 1;
    }
    false
}

fn provider_to_save(
    id: &str,
    new_name: &str,
    changed_name: Option<&str>,
    settings: &serde_json::Value,
    known: bool,
    found: &Option<Provider>,
) -> (result: Option<Provider>)
    ensures
        ({
            let stored = if known {
                match found {
                    Some(provider) => StoredEntry::Found(provider@),
                    None => StoredEntry::Unavailable,
                }
            } else {
                StoredEntry::Unknown
            };
            let expected = saved(
                id@,
                new_name@,
                match changed_name {
                    Some(name) => Some(name@),
                    None => None,
                },
                tree(*settings),
                stored,
            );
            &&& result is Some <==> expected is Some
            &&& result matches Some(provider) ==> expected == Some(provider@)
        }),
        result matches Some(provider) ==> provider@.settings.nan_free(),
{
    if known {
        let existing = match found {
            Some(existing) => existing,
            None => {
                return None;
            },
        };
        let name = match changed_name {
            Some(name) => name.to_owned(),
            None => existing.name.clone(),
        };
        if equal(&existing.settings_config, settings) && same_text(
            existing.name.as_str(),
            name.as_str(),
        ) {
            return None;
        }
        let mut provider = existing.clone();
        provider.name = name;
        provider.settings_config = copy(settings);
        return Some(provider);
    }
    let mut provider = Provider::with_id(id.to_owned(), new_name.to_owned(), copy(settings), None);
    let mut meta = ProviderMeta::default();
    meta.live_config_managed = Some(true);
    provider.meta = Some(meta);
    Some(provider)
}

fn shown_name<'a>(name: &'a Option<String>, id: &'a str) -> (result: &'a str)
    ensures
        result@ == name_or_id(optional_text(*name), id@),
{
    match name {
        Some(name) => name.as_str(),
        None => id,
    }
}

fn entry_to_save(
    app_type: &AppType,
    entry: &LiveEntry,
    existing_ids: &Vec<String>,
    found: &Option<Provider>,
) -> (result: Option<Provider>)
    requires
        app_type.additive(),
    ensures
        ({
            let stored = stored_entry(entry.id@, existing_ids@, *found);
            let expected = entry_saved(*app_type, entry@, stored);
            &&& result is Some <==> expected is Some
            &&& result matches Some(provider) ==> expected == Some(provider@)
        }),
        result matches Some(provider) ==> provider@.settings.nan_free(),
{
    let id = entry.id.as_str();
    if !matches!(app_type, AppType::OpenCode) && blank(id) {
        return None;
    }
    if matches!(app_type, AppType::OpenClaw) && entry.models.len() == 0 {
        return None;
    }
    let settings = match &entry.settings {
        Some(settings) => settings,
        None => {
            return None;
        },
    };
    let known = contains_id(existing_ids, id);
    match app_type {
        AppType::OpenCode => provider_to_save(
            id,
            shown_name(&entry.name, id),
            match &entry.name {
                Some(name) => Some(name.as_str()),
                None => None,
            },
            settings,
            known,
            found,
        ),
        AppType::OpenClaw => provider_to_save(
            id,
            shown_name(&entry.models[0], id),
            None,
            settings,
            known,
            found,
        ),
        _ => provider_to_save(id, id, None, settings, known, found),
    }
}

fn import_providers_from_live(
    app_type: &AppType,
    entries: &Vec<LiveEntry>,
    existing_ids: &Vec<String>,
    found: &Vec<Option<Provider>>,
) -> (result: Vec<Provider>)
    requires
        app_type.additive(),
        entries@.len() == found@.len(),
    ensures
        provider_views(result@) == all_saved(
            *app_type,
            entries@,
            existing_ids@,
            found@,
            entries@.len(),
        ),
        forall|i: int| 0 <= i < result@.len() ==> (#[trigger] result@[i])@.settings.nan_free(),
{
    let mut result: Vec<Provider> = Vec::new();
    let mut i: usize = 0;
    assert(provider_views(result@) =~= Seq::empty());
    while i < entries.len()
        invariant
            i <= entries.len(),
            app_type.additive(),
            entries@.len() == found@.len(),
            provider_views(result@) == all_saved(
                *app_type,
                entries@,
                existing_ids@,
                found@,
                i as nat,
            ),
            forall|k: int| 0 <= k < result@.len() ==> (#[trigger] result@[k])@.settings.nan_free(),
        decreases entries.len() - i,
    {
        let ghost before = result@;
        if let Some(provider) = entry_to_save(app_type, &entries[i], existing_ids, &found[i]) {
            result.push(provider);
            assert(provider_views(result@) =~= provider_views(before).push(provider@));
        }
        i += 1;
    }
    result
}

/// The providers to save for the entries of OpenCode's configuration. `found` holds,
/// for each entry whose id is in `existing_ids`, the provider that is stored.
pub fn import_opencode_providers_from_live(
    entries: &Vec<LiveEntry>,
    existing_ids: &Vec<String>,
    found: &Vec<Option<Provider>>,
) -> (result: Vec<Provider>)
    requires
        entries@.len() == found@.len(),
    ensures
        provider_views(result@) == all_saved(
            AppType::OpenCode,
            entries@,
            existing_ids@,
            found@,
            entries@.len(),
        ),
        forall|i: int| 0 <= i < result@.len() ==> (#[trigger] result@[i])@.settings.nan_free(),
{
    import_providers_from_live(&AppType::OpenCode, entries, existing_ids, found)
}

/// The providers to save for the entries of OpenClaw's configuration. `found` holds,
/// for each entry whose id is in `existing_ids`, the provider that is stored.
pub fn import_openclaw_providers_from_live(
    entries: &Vec<LiveEntry>,
    existing_ids: &Vec<String>,
    found: &Vec<Option<Provider>>,
) -> (result: Vec<Provider>)
    requires
        entries@.len() == found@.len(),
    ensures
        provider_views(result@) == all_saved(
            AppType::OpenClaw,
            entries@,
            existing_ids@,
            found@,
            entries@.len(),
        ),
        forall|i: int| 0 <= i < result@.len() ==> (#[trigger] result@[i])@.settings.nan_free(),
{
    import_providers_from_live(&AppType::OpenClaw, entries, existing_ids, found)
}

/// The providers to save for the entries of Hermes's configuration. `found` holds, for
/// each entry whose id is in `existing_ids`, the provider that is stored.
pub fn import_hermes_providers_from_live(
    entries: &Vec<LiveEntry>,
    existing_ids: &Vec<String>,
    found: &Vec<Option<Provider>>,
) -> (result: Vec<Provider>)
    requires
        entries@.len() == found@.len(),
    ensures
        provider_views(result@) == all_saved(
            AppType::Hermes,
            entries@,
            existing_ids@,
            found@,
            entries@.len(),
        ),
        forall|i: int| 0 <= i < result@.len() ==> (#[trigger] result@[i])@.settings.nan_free(),
{
    import_providers_from_live(&AppType::Hermes, entries, existing_ids, found)
}

/// The entry to take out of Hermes's configuration: that of the provider, or none,
/// where there is no configuration.
pub fn remove_hermes_provider_from_live(dir_exists: bool, provider_id: &str) -> (result: Option<
    String,
>)
    ensures
        optional_text(result) == if dir_exists {
            Some(provider_id@)
        } else {
            None
        },
{
    entry_to_remove(dir_exists, provider_id)
}

/// The entry to take out of OpenClaw's configuration: that of the provider, or none,
/// where there is no configuration.
pub fn remove_openclaw_provider_from_live(dir_exists: bool, provider_id: &str) -> (result: Option<
    String,
>)
    ensures
        optional_text(result) == if dir_exists {
            Some(provider_id@)
        } else {
            None
        },
{
    entry_to_remove(dir_exists, provider_id)
}

/// The entry to take out of OpenCode's configuration: that of the provider, or none,
/// where there is no configuration.
pub fn remove_opencode_provider_from_live(dir_exists: bool, provider_id: &str) -> (result: Option<
    String,
>)
    ensures
        optional_text(result) == if dir_exists {
            Some(provider_id@)
        } else {
            None
        },
{
    entry_to_remove(dir_exists, provider_id)
}

fn entry_to_remove(dir_exists: bool, provider_id: &str) -> (result: Option<String>)
    ensures
        optional_text(result) == if dir_exists {
            Some(provider_id@)
        } else {
            None
        },
{
    if dir_exists {
        Some(provider_id.to_owned())
    } else {
        None
    }
}

/// Whether a provider has an entry in the live configuration, whose ids are given. Only
/// an additive application's configuration has entries, and only its is read.
pub fn provider_exists_in_live_config(
    app_type: &AppType,
    provider_id: &str,
    live_ids: Result<Vec<String>, AppError>,
) -> (result: Result<bool, AppError>)
    ensures
        !app_type.additive() ==> result is Ok && !result->Ok_0,
        app_type.additive() ==> match live_ids {
            Ok(ids) => result is Ok && result->Ok_0 == exists|i: int|
                0 <= i < ids@.len() && #[trigger] ids@[i]@ == provider_id@,
            Err(error) => result is Err && result->Err_0@ == error@,
        },
{
    if !app_type.is_additive_mode() {
        return Ok(false);
    }
    match live_ids {
        Ok(ids) => Ok(contains_id(&ids, provider_id)),
        Err(error) => Err(error),
    }
}

/// Law: an entry whose provider is stored under its id, with its name and settings, is
/// saved by no import.
pub proof fn law_unchanged_entry_is_not_saved(entry: EntryView, provider: ProviderView)
    requires
        entry.settings matches Some(settings) ==> json_eq(provider.settings, settings),
        entry.name is None || entry.name == Some(provider.name),
    ensures
        opencode_saved(entry, StoredEntry::Found(provider)) is None,
        openclaw_saved(entry, StoredEntry::Found(provider)) is None,
        hermes_saved(entry, StoredEntry::Found(provider)) is None,
{
}

/// Law: an import changes nothing of a stored provider but its name and its settings.
pub proof fn law_import_keeps_stored_fields(entry: EntryView, provider: ProviderView)
    ensures
        opencode_saved(entry, StoredEntry::Found(provider)) matches Some(saved) ==> saved == (
        ProviderView { name: saved.name, settings: saved.settings, ..provider }),
        openclaw_saved(entry, StoredEntry::Found(provider)) matches Some(saved) ==> saved == (
        ProviderView { settings: saved.settings, ..provider }),
        hermes_saved(entry, StoredEntry::Found(provider)) matches Some(saved) ==> saved == (
        ProviderView { settings: saved.settings, ..provider }),
{
}

/// What the store knows of an entry once it has been imported.
pub open spec fn stored_after(app_type: AppType, entry: EntryView, stored: StoredEntry) -> StoredEntry {
    match entry_saved(app_type, entry, stored) {
        Some(provider) => StoredEntry::Found(provider),
        None => stored,
    }
}

/// Law: a second import saves nothing, where the store holds what the first one left and the
/// live configuration is as it was. The settings hold no float that is no number, as no
/// value of `serde_json` does.
pub proof fn law_second_import_saves_nothing(
    app_type: AppType,
    entries: Seq<LiveEntry>,
    first_ids: Seq<String>,
    first_found: Seq<Option<Provider>>,
    second_ids: Seq<String>,
    second_found: Seq<Option<Provider>>,
    n: nat,
)
    requires
        n <= entries.len(),
        entries.len() == first_found.len() == second_found.len(),
        forall|i: int|
            0 <= i < entries.len() ==> match (#[trigger] entries[i])@.settings {
                Some(settings) => settings.nan_free(),
                None => true,
            },
        forall|i: int|
            0 <= i < entries.len() ==> stored_entry(
                (#[trigger] entries[i])@.id,
                second_ids,
                second_found[i],
            ) == stored_after(
                app_type,
                entries[i]@,
                stored_entry(entries[i]@.id, first_ids, first_found[i]),
            ),
    ensures
        all_saved(app_type, entries, second_ids, second_found, n) == Seq::<ProviderView>::empty(),
    decreases n,
{
    if n > 0 {
        law_second_import_saves_nothing(
            app_type,
            entries,
            first_ids,
            first_found,
            second_ids,
            second_found,
            (n - 1) as nat,
        );
        let entry = entries[n - 1]@;
        if let Some(settings) = entry.settings {
            lemma_equals_itself(settings);
        }
        let before = stored_entry(entry.id, first_ids, first_found[n - 1]);
        assert(entry_saved(app_type, entry, stored_after(app_type, entry, before)) is None);
    }
}

/// Law: an import saves nothing, where every entry's provider is stored with the entry's
/// settings and, where the entry has one, its name.
pub proof fn law_unchanged_import_saves_nothing(
    app_type: AppType,
    entries: Seq<LiveEntry>,
    existing_ids: Seq<String>,
    found: Seq<Option<Provider>>,
    n: nat,
)
    requires
        n <= entries.len(),
        entries.len() == found.len(),
        forall|i: int|
            0 <= i < entries.len() ==> match stored_entry(
                (#[trigger] entries[i])@.id,
                existing_ids,
                found[i],
            ) {
                StoredEntry::Found(provider) => {
                    &&& provider.settings.nan_free()
                    &&& entries[i]@.settings == Some(provider.settings)
                    &&& entries[i]@.name is None || entries[i]@.name == Some(provider.name)
                },
                _ => false,
            },
    ensures
        all_saved(app_type, entries, existing_ids, found, n) == Seq::<ProviderView>::empty(),
    decreases n,
{
    if n > 0 {
        law_unchanged_import_saves_nothing(
            app_type,
            entries,
            existing_ids,
            found,
            (n - 1) as nat,
        );
        let entry = entries[n - 1]@;
        let stored = stored_entry(entry.id, existing_ids, found[n - 1]);
        lemma_equals_itself(stored->Found_0.settings);
        law_unchanged_entry_is_not_saved(entry, stored->Found_0);
    }
}

/// Whether an entry of an additive configuration has what it needs to be imported: settings, for
/// OpenClaw and Hermes an id that is not blank, and for OpenClaw a model.
pub open spec fn is_complete(app_type: AppType, entry: EntryView) -> bool {
    &&& entry.settings is Some
    &&& app_type is OpenClaw || app_type is Hermes ==> !all_space(entry.id)
    &&& app_type is OpenClaw ==> entry.models.len() > 0
}

/// Law: for each of the three applications, where a provider is stored under an entry's id, the
/// entry has what it needs, and its settings are not equal to the stored ones, the import saves
/// that provider with the entry's settings. Its name becomes that of the entry in OpenCode's
/// configuration, where the entry has one, and stays in any other case; everything else of it
/// stays.
pub proof fn law_changed_settings_are_saved(
    app_type: AppType,
    entry: EntryView,
    provider: ProviderView,
)
    requires
        app_type is OpenCode || app_type is OpenClaw || app_type is Hermes,
        is_complete(app_type, entry),
        !json_eq(provider.settings, entry.settings->0),
    ensures
        entry_saved(app_type, entry, StoredEntry::Found(provider)) == Some(
            ProviderView {
                settings: entry.settings->0,
                name: if app_type is OpenCode && entry.name is Some {
                    entry.name->0
                } else {
                    provider.name
                },
                ..provider
            },
        ),
{
    law_blank(entry.id);
}

/// Law: an entry of OpenCode's configuration that has another name than the stored provider has
/// it saved with that name, even where the settings are equal.
pub proof fn law_changed_name_is_saved(entry: EntryView, provider: ProviderView)
    requires
        entry.settings is Some,
        entry.name is Some,
        entry.name->0 != provider.name,
    ensures
        entry_saved(AppType::OpenCode, entry, StoredEntry::Found(provider)) == Some(
            ProviderView { settings: entry.settings->0, name: entry.name->0, ..provider },
        ),
{
}

/// Law: for each of the three applications, an entry that has what it needs and whose id no
/// stored provider has is saved as a new provider: under that id, with the entry's settings, its
/// live entry kept up, and nothing else known of it. OpenCode's is named as the entry is,
/// OpenClaw's as its first model is, and where there is no such name, or for Hermes, as its id.
pub proof fn law_new_entry_is_saved(app_type: AppType, entry: EntryView)
    requires
        app_type is OpenCode || app_type is OpenClaw || app_type is Hermes,
        is_complete(app_type, entry),
    ensures
        entry_saved(app_type, entry, StoredEntry::Unknown) is Some,
        ({
            let new = entry_saved(app_type, entry, StoredEntry::Unknown)->0;
            &&& new.id == entry.id
            &&& new.settings == entry.settings->0
            &&& new.name == if app_type is OpenCode && entry.name is Some {
                entry.name->0
            } else if app_type is OpenClaw && entry.models[0] is Some {
                entry.models[0]->0
            } else {
                entry.id
            }
            &&& new.website_url is None
            &&& new.category is None
            &&& new.meta is Some
            &&& new.meta->0.live_config_managed == Some(true)
            &&& new.meta->0.common_config_enabled is None
            &&& new.meta->0.provider_type is None
        }),
{
    law_blank(entry.id);
}

/// Law: an entry that does not have what it needs is not saved, and neither is one whose provider
/// is stored but could not be had.
pub proof fn law_incomplete_entry_is_not_saved(
    app_type: AppType,
    entry: EntryView,
    stored: StoredEntry,
)
    requires
        app_type is OpenCode || app_type is OpenClaw || app_type is Hermes,
        !is_complete(app_type, entry) || stored is Unavailable,
    ensures
        entry_saved(app_type, entry, stored) is None,
{
    law_blank(entry.id);
}

/// Law: the store knows an entry where its id is among the ids in it, and only there; what it
/// then has is the provider that was found.
pub proof fn law_stored_under_its_id(
    id: Seq<char>,
    existing_ids: Seq<String>,
    found: Option<Provider>,
)
    ensures
        stored_entry(id, existing_ids, found) is Unknown <==> forall|i: int|
            0 <= i < existing_ids.len() ==> #[trigger] existing_ids[i]@ != id,
        !(stored_entry(id, existing_ids, found) is Unknown) ==> {
            &&& found matches Some(provider) ==> stored_entry(id, existing_ids, found)
                == StoredEntry::Found(provider@)
            &&& found is None ==> stored_entry(id, existing_ids, found) is Unavailable
        },
{
}

/// Law: an import saves what each entry has saved, and nothing else, in the order of the entries.
pub proof fn law_import_saves_each_entry(
    app_type: AppType,
    entries: Seq<LiveEntry>,
    existing_ids: Seq<String>,
    found: Seq<Option<Provider>>,
    n: nat,
) -> (places: Seq<int>)
    requires
        n <= entries.len(),
        entries.len() == found.len(),
    ensures
        ({
            let all = all_saved(app_type, entries, existing_ids, found, n);
            &&& places.len() == all.len()
            &&& forall|k: int, l: int| 0 <= k < l < places.len() ==> places[k] < places[l]
            &&& forall|k: int|
                0 <= k < places.len() ==> 0 <= #[trigger] places[k] < n && entry_saved(
                    app_type,
                    entries[places[k]]@,
                    stored_entry(entries[places[k]]@.id, existing_ids, found[places[k]]),
                ) == Some(all[k])
            &&& forall|i: int|
                0 <= i < n && entry_saved(
                    app_type,
                    (#[trigger] entries[i])@,
                    stored_entry(entries[i]@.id, existing_ids, found[i]),
                ) is Some ==> places.contains(i)
        }),
    decreases n,
{
    if n == 0 {
        Seq::empty()
    } else {
        let m = (n - 1) as nat;
        let before = law_import_saves_each_entry(app_type, entries, existing_ids, found, m);
        let last = entries[m as int]@;
        let stored = stored_entry(last.id, existing_ids, found[m as int]);
        if entry_saved(app_type, last, stored) is Some {
            let places = before.push(m as int);
            assert forall|i: int|
                0 <= i < n && entry_saved(
                    app_type,
                    (#[trigger] entries[i])@,
                    stored_entry(entries[i]@.id, existing_ids, found[i]),
                ) is Some implies places.contains(i) by {
                if i == m {
                    assert(places[places.len() - 1] == i);
                } else {
                    let k = choose|k: int| 0 <= k < before.len() && before[k] == i;
                    assert(places[k] == i);
                }
            }
            places
        } else {
            before
        }
    }
}

/// Law: a provider has an entry in a live configuration exactly where the application is additive
/// and its id is among the live ids; reading them failed only where the application is additive.
pub proof fn law_entry_in_live_config(
    app_type: &AppType,
    provider_id: &str,
    live_ids: Result<Vec<String>, AppError>,
    result: Result<bool, AppError>,
)
    requires
        call_ensures(provider_exists_in_live_config, (app_type, provider_id, live_ids), result),
    ensures
        result == Ok::<bool, AppError>(true) ==> {
            &&& *app_type is OpenCode || *app_type is OpenClaw || *app_type is Hermes
            &&& live_ids matches Ok(ids) && exists|i: int|
                0 <= i < ids@.len() && #[trigger] ids@[i]@ == provider_id@
        },
        result is Err ==> live_ids is Err && (*app_type is OpenCode || *app_type is OpenClaw
            || *app_type is Hermes),
        (*app_type is OpenCode || *app_type is OpenClaw || *app_type is Hermes) && live_ids is Err
            ==> result is Err,
        (*app_type is OpenCode || *app_type is OpenClaw || *app_type is Hermes) && (
        live_ids matches Ok(ids) && exists|i: int|
            0 <= i < ids@.len() && #[trigger] ids@[i]@ == provider_id@) ==> result
            == Ok::<bool, AppError>(true),
{
}

/// Law: each of the three imports saves the provider that is stored under an entry's id with the
/// entry's settings, where the entry has what it needs and its settings are not equal to the
/// stored ones.
pub proof fn law_imports_save_changed_settings(
    app_type: AppType,
    entries: &Vec<LiveEntry>,
    existing_ids: &Vec<String>,
    found: &Vec<Option<Provider>>,
    result: Vec<Provider>,
    i: int,
    j: int,
)
    requires
        app_type is OpenCode ==> call_ensures(
            import_opencode_providers_from_live,
            (entries, existing_ids, found),
            result,
        ),
        app_type is OpenClaw ==> call_ensures(
            import_openclaw_providers_from_live,
            (entries, existing_ids, found),
            result,
        ),
        app_type is Hermes ==> call_ensures(
            import_hermes_providers_from_live,
            (entries, existing_ids, found),
            result,
        ),
        app_type is OpenCode || app_type is OpenClaw || app_type is Hermes,
        entries@.len() == found@.len(),
        0 <= i < entries@.len(),
        0 <= j < existing_ids@.len(),
        existing_ids@[j]@ == entries@[i]@.id,
        found@[i] is Some,
        is_complete(app_type, entries@[i]@),
        !json_eq(found@[i]->0@.settings, entries@[i]@.settings->0),
    ensures
        exists|k: int|
            0 <= k < result@.len() && (#[trigger] result@[k])@ == (ProviderView {
                settings: entries@[i]@.settings->0,
                name: if app_type is OpenCode && entries@[i]@.name is Some {
                    entries@[i]@.name->0
                } else {
                    found@[i]->0@.name
                },
                ..found@[i]->0@
            }),
{
    let n = entries@.len();
    let entry = entries@[i]@;
    law_stored_under_its_id(entry.id, existing_ids@, found@[i]);
    law_changed_settings_are_saved(app_type, entry, found@[i]->0@);
    let places = law_import_saves_each_entry(app_type, entries@, existing_ids@, found@, n);
    let all = all_saved(app_type, entries@, existing_ids@, found@, n);
    assert(provider_views(result@) == all);
    assert(places.contains(i));
    let k = choose|k: int| 0 <= k < places.len() && places[k] == i;
    assert(all[k] == result@[k]@);
}

/// Law: an entry is taken out of an additive configuration by the provider's id, where there is a
/// configuration, and only there.
pub proof fn law_entry_is_taken_out(
    dir_exists: bool,
    provider_id: &str,
    opencode: Option<String>,
    openclaw: Option<String>,
    hermes: Option<String>,
)
    requires
        call_ensures(remove_opencode_provider_from_live, (dir_exists, provider_id), opencode),
        call_ensures(remove_openclaw_provider_from_live, (dir_exists, provider_id), openclaw),
        call_ensures(remove_hermes_provider_from_live, (dir_exists, provider_id), hermes),
    ensures
        opencode is Some <==> dir_exists,
        openclaw is Some <==> dir_exists,
        hermes is Some <==> dir_exists,
        dir_exists ==> opencode->0@ == provider_id@ && openclaw->0@ == provider_id@ && hermes->0@
            == provider_id@,
{
}

} // verus!
