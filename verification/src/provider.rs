//! Applications, and the providers that are configured for them.

use vstd::prelude::*;

use crate::json::copy;
use crate::text::{joined, same_text};

verus! {

use crate::json::{tree, JsonTree};

/// An application whose live configuration is managed.
#[derive(Debug, Clone, Copy, PartialEq, Eq, Structural)]
pub enum AppType {
    Claude,
    ClaudeDesktop,
    Codex,
    Gemini,
    GrokBuild,
    OpenCode,
    OpenClaw,
    Hermes,
}

impl AppType {
    /// Whether the live configuration holds all providers side by side, rather than
    /// the current one.
    pub open spec fn additive(self) -> bool {
        self is OpenCode || self is OpenClaw || self is Hermes
    }

    /// All applications, in the order in which they are synced.
    pub open spec fn order() -> Seq<AppType> {
        seq![
            AppType::Claude,
            AppType::ClaudeDesktop,
            AppType::Codex,
            AppType::Gemini,
            AppType::GrokBuild,
            AppType::OpenCode,
            AppType::OpenClaw,
            AppType::Hermes,
        ]
    }

    /// The name that is shown, that of the assistant being `product`.
    pub open spec fn shown(self, product: Seq<char>) -> Seq<char> {
        match self {
            AppType::Claude => product,
            AppType::ClaudeDesktop => product + " Desktop"@,
            AppType::Codex => "Codex"@,
            AppType::Gemini => "Gemini"@,
            AppType::GrokBuild => "Grok Build"@,
            AppType::OpenCode => "OpenCode"@,
            AppType::OpenClaw => "OpenClaw"@,
            AppType::Hermes => "Hermes"@,
        }
    }

    /// The name that is shown, that of the assistant being `product`.
    pub fn shown_name(&self, product: &str) -> (result: String)
        ensures
            result@ == self.shown(product@),
    {
        match self {
            AppType::Claude => product.to_owned(),
            AppType::ClaudeDesktop => joined(product, " Desktop"),
            AppType::Codex => "Codex".to_owned(),
            AppType::Gemini => "Gemini".to_owned(),
            AppType::GrokBuild => "Grok Build".to_owned(),
            AppType::OpenCode => "OpenCode".to_owned(),
            AppType::OpenClaw => "OpenClaw".to_owned(),
            AppType::Hermes => "Hermes".to_owned(),
        }
    }

    pub fn is_additive_mode(&self) -> (result: bool)
        ensures
            result == self.additive(),
    {
        matches!(self, AppType::OpenCode | AppType::OpenClaw | AppType::Hermes)
    }

    pub fn all() -> (result: Vec<AppType>)
        ensures
            result@ =~= AppType::order(),
    {
        vec![
            AppType::Claude,
            AppType::ClaudeDesktop,
            AppType::Codex,
            AppType::Gemini,
            AppType::GrokBuild,
            AppType::OpenCode,
            AppType::OpenClaw,
            AppType::Hermes,
        ]
    }
}

/// What is kept about a provider beside its settings.
#[derive(Debug)]
pub struct ProviderMeta {
    /// Whether the common configuration is laid over the provider's own; decided by
    /// looking for it in the settings, where this is missing.
    pub common_config_enabled: Option<bool>,
    /// Whether the provider's entry in an additive live configuration is kept up.
    pub live_config_managed: Option<bool>,
    /// The kind of the provider, such as `codex_oauth`.
    pub provider_type: Option<String>,
}

/// A provider of an application.
#[derive(Debug)]
pub struct Provider {
    pub id: String,
    pub name: String,
    pub settings_config: serde_json::Value,
    pub website_url: Option<String>,
    pub category: Option<String>,
    pub meta: Option<ProviderMeta>,
}

/// The mathematical value of a [`ProviderMeta`].
pub struct MetaView {
    pub common_config_enabled: Option<bool>,
    pub live_config_managed: Option<bool>,
    pub provider_type: Option<Seq<char>>,
}

/// The mathematical value of a [`Provider`].
pub struct ProviderView {
    pub id: Seq<char>,
    pub name: Seq<char>,
    pub settings: JsonTree,
    pub website_url: Option<Seq<char>>,
    pub category: Option<Seq<char>>,
    pub meta: Option<MetaView>,
}

/// The characters of a text that may be missing.
pub open spec fn optional_text(text: Option<String>) -> Option<Seq<char>> {
    match text {
        Some(text) => Some(text@),
        None => None,
    }
}

impl View for ProviderMeta {
    type V = MetaView;

    open spec fn view(&self) -> MetaView {
        MetaView {
            common_config_enabled: self.common_config_enabled,
            live_config_managed: self.live_config_managed,
            provider_type: optional_text(self.provider_type),
        }
    }
}

impl View for Provider {
    type V = ProviderView;

    open spec fn view(&self) -> ProviderView {
        ProviderView {
            id: self.id@,
            name: self.name@,
            settings: tree(self.settings_config),
            website_url: optional_text(self.website_url),
            category: optional_text(self.category),
            meta: match self.meta {
                Some(meta) => Some(meta@),
                None => None,
            },
        }
    }
}

impl MetaView {
    /// Nothing kept.
    pub open spec fn none() -> MetaView {
        MetaView { common_config_enabled: None, live_config_managed: None, provider_type: None }
    }
}

impl ProviderView {
    /// The provider's own environment variables.
    pub open spec fn env(self) -> Option<JsonTree> {
        self.settings.object_at("env"@)
    }

    /// What is said about the common configuration.
    pub open spec fn common_config_flag(self) -> Option<bool> {
        match self.meta {
            Some(meta) => meta.common_config_enabled,
            None => None,
        }
    }

    /// Whether this is a provider of the `codex_oauth` kind.
    pub open spec fn codex_oauth(self) -> bool {
        match self.meta {
            Some(meta) => meta.provider_type == Some("codex_oauth"@),
            None => false,
        }
    }

    /// A provider of which only id, name, settings and website are known.
    pub open spec fn plain(
        id: Seq<char>,
        name: Seq<char>,
        settings: JsonTree,
        website_url: Option<Seq<char>>,
    ) -> ProviderView {
        ProviderView { id, name, settings, website_url, category: None, meta: None }
    }
}

/// A copy of a text that may be missing.
pub fn copy_optional(text: &Option<String>) -> (result: Option<String>)
    ensures
        optional_text(result) == optional_text(*text),
{
    match text {
        Some(text) => Some(text.clone()),
        None => None,
    }
}

impl Default for ProviderMeta {
    fn default() -> (result: Self)
        ensures
            result@ == MetaView::none(),
    {
        ProviderMeta { common_config_enabled: None, live_config_managed: None, provider_type: None }
    }
}

impl Provider {
    /// A provider of which only id, name, settings and website are known.
    pub fn with_id(
        id: String,
        name: String,
        settings_config: serde_json::Value,
        website_url: Option<String>,
    ) -> (result: Provider)
        ensures
            result@ == ProviderView::plain(
                id@,
                name@,
                tree(settings_config),
                optional_text(website_url),
            ),
    {
        Provider { id, name, settings_config, website_url, category: None, meta: None }
    }

    /// Whether this is a provider of the `codex_oauth` kind.
    pub fn is_codex_oauth(&self) -> (result: bool)
        ensures
            result == self@.codex_oauth(),
    {
        match &self.meta {
            Some(meta) => match &meta.provider_type {
                Some(kind) => same_text(kind.as_str(), "codex_oauth"),
                None => false,
            },
            None => false,
        }
    }
}

impl Clone for ProviderMeta {
    fn clone(&self) -> (result: Self)
        ensures
            result@ == self@,
    {
        ProviderMeta {
            common_config_enabled: self.common_config_enabled,
            live_config_managed: self.live_config_managed,
            provider_type: copy_optional(&self.provider_type),
        }
    }
}

impl Clone for Provider {
    fn clone(&self) -> (result: Self)
        ensures
            result@ == self@,
    {
        let meta = match &self.meta {
            Some(meta) => Some(meta.clone()),
            None => None,
        };
        Provider {
            id: self.id.clone(),
            name: self.name.clone(),
            settings_config: copy(&self.settings_config),
            website_url: copy_optional(&self.website_url),
            category: copy_optional(&self.category),
            meta,
        }
    }
}

} // verus!
