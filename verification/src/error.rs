//! What can go wrong.

use vstd::prelude::*;

use crate::provider::AppType;
use crate::text::joined;

verus! {

/// A message for the user, in two languages.
#[derive(Debug, Clone, Copy, PartialEq, Eq, Structural)]
pub enum Notice {
    /// The assistant's settings file is missing.
    SettingsMissing,
    /// The desktop assistant's configuration can only be written by a switch.
    DesktopNeedsSwitch,
    /// The desktop assistant's configuration cannot be read as a live configuration.
    DesktopReadUnsupported,
    /// The desktop assistant's configuration cannot be imported.
    DesktopImportUnsupported,
    /// The live configuration is taken over by the proxy.
    LiveTakenOver,
    GeminiEnvMissing,
    GeminiLiveMissing,
    GeminiInvalidConfig,
    OpenCodeMissing,
    OpenClawMissing,
    HermesMissing,
}

/// A message as it is shown: its key, and its words in two languages.
pub struct NoticeWords {
    pub key: String,
    pub zh: String,
    pub en: String,
}

/// The mathematical value of [`NoticeWords`].
pub struct WordsView {
    pub key: Seq<char>,
    pub zh: Seq<char>,
    pub en: Seq<char>,
}

impl View for NoticeWords {
    type V = WordsView;

    open spec fn view(&self) -> WordsView {
        WordsView { key: self.key@, zh: self.zh@, en: self.en@ }
    }
}

impl Notice {
    /// The message, the assistant's name being `product`, and `product_key` in keys.
    pub open spec fn message(self, product: Seq<char>, product_key: Seq<char>) -> WordsView {
        match self {
            Notice::SettingsMissing => WordsView {
                key: product_key + ".live.missing"@,
                zh: product + " Code 配置文件不存在"@,
                en: product + " settings file is missing"@,
            },
            Notice::DesktopNeedsSwitch => WordsView {
                key: product_key + "_desktop.live.requires_db_context"@,
                zh: product + " Desktop 配置写入需要通过供应商切换流程执行"@,
                en: product
                    + " Desktop configuration must be written through the provider switch flow"@,
            },
            Notice::DesktopReadUnsupported => WordsView {
                key: product_key + "_desktop.live.read_unsupported"@,
                zh: product + " Desktop 3P 配置不支持作为通用 live 配置导入，请使用“从 "@ + product
                    + " 导入兼容供应商”。"@,
                en: product
                    + " Desktop 3P configuration cannot be imported as a generic live config. Use 'Import compatible providers from "@
                    + product + "' instead."@,
            },
            Notice::DesktopImportUnsupported => WordsView {
                key: product_key + "_desktop.import_unsupported"@,
                zh: product + " Desktop 3P 配置不能通过通用导入读取，请使用“从 "@ + product
                    + " 导入兼容供应商”。"@,
                en: product
                    + " Desktop 3P config cannot be imported through the generic import flow. Use 'Import compatible providers from "@
                    + product + "' instead."@,
            },
            Notice::LiveTakenOver => WordsView {
                key: "provider.import.live_taken_over"@,
                zh:
                    "Live 配置当前处于代理接管状态（包含占位符），不能导入为供应商。请先关闭代理接管或恢复 Live 配置后重试。"@,
                en:
                    "The live config is currently taken over by the proxy (contains placeholders) and cannot be imported as a provider. Disable proxy takeover or restore the live config first."@,
            },
            Notice::GeminiEnvMissing => WordsView {
                key: "gemini.env.missing"@,
                zh: "Gemini .env 文件不存在"@,
                en: "Gemini .env file not found"@,
            },
            Notice::GeminiLiveMissing => WordsView {
                key: "gemini.live.missing"@,
                zh: "Gemini 配置文件不存在"@,
                en: "Gemini configuration file is missing"@,
            },
            Notice::GeminiInvalidConfig => WordsView {
                key: "gemini.validation.invalid_config"@,
                zh: "Gemini 配置格式错误: config 必须是对象或 null"@,
                en: "Gemini config invalid: config must be an object or null"@,
            },
            Notice::OpenCodeMissing => WordsView {
                key: "opencode.config.missing"@,
                zh: "OpenCode 配置文件不存在"@,
                en: "OpenCode configuration file not found"@,
            },
            Notice::OpenClawMissing => WordsView {
                key: "openclaw.config.missing"@,
                zh: "OpenClaw 配置文件不存在"@,
                en: "OpenClaw configuration file not found"@,
            },
            Notice::HermesMissing => WordsView {
                key: "hermes.config.missing"@,
                zh: "Hermes 配置文件不存在"@,
                en: "Hermes configuration file not found"@,
            },
        }
    }

    /// The message, the assistant's name being `product`, and `product_key` in keys.
    pub fn words(&self, product: &str, product_key: &str) -> (result: NoticeWords)
        ensures
            result@ == self.message(product@, product_key@),
    {
        match self {
            Notice::SettingsMissing => NoticeWords {
                key: joined(product_key, ".live.missing"),
                zh: joined(product, " Code 配置文件不存在"),
                en: joined(product, " settings file is missing"),
            },
            Notice::DesktopNeedsSwitch => NoticeWords {
                key: joined(product_key, "_desktop.live.requires_db_context"),
                zh: joined(product, " Desktop 配置写入需要通过供应商切换流程执行"),
                en: joined(
                    product,
                    " Desktop configuration must be written through the provider switch flow",
                ),
            },
            Notice::DesktopReadUnsupported => NoticeWords {
                key: joined(product_key, "_desktop.live.read_unsupported"),
                zh: around(
                    product,
                    " Desktop 3P 配置不支持作为通用 live 配置导入，请使用“从 ",
                    " 导入兼容供应商”。",
                ),
                en: around(
                    product,
                    " Desktop 3P configuration cannot be imported as a generic live config. Use 'Import compatible providers from ",
                    "' instead.",
                ),
            },
            Notice::DesktopImportUnsupported => NoticeWords {
                key: joined(product_key, "_desktop.import_unsupported"),
                zh: around(
                    product,
                    " Desktop 3P 配置不能通过通用导入读取，请使用“从 ",
                    " 导入兼容供应商”。",
                ),
                en: around(
                    product,
                    " Desktop 3P config cannot be imported through the generic import flow. Use 'Import compatible providers from ",
                    "' instead.",
                ),
            },
            Notice::LiveTakenOver => plain_words(
                "provider.import.live_taken_over",
                "Live 配置当前处于代理接管状态（包含占位符），不能导入为供应商。请先关闭代理接管或恢复 Live 配置后重试。",
                "The live config is currently taken over by the proxy (contains placeholders) and cannot be imported as a provider. Disable proxy takeover or restore the live config first.",
            ),
            Notice::GeminiEnvMissing => plain_words(
                "gemini.env.missing",
                "Gemini .env 文件不存在",
                "Gemini .env file not found",
            ),
            Notice::GeminiLiveMissing => plain_words(
                "gemini.live.missing",
                "Gemini 配置文件不存在",
                "Gemini configuration file is missing",
            ),
            Notice::GeminiInvalidConfig => plain_words(
                "gemini.validation.invalid_config",
                "Gemini 配置格式错误: config 必须是对象或 null",
                "Gemini config invalid: config must be an object or null",
            ),
            Notice::OpenCodeMissing => plain_words(
                "opencode.config.missing",
                "OpenCode 配置文件不存在",
                "OpenCode configuration file not found",
            ),
            Notice::OpenClawMissing => plain_words(
                "openclaw.config.missing",
                "OpenClaw 配置文件不存在",
                "OpenClaw configuration file not found",
            ),
            Notice::HermesMissing => plain_words(
                "hermes.config.missing",
                "Hermes 配置文件不存在",
                "Hermes configuration file not found",
            ),
        }
    }
}

fn plain_words(key: &str, zh: &str, en: &str) -> (result: NoticeWords)
    ensures
        result@ == (WordsView { key: key@, zh: zh@, en: en@ }),
{
    NoticeWords { key: key.to_owned(), zh: zh.to_owned(), en: en.to_owned() }
}

fn around(product: &str, middle: &str, end: &str) -> (result: String)
    ensures
        result@ == product@ + middle@ + product@ + end@,
{
    let start = joined(product, middle);
    let most = joined(start.as_str(), product);
    joined(most.as_str(), end)
}

/// An error of this library, or one that the caller's files or store reported.
#[derive(Debug)]
pub enum AppError {
    /// A configuration that does not have the shape it must have.
    Config(String),
    /// Anything else, in words.
    Message(String),
    /// A message in two languages.
    Localized(Notice),
    /// The common configuration of an application is no JSON, for these reasons.
    InvalidCommonConfig { app_type: AppType, words: String },
    /// A file could not be read or written.
    Io(String),
    /// The store could not be read or written.
    Database(String),
}

/// The mathematical value of an [`AppError`].
pub enum ErrorView {
    Config(Seq<char>),
    Message(Seq<char>),
    Localized(Notice),
    InvalidCommonConfig { app_type: AppType, words: Seq<char> },
    Io(Seq<char>),
    Database(Seq<char>),
}

impl View for AppError {
    type V = ErrorView;

    open spec fn view(&self) -> ErrorView {
        match self {
            AppError::Config(words) => ErrorView::Config(words@),
            AppError::Message(words) => ErrorView::Message(words@),
            AppError::Localized(notice) => ErrorView::Localized(*notice),
            AppError::InvalidCommonConfig { app_type, words } => ErrorView::InvalidCommonConfig {
                app_type: *app_type,
                words: words@,
            },
            AppError::Io(words) => ErrorView::Io(words@),
            AppError::Database(words) => ErrorView::Database(words@),
        }
    }
}

impl ErrorView {
    /// The error in English, the assistant's name being `product`, and `product_key` in keys.
    pub open spec fn text(self, product: Seq<char>, product_key: Seq<char>) -> Seq<char> {
        match self {
            ErrorView::Config(words) => words,
            ErrorView::Message(words) => words,
            ErrorView::Localized(notice) => notice.message(product, product_key).en,
            ErrorView::InvalidCommonConfig { app_type, words } => "Invalid "@ + app_type.shown(
                product,
            ) + " common config: "@ + words,
            ErrorView::Io(words) => words,
            ErrorView::Database(words) => words,
        }
    }
}

impl AppError {
    /// The error in English, the assistant's name being `product`, and `product_key` in keys.
    pub fn text(&self, product: &str, product_key: &str) -> (result: String)
        ensures
            result@ == self@.text(product@, product_key@),
    {
        match self {
            AppError::Config(words) => words.clone(),
            AppError::Message(words) => words.clone(),
            AppError::Localized(notice) => notice.words(product, product_key).en,
            AppError::InvalidCommonConfig { app_type, words } => {
                let name = app_type.shown_name(product);
                let start = joined("Invalid ", name.as_str());
                let most = joined(start.as_str(), " common config: ");
                joined(most.as_str(), words.as_str())
            },
            AppError::Io(words) => words.clone(),
            AppError::Database(words) => words.clone(),
        }
    }

    /// A message that ends in the words of another error.
    pub fn message(before: &str, words: &str) -> (result: AppError)
        ensures
            result@ == ErrorView::Message(before@ + words@),
    {
        AppError::Message(joined(before, words))
    }
}

/// Law: an error that is words already is shown as these words, a message in two languages by its
/// English ones, and a common configuration that is no JSON by the application's name and the
/// parser's words.
pub proof fn law_error_in_english(
    error: &AppError,
    product: &str,
    product_key: &str,
    result: String,
)
    requires
        call_ensures(AppError::text, (error, product, product_key), result),
    ensures
        *error matches AppError::Config(words) ==> result@ == words@,
        *error matches AppError::Message(words) ==> result@ == words@,
        *error matches AppError::Io(words) ==> result@ == words@,
        *error matches AppError::Database(words) ==> result@ == words@,
        *error matches AppError::Localized(notice) ==> result@ == notice.message(
            product@,
            product_key@,
        ).en,
        *error matches AppError::InvalidCommonConfig { app_type, words } ==> {
            &&& app_type is Claude ==> result@ == "Invalid "@ + product@ + " common config: "@
                + words@
            &&& app_type is Gemini ==> result@ == "Invalid "@ + "Gemini"@ + " common config: "@
                + words@
        },
{
}

} // verus!
