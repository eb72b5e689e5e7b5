//! Provider configuration for coding assistants: which settings an assistant's
//! live configuration file gets, and how they come back into storage.

pub mod backfill;
pub mod common_config;
pub mod context_defaults;
pub mod effective;
pub mod error;
pub mod json;
pub mod json_merge;
pub mod live_import;
pub mod live_read;
pub mod live_write;
pub mod model_window;
pub mod provider;
pub mod ratio;
pub mod sync;
pub mod text;
pub mod toml_doc;
pub mod toml_layout;
pub mod toml_merge;
pub mod watcher;
