# live_config

A verified library for the live configurations of coding assistants: what a stored
provider's settings become in an application's configuration files, and how they come
back.

- `json`, `toml_doc`: `serde_json` and `toml_edit` documents as mathematical trees. Every
  call into the two crates stands here, with what is taken for granted about it.
- `json_merge`, `toml_merge`: whether one document contains another, laying one over the
  other, taking one out again.
- `toml_layout`: what that does to comments, headers and the order of keys.
- `common_config`: the snippet that several providers share.
- `model_window`, `ratio`, `context_defaults`: context windows of models, the share of a
  window at which a conversation is compacted, and the defaults that follow.
- `effective`, `backfill`: stored settings on their way into the live configuration, and
  back.
- `watcher`: the state machine that keeps the context variables of a settings file in step
  with the model in use.
- `live_write`, `live_read`, `live_import`, `sync`: what is written, read, imported and
  synced, as decisions over plain values.
- `provider`, `error`, `text`: the values all of them share.

Public proof functions named `law_…` state what holds across functions.

`app/` is the ordinary Rust around the library: files, the store, the thread that watches
the settings file, and the loops that carry out what the library decides. `tests/` runs
the library with the real crates.
