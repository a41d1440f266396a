# codex_plus_core

The rules of the Codex++ relay manager, verified with Verus.

- `src/relay_rotation`: which member of an aggregate serves a request, and when a failing one rests.
- `src/custom_tool_adapter`: custom tools sent upstream as functions, and back, in requests, in
  responses and in event streams.
- `src/native_agents`: the collaboration tools under a name that leaves their texts readable.
- `src/settings`: the settings, their defaults, how they are merged, brought into order and saved.
- `src/control`: the management commands: their arguments, checks, changes and answers.
- `src/protocol_proxy`: the paths and addresses of the proxy.
- `src/json`, `src/toml`, `src/sse`, `src/text`, `src/str_map`, `src/time`: what these rest on.

`serde_json` and `toml_edit` are called behind a few trusted functions in `src/json.rs` and
`src/toml.rs`; each says what is claimed of the call.

`app/` reads the clock, the files and the command line, and asks the rest of the manager through the
`Host` trait. Before a call it tests what the library requires.
