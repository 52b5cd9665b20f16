# ycloud console CLI

`ycloud` signs in to the YCloud Dashboard with a browser grant and PKCE,
stores `YCLI.` tokens, and runs read-only Dashboard commands (identity,
tenants, contacts, analytics, integrations, conversation and contact
exports, the WABA assignment report).

## Layout

- `src/` is the library, verified with Verus. It holds the command-line
  grammar (`grammar.rs`, `cli.rs`), the Dashboard API contract: request
  bodies, headers, routes with their 404/405 compatibility fallback, error
  decoding and the retry policy (`http.rs`, `json.rs`), PKCE (`pkce.rs`),
  the sign-in callback and profile updates (`auth.rs`, `config.rs`),
  permission planning after a denial (`permissions.rs`), exports
  (`export.rs`) and the WABA assignment report (`waba_assignment.rs`).
  `lib.rs` holds the reauthorization decisions and the idempotency key of
  export commands. `text.rs` and `sorted.rs` are the text and ordering
  helpers that the contracts are stated over.
- `app/` is the program around it: argument and environment reading, the
  HTTP client, the profile file, the browser callback listener and the
  terminal.
- `tests/` runs the library on concrete values.
