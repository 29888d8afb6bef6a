# cista

Package-store and runtime-binding layer for Faber: the `cista` library and
command-line tool. Packages are validated, installed into a shared store
(`$CISTAE_HOME`, by default `~/.faber/cistae`), published to and fetched from
registries, and recorded in a project's `faber.lock`.

## Layout

- `src/` — the library, written in Verus and verified. Every public function
  carries a contract over mathematical models (`Seq`, `Set`, spec functions),
  and the properties the library promises across calls are stated as public
  proof functions (`lemma_*`).
  - `cli` — the commands and their arguments as plain values; the command
    line itself is parsed by `clap` in `app/`.
  - `manifest`, `project_manifest`, `faber_lock`, `credentials` — the file
    models: package manifests, `faber.toml` (read from its text, parsed with
    `toml`), `faber.lock`, registry tokens.
  - `store` — store layout, listing and resolving installed packages, identity
    checks of installed manifests.
  - `registry_http`, `uri` — the registry HTTP client: which origins and tokens
    are accepted, what each request carries, how large a response may be.
  - `commands::*` — manifest validation, install planning, registry rules,
    Rust toolchain use, package inspection, and the staged directory
    replacement state machine.
  - `hygiene` — the source hygiene ratchet (comment/literal scrubbing, banned
    pattern budgets, companion-test conventions). The library never panics:
    where a ratchet check fails (a budget exceeded, a companion test file
    without the `#[cfg(test)] #[path = ...] mod tests;` convention) it returns
    `Err` with the message that a failing check reports, and the caller (a
    test or the program) fails on it.
  - `paths`, `text`, `ordering` — path components, character-sequence helpers,
    and the stable (name, version) order of records.
- `app/` — the `cista` program: command-line parsing with `clap`, and the
  file, process, network and archive work around the library (reading files,
  serde forms of the manifests, walking the store, running
  `rustc`/`cargo`, HTTP transport, tar archives, store locks).
- `tests/` — tests of the library's public API.
