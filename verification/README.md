# salt_lint_rs

A linter for Salt state files (`.sls`) and Jinja templates, with the 32
built-in `salt-lint` rules, written in Verus: the rule engine, the rules, the
configuration merging and the output formats carry `requires`/`ensures`
contracts that Verus proves.

## Layout

- `src/` — the verified library.
  - `engine/` — the `Rule` interface, `# noqa` handling, the collection that
    runs rules on a text and sorts the problems, and the rule and tag
    listings.
  - `rules/` — the built-in rules (formatting, Jinja, deprecations, file
    names and modes, YAML octal values, multi-line checks).
  - `config/` — the configuration: command line merged with a `.salt-lint`
    file, per-rule `ignore` patterns, and the search for the file.
  - `app.rs`, `fs.rs`, `formatter.rs`, `cli.rs` — what a run lists, lints and
    prints, and its exit code.
  - `text.rs`, `paths.rs`, `order.rs` — the text, path and ordering models the
    contracts are stated in.
  - `regex_api.rs`, `gitignore.rs`, and the JSON string quoting in
    `formatter.rs` — the trusted calls into `regex`, `ignore` and
    `serde_json`; each states in its contract what it assumes of the crate.
- `app/` — the `salt-lint` program: command-line parsing (clap), reading the
  configuration file (serde_yaml), files and standard input, and printing.
- `tests/` — tests of the library.

## Exit codes

| Code | Meaning |
| --- | --- |
| `0` | No findings |
| `1` | No input was provided |
| `2` | Findings were reported or an error occurred |
