# repo

`repo` is a command-line tool for repository maintenance: it lists plans,
designs, ADRs and references, keeps `.repo/skills.toml` in step with the
installed agent skills, serves reusable prompt snippets, snapshots the
environment into `.repo/health.toml`, generates ULIDs and lists plugins.

## Layout

- `src/` — the library, verified with Verus. Every decision the tool makes
  lives here with a contract: argument dispatch, front-matter and plan
  parsing, the ordering and selection of documents, the tables and reports
  the commands print, the skills manifest merge, the prompt merge, the
  health snapshot. Laws that span functions are public proof functions
  named `law_*`.
- `app/` — the binary: command-line parsing with clap, file and process
  I/O, TOML and JSON (de)serialisation, the spinner thread. It reads and
  probes, hands plain values to the library, and prints what comes back.
- `tests/` — tests of the library on concrete values.

Outside crates are called from the library only through small trusted
wrappers (JSON parsing with `serde_json`, ZIP reading with `zip`, ULID
generation with `ulid`, Unicode lowercasing from `std`), each documented
where it is declared.
