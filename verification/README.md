# zhtw-mcp

A linter for Traditional Chinese prose as it is written in Taiwan, run from the
command line or as an MCP server over standard input and output.

`src/` is the library, verified with Verus. It decides; it reads and writes
nothing:

- `cli`, `lint_args`: the command line.
- `plan`: flags merged with a project configuration.
- `files`: which files a batch reads.
- `scan`, `cache`: what a scan depends on, and the incremental scan cache.
- `pipeline`, `lint`, `batch`: one file's way from the scan to the report, where
  a rewritten document goes, what is counted, and what the run exits with.
- `report`: the JSON, human, compact, tabular and SARIF reports.
- `convert`, `manage`: the other commands.
- `rules`: issues, and a project's ignore terms.
- `mcp`: JSON-RPC framing, the session's life cycle, and protocol revisions.
- `text`, `json`: the primitives below them.

Each function's contract says what it returns on every input; where a result
depends on the clock or the environment, it says what holds whatever they show,
and a function beside it takes that as an argument and is exact. Properties that
span functions are public proof functions whose names begin with `law_`.

`app/` is the program around the library: files, git, the cache file, standard
streams, and the runtime of the server. The rules, the scanner and the stores
are reached through the traits in `app/engine.rs`.

`tests/` runs the library on concrete values.
