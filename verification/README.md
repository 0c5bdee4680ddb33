# must

A build orchestrator driven by a `Mustfile.toml`: recipes of many kinds
(shell, Rust, Go, C, Python, Docker, .NET, Elixir, Kotlin, Nim, Ruby, Swift,
TypeScript, prebuilt binaries, bridges to existing build tools), a dependency
graph run in parallel waves, a content-hash and modification-time cache, and
import of Makefiles, justfiles and Taskfiles.

## Layout

- `src/` — the library, written in Verus and verified: the Makefile lexer and
  parser and the import pipeline, the Mustfile decoder and validator, the
  recipe graph, cache keys and lookups, the plan each recipe kind executes,
  the build run's scheduling decisions, and the text the command line shows.
  Each public function carries a contract; the laws that relate several
  functions are public proof functions named `law_*`.
- `app/` — the `must` command: argument handling, files, processes, the sled
  cache index, the tokio runtime that runs a wave's recipes side by side, and
  Lua plugin loading.  It hands the library plain values and prints what it
  gets back.
- `tests/` — tests of the library on concrete values.

Outside crates called from the library (`sha2`, `hex`, `toml`, `glob`) are
reached through small trusted wrappers whose contracts state what those crates
document.
