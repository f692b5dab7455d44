# omni_up

The `up` configuration of a work directory, and the decisions taken while
bringing it up, as a library whose functions carry their contracts and are
proved against them with Verus.

- `src/` is the library. Each module covers one kind of step or one piece
  of shared logic:
  - `config_value`, `error`, `text`, `order`, `path`: configuration values
    and their errors, text, the order of strings, and paths as components;
  - `env_file`: the parser of environment files (operations and heredocs);
  - `cargo_install`, `go_install`, `github_release`, `homebrew`, `nix`,
    `custom`, `nodejs`, `python`, `bundler`, `asdf`, `mise`, `golang`,
    `askpass`, `version_file`: how each step is configured, what its run
    decides and what it reports;
  - `resolution`: the choice of the version to bring up (installed or
    listed, refreshed, installed, or fallen back to), one step at a time;
  - `detect`, `summary`, `up_config`, `options`: versions found in the
    directories of a work directory, the one-line summaries of a run and a
    cleanup, the list of steps, and the options of a run.
- `tests/` runs the library on concrete values.
- `app/` reads files and command outputs, reads JSON and TOML into the
  library's types, and runs the resolution steps with the caller's calls.

Outside crates are called through small wrappers whose contracts name what
the crate computes (digests, URL parsing, version ranges, regular
expressions, path normalization).
