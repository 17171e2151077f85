# openclaw_helper

The verified core of a desktop helper for the `openclaw` command line tool:
it installs the tool (checking Git and Node.js first and repairing them where
it can), finds and describes the installed command, runs it, controls the
gateway service, edits the configuration and workspace files, and removes
everything again.

- `src/` is the library, written in Verus. It holds the helper's decisions
  with their contracts: the task slot (one task at a time, cancellation),
  the installer and the removal as state machines (`install_flow`,
  `uninstall_flow`) that the application drives one piece of outside work at a
  time, the search for the command (`search`, `paths`), the parsers of the
  tools' output (`gateway`, `openclaw`, `install`, `semver`), the configuration
  model and the parsing of JSON texts (`config`), the splitting of streamed output into log lines (`stream`)
  and the scripts and messages of the commands (`commands`).
- `app/` is the Tauri application around it: process spawning, file access,
  the UI events, and the serde copies of the library's types. A few things
  stay there because they rest on live processes or on floating point:
  whether a held gateway process still runs, and the progress percentage.
- `tests/` runs the library on concrete inputs.
