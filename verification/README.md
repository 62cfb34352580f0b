# watchr

Watches directories and runs a shell command when files in them change.

- `src/` is the library, verified with Verus: command-line meaning
  (`cli`), watcher entries and configuration (`entry`, `config`), the
  upward search for `.watchr.toml` (`resolver`), the `init` decision
  (`init`), choosing and checking the configuration (`setup`), which
  file events trigger a command and how the event loop reacts
  (`watcher`), how a command's result is reported (`output`), and text
  and path helpers (`text`, `paths`).
- `app/` is the program around it: argument parsing with `clap`,
  reading the configuration with `serde`/`toml`, file-system watching
  with `notify-debouncer-full`, `Ctrl+C` handling with `ctrlc`, running
  commands and printing.
- `tests/` exercises the library.
