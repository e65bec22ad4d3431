# arkama

A download manager whose core is verified with Verus.

- `src/` is the library. Its functions carry contracts that Verus proves,
  except five small trusted wrappers around outside calls (`bytefmt::parse`,
  `url::Url::parse`, `Path::file_name`, `Path::with_file_name` and
  `String::push`), whose contracts are taken on trust. The proved functions
  cover splitting a file into byte ranges, planning and resuming downloads,
  the retry and pacing rules of the transfer workers, reading HTTP headers,
  choosing output paths, the command line and daemon rules, the desktop
  window's queue, and the exact texts of sizes, speeds and durations.
  The `lemma_*` proof functions state the library's laws.
- `tests/` runs the library on concrete values.
- `app/` is the `arkama` program around it: HTTP transfers, files, the SQLite
  history, the daemon's socket, the terminal and the command line parser.
  The desktop window is not part of it; the window's rules are verified in
  `src/desktop.rs` and exercised by `tests/desktop.rs`.
