# tokio-console, verified core

A terminal console for asynchronous Rust programs instrumented with
`console-subscriber`. The console connects to the program, keeps the state of
its tasks and resources, flags suspicious tasks, and shows them in tables and
detail views.

The crate is split in two:

- `src/` is the library, written in Verus and verified: the state kept about
  tasks and resources and how updates change it, the linters, the
  configuration (command line, configuration files, palettes, warnings,
  retention), the styles and duration formatting, the tables, the task and
  resource views, the small histograms, the layout of the controls, the
  connection's decisions (when to connect and how long to wait), and the
  causality updates. `src/laws.rs` states and proves properties that span
  several functions.
- `app/` is the program around it: the command line (`clap`), configuration
  files (`serde`, `toml`), the terminal (`crossterm`, `ratatui`), the gRPC
  connection (`tonic`, `console-api`), and `hdrhistogram`'s floating-point
  percentiles.

Calls into outside crates from `src/` (`humantime`, `regex`,
`tracing-subscriber`, `tonic`'s URI parser, and the standard library's
`Duration` formatting) stand
behind small trusted wrappers whose contracts name what they return.

`tests/` holds the tests of the library.
