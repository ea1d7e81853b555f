# mutsuki-tauri-host

The host of a Tauri app that runs tasks on an embedded Mutsuki runtime: it submits tasks and
follows them to their results, forwards events to the frontend without secrets, loads plugins and
their runners, stores resources and previews them, asks the user for approval, and delivers
requests to other apps.

- `src/` is the library. Its functions state what they do, and Verus proves it. They perform no
  I/O: what comes from files, clocks, threads and sockets is handed in as a value.
- `tests/` runs the library on concrete values.
- `app/` is the ordinary Rust around it: locks, threads, files and processes, and the ties to the
  Mutsuki runtime (`engine.rs`), to MutsukiLink (`link.rs`) and to Tauri (`plugin.rs`).

What holds across calls is stated in the functions whose names begin with `law_`: for example that
a result is read once, that what is kept stays within its bounds, that a redacted value holds no
secret, and that a request is handled once.

The calls into other crates that the library believes without proof are few: `serde_json` values
are carried and cloned, `uuid` draws identifiers, `tokio`'s broadcast channel carries events,
`sha2` hashes contents, and `mime_guess` names media types. Each stands in a wrapper whose comment
says what is claimed of it.
