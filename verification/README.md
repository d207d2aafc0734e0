# bridgescope

The verified core of an ADB desktop toolbox: the device selection, the
panel state machines (shell, logcat, files, applications, processes,
performance, layout, WebView, screenshot, mirroring, AVD manager, wireless
debugging, assistant), the backend's bookkeeping around adb, and the text,
parsing and calendar logic behind them. Every function in `src/` carries a
contract that Verus proves.

- `src/` — the library, one module per panel or concern; `backend.rs` holds
  the checks the backend makes before and after talking to adb,
  `selection.rs` the device selection and the live-panel refresh.
- `tests/` — scenario tests run against the compiled library.
- `app/` — the shell around the library: start-up options, the stored
  settings and the quick-command export file (JSON through serde), the
  terminal emulator (vt100) and the floating-point window geometry. It
  links no window toolkit and no adb transport: its `main` builds the start
  state and exits with a failure status, saying that no window can be
  opened.

Outside calls that the library makes (`String::push`,
`String::from_utf8_lossy`, `str::to_lowercase`, `char::to_uppercase`,
`{:?}` of a string, and PNG decoding with `image`) sit behind a small
number of trusted functions whose contracts are documented where they are
declared.
