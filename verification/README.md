# LocalPass core

The security-relevant core of LocalPass, a local-only desktop password
generator, written in Verus so that its behaviour is proved against its
contracts.

- `src/generator.rs` — character groups, unbiased rejection sampling,
  Fisher–Yates shuffling and batch generation from operating-system entropy;
  every password holds at least one character of each enabled group.
- `src/clipboard.rs` — the clipboard lease core: timeouts, release fences,
  busy retries, bounded quarantine of uncertain commits, per-lease clear
  policies and the status report.
- `src/x11.rs` — X11 display and session checks, selection targets, and the
  selection owner's lease bookkeeping.
- `src/window_service.rs` — the collapse coordinator and the close sequence.
- `src/session.rs` — password batches guarded by view epochs, and the error
  codes the frontend sees.
- `src/shell.rs` — window-side session state, labels, navigation policy and
  the frontend scripts.
- `app/` — the Tauri shell: commands, windows, geometry, threads and the
  platform clipboard adapters.
- `tests/` — tests of the library on concrete values.
