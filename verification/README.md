# nfm — NeoFM file manager core

NeoFM is a terminal file manager with tabs, a command menu, background jobs
(copy, move, archive, encrypt, checksum, search, git) and a small built-in text
editor. This crate holds its logic as a library verified with Verus, and a thin
terminal program around it.

## Layout

- `src/` — the verified library.
  - `editor.rs`: the editor's document model and key handling (byte-offset
    cursor), with laws such as "typing then Backspace restores the line" and
    "saving then loading gives the same lines".
  - `file_browser.rs`, `browser_keys.rs`: listings (filter, stable sort with
    directories first) and the browser's modes, dialogs, forms and menu as a
    state machine that returns the outside work it needs as effects.
  - `app.rs`: tabs, status line, error popup and jobs; `App::handle_key`.
  - `tasks.rs`: XOR and AES-GCM file ciphers, checksums, git command lines and
    job messages.
  - `utils.rs`, `theme.rs`, `config.rs`, `tabs.rs`, `view.rs`, `text.rs`,
    `paths.rs`, `keys.rs`: clipboard, size formatting, colours, settings,
    titles, scrolling and rows, text and path helpers, keys.
- `tests/` — tests of the library on concrete values.
- `app/` — the terminal program: settings file, key conversion, drawing, and
  the effects (file system, processes, worker threads).
