# b_revamp

A tmux session picker (`br`, `b`) and a transcript exporter for coder sessions (`cx`),
with their logic written in Verus and proved against its contracts.

## Layout

- `src/` — the verified library.
  - `text.rs`: string models and helpers (trimming, splitting, joining, replacing).
  - `json.rs`: the JSON model used by the exporter, and the calls into `serde_json`.
  - `patterns.rs`: session-name and session-id patterns, and the calls into `regex` and `strfmt`.
  - `exporter/`: rollout-file rendering to Markdown (`full`, `medium`, `compact`),
    the export state machine, rollout-file lookup in catalogs and scans, and the
    assistant outputs of a rollout (for copying one of them).
  - `sessions.rs`: tmux session listing, name normalization, fuzzy matching and ranking.
  - `panes.rs`: pane-to-session resolution and session previews.
  - `layout.rs`: column widths, modal sizes, ellipsizing and relative ages.
  - `app.rs`: the picker's state and its key handling (filter, new-session and
    rename lines, the full-screen view of a copied output), as a step from state
    and key to state and action.
  - `cli.rs`: mode detection, argument parsing, start commands and worktree naming.
- `app/` — the program around the library: terminal drawing, tmux/git/ps processes,
  file and directory access, and the event loop that performs the library's actions.
- `tests/` — tests of the library on concrete values.
