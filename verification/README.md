# mrcli

A terminal SQL workbench for MySQL: pick a connection from
`~/.config/mrcli/config.json`, keep SQL drafts as `YYYY-MM-DD-N.sql` files in
`~/.config/mrcli/drafts/`, edit them in a modal editor with completion, run them
and browse the result grid.

## Layout

- `src/` is the library, verified with Verus:
  - `app.rs`: the screens and key handling as a state machine. A handler returns a
    `Request` (read the configuration, list, create, save or delete drafts, run a
    statement, load metadata); the caller performs it and hands back an `Outcome`
    through `App::resume`.
  - `completion.rs`: tables, columns, keywords and functions offered before the cursor.
  - `config.rs`: configuration checks and the connection selected at start.
  - `drafts.rs`: draft order and the name of a new draft.
  - `db.rs`: connection URL, statement classification, cell text, the 200-row cap.
  - `grid.rs`, `layout.rs`, `nav.rs`, `view.rs`: what the screens show and how the
    result grid scrolls.
  - `editor.rs`: the calls made on the `tui-textarea` editor, with what they do.
  - `text.rs`, `model.rs`: character helpers and the shared data types.
- `app/` is the terminal program: drawing with ratatui, reading keys with
  crossterm, files, the configuration file and the MySQL server.
- `tests/` exercises the library.
