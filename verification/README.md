# call_hierarchy

The call hierarchy of a symbol: who calls it, or what it calls, as a list of entries that unfolds
entry by entry while the language server answers.

- `src/` is the library, verified with Verus. It decides; it does no I/O.
  - `outline.rs` keeps a tree as a flat list, with what is expanded and what is selected;
    `outline_laws.rs` proves what holds of it.
  - `call_hierarchy_view.rs` is the view in the pane on the right, whose entries are known by
    numbers; `view_laws.rs` proves what holds of it from one step to the next.
  - `call_hierarchy_panel.rs` is the panel, whose entries are known by their position;
    `panel_laws.rs` is its counterpart.
  - `selection.rs` chooses the root among the items that the server offers, `navigation.rs` says
    where entries lead and where the view is put, `rows.rs` and `icons.rs` what is to be seen.
  - `protocol.rs` holds what is read of the server's messages, and `uri.rs` the two calls that
    are trusted: which file a URI names, and whether two paths are equal.
- `tests/` runs the library.
- `app/` connects it to the editor: entities, tasks and elements. `anyhow` is its dependency
  alone: the editor's tasks return its `Result`.
