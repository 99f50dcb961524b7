# topcoat_explorer

The verified core of a read-only, Explorer-style file browser for Windows.

`src/` is checked by Verus:

- `explorer.rs` — the explorer state (current folder, back and forward
  history, entries, search text, selection, sort, status message) and every
  user action as a transition. Reading folders, resolving paths and opening
  files happen outside; their outcomes come in as `DirectoryLoad` and
  `Activation` values.
- `listing.rs` — the table rows: matching entries, folders first, sorted by a
  column in either direction, ties in listing order.
- `entry.rs` — one listed item and the texts shown for it (type, icon, size,
  modification time).
- `path.rs` — folder paths as parts, their text, breadcrumbs and sidebar
  entries.
- `markup.rs` — the view lowering's decisions on element names and class
  words.
- `number.rs` — the text of a number as `f64` parsing accepts it, which
  spacing and width classes must carry.
- `attributes.rs` — which children and attributes each native element takes,
  in the order the lowering checks them.
- `native.rs` — table rows and events shared with the view.
- `text.rs` — ordering, search, case mapping and decimal rendering of text.

`app/` is the Windows program: file system and shell access, and the window
built with `windows-reactor`.
