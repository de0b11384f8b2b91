# ntb — Network Topology Builder

A web editor for network topologies (routers, switches, servers, ... and the
links between them), with its rules written in Verus and proved.

- `src/` — the verified library:
  - `text` — decimal rendering and parsing, white space, case mapping;
  - `vendor` — the vendor and model catalogue read from `public/models/`;
  - `color` — `"R,G,B"` and `#rrggbb` colours, drawing colours;
  - `sql` — the `UPDATE` statements of partial updates and their bindings;
  - `models` — topology records, defaults of new nodes and connections;
  - `editor` — selection, connection mode, keyboard shortcuts, palette, export;
  - `import` — carrying an exported topology over to new node ids;
  - `scene`, `traffic` — model URLs and captions, traffic simulation targets.
- `tests/` — tests of the library on concrete values.
- `app/` — the Leptos application: server functions over SQLite and the model
  folders, the editor's components, and the floating-point view helpers.
