# radiantkit_core

The document model of a node-based graphics editor, verified with Verus.

`src/` is the verified library:

- `components` — selection and color components, and the traits for components.
- `node` — the `RadiantNode` trait that documents rely on, `BaseNode`, `KeyCode`.
- `interaction` — the handles of the bounding box and what dragging each does.
- `group` — a node holding other nodes under their identifiers (artboards are groups).
- `document` — a document of artboards: adding artboards and nodes, lookups,
  in-place changes, selection.
- `picking` — a registry that gives each node a color of its own and finds the
  node again from a color.
- `tools` — the manager of editor tools and the active tool.
- `scene` — the handling of the scene messages that move nothing.
- `maps` — ordered keys of a map, and mutable access to a map entry.

`app/` holds what needs floating point, drawing or the network: geometry,
node drawing with epaint, pointer tools, the bounding-box interaction, the
scene around the document, document listeners and the yrs-backed collaborator.

`tests/` runs the library on concrete values.
