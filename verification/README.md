# ccw_render

The verified core of the ccw viewer stack, written in Verus. Every function
under `src/` carries a contract that Verus proves; the floating-point and
GPU work stays with the callers.

## Layout

- `src/profile.rs`, `classes.rs`, `depth.rs`, `shaders.rs` – render
  profiles, render classes and the pipeline choices they drive.
- `src/viewport.rs`, `readback.rs` – viewport and pick-region arithmetic,
  pick-buffer encoding and decoding, readback row layout.
- `src/mesh_edges.rs`, `prepare.rs`, `backend.rs` – mesh adjacency and edge
  classification, mesh preparation layout, the recording backend.
- `src/text_atlas.rs`, `annotation.rs`, `tokens.rs` – text atlas updates,
  annotation errors and the request tokens of annotations and sections.
- `src/source_ids.rs`, `project.rs` – resource-scoped identifiers, project
  catalogs and geometry stream plans.
- `src/web.rs`, `interaction.rs`, `status.rs` – resource catalogs, tool
  modes, pointer drags, show-visibility probes and the status line.
- `tests/` – tests on concrete values, run against the compiled library.
- `app/` – host-side glue: floating-point mesh geometry and the serde
  shapes of the web protocol.
