# ggl

A small OpenGL scene editor: a window shows a lit scene of models and
lights, and an egui panel lists the entities, edits their components and
loads Wavefront OBJ models.

## Layout

- `src/` is the library, written in Verus and verified:
  - `ecs` – the entity-component store (columns of optional components,
    queries, and the `do_*` traversals), with its laws;
  - `entity` – a thin scene type over the store;
  - `input` – key and mouse-button state from frame to frame, and the
    gizmo mode the editor's keys select;
  - `registry` – a name-keyed map that keeps insertion order;
  - `loaders` – the books of the model, shader and texture loaders;
  - `decode` – decoding an image file's bytes into texture pixels;
  - `obj_mesh` – turning OBJ polygons into vertex and index data;
  - `mesh` – byte layout of index data and vertex attribute layouts;
  - `uniforms` – names and texture units of shader uniforms;
  - `handle`, `text` – shared handles and decimal numerals.
- `tests/` runs the library on concrete values.
- `app/` is the editor itself: the window and event loop, OpenGL calls,
  file reading and OBJ parsing, floating-point geometry and the egui
  panels.
