# voxel_game

The logic of a small voxel game, verified with Verus.

`src/` is the library:

- `game::terrain::chunk` — 16³ chunks of block ids and chunk positions.
- `game::terrain::generation` — how terrain is layered in a chunk once each
  column's surface height is known.
- `game::terrain::mesher`, `game::terrain::chunk_mesher` — which block faces
  of a chunk are seen and must be drawn, and with which texture.
- `game::terrain::manager` — the loaded terrain around the player: which chunks
  to generate, which to show, which meshes to build or drop.
- `game::terrain::manager_old` — a rule for which chunks to load and unload
  around the player: a walk over a box of positions, then a pass over the
  loaded chunks.
- `game::terrain::chunk_manager`, `game::terrain::chunk_updater` — queues of
  finished chunk jobs and how they are applied.
- `game::terrain::block`, `game::terrain::block_registry`, `game::registry`,
  `utils::registry` — block kinds, their builders and registries.
- `engine::mesh` — vertex and index lists of meshes.
- `engine::utils::clock` — the fixed-step update clock.
- `game`, `game::ecs::components`, `game::game` — whether the game runs,
  player controls, and what the game does with input events.
- `utils::texture` — a PNG texture atlas decoded and cut into tiles.
- `utils::shared_map` — the `dashmap` tables the library keeps, with what
  their operations are trusted to do.

`app/` is the game around the library: a `glium` window, input events,
terrain generation and meshing on a worker thread, textures, and the
floating-point parts (noise heights, vertices, camera, ray casts, frustum
culling).
