# blocks_n_stuff

The logic of a small voxel game (a Minecraft-like world of 32×32×32-block chunks), written in
Verus: each function carries a contract over a mathematical model, and Verus proves it.

## Layout

- `src/` — the verified library.
  - `chunk.rs`: packed local block positions, chunk data, the enumeration of a chunk's blocks.
  - `block.rs`: block identifiers and the registry of their appearance and transparency.
  - `geometry.rs`: the meshing of a chunk into quads: face culling, ambient occlusion, the
    faces shared with neighbouring chunks, and the pool of buffers the geometry goes to.
  - `world.rs`: the world of loaded chunks (stored in a `hashbrown` map): requesting, receiving,
    rebuilding and unloading chunks, reading and writing blocks.
  - `player.rs`: the discrete movement state of the player, the chunks in view, and what the
    mouse buttons do to the block looked at.
  - `hud.rs`, `debug.rs`, `sounds.rs`: the hotbar, the debug state, the choice of sounds.
  - `column.rs`, `biome.rs`, `worldgen.rs`: the world generator's column positions, weighted
    biome choice, block layers, and the registry of structures waiting to be written.
  - `task_pool.rs`: the single-threaded task pool and the decisions of the threaded one.
- `tests/` — tests of the library on concrete values.
- `app/` — the program around it: the window and its event loop, floating-point physics and
  camera, the threaded task pool, the noise-based terrain. Verus does not see it.
