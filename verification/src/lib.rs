//! Core logic of a voxel world: block registry, chunk-local positions, chunk storage,
//! chunk geometry building, column bookkeeping, biome selection and the chunk loading
//! state machine.

pub mod chunk;
pub mod block;
pub mod geometry;
pub mod column;
pub mod biome;
pub mod world;
pub mod task_pool;
pub mod debug;
pub mod hud;
pub mod player;
pub mod worldgen;
pub mod sounds;
