//! The simulation core of a small sprite game: entities with components, three
//! passes over them, and a scheduler that runs the passes once per frame.

pub mod components;
pub mod error;
pub mod model;
pub mod store;
pub mod world;
pub mod builder;
pub mod join;
pub mod keyboard;
pub mod physics;
pub mod animator;
pub mod scheduler;
pub mod laws;
pub mod player;
pub mod renderer;
