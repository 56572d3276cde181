//! Core of a ball-and-paddle arcade game: the state machine, the entities with
//! their collision rules, and the keyed registry through which the game talks
//! to its host. Places are whole logical units, with what a moving entity
//! lies beyond them carried in thousandths of a unit; speeds are units a
//! second and time steps whole milliseconds, so a step moves an entity by
//! exactly its speed times the time. Everything the host must do (sound,
//! drawing) leaves the core as a queue of commands.

pub mod audio;
pub mod game;
pub mod graphics;
pub mod key;
pub mod level_maker;
pub mod objects;
pub mod reg;
pub mod states;
