//! What the driver reads of its surroundings: the engine's registries, the
//! configuration and the programs of the watches, as plain values.

pub mod config;
pub mod diagnostic;
pub mod engine;
pub mod input;
pub mod program;
