//! Deterministic procedural world content for a 2D open world.
//!
//! The crate covers the pure generation core: quantizing sampled climate
//! channels into ordinal levels, picking a biome per point by
//! nearest-prototype matching, materializing rectangular chunk buffers with a
//! load/unload registry, and an independent tile-layout path built from a
//! declarative tile alphabet and an arc-consistency constraint solver.
//! Sampling the underlying noise fields is left to the caller, which hands
//! raw channel values in fixed-point climate units to this crate.

pub mod biome;
pub mod chunk;
pub mod climate;
pub mod color;
pub mod field;
pub mod game;
pub mod picker;
pub mod tileset;
pub mod wfc;

pub use climate::RawClimate;
pub use climate::Point;
