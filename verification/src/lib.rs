//! Scheduling and resource-injection core of a small entity/component game
//! runtime: a type-keyed singleton resource registry, a parameter-extraction
//! capability that derives what data a system needs, an adapter that turns
//! plain functions into uniformly runnable systems, an ordered stage schedule,
//! and a thin runtime driver.

pub mod app;
pub mod level;
pub mod render;
pub mod resource;
pub mod schedule;
pub mod system;
pub mod transform;
pub mod value;
pub mod world;
