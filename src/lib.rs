//! Runtime core of a small entity-component-system engine: typed component
//! storage, a signature-keyed query cache and a sequential frame scheduler.
pub mod components;
pub mod entity;
pub mod ecs;
pub mod properties;
pub mod systems;
pub mod scheduler;
pub mod texture;
