//! A discrete-time, agent-based economy simulation on a fixed 2-D grid.
//!
//! Tiles hold small resource inventories and can change kind over time;
//! mobile agents each follow a job-specific behavior cycle (gather a
//! resource, travel toward it, deposit it, repeat); population grows
//! probabilistically inside settlements.

pub mod agent;
pub mod behavior;
pub mod grid;
pub mod prob;
mod rng;
pub mod tile;
pub mod world;

pub use agent::calculate_movement;
pub use agent::Action;
pub use agent::Job;
pub use agent::Peepl;
pub use grid::WorldTiles;
pub use tile::Inventory;
pub use tile::ResourceKind;
pub use tile::Tile;
pub use tile::TileKind;
pub use world::World;
