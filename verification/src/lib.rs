//! A small persistent world: players earn resources by working, pool them
//! into expeditions, and expeditions found new colonies.

pub mod colony;
pub mod digest;
pub mod error;
pub mod expedition;
pub mod identity;
pub mod inventory;
pub mod laws;
pub mod player;
pub mod resources;
pub mod vec_map;
pub mod world;

pub use colony::ColonyState;
pub use error::ErrorKind;
pub use error::WorldError;
pub use expedition::ExpeditionState;
pub use expedition::ExpeditionStep;
pub use inventory::Inventory;
pub use player::PlayerState;
pub use player::PlayerStatus;
pub use player::TimestampMillis;
pub use player::MILLIS_TO_SECONDS;
pub use resources::Amounts;
pub use resources::Resources;
pub use vec_map::VecMap;
pub use world::BusinessState;
pub use world::ColonyInfo;
pub use world::ExpeditionAction;
pub use world::SystemSettings;
