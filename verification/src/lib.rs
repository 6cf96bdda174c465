//! A small object pool: entities with stable, recycled integer ids, each
//! carrying at most one component of every type.

pub mod bucket;
pub mod component;
pub mod entity;

pub use bucket::Bucket;
pub use bucket::PoolView;
pub use component::Component;
pub use entity::Entity;
pub use entity::EntityId;
