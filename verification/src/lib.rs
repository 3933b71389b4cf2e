//! A sparse-set entity-component store.
//!
//! A [`Scene`](life::Scene) issues integer entity identifiers, recycles the
//! identifiers of deleted entities, and keeps component values in densely
//! packed, per-kind [`ComponentPool`](life::ComponentPool)s.  Every operation
//! carries a contract relating it to a small mathematical model of the store,
//! and the laws the store obeys are proved in [`life::laws`].

pub mod life;
pub mod objects;

pub use life::ComponentPool;
pub use objects::VglObject;
pub use life::EcsError;
pub use life::PoolView;
pub use life::Scene;
pub use life::genesis::EntityConstructor;
