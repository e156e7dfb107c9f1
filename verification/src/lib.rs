//! A small entity-component-system runtime: an identifier allocator, an
//! ordered entity store with type-keyed components, multi-key queries, an
//! ordered system registry, a frame stepper and the per-frame context that
//! ties them together.

pub mod component;
pub mod context;
pub mod draw;
pub mod entity;
pub mod error;
pub mod frame;
pub mod id;
pub mod input;
pub mod laws;
pub mod query;
pub mod resource;
pub mod rigid_body;
pub mod shared_ptr;
pub mod store;
pub mod system;
