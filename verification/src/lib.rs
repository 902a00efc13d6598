//! Blueprint spawning for an entity framework: the staged pipeline that turns a
//! blueprint reference into a ready instance, the readiness tracking of nested
//! instances, and the injection of attributes and materials.
use vstd::prelude::*;

pub mod blueprints;
pub mod components;
pub mod hierarchy;
pub mod text;

verus! {

/// Identity of an entity of the scene graph.
pub type Entity = u64;

} // verus!
