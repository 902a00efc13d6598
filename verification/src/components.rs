//! Turning the attributes of scene nodes into components.
pub mod process_gltfs;
pub mod ronstring_to_reflect_component;
