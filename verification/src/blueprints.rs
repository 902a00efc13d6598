//! The spawn pipeline and what it works with.
pub mod assets;
pub mod hot_reload;
pub mod info;
pub mod materials;
pub mod pipeline;
pub mod spawn_from_blueprints;
pub mod stages;
pub mod sub_blueprints;
