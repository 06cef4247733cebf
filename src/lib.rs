//! An in-memory entity-component store: component schemas registered by
//! name, entities identified by UUID values, and per-entity component data
//! whose fields follow the registered schema.

pub mod variant;
pub mod component_definition;
pub mod component_info;
pub mod entity;
pub mod component_value;
pub mod component_data;
pub mod errors;
pub mod component_storage;
pub mod component_data_storage;
pub mod ecs_world;
pub mod laws;
