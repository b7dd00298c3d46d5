pub mod blueprints;
pub mod common;
pub mod items;
pub mod manufacturers;
pub mod resource_types;
pub mod starmap;
pub mod vehicles;
