pub mod blueprint;
pub mod fields;
pub mod item;
pub mod label;
pub mod manufacturer;
pub mod resource_type;
pub mod starmap;
pub mod tag;
pub mod vehicle;
