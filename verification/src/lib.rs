pub mod text;
pub mod num;
pub mod assoc;
pub mod hierarchy;
pub mod json;
pub mod loader;
pub mod file_text;
pub mod query;
pub mod sort;
pub mod response;
pub mod models;
pub mod handlers;
pub mod laws;
pub mod name_laws;
pub mod filter_laws;
