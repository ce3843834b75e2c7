pub mod events;
pub mod header;
pub mod laws;
pub mod models;
pub mod registry;
pub mod resolver;
pub mod timeline;
