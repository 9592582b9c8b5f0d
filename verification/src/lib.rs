pub mod handlers;
pub mod laws;
pub mod notes;
pub mod store;
