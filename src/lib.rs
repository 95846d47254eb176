pub mod client;
pub mod config;
pub mod fleet;
pub mod laws;
pub mod live;
pub mod model;
pub mod observers;
pub mod store;
