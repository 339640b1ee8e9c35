pub mod download;
pub mod env_vars;
pub mod installer;
pub mod planner;
pub mod store;
