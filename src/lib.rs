pub mod error;
pub mod types;
pub mod executor;
pub mod ids;
pub mod provider;
pub mod catalog;
pub mod gc;
pub mod store;
pub mod orchestrator;
pub mod services;
pub mod reaper;
