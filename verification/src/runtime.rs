//! The model-run engine: memory accounting, model selection, transition
//! history, configuration and model registration.

pub mod memory_manager;
pub mod scheduler;
pub mod preflight;
pub mod config;
pub mod engine;
pub mod backends;
