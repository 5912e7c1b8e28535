//! Verified core of the MoFA inference-orchestration engine.

pub mod artifacts;
pub mod backends;
pub mod catalog;
pub mod circuit_breaker;
pub mod clock;
pub mod config;
pub mod engine;
pub mod kernel;
pub mod memory;
pub mod metrics;
pub mod paths;
pub mod preflight;
pub mod quality_gate;
pub mod runtime;
pub mod shared_map;
pub mod stream;
pub mod system;
pub mod text;
