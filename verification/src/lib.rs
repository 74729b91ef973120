//! Event-driven arbitrage between a marketplace order feed and on-chain
//! liquidity pools: the orchestration engine's registrations and task rules,
//! the state-override call set, and the strategy's pool tables and decisions.

pub mod constants;
pub mod convergence;
pub mod engine;
pub mod pools;
pub mod primitives;
pub mod scan;
pub mod state_override_middleware;
pub mod strategy;
pub mod tables;
pub mod types;
