//! Verified core of a cross-venue funding-spread bot: the funding-cycle lock,
//! its per-symbol registry, the fail-safe mode controller and the risk guards
//! whose decisions are integer-valued.

pub mod venue;
pub mod binary64;
pub mod funding_cycle_lock;
mod lock_phase;
pub mod lock_typestate;
pub mod decision;
pub mod cycle_lock;
pub mod fsm_controller;
pub mod risk;
pub mod adapter_health;
pub mod live_gate;
pub mod tracing_redact;
pub mod execution;
pub mod json;
pub mod pacifica_sign;
pub mod backpressure;
pub mod chaos;
pub mod rate_limit;
pub mod nav;
pub mod scoring;
pub mod adapters;
pub mod tick;
pub mod signal;
pub mod symbols;
pub mod metrics;
pub mod fair_value;
