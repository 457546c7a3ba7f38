//! Admission control for inbound traffic: a fixed-window rate limiter, a
//! multi-signal attack detector and a priority-ordered rule engine, all
//! working over a shared store of expiring counters.

pub mod utils;
pub mod store;
pub mod models;
pub mod rate_limiter;
pub mod ddos_detector;
pub mod rule_engine;
pub mod api;
pub mod admission;
