//! Configuration records handed to the engines at startup.

use vstd::prelude::*;

verus! {

/// Fixed-window rate limit policy.
#[derive(Debug, Clone, Copy)]
pub struct RateLimitConfig {
    /// Requests allowed per window.
    pub default_limit: u32,
    /// Burst size; carried as configuration, not enforced.
    pub burst_size: u32,
    /// Window length in seconds.
    pub window_seconds: u32,
}

/// Where the backing counter service is reached.
#[derive(Debug, Clone)]
pub struct RedisConfig {
    pub url: String,
    pub pool_size: u32,
}

/// Where the HTTP surface listens.
#[derive(Debug, Clone)]
pub struct ServerConfig {
    pub host: String,
    pub port: u16,
}

/// Rule engine settings.
#[derive(Debug, Clone)]
pub struct RuleConfig {
    /// File the rule set is loaded from, if any.
    pub rules_file: Option<String>,
    /// Priority given to rules that do not state one.
    pub default_priority: i32,
    /// Whether the rule engine runs at all.
    pub enabled: bool,
}

/// Analytics settings.
#[derive(Debug, Clone)]
pub struct AnalyticsConfig {
    pub enabled: bool,
    pub storage_type: String,
    pub retention_days: u64,
    pub real_time_enabled: bool,
}

} // verus!
