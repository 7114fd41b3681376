//! Verified core of a caching DNS-over-HTTPS forwarder: configuration and its
//! overrides, the answer cache with time-to-live expiry, the cache metrics and
//! the resolver's bookkeeping.

pub mod config;
pub mod number;

pub use config::{Config, HandleConfig, Overrides, ResolveConfig, ServeConfig};
mod clock;
pub mod entry;
pub mod metrics;
pub mod cache;
pub mod resolver;
