//! Service configuration.
use vstd::prelude::*;

verus! {

/// Addresses and limits the service runs with.
pub struct Config {
    pub bind_address: String,
    pub redis_url: String,
    pub database_url: String,
    pub analytics_service_url: String,
    pub stream_storage_path: String,
    pub max_concurrent_streams: usize,
    pub stream_activation_timeout_seconds: u64,
}

} // verus!
