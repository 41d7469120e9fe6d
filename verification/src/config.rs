//! Gateway configuration.  Durations are whole milliseconds.

use vstd::prelude::*;

verus! {

/// Top-level configuration.
#[derive(Debug)]
pub struct Config {
    pub server: ServerConfig,
    pub business_api: BusinessApiConfig,
    pub cache: CacheConfig,
    pub proxy: ProxyConfig,
}

/// Listener settings.
#[derive(Debug)]
pub struct ServerConfig {
    pub host: String,
    pub port: u16,
    pub workers: usize,
}

/// How to reach the business backend.
#[derive(Debug)]
pub struct BusinessApiConfig {
    pub base_url: String,
    /// Request timeout in milliseconds.
    pub timeout: u64,
    pub retry_attempts: u32,
}

/// Route cache settings.
#[derive(Debug)]
pub struct CacheConfig {
    pub cache_type: CacheType,
    /// Sliding time to live in milliseconds.
    pub ttl: u64,
    /// Hard limit on an entry's age in milliseconds.
    pub max_lifetime: u64,
    pub max_size: usize,
}

/// Supported cache back ends.
#[derive(Debug, Clone, Copy, PartialEq, Eq, Structural)]
pub enum CacheType {
    Memory,
    Redis,
}

/// Upstream client settings.
#[derive(Debug)]
pub struct ProxyConfig {
    /// Timeout of a unary upstream request in milliseconds.
    pub timeout: u64,
    pub max_connections: usize,
    pub keep_alive: bool,
    pub retry_attempts: u32,
}

/// Milliseconds in a second.
pub const MILLIS_PER_SECOND: u64 = 1000;

/// Default hard limit on the age of a cache entry: 24 hours.
pub fn default_max_lifetime() -> (r: u64)
    ensures
        r == 24 * 3600 * 1000,
{
    24 * 3600 * MILLIS_PER_SECOND
}

impl Config {
    /// The configuration used when no file is given: listen on
    /// `0.0.0.0:8080` with 4 workers; backend at `http://localhost:3000`
    /// with a 5 s timeout and 3 retries; in-memory cache, 5 min sliding,
    /// 24 h hard, 10000 entries; upstream timeout 30 s, 500 connections,
    /// keep-alive on, 3 retries.
    pub fn default() -> (r: Config)
        ensures
            r.server.host@ == "0.0.0.0"@,
            r.server.port == 8080,
            r.server.workers == 4,
            r.business_api.base_url@ == "http://localhost:3000"@,
            r.business_api.timeout == 5000,
            r.business_api.retry_attempts == 3,
            r.cache.cache_type == CacheType::Memory,
            r.cache.ttl == 300_000,
            r.cache.max_lifetime == 86_400_000,
            r.cache.max_size == 10000,
            r.proxy.timeout == 30_000,
            r.proxy.max_connections == 500,
            r.proxy.keep_alive,
            r.proxy.retry_attempts == 3,
    {
        Config {
            server: ServerConfig { host: "0.0.0.0".to_owned(), port: 8080, workers: 4 },
            business_api: BusinessApiConfig {
                base_url: "http://localhost:3000".to_owned(),
                timeout: 5 * MILLIS_PER_SECOND,
                retry_attempts: 3,
            },
            cache: CacheConfig {
                cache_type: CacheType::Memory,
                ttl: 300 * MILLIS_PER_SECOND,
                max_lifetime: default_max_lifetime(),
                max_size: 10000,
            },
            proxy: ProxyConfig {
                timeout: 30 * MILLIS_PER_SECOND,
                max_connections: 500,
                keep_alive: true,
                retry_attempts: 3,
            },
        }
    }
}

} // verus!
