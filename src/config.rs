use vstd::prelude::*;
use crate::text::{decimal, push_decimal, push_str};

verus! {

/// The whole service configuration.
#[derive(Debug, Clone)]
pub struct Config {
    pub database: DatabaseConfig,
    pub server: ServerConfig,
    pub scryfall: ScryfallConfig,
    pub cache: CacheConfig,
}

#[derive(Debug, Clone)]
pub struct DatabaseConfig {
    pub url: String,
    pub max_connections: u32,
    pub min_connections: u32,
    pub acquire_timeout_ms: u64,
    pub idle_timeout_seconds: u64,
    pub max_lifetime_seconds: u64,
}

#[derive(Debug, Clone)]
pub struct ServerConfig {
    pub host: String,
    pub port: u16,
    pub instance_id: String,
}

#[derive(Debug, Clone)]
pub struct ScryfallConfig {
    pub rate_limit_per_second: u32,
    pub bulk_data_type: String,
    pub cache_ttl_hours: u32,
}

#[derive(Debug, Clone)]
pub struct CacheConfig {
    pub query_cache_ttl_hours: u32,
    pub query_cache_max_size: usize,
    pub redis: Option<RedisConfig>,
}

/// The optional distributed tier.
#[derive(Debug, Clone)]
pub struct RedisConfig {
    pub url: String,
    pub ttl_seconds: u64,
    pub max_value_size_mb: usize,
    pub enabled: bool,
}

impl Config {
    /// `host:port`, the address the server binds.
    pub fn server_address(&self) -> (r: String)
        ensures
            r@ == self.server.host@ + ":"@ + decimal(self.server.port as nat),
    {
        let mut s = String::new();
        push_str(&mut s, self.server.host.as_str());
        push_str(&mut s, ":");
        push_decimal(&mut s, self.server.port as usize);
        s
    }
}

} // verus!
