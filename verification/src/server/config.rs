//! The server's configuration.
use vstd::prelude::*;

use crate::server::throttle::Rate;

verus! {

/// Configures the IP throttler
/// - `max_requests_per_second`: includes all requests to html and resources per second per ip
/// - `timeout_millis`: a cool off period between IP-blocks
/// - `clear_period_seconds`: time period to clear all stored IPs
#[derive(Debug, Clone, Copy)]
pub struct ThrottleConfig {
    pub max_requests_per_second: Rate,
    pub timeout_millis: u128,
    pub clear_period_seconds: u64,
}

/// Configures the server
/// - `port_https`: https port to serve on
/// - `port_http`: http port to serve on
/// - `cert_path`: ssl certificate
/// - `key_path`: ssl key
/// - `domain`: domain name for https redirect etc.
/// - `throttle`: [ThrottleConfig]
/// - `api_token`: token to use for the server's POST api, if it checks signatures
/// - `cache_period_seconds`: max cache age for generated content
/// - `cors_allow_address`: the origin that cross-origin requests may come from, if any
#[derive(Debug)]
pub struct Config {
    pub port_https: u16,
    pub port_http: u16,
    pub cert_path: String,
    pub key_path: String,
    pub domain: String,
    pub throttle: ThrottleConfig,
    pub api_token: Option<String>,
    pub cache_period_seconds: u16,
    pub cors_allow_address: Option<String>,
}

} // verus!
