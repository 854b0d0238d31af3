//! The settings of an analysis run.
use vstd::prelude::*;
use crate::text::owned;

verus! {

/// Where to start, how many requests may run at once, and how long to wait
/// between requests.
pub struct Config {
    pub base_url: String,
    pub max_concurrent_requests: u32,
    pub request_delay_ms: u32,
}

impl Config {
    /// The settings given.
    pub fn new(base_url: String, max_concurrent_requests: u32, request_delay_ms: u32) -> (res: Self)
        ensures
            res.base_url@ == base_url@,
            res.max_concurrent_requests == max_concurrent_requests,
            res.request_delay_ms == request_delay_ms,
    {
        Config { base_url, max_concurrent_requests, request_delay_ms }
    }
}

impl Default for Config {
    /// `https://example.com`, ten requests at once, 100 ms apart.
    fn default() -> (res: Self)
        ensures
            res.base_url@ == "https://example.com"@,
            res.max_concurrent_requests == 10,
            res.request_delay_ms == 100,
    {
        Config { base_url: owned("https://example.com"), max_concurrent_requests: 10, request_delay_ms: 100 }
    }
}

} // verus!
