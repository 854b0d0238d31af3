//! The crawl settings the desktop application stores.
use vstd::prelude::*;

verus! {

/// How many requests may run at once, and how long to wait between them.
#[derive(Clone, Copy, Debug)]
pub struct CrawlSettingsStore {
    pub max_concurrent_requests: u32,
    pub request_delay_ms: u32,
}

/// The key under which the settings are stored.
pub const CRAWL_SETTINGS_KEY: &'static str = "crawl_settings";

impl Default for CrawlSettingsStore {
    /// Ten requests at once, 100 ms apart.
    fn default() -> (res: Self)
        ensures
            res.max_concurrent_requests == 10,
            res.request_delay_ms == 100,
    {
        CrawlSettingsStore { max_concurrent_requests: 10, request_delay_ms: 100 }
    }
}

impl CrawlSettingsStore {
    /// The stored settings, or the defaults when none are stored.
    pub fn or_default(stored: Option<CrawlSettingsStore>) -> (res: Self)
        ensures
            match stored {
                Some(s) => res == s,
                None => res.max_concurrent_requests == 10 && res.request_delay_ms == 100,
            },
    {
        match stored {
            Some(s) => s,
            None => CrawlSettingsStore::default(),
        }
    }
}

} // verus!
