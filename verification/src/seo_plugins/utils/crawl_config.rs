//! The settings of a crawl.
use vstd::prelude::*;
use crate::text::owned;
use crate::web_url::{spec_url_parse, WebUrl};
use super::link_parser::{to_url, LinkParseError};

verus! {

/// Why the settings of a crawl are unusable.
#[derive(Debug)]
pub enum CrawlConfigError {
    UrlParseError(String),
}

/// Where a crawl starts, how many requests may run at once, and how long to
/// wait between requests.
pub struct CrawlConfig {
    pub base_url: String,
    pub max_concurrent_requests: u32,
    pub request_delay_ms: u32,
}

impl CrawlConfig {
    /// The settings given.
    pub fn new(base_url: String, max_concurrent_requests: u32, request_delay_ms: u32) -> (res: Self)
        ensures
            res.base_url@ == base_url@,
            res.max_concurrent_requests == max_concurrent_requests,
            res.request_delay_ms == request_delay_ms,
    {
        CrawlConfig { base_url, max_concurrent_requests, request_delay_ms }
    }

    /// The start URL, parsed; fails with `UrlParseError` when it does not
    /// parse.
    pub fn get_url(&self) -> (res: Result<WebUrl, CrawlConfigError>)
        ensures
            match spec_url_parse(self.base_url@) {
                Ok(u) => res matches Ok(w) && w@ == u,
                Err(m) => res matches Err(CrawlConfigError::UrlParseError(e)) && e@ == m,
            },
    {
        match to_url(self.base_url.as_str()) {
            Ok(u) => Ok(u),
            Err(LinkParseError::UrlParseError(m)) => Err(CrawlConfigError::UrlParseError(m)),
            Err(LinkParseError::LinkParseError(m)) => Err(CrawlConfigError::UrlParseError(m)),
        }
    }
}

impl Default for CrawlConfig {
    /// The default start URL, ten requests at once, 100 ms apart.
    fn default() -> (res: Self)
        ensures
            res.base_url@ == "https://stem-programs.newspacenexus.org/"@,
            res.max_concurrent_requests == 10,
            res.request_delay_ms == 100,
    {
        CrawlConfig {
            base_url: owned("https://stem-programs.newspacenexus.org/"),
            max_concurrent_requests: 10,
            request_delay_ms: 100,
        }
    }
}

} // verus!
