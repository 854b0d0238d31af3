//! The events the desktop application exchanges.
use vstd::prelude::*;
use crate::seo_plugins::site_analyzer::CrawlResult;

verus! {

/// An analysis of the site at `base_url` was asked for.
pub struct AnalysisStart {
    pub base_url: String,
}

/// The stored run of the current analysis.
pub struct SiteRunIdSet {
    pub site_run_id: i32,
}

/// An analysis ended, with what it found.
pub struct AnalysisFinished {
    pub site_run_id: i32,
    pub result: CrawlResult,
}

} // verus!
