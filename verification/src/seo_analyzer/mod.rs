//! Site analysis on top of the page parser: configuration, counting what a
//! page holds, and the bookkeeping of crawls and analyses.
pub mod analyze_html;
pub mod analyzer;
pub mod config;
pub mod crawler;

use vstd::prelude::*;

verus! {

/// Why an analysis failed.
#[derive(Debug)]
pub enum SeoError {
    FetchError(String),
    UrlParseError(String),
    AnalysisError(String),
    LighthouseError(String),
}

} // verus!
