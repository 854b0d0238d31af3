//! Summaries of stored results.
pub mod category_counts;
pub mod category_detail;
pub mod rule_rows;
pub mod sites_with_site_runs;
