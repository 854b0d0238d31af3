//! Page rules, site rules and the crawl of a site.
pub mod plugins;
pub mod site_analyzer;
pub mod site_plugins;
pub mod utils;
