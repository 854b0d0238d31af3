//! The desktop application's own data: the events it exchanges, the crawl
//! settings it stores, and its single-page analysis.
pub mod events;
pub mod lighthouse;
pub mod seo_analyzer;
pub mod settings;
