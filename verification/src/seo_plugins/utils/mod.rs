//! Rule configuration, links, pages and the plugin registry.
pub mod config;
pub mod crawl_config;
pub mod link_parser;
pub mod page;
pub mod registry;
pub mod site;
pub mod sitemap_parser;
