//! SEO analysis of web pages and sites: page rules, site rules, link
//! bookkeeping for crawls, sitemap handling and result aggregation.

pub mod text;
pub mod text_map;
pub mod web_url;
pub mod html_doc;
pub mod seo_plugins;
pub mod html_parser;
pub mod seo_analyzer;
pub mod seo_storage;
pub mod desktop;
