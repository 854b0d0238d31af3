//! Reading a single page: its meta information, headings, images and links.
pub mod page_parser;
