//! What is stored of analyses: the stored kinds, the stored rows, and the
//! summaries built from them.
pub mod enums;
pub mod migrations;
pub mod models;
pub mod utils;
