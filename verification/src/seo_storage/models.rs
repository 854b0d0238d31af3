//! The stored rows that the summaries read.
use vstd::prelude::*;
use super::enums::{DbRuleCategory, DbSeverity, SiteRunStatus};

verus! {

/// A stored rule: what it is called, which plugin offers it, its category
/// and severity, and its two messages.
pub struct PluginRuleModel {
    pub id: String,
    pub name: String,
    pub plugin_name: String,
    pub description: String,
    pub category: DbRuleCategory,
    pub severity: DbSeverity,
    pub passed_message: String,
    pub failed_message: String,
}

/// A stored outcome of a rule on a page.
pub struct PageRuleResultModel {
    pub id: i32,
    pub rule_id: String,
    pub passed: bool,
}

/// A stored page of a run.
pub struct SitePageModel {
    pub id: i32,
    pub url: String,
}

/// A stored site.
pub struct SiteModel {
    pub id: i32,
    pub name: String,
    pub url: String,
}

/// A stored run of a site.
pub struct SiteRunModel {
    pub id: i32,
    pub site_id: i32,
    pub status: SiteRunStatus,
}

} // verus!
