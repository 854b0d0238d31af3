//! The request plugin: the page was not reached through a redirect.
use vstd::prelude::*;
use crate::seo_plugins::utils::page::{page_queries_valid, Page, PageError};
use crate::seo_plugins::utils::config::{RuleConfig, RuleResult};
use super::{analyze_rules, analyzes, named_rules};
use crate::seo_plugins::utils::config::{CheckResult, PageCheck, Rule, RuleCategory, Severity};
use super::{outcome, reports};

verus! {

/// Checks how the page was fetched.
pub struct RequestPlugin {}

/// The name of the plugin.
pub const REQUEST_PLUGIN_NAME: &'static str = "Request";

/// What the plugin is about.
pub const REQUEST_PLUGIN_DESCRIPTION: &'static str = "Check the status of network requests";

/// The rules of the request plugin.
pub open spec fn request_rules() -> Seq<Rule> {
    seq![
        Rule {
            id: "request.redirects",
            name: "Redirects",
            description: "Checks if the page has redirects",
            default_severity: Severity::Error,
            category: RuleCategory::Performance,
            check: PageCheck::RequestRedirects,
        },
    ]
}

/// Whether the fetch of the page ended without a redirect, and the message
/// saying so.
pub open spec fn redirects_outcome(page: Page) -> (bool, Seq<char>) {
    let redirected = page.status_view() matches Some(c) && 300 <= c && c < 400;
    (!redirected, if redirected { "Page has redirects"@ } else { "Page does not have redirects"@ })
}

impl RequestPlugin {
    /// The plugin.
    pub fn new() -> (res: Self) {
        RequestPlugin {}
    }

    /// The plugin's name.
    pub fn name(&self) -> (res: &'static str)
        ensures
            res@ == REQUEST_PLUGIN_NAME@,
    {
        REQUEST_PLUGIN_NAME
    }

    /// What the plugin is about.
    pub fn description(&self) -> (res: &'static str)
        ensures
            res@ == REQUEST_PLUGIN_DESCRIPTION@,
    {
        REQUEST_PLUGIN_DESCRIPTION
    }

    /// The rules this plugin checks.
    pub fn available_rules(&self) -> (res: Vec<Rule>)
        ensures
            res@ == request_rules(),
    {
        vec![
            Rule {
                id: "request.redirects",
                name: "Redirects",
                description: "Checks if the page has redirects",
                default_severity: Severity::Error,
                category: RuleCategory::Performance,
                check: PageCheck::RequestRedirects,
            },
        ]
    }

    /// Runs the plugin's enabled rules on `page`, in order. Fails with
    /// `ElementNotFound` when an enabled rule cannot run on the page.
    pub fn analyze(&self, page: &Page, config: &RuleConfig) -> (res: Result<Vec<RuleResult>, PageError>)
        requires
            page_queries_valid(),
            config.wf(),
        ensures
            analyzes(res, named_rules(request_rules(), REQUEST_PLUGIN_NAME@), *page, config.enabled_map()),
    {
        let rules = self.available_rules();
        analyze_rules(&rules, self.name(), page, config)
    }
}

/// The page was not reached through a redirect.
pub fn check_redirects(page: &Page, rule_id: &str) -> (res: CheckResult)
    ensures
        reports(res, rule_id@, redirects_outcome(*page)),
{
    let redirected = page.get_redirected();
    outcome(rule_id, !redirected, "Page does not have redirects", "Page has redirects")
}

} // verus!
