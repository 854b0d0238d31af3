//! The HTML plugin: the basic head elements of a page are there.
use vstd::prelude::*;
use crate::seo_plugins::utils::page::{page_queries_valid, Page, PageError};
use crate::seo_plugins::utils::config::{RuleConfig, RuleResult};
use super::{analyze_rules, analyzes, named_rules};
use crate::seo_plugins::utils::config::{CheckResult, PageCheck, Rule, RuleCategory, Severity};

verus! {

/// Checks the basic structure of a page's HTML.
pub struct HtmlPlugin {}

/// The name of the plugin.
pub const HTML_PLUGIN_NAME: &'static str = "HTML";

/// What the plugin is about.
pub const HTML_PLUGIN_DESCRIPTION: &'static str = "Basic HTML structure analysis";

/// The rules of the HTML plugin.
pub open spec fn html_rules() -> Seq<Rule> {
    seq![
        Rule {
            id: "html.title",
            name: "Page has title tag",
            description: "Checks if the page has a proper title tag",
            default_severity: Severity::Error,
            category: RuleCategory::SEO,
            check: PageCheck::HtmlTitle,
        },
        Rule {
            id: "html.meta_description",
            name: "Page has meta description",
            description: "Checks if the page has a meta description",
            default_severity: Severity::Warning,
            category: RuleCategory::SEO,
            check: PageCheck::HtmlMetaDescription,
        },
    ]
}

impl HtmlPlugin {
    /// The plugin.
    pub fn new() -> (res: Self) {
        HtmlPlugin {}
    }

    /// The plugin's name.
    pub fn name(&self) -> (res: &'static str)
        ensures
            res@ == HTML_PLUGIN_NAME@,
    {
        HTML_PLUGIN_NAME
    }

    /// What the plugin is about.
    pub fn description(&self) -> (res: &'static str)
        ensures
            res@ == HTML_PLUGIN_DESCRIPTION@,
    {
        HTML_PLUGIN_DESCRIPTION
    }

    /// The rules this plugin checks.
    pub fn available_rules(&self) -> (res: Vec<Rule>)
        ensures
            res@ == html_rules(),
    {
        vec![
            Rule {
                id: "html.title",
                name: "Page has title tag",
                description: "Checks if the page has a proper title tag",
                default_severity: Severity::Error,
                category: RuleCategory::SEO,
                check: PageCheck::HtmlTitle,
            },
            Rule {
                id: "html.meta_description",
                name: "Page has meta description",
                description: "Checks if the page has a meta description",
                default_severity: Severity::Warning,
                category: RuleCategory::SEO,
                check: PageCheck::HtmlMetaDescription,
            },
        ]
    }

    /// Runs the plugin's enabled rules on `page`, in order. Fails with
    /// `ElementNotFound` when an enabled rule cannot run on the page.
    pub fn analyze(&self, page: &Page, config: &RuleConfig) -> (res: Result<Vec<RuleResult>, PageError>)
        requires
            page_queries_valid(),
            config.wf(),
        ensures
            analyzes(res, named_rules(html_rules(), HTML_PLUGIN_NAME@), *page, config.enabled_map()),
    {
        let rules = self.available_rules();
        analyze_rules(&rules, self.name(), page, config)
    }
}

} // verus!
