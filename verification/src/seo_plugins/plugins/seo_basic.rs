//! The basic SEO plugin: title, meta description and canonical URL.
use vstd::prelude::*;
use crate::seo_plugins::utils::config::{RuleConfig, RuleResult};
use super::{analyze_rules, analyzes, named_rules};
use crate::seo_plugins::utils::config::{CheckResult, PageCheck, Rule, RuleCategory, Severity};
use crate::seo_plugins::utils::page::{Page, PageError, meta_of_document, page_queries_valid};
use crate::text::{has_prefix, starts_with};
use super::{outcome, reports};

verus! {

/// Checks the basic SEO elements of a page.
pub struct SeoBasicPlugin {}

/// The name of the plugin.
pub const SEO_BASIC_PLUGIN_NAME: &'static str = "SeoBasic";

/// What the plugin is about.
pub const SEO_BASIC_PLUGIN_DESCRIPTION: &'static str = "";

/// The rules of the basic SEO plugin.
pub open spec fn seo_basic_rules() -> Seq<Rule> {
    seq![
        Rule {
            id: "seo_basic.title",
            name: "Page has title tag",
            description: "Checks if the page has a proper title tag",
            default_severity: Severity::Critical,
            category: RuleCategory::SEO,
            check: PageCheck::SeoBasicTitle,
        },
        Rule {
            id: "seo_basic.title_length",
            name: "Title length is less than 60 characters",
            description: "Checks if the title length is less than 60 characters",
            default_severity: Severity::Warning,
            category: RuleCategory::SEO,
            check: PageCheck::SeoBasicTitleLength,
        },
        Rule {
            id: "seo_basic.meta_description",
            name: "Page has meta description",
            description: "Checks if the page has a meta description",
            default_severity: Severity::Warning,
            category: RuleCategory::SEO,
            check: PageCheck::SeoBasicMetaDescription,
        },
        Rule {
            id: "seo_basic.meta_description_length",
            name: "Meta description length is less than 155 characters",
            description: "Checks if the meta description length is less than 155 characters",
            default_severity: Severity::Warning,
            category: RuleCategory::SEO,
            check: PageCheck::SeoBasicMetaDescriptionLength,
        },
        Rule {
            id: "seo_basic.has_canonical_url",
            name: "Page has canonical url",
            description: "Checks if the page has a canonical url",
            default_severity: Severity::Warning,
            category: RuleCategory::SEO,
            check: PageCheck::SeoBasicHasCanonicalUrl,
        },
        Rule {
            id: "seo_basic.canonical_url_matches_site",
            name: "Canonical url matches site",
            description: "Checks if the canonical url matches the site",
            default_severity: Severity::Warning,
            category: RuleCategory::SEO,
            check: PageCheck::SeoBasicCanonicalUrlMatchesSite,
        },
    ]
}

/// Whether the page has a canonical URL, and the message saying so.
pub open spec fn has_canonical_outcome(html: Seq<char>) -> (bool, Seq<char>) {
    let has = meta_of_document(html).canonical is Some;
    (has, if has { "Page has a canonical url"@ } else { "Page is missing a canonical url"@ })
}

/// Whether the page's canonical URL begins with the page's URL, and the
/// message saying so.
pub open spec fn canonical_matches_outcome(page: Page) -> (bool, Seq<char>) {
    let canonical = meta_of_document(page.html_view()).canonical;
    let matches = canonical matches Some(c) && has_prefix(c, page.base_view());
    (matches, if matches { "Canonical url matches site"@ } else { "Canonical url does not match site"@ })
}

impl SeoBasicPlugin {
    /// The plugin.
    pub fn new() -> (res: Self) {
        SeoBasicPlugin {}
    }

    /// The plugin's name.
    pub fn name(&self) -> (res: &'static str)
        ensures
            res@ == SEO_BASIC_PLUGIN_NAME@,
    {
        SEO_BASIC_PLUGIN_NAME
    }

    /// What the plugin is about.
    pub fn description(&self) -> (res: &'static str)
        ensures
            res@ == SEO_BASIC_PLUGIN_DESCRIPTION@,
    {
        SEO_BASIC_PLUGIN_DESCRIPTION
    }

    /// The rules this plugin checks.
    pub fn available_rules(&self) -> (res: Vec<Rule>)
        ensures
            res@ == seo_basic_rules(),
    {
        vec![
            Rule {
                id: "seo_basic.title",
                name: "Page has title tag",
                description: "Checks if the page has a proper title tag",
                default_severity: Severity::Critical,
                category: RuleCategory::SEO,
                check: PageCheck::SeoBasicTitle,
            },
            Rule {
                id: "seo_basic.title_length",
                name: "Title length is less than 60 characters",
                description: "Checks if the title length is less than 60 characters",
                default_severity: Severity::Warning,
                category: RuleCategory::SEO,
                check: PageCheck::SeoBasicTitleLength,
            },
            Rule {
                id: "seo_basic.meta_description",
                name: "Page has meta description",
                description: "Checks if the page has a meta description",
                default_severity: Severity::Warning,
                category: RuleCategory::SEO,
                check: PageCheck::SeoBasicMetaDescription,
            },
            Rule {
                id: "seo_basic.meta_description_length",
                name: "Meta description length is less than 155 characters",
                description: "Checks if the meta description length is less than 155 characters",
                default_severity: Severity::Warning,
                category: RuleCategory::SEO,
                check: PageCheck::SeoBasicMetaDescriptionLength,
            },
            Rule {
                id: "seo_basic.has_canonical_url",
                name: "Page has canonical url",
                description: "Checks if the page has a canonical url",
                default_severity: Severity::Warning,
                category: RuleCategory::SEO,
                check: PageCheck::SeoBasicHasCanonicalUrl,
            },
            Rule {
                id: "seo_basic.canonical_url_matches_site",
                name: "Canonical url matches site",
                description: "Checks if the canonical url matches the site",
                default_severity: Severity::Warning,
                category: RuleCategory::SEO,
                check: PageCheck::SeoBasicCanonicalUrlMatchesSite,
            },
        ]
    }

    /// Runs the plugin's enabled rules on `page`, in order. Fails with
    /// `ElementNotFound` when an enabled rule cannot run on the page.
    pub fn analyze(&self, page: &Page, config: &RuleConfig) -> (res: Result<Vec<RuleResult>, PageError>)
        requires
            page_queries_valid(),
            config.wf(),
        ensures
            analyzes(res, named_rules(seo_basic_rules(), SEO_BASIC_PLUGIN_NAME@), *page, config.enabled_map()),
    {
        let rules = self.available_rules();
        analyze_rules(&rules, self.name(), page, config)
    }
}

/// The page has a canonical URL.
pub fn check_has_canonical(page: &Page, rule_id: &str) -> (res: CheckResult)
    requires
        page_queries_valid(),
    ensures
        reports(res, rule_id@, has_canonical_outcome(page.html_view())),
{
    let meta = page.extract_meta_tags();
    outcome(rule_id, meta.canonical.is_some(), "Page has a canonical url", "Page is missing a canonical url")
}

/// The page's canonical URL begins with the page's URL.
pub fn check_canonical_matches(page: &Page, rule_id: &str) -> (res: CheckResult)
    requires
        page_queries_valid(),
    ensures
        reports(res, rule_id@, canonical_matches_outcome(*page)),
{
    let meta = page.extract_meta_tags();
    let matches = match &meta.canonical {
        Some(c) => {
            let url = page.get_url();
            starts_with(c.as_str(), url.as_str())
        },
        None => false,
    };
    outcome(rule_id, matches, "Canonical url matches site", "Canonical url does not match site")
}

} // verus!
