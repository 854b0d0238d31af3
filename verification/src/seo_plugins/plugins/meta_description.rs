//! The meta description plugin: the page has a meta description, and it is
//! not too long.
use vstd::prelude::*;
use crate::seo_plugins::utils::config::{RuleConfig, RuleResult};
use super::{analyze_rules, analyzes, named_rules};
use crate::seo_plugins::utils::config::{CheckResult, PageCheck, Rule, RuleCategory, Severity};
use crate::seo_plugins::utils::page::{Page, PageError, meta_of_document, page_queries_valid};
use crate::text::{decimal, owned};
use super::{byte_len, counted_message, or_empty, outcome, reports, text_byte_len};

verus! {

/// Checks the meta description of a page.
pub struct MetaDescriptionPlugin {}

/// The name of the plugin.
pub const META_DESCRIPTION_PLUGIN_NAME: &'static str = "MetaDescription";

/// What the plugin is about.
pub const META_DESCRIPTION_PLUGIN_DESCRIPTION: &'static str = "Meta descriptions provide concise explanations of the contents of web pages. They are commonly used on search engine result pages to display preview snippets for a given page.";

/// The rules of the meta description plugin.
pub open spec fn meta_description_rules() -> Seq<Rule> {
    seq![
        Rule {
            id: "meta_description.has_meta_description",
            name: "Page has meta description",
            description: "Checks if the page has a meta description",
            default_severity: Severity::Warning,
            category: RuleCategory::SEO,
            check: PageCheck::MetaDescriptionPresent,
        },
        Rule {
            id: "meta_description.description_length",
            name: "Meta description length is less than 155 characters",
            description: "Checks if the meta description length is less than 155 characters",
            default_severity: Severity::Warning,
            category: RuleCategory::SEO,
            check: PageCheck::MetaDescriptionLength,
        },
    ]
}

/// Whether the page has a meta description, and the message saying so.
pub open spec fn has_description_outcome(html: Seq<char>) -> (bool, Seq<char>) {
    let has = meta_of_document(html).description is Some;
    (has, if has { "Page has a meta description"@ } else { "Page is missing a meta description"@ })
}

/// Whether the page's meta description (empty when missing) is 1 to 154
/// bytes long, and the message giving its length.
pub open spec fn description_length_outcome(html: Seq<char>) -> (bool, Seq<char>) {
    let n = byte_len(or_empty(meta_of_document(html).description));
    (0 < n < 155, "Meta description length is "@ + decimal(n as nat) + " characters"@)
}

impl MetaDescriptionPlugin {
    /// The plugin.
    pub fn new() -> (res: Self) {
        MetaDescriptionPlugin {}
    }

    /// The plugin's name.
    pub fn name(&self) -> (res: &'static str)
        ensures
            res@ == META_DESCRIPTION_PLUGIN_NAME@,
    {
        META_DESCRIPTION_PLUGIN_NAME
    }

    /// What the plugin is about.
    pub fn description(&self) -> (res: &'static str)
        ensures
            res@ == META_DESCRIPTION_PLUGIN_DESCRIPTION@,
    {
        META_DESCRIPTION_PLUGIN_DESCRIPTION
    }

    /// The rules this plugin checks.
    pub fn available_rules(&self) -> (res: Vec<Rule>)
        ensures
            res@ == meta_description_rules(),
    {
        vec![
            Rule {
                id: "meta_description.has_meta_description",
                name: "Page has meta description",
                description: "Checks if the page has a meta description",
                default_severity: Severity::Warning,
                category: RuleCategory::SEO,
                check: PageCheck::MetaDescriptionPresent,
            },
            Rule {
                id: "meta_description.description_length",
                name: "Meta description length is less than 155 characters",
                description: "Checks if the meta description length is less than 155 characters",
                default_severity: Severity::Warning,
                category: RuleCategory::SEO,
                check: PageCheck::MetaDescriptionLength,
            },
        ]
    }

    /// Runs the plugin's enabled rules on `page`, in order. Fails with
    /// `ElementNotFound` when an enabled rule cannot run on the page.
    pub fn analyze(&self, page: &Page, config: &RuleConfig) -> (res: Result<Vec<RuleResult>, PageError>)
        requires
            page_queries_valid(),
            config.wf(),
        ensures
            analyzes(res, named_rules(meta_description_rules(), META_DESCRIPTION_PLUGIN_NAME@), *page, config.enabled_map()),
    {
        let rules = self.available_rules();
        analyze_rules(&rules, self.name(), page, config)
    }
}

/// The page has a meta description.
pub fn check_has_description(page: &Page, rule_id: &str) -> (res: CheckResult)
    requires
        page_queries_valid(),
    ensures
        reports(res, rule_id@, has_description_outcome(page.html_view())),
{
    let meta = page.extract_meta_tags();
    outcome(rule_id, meta.description.is_some(), "Page has a meta description", "Page is missing a meta description")
}

/// The page's meta description is 1 to 154 bytes long.
pub fn check_description_length(page: &Page, rule_id: &str) -> (res: CheckResult)
    requires
        page_queries_valid(),
    ensures
        reports(res, rule_id@, description_length_outcome(page.html_view())),
{
    let meta = page.extract_meta_tags();
    let description = match meta.description {
        Some(t) => t,
        None => String::new(),
    };
    let n = text_byte_len(&description);
    CheckResult {
        rule_id: owned(rule_id),
        passed: n < 155 && n > 0,
        message: counted_message("Meta description length is ", n, " characters"),
    }
}


/// The description-length rule passes exactly when the page has a meta
/// description whose UTF-8 encoding is 1 to 154 bytes long: a missing,
/// empty, or 155-byte or longer description fails it.
pub proof fn law_description_length_bounds(html: Seq<char>)
    ensures
        description_length_outcome(html).0 <==> (meta_of_document(html).description matches Some(d) && 0 < byte_len(d) && byte_len(d) < 155),
{
    if meta_of_document(html).description is None {
        assert(vstd::utf8::encode_utf8(Seq::<char>::empty()) =~= Seq::<u8>::empty());
    }
}

} // verus!
