//! The title plugin: the page has a title, and it is not too long.
use vstd::prelude::*;
use crate::seo_plugins::utils::config::{RuleConfig, RuleResult};
use super::{analyze_rules, analyzes, named_rules};
use crate::seo_plugins::utils::config::{CheckResult, PageCheck, Rule, RuleCategory, Severity};
use crate::seo_plugins::utils::page::{Page, PageError, meta_of_document, page_queries_valid};
use crate::text::{decimal, owned};
use super::{byte_len, counted_message, or_empty, outcome, reports, text_byte_len};

verus! {

/// Checks the title tag of a page.
pub struct TitlePlugin {}

/// The name of the plugin.
pub const TITLE_PLUGIN_NAME: &'static str = "Title";

/// What the plugin is about.
pub const TITLE_PLUGIN_DESCRIPTION: &'static str = "The title tag of a web page is meant to be an accurate and concise description of\n a page's content. It is critical to both user experience and SEO.";

/// The rules of the title plugin.
pub open spec fn title_rules() -> Seq<Rule> {
    seq![
        Rule {
            id: "title.has_title",
            name: "Page has title tag",
            description: "Checks if the page has a proper title tag",
            default_severity: Severity::Critical,
            category: RuleCategory::SEO,
            check: PageCheck::TitleHasTitle,
        },
        Rule {
            id: "title.title_length",
            name: "Title length is less than 60 characters",
            description: "Checks if the title length is less than 60 characters",
            default_severity: Severity::Warning,
            category: RuleCategory::SEO,
            check: PageCheck::TitleLength,
        },
    ]
}

/// Whether the page has a title, and the message saying so.
pub open spec fn has_title_outcome(html: Seq<char>) -> (bool, Seq<char>) {
    let has = meta_of_document(html).title is Some;
    (has, if has { "Page has a title tag"@ } else { "Page is missing a title tag"@ })
}

/// Whether the page's title (empty when missing) is 1 to 59 bytes long, and
/// the message giving its length.
pub open spec fn title_length_outcome(html: Seq<char>) -> (bool, Seq<char>) {
    let n = byte_len(or_empty(meta_of_document(html).title));
    (0 < n < 60, "Title length is "@ + decimal(n as nat) + " characters"@)
}

impl TitlePlugin {
    /// The plugin.
    pub fn new() -> (res: Self) {
        TitlePlugin {}
    }

    /// The plugin's name.
    pub fn name(&self) -> (res: &'static str)
        ensures
            res@ == TITLE_PLUGIN_NAME@,
    {
        TITLE_PLUGIN_NAME
    }

    /// What the plugin is about.
    pub fn description(&self) -> (res: &'static str)
        ensures
            res@ == TITLE_PLUGIN_DESCRIPTION@,
    {
        TITLE_PLUGIN_DESCRIPTION
    }

    /// The rules this plugin checks.
    pub fn available_rules(&self) -> (res: Vec<Rule>)
        ensures
            res@ == title_rules(),
    {
        vec![
            Rule {
                id: "title.has_title",
                name: "Page has title tag",
                description: "Checks if the page has a proper title tag",
                default_severity: Severity::Critical,
                category: RuleCategory::SEO,
                check: PageCheck::TitleHasTitle,
            },
            Rule {
                id: "title.title_length",
                name: "Title length is less than 60 characters",
                description: "Checks if the title length is less than 60 characters",
                default_severity: Severity::Warning,
                category: RuleCategory::SEO,
                check: PageCheck::TitleLength,
            },
        ]
    }

    /// Runs the plugin's enabled rules on `page`, in order. Fails with
    /// `ElementNotFound` when an enabled rule cannot run on the page.
    pub fn analyze(&self, page: &Page, config: &RuleConfig) -> (res: Result<Vec<RuleResult>, PageError>)
        requires
            page_queries_valid(),
            config.wf(),
        ensures
            analyzes(res, named_rules(title_rules(), TITLE_PLUGIN_NAME@), *page, config.enabled_map()),
    {
        let rules = self.available_rules();
        analyze_rules(&rules, self.name(), page, config)
    }
}

/// The page has a title.
pub fn check_has_title(page: &Page, rule_id: &str) -> (res: CheckResult)
    requires
        page_queries_valid(),
    ensures
        reports(res, rule_id@, has_title_outcome(page.html_view())),
{
    let meta = page.extract_meta_tags();
    outcome(rule_id, meta.title.is_some(), "Page has a title tag", "Page is missing a title tag")
}

/// The page's title is 1 to 59 bytes long.
pub fn check_title_length(page: &Page, rule_id: &str) -> (res: CheckResult)
    requires
        page_queries_valid(),
    ensures
        reports(res, rule_id@, title_length_outcome(page.html_view())),
{
    let meta = page.extract_meta_tags();
    let title = match meta.title {
        Some(t) => t,
        None => String::new(),
    };
    let n = text_byte_len(&title);
    CheckResult {
        rule_id: owned(rule_id),
        passed: n < 60 && n > 0,
        message: counted_message("Title length is ", n, " characters"),
    }
}


/// The title-length rule passes exactly when the page has a title whose
/// UTF-8 encoding is 1 to 59 bytes long: a missing, empty, or 60-byte or
/// longer title fails it.
pub proof fn law_title_length_bounds(html: Seq<char>)
    ensures
        title_length_outcome(html).0 <==> (meta_of_document(html).title matches Some(t) && 0 < byte_len(t) && byte_len(t) < 60),
        (meta_of_document(html).title matches Some(t) && byte_len(t) >= 60) ==> !title_length_outcome(html).0,
{
    if meta_of_document(html).title is None {
        assert(or_empty(meta_of_document(html).title) == Seq::<char>::empty());
        assert(vstd::utf8::encode_utf8(Seq::<char>::empty()) =~= Seq::<u8>::empty());
    }
}

} // verus!
