//! The site plugins: rules that look at the whole crawl rather than a page.
pub mod meta_description;
pub mod orphaned_page;

use vstd::prelude::*;
use crate::text::owned;
use super::utils::config::{enabled_in, ContextModel, RuleResult, RuleResultModel, SiteCheckResult, SiteRule};
use super::plugins::keep_where;

pub use meta_description::MetaDescriptionSitePlugin;
pub use orphaned_page::OrphanedPagePlugin;

verus! {

/// What a site rule finds: whether it passes, its message, and its context.
pub type SiteOutcome = (bool, Seq<char>, ContextModel);

/// `res` reports the outcome `o` for the rule `rule_id`.
pub open spec fn reports_site(res: SiteCheckResult, rule_id: Seq<char>, o: SiteOutcome) -> bool {
    &&& res.rule_id@ == rule_id
    &&& res.passed == o.0
    &&& res.message@ == o.1
    &&& res.context.model() == o.2
}

/// The outcome of a rule that the plugin does not know.
pub open spec fn unknown_rule_outcome() -> SiteOutcome {
    (false, "Unknown rule"@, ContextModel::Empty)
}

/// The result recorded for the site rule `rule` of the plugin `plugin_name`
/// with outcome `o`, at the rule's default severity.
pub open spec fn site_result_model(rule: SiteRule, plugin_name: Seq<char>, o: SiteOutcome) -> RuleResultModel {
    RuleResultModel {
        rule_id: rule.id@,
        name: rule.name@,
        plugin_name,
        passed: o.0,
        message: o.1,
        severity: rule.default_severity,
        category: rule.category,
        context: o.2,
    }
}

/// The site rules of `rules` that the switches `enabled` turn on, in order.
pub open spec fn enabled_site_rules(rules: Seq<SiteRule>, enabled: Map<Seq<char>, bool>) -> Seq<SiteRule> {
    keep_where(rules, |r: SiteRule| enabled_in(enabled, r.id@))
}

/// The result of a site rule that ran.
pub fn site_rule_result(rule: &SiteRule, plugin_name: &str, checked: SiteCheckResult) -> (res: RuleResult)
    requires
        checked.rule_id@ == rule.id@,
    ensures
        res.model() == site_result_model(*rule, plugin_name@, (checked.passed, checked.message@, checked.context.model())),
{
    RuleResult {
        rule_id: checked.rule_id,
        name: owned(rule.name),
        plugin_name: owned(plugin_name),
        passed: checked.passed,
        message: checked.message,
        severity: rule.default_severity,
        category: rule.category,
        context: checked.context,
    }
}

} // verus!
