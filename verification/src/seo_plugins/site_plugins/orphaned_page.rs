//! The orphaned-page plugin: pages that only the sitemap points to.
use vstd::prelude::*;
use crate::text::{owned, str_eq, usize_to_decimal, concat2, decimal};
use crate::seo_plugins::site_analyzer::{LinkModel, LinkSourceType, SiteLinks};
use crate::seo_plugins::utils::config::{
    clone_strings, enabled_in, strings_view, ContextModel, RuleCategory, RuleConfig, RuleResult,
    Severity, SiteCheckContext, SiteCheckResult, SiteRule, results_view,
};
use crate::seo_plugins::plugins::keep_where;
use super::{enabled_site_rules, reports_site, site_result_model, site_rule_result, unknown_rule_outcome, SiteOutcome};

verus! {

/// Finds pages that are listed in the sitemap but linked from nowhere.
pub struct OrphanedPagePlugin {}

/// The name of the plugin.
pub const ORPHANED_PAGE_PLUGIN_NAME: &'static str = "OrphanedPage Plugin";

/// What the plugin is about.
pub const ORPHANED_PAGE_PLUGIN_DESCRIPTION: &'static str = "Check if pages are found only in sitemap but not in links";

/// The rules of the orphaned-page plugin.
pub open spec fn orphaned_page_rules() -> Seq<SiteRule> {
    seq![
        SiteRule {
            id: "orphaned_page.check",
            name: "Orphaned Page",
            description: "Check if pages are found only in sitemap but not in links",
            default_severity: Severity::Warning,
            category: RuleCategory::SEO,
        },
    ]
}

/// Every place the link was found is a sitemap.
pub open spec fn only_in_sitemap(l: LinkModel) -> bool {
    forall|i: int| 0 <= i < l.found_in.len() ==> (#[trigger] l.found_in[i]).0 == LinkSourceType::Sitemap
}

/// The keys of the links found only in sitemaps, in order.
pub open spec fn orphans(pairs: Seq<(Seq<char>, LinkModel)>) -> Seq<Seq<char>> {
    keep_where(pairs, |p: (Seq<char>, LinkModel)| only_in_sitemap(p.1)).map_values(|p: (Seq<char>, LinkModel)| p.0)
}

/// What the rule `rule_id` finds on the links `pairs`: the orphaned pages,
/// passing when there are none.
pub open spec fn orphan_outcome(pairs: Seq<(Seq<char>, LinkModel)>, rule_id: Seq<char>) -> SiteOutcome {
    if rule_id == "orphaned_page.check"@ {
        let o = orphans(pairs);
        (o.len() == 0, "Orphaned pages: "@ + decimal(o.len()), ContextModel::Urls(o))
    } else {
        unknown_rule_outcome()
    }
}

/// The keys found only in sitemaps, taken from pairs whose keys are
/// distinct: each such key once, and nothing else.
pub proof fn lemma_orphans_distinct(pairs: Seq<(Seq<char>, LinkModel)>)
    requires
        forall|i: int, j: int| 0 <= i < j < pairs.len() ==> (#[trigger] pairs[i]).0 != (#[trigger] pairs[j]).0,
    ensures
        forall|i: int, j: int| 0 <= i < j < orphans(pairs).len() ==> (#[trigger] orphans(pairs)[i]) != (#[trigger] orphans(pairs)[j]),
        forall|k: Seq<char>| #[trigger] orphans(pairs).contains(k)
            <==> exists|i: int| 0 <= i < pairs.len() && (#[trigger] pairs[i]).0 == k && only_in_sitemap(pairs[i].1),
    decreases pairs.len(),
{
    let pred = |p: (Seq<char>, LinkModel)| only_in_sitemap(p.1);
    let f = |p: (Seq<char>, LinkModel)| p.0;
    if pairs.len() == 0 {
        assert(orphans(pairs) =~= Seq::<Seq<char>>::empty());
    } else {
        let init = pairs.drop_last();
        let last = pairs.last();
        assert forall|i: int, j: int| 0 <= i < j < init.len() implies (#[trigger] init[i]).0 != (#[trigger] init[j]).0 by {
            assert(init[i] == pairs[i] && init[j] == pairs[j]);
        }
        lemma_orphans_distinct(init);
        let o = orphans(init);
        // no key of the earlier pairs equals the last key
        assert forall|k: Seq<char>| o.contains(k) implies k != last.0 by {
            let i = choose|i: int| 0 <= i < init.len() && (#[trigger] init[i]).0 == k && only_in_sitemap(init[i].1);
            assert(init[i] == pairs[i]);
            assert(pairs[i].0 != pairs[pairs.len() - 1].0);
        }
        if pred(last) {
            assert(keep_where(pairs, pred) == keep_where(init, pred).push(last));
            assert(orphans(pairs) =~= o.push(last.0));
            assert forall|i: int, j: int| 0 <= i < j < orphans(pairs).len() implies (#[trigger] orphans(pairs)[i]) != (#[trigger] orphans(pairs)[j]) by {
                if j == o.len() {
                    assert(o.contains(o[i]));
                }
            }
        } else {
            assert(keep_where(pairs, pred) == keep_where(init, pred));
            assert(orphans(pairs) == o);
        }
        assert forall|k: Seq<char>| #[trigger] orphans(pairs).contains(k)
            <==> exists|i: int| 0 <= i < pairs.len() && (#[trigger] pairs[i]).0 == k && only_in_sitemap(pairs[i].1) by {
            if orphans(pairs).contains(k) {
                if o.contains(k) {
                    let i = choose|i: int| 0 <= i < init.len() && (#[trigger] init[i]).0 == k && only_in_sitemap(init[i].1);
                    assert(pairs[i] == init[i]);
                } else {
                    let t = choose|t: int| 0 <= t < orphans(pairs).len() && orphans(pairs)[t] == k;
                    assert(pred(last) && t == o.len());
                    assert(pairs[pairs.len() - 1] == last);
                }
            }
            if exists|i: int| 0 <= i < pairs.len() && (#[trigger] pairs[i]).0 == k && only_in_sitemap(pairs[i].1) {
                let i = choose|i: int| 0 <= i < pairs.len() && (#[trigger] pairs[i]).0 == k && only_in_sitemap(pairs[i].1);
                if i < init.len() {
                    assert(init[i] == pairs[i]);
                    assert(o.contains(k));
                    if pred(last) {
                        let t = choose|t: int| 0 <= t < o.len() && o[t] == k;
                        assert(orphans(pairs)[t] == k);
                    }
                } else {
                    assert(pairs[i] == last);
                    assert(orphans(pairs)[o.len() as int] == k);
                }
            }
        }
    }
}

/// The orphaned-page check lists each page that was found only through
/// sitemaps exactly once, and no other page.
pub proof fn law_orphans_listed_once(links: SiteLinks)
    requires
        links.wf(),
    ensures
        forall|i: int, j: int| 0 <= i < j < orphans(links.pairs()).len() ==> (#[trigger] orphans(links.pairs())[i]) != (#[trigger] orphans(links.pairs())[j]),
        forall|k: Seq<char>| #[trigger] orphans(links.pairs()).contains(k)
            <==> links.map().dom().contains(k) && only_in_sitemap(links.map()[k]),
{
    links.lemma_shape();
    let pairs = links.pairs();
    assert forall|i: int, j: int| 0 <= i < j < pairs.len() implies (#[trigger] pairs[i]).0 != (#[trigger] pairs[j]).0 by {
        assert(pairs[i].0 == links.keys()[i] && pairs[j].0 == links.keys()[j]);
    }
    lemma_orphans_distinct(pairs);
    assert forall|k: Seq<char>| #[trigger] orphans(pairs).contains(k)
        <==> links.map().dom().contains(k) && only_in_sitemap(links.map()[k]) by {
        if orphans(pairs).contains(k) {
            let i = choose|i: int| 0 <= i < pairs.len() && (#[trigger] pairs[i]).0 == k && only_in_sitemap(pairs[i].1);
            assert(links.keys()[i] == k);
            assert(links.keys().contains(k));
            assert(links.map()[links.keys()[i]] == links.entries()[i]);
        }
        if links.map().dom().contains(k) && only_in_sitemap(links.map()[k]) {
            assert(links.keys().contains(k));
            let i = choose|i: int| 0 <= i < links.keys().len() && links.keys()[i] == k;
            assert(links.map()[links.keys()[i]] == links.entries()[i]);
            assert(pairs[i].0 == k && pairs[i].1 == links.entries()[i]);
        }
    }
}

/// A page is listed as orphaned exactly when it was found and every place
/// it was found at is a sitemap: a page found at its own site root or through
/// a link is never listed, and each listed page is listed once.
pub proof fn law_orphans_found_only_in_sitemaps(links: SiteLinks)
    requires
        links.wf(),
    ensures
        forall|k: Seq<char>| #[trigger] orphans(links.pairs()).contains(k) <==> links.map().dom().contains(k)
            && (forall|t: int| 0 <= t < links.map()[k].found_in.len() ==> (#[trigger] links.map()[k].found_in[t]).0 == LinkSourceType::Sitemap),
        forall|k: Seq<char>, t: int| #![trigger links.map()[k].found_in[t], orphans(links.pairs()).contains(k)]
            links.map().dom().contains(k) && 0 <= t < links.map()[k].found_in.len()
            && links.map()[k].found_in[t].0 != LinkSourceType::Sitemap
            ==> !orphans(links.pairs()).contains(k),
        forall|i: int, j: int| 0 <= i < j < orphans(links.pairs()).len() ==> (#[trigger] orphans(links.pairs())[i]) != (#[trigger] orphans(links.pairs())[j]),
{
    law_orphans_listed_once(links);
}

impl OrphanedPagePlugin {
    /// The plugin.
    pub fn new() -> (res: Self) {
        OrphanedPagePlugin {}
    }

    /// The plugin's name.
    pub fn name(&self) -> (res: &'static str)
        ensures
            res@ == ORPHANED_PAGE_PLUGIN_NAME@,
    {
        ORPHANED_PAGE_PLUGIN_NAME
    }

    /// What the plugin is about.
    pub fn description(&self) -> (res: &'static str)
        ensures
            res@ == ORPHANED_PAGE_PLUGIN_DESCRIPTION@,
    {
        ORPHANED_PAGE_PLUGIN_DESCRIPTION
    }

    /// The rules this plugin checks.
    pub fn available_rules(&self) -> (res: Vec<SiteRule>)
        ensures
            res@ == orphaned_page_rules(),
    {
        vec![
            SiteRule {
                id: "orphaned_page.check",
                name: "Orphaned Page",
                description: "Check if pages are found only in sitemap but not in links",
                default_severity: Severity::Warning,
                category: RuleCategory::SEO,
            },
        ]
    }

    /// The keys of the links that were found only in sitemaps, in order.
    pub fn orphaned_pages(links: &SiteLinks) -> (res: Vec<String>)
        requires
            links.wf(),
        ensures
            strings_view(res@) == orphans(links.pairs()),
    {
        proof { links.lemma_shape(); }
        let ghost pr = links.pairs();
        let ghost pred = |p: (Seq<char>, LinkModel)| only_in_sitemap(p.1);
        let n = links.len();
        let mut out: Vec<String> = Vec::new();
        assert(pr.take(0) =~= Seq::<(Seq<char>, LinkModel)>::empty());
        for i in 0..n
            invariant
                links.wf(),
                n == links.keys().len(),
                pr == links.pairs(),
                pr.len() == n,
                pred == (|p: (Seq<char>, LinkModel)| only_in_sitemap(p.1)),
                strings_view(out@) == keep_where(pr.take(i as int), pred).map_values(|p: (Seq<char>, LinkModel)| p.0),
        {
            let (k, l) = links.entry_at(i);
            assert(pr.take(i + 1).drop_last() =~= pr.take(i as int));
            assert(pr.take(i + 1).last() == pr[i as int]);
            assert(pr[i as int] == (k@, l.model()));
            let mut all_sitemap = true;
            let mut j: usize = 0;
            while j < l.found_in.len()
                invariant
                    0 <= j <= l.found_in@.len(),
                    all_sitemap <==> forall|t: int| 0 <= t < j ==> (#[trigger] l.model().found_in[t]).0 == LinkSourceType::Sitemap,
                    l.model().found_in.len() == l.found_in@.len(),
                decreases l.found_in@.len() - j,
            {
                assert(l.model().found_in[j as int].0 == l.found_in@[j as int].link_source_type);
                if l.found_in[j].link_source_type != LinkSourceType::Sitemap {
                    all_sitemap = false;
                }
                j = j + 1;
            }
            assert(all_sitemap == only_in_sitemap(l.model()));
            let ghost prev = out@;
            if all_sitemap {
                out.push(k.clone());
                assert(strings_view(out@) =~= strings_view(prev).push(k@));
            }
        }
        assert(pr.take(n as int) =~= pr);
        out
    }

    /// Runs the rule `rule` on the crawled links.
    pub fn check(&self, rule: &SiteRule, links: &SiteLinks) -> (res: SiteCheckResult)
        requires
            links.wf(),
        ensures
            reports_site(res, rule.id@, orphan_outcome(links.pairs(), rule.id@)),
    {
        let orphaned = Self::orphaned_pages(links);
        if str_eq(rule.id, "orphaned_page.check") {
            let count = orphaned.len();
            let message = concat2("Orphaned pages: ", usize_to_decimal(count).as_str());
            SiteCheckResult {
                rule_id: owned(rule.id),
                passed: count == 0,
                message,
                context: SiteCheckContext::Urls(orphaned),
            }
        } else {
            SiteCheckResult {
                rule_id: owned(rule.id),
                passed: false,
                message: owned("Unknown rule"),
                context: SiteCheckContext::Empty,
            }
        }
    }

    /// Runs the enabled rules of the plugin on the crawled links.
    pub fn analyze(&self, links: &SiteLinks, config: &RuleConfig) -> (res: Vec<RuleResult>)
        requires
            links.wf(),
            config.wf(),
        ensures
            results_view(res@) == enabled_site_rules(orphaned_page_rules(), config.enabled_map()).map_values(
                |r: SiteRule| site_result_model(r, ORPHANED_PAGE_PLUGIN_NAME@, orphan_outcome(links.pairs(), r.id@))),
    {
        let rules = self.available_rules();
        let ghost enabled = config.enabled_map();
        let ghost pred = |r: SiteRule| enabled_in(enabled, r.id@);
        let ghost f = |r: SiteRule| site_result_model(r, ORPHANED_PAGE_PLUGIN_NAME@, orphan_outcome(links.pairs(), r.id@));
        let mut out: Vec<RuleResult> = Vec::new();
        assert(rules@.take(0) =~= Seq::<SiteRule>::empty());
        for i in 0..rules.len()
            invariant
                links.wf(),
                config.wf(),
                rules@ == orphaned_page_rules(),
                enabled == config.enabled_map(),
                pred == (|r: SiteRule| enabled_in(enabled, r.id@)),
                f == (|r: SiteRule| site_result_model(r, ORPHANED_PAGE_PLUGIN_NAME@, orphan_outcome(links.pairs(), r.id@))),
                results_view(out@) == keep_where(rules@.take(i as int), pred).map_values(f),
        {
            let rule = rules[i];
            assert(rules@.take(i + 1).drop_last() =~= rules@.take(i as int));
            assert(rules@.take(i + 1).last() == rule);
            if config.is_rule_enabled(rule.id) {
                let checked = self.check(&rule, links);
                let ghost prev = out@;
                let r = site_rule_result(&rule, self.name(), checked);
                out.push(r);
                assert(results_view(out@) =~= results_view(prev).push(f(rule)));
            }
        }
        assert(rules@.take(rules@.len() as int) =~= rules@);
        out
    }
}

} // verus!
