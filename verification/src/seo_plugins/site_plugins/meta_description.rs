//! The meta-description site plugin: descriptions should differ from page to
//! page.
use vstd::prelude::*;
use crate::text::{owned, str_eq};
use crate::text_map::TextMap;
use crate::seo_plugins::site_analyzer::SiteLinks;
use crate::seo_plugins::utils::config::{
    enabled_in, group_view, strings_view, ContextModel, RuleCategory, RuleConfig, RuleResult, Severity,
    SiteCheckContext, SiteCheckResult, SiteRule, results_view,
};
use crate::seo_plugins::utils::page::{meta_of_document, page_queries_valid, Page};
use crate::seo_plugins::plugins::keep_where;
use crate::seo_plugins::plugins::axe::{first_occurrences, lemma_first_occurrences_contains};
use super::{enabled_site_rules, reports_site, site_result_model, site_rule_result, unknown_rule_outcome, SiteOutcome};

verus! {

/// Remembers the meta description of each analyzed page, and checks that
/// they are mostly distinct.
pub struct MetaDescriptionSitePlugin {
    page_descriptions: TextMap<String>,
}

/// The name of the plugin.
pub const META_DESCRIPTION_SITE_PLUGIN_NAME: &'static str = "Meta Description Plugin";

/// What the plugin is about.
pub const META_DESCRIPTION_SITE_PLUGIN_DESCRIPTION: &'static str = "Checks if meta descriptions are unique across pages";

/// The rules of the meta-description site plugin.
pub open spec fn meta_description_site_rules() -> Seq<SiteRule> {
    seq![
        SiteRule {
            id: "meta_description_uniqueness",
            name: "Meta Description Uniqueness",
            description: "Checks if meta descriptions are unique 90% of the time",
            default_severity: Severity::Warning,
            category: RuleCategory::SEO,
        },
    ]
}

/// The pairs `(url, description)` once `description` is recorded for `url`:
/// a URL already there keeps its place and takes the new description, a new
/// one goes last.
pub open spec fn record_pair(pairs: Seq<(Seq<char>, Seq<char>)>, url: Seq<char>, description: Seq<char>) -> Seq<(Seq<char>, Seq<char>)> {
    let urls = pairs.map_values(|p: (Seq<char>, Seq<char>)| p.0);
    if urls.contains(url) {
        pairs.update(urls.index_of(url), (url, description))
    } else {
        pairs.push((url, description))
    }
}

/// The position of the first group of `groups` under `description`.
pub open spec fn group_index(groups: Seq<(Seq<char>, Seq<Seq<char>>)>, description: Seq<char>) -> Option<int>
    decreases groups.len(),
{
    if groups.len() == 0 {
        None
    } else {
        match group_index(groups.drop_last(), description) {
            Some(j) => Some(j),
            None => if groups.last().0 == description { Some(groups.len() - 1) } else { None },
        }
    }
}

/// The URLs of `pairs` grouped by description: one group per description,
/// in the order in which descriptions first occur, each with its URLs in
/// order.
pub open spec fn group_by_description(pairs: Seq<(Seq<char>, Seq<char>)>) -> Seq<(Seq<char>, Seq<Seq<char>>)>
    decreases pairs.len(),
{
    if pairs.len() == 0 {
        Seq::empty()
    } else {
        let g = group_by_description(pairs.drop_last());
        let url = pairs.last().0;
        let d = pairs.last().1;
        match group_index(g, d) {
            Some(j) => g.update(j, (d, g[j].1.push(url))),
            None => g.push((d, seq![url])),
        }
    }
}

/// What the rule `rule_id` finds on the recorded `(url, description)` pairs:
/// the uniqueness rule passes unless fewer than 90% of the pages have a
/// description of their own, counted as distinct descriptions against pages
/// (so it passes when no page has a description); when it passes, its
/// context is the grouping.
pub open spec fn uniqueness_outcome(pairs: Seq<(Seq<char>, Seq<char>)>, rule_id: Seq<char>) -> SiteOutcome {
    if rule_id == "meta_description_uniqueness"@ {
        let groups = group_by_description(pairs);
        let passed = !(groups.len() * 100 < 90 * pairs.len());
        (passed, "Meta description is unique across pages"@, if passed { ContextModel::Values(groups) } else { ContextModel::Empty })
    } else {
        unknown_rule_outcome()
    }
}

/// Where the first group under `d` lies among the prefixes of `g`.
proof fn lemma_group_index_prefix(g: Seq<(Seq<char>, Seq<Seq<char>>)>, d: Seq<char>, n: int)
    requires
        0 <= n <= g.len(),
    ensures
        (group_index(g.take(n), d) is None && n < g.len() && g[n].0 == d ==> group_index(g, d) == Some(n)),
        (group_index(g.take(n), d) is None && n == g.len() ==> group_index(g, d) is None),
    decreases g.len() - n,
{
    if n < g.len() {
        assert(g.take(n + 1).drop_last() =~= g.take(n));
        assert(g.take(n + 1).last() == g[n]);
        if group_index(g.take(n), d) is None && g[n].0 != d {
            lemma_group_index_prefix(g, d, n + 1);
        } else if group_index(g.take(n), d) is None {
            lemma_group_index_prefix(g, d, n + 1);
            lemma_group_index_keeps(g, d, n + 1);
        }
    } else {
        assert(g.take(n) =~= g);
    }
}

/// A group found in a prefix is the first group of the whole.
proof fn lemma_group_index_keeps(g: Seq<(Seq<char>, Seq<Seq<char>>)>, d: Seq<char>, n: int)
    requires
        0 <= n <= g.len(),
        group_index(g.take(n), d) is Some,
    ensures
        group_index(g, d) == group_index(g.take(n), d),
    decreases g.len() - n,
{
    if n < g.len() {
        assert(g.take(n + 1).drop_last() =~= g.take(n));
        lemma_group_index_keeps(g, d, n + 1);
    } else {
        assert(g.take(n) =~= g);
    }
}

/// The first group under `d` lies within `g` and is under `d`.
proof fn lemma_group_index_bounds(g: Seq<(Seq<char>, Seq<Seq<char>>)>, d: Seq<char>)
    ensures
        group_index(g, d) matches Some(j) ==> 0 <= j < g.len() && g[j].0 == d,
    decreases g.len(),
{
    if g.len() > 0 {
        lemma_group_index_bounds(g.drop_last(), d);
    }
}

/// No two pages share a description.
pub open spec fn descriptions_distinct(pairs: Seq<(Seq<char>, Seq<char>)>) -> bool {
    forall|i: int, j: int| 0 <= i < j < pairs.len() ==> pairs[i].1 != pairs[j].1
}

/// Groups under the same descriptions, in the same order, are found at the
/// same places.
proof fn lemma_group_index_same_keys(g: Seq<(Seq<char>, Seq<Seq<char>>)>, h: Seq<(Seq<char>, Seq<Seq<char>>)>, d: Seq<char>)
    requires
        g.len() == h.len(),
        forall|k: int| 0 <= k < g.len() ==> #[trigger] g[k].0 == h[k].0,
    ensures
        group_index(g, d) == group_index(h, d),
    decreases g.len(),
{
    if g.len() > 0 {
        lemma_group_index_same_keys(g.drop_last(), h.drop_last(), d);
        assert(g.last().0 == h.last().0);
    }
}

/// There is a group under `d` exactly when some page has description `d`,
/// and there are no more groups than pages.
proof fn lemma_group_keys(pairs: Seq<(Seq<char>, Seq<char>)>, d: Seq<char>)
    ensures
        group_index(group_by_description(pairs), d) is Some <==> exists|i: int| 0 <= i < pairs.len() && #[trigger] pairs[i].1 == d,
        group_by_description(pairs).len() <= pairs.len(),
    decreases pairs.len(),
{
    if pairs.len() > 0 {
        let p = pairs.drop_last();
        lemma_group_keys(p, d);
        let g = group_by_description(p);
        let e = pairs.last().1;
        let url = pairs.last().0;
        lemma_group_keys(p, e);
        lemma_group_index_bounds(g, e);
        assert forall|i: int| 0 <= i < p.len() implies #[trigger] p[i] == pairs[i] by {}
        match group_index(g, e) {
            Some(j) => {
                let g2 = g.update(j, (e, g[j].1.push(url)));
                lemma_group_index_same_keys(g, g2, d);
                if d == e {
                    assert(pairs[pairs.len() - 1].1 == d);
                }
                if exists|i: int| 0 <= i < pairs.len() && #[trigger] pairs[i].1 == d {
                    let i = choose|i: int| 0 <= i < pairs.len() && #[trigger] pairs[i].1 == d;
                    if i < p.len() {
                        assert(p[i].1 == d);
                    } else {
                        let k = choose|k: int| 0 <= k < p.len() && #[trigger] p[k].1 == e;
                        assert(p[k].1 == d);
                    }
                }
            },
            None => {
                let g2 = g.push((e, seq![url]));
                assert(g2.drop_last() =~= g);
                if d == e {
                    assert(pairs[pairs.len() - 1].1 == d);
                }
                if exists|i: int| 0 <= i < pairs.len() && #[trigger] pairs[i].1 == d {
                    let i = choose|i: int| 0 <= i < pairs.len() && #[trigger] pairs[i].1 == d;
                    if i < p.len() {
                        assert(p[i].1 == d);
                    }
                }
            },
        }
    }
}

/// When no two pages share a description, there is one group per page and
/// the uniqueness rule passes.
pub proof fn law_distinct_descriptions_pass(pairs: Seq<(Seq<char>, Seq<char>)>)
    requires
        descriptions_distinct(pairs),
    ensures
        group_by_description(pairs).len() == pairs.len(),
        uniqueness_outcome(pairs, "meta_description_uniqueness"@).0,
    decreases pairs.len(),
{
    if pairs.len() > 0 {
        let p = pairs.drop_last();
        assert forall|i: int, j: int| 0 <= i < j < p.len() implies p[i].1 != p[j].1 by {
            assert(p[i] == pairs[i] && p[j] == pairs[j]);
        }
        law_distinct_descriptions_pass(p);
        let e = pairs.last().1;
        lemma_group_keys(p, e);
        assert(!(exists|i: int| 0 <= i < p.len() && #[trigger] p[i].1 == e)) by {
            if exists|i: int| 0 <= i < p.len() && #[trigger] p[i].1 == e {
                let i = choose|i: int| 0 <= i < p.len() && #[trigger] p[i].1 == e;
                assert(pairs[i].1 == pairs[pairs.len() - 1].1);
            }
        }
    }
}

/// The descriptions of the pages, in order.
pub open spec fn descriptions_of(pairs: Seq<(Seq<char>, Seq<char>)>) -> Seq<Seq<char>> {
    pairs.map_values(|p: (Seq<char>, Seq<char>)| p.1)
}

/// The descriptions the groups are under, in order.
pub open spec fn group_keys(groups: Seq<(Seq<char>, Seq<Seq<char>>)>) -> Seq<Seq<char>> {
    groups.map_values(|g: (Seq<char>, Seq<Seq<char>>)| g.0)
}

/// There is one group per distinct description, in the order in which the
/// descriptions first occur; so the uniqueness rule compares the number of
/// distinct descriptions with the number of pages.
pub proof fn law_groups_are_distinct_descriptions(pairs: Seq<(Seq<char>, Seq<char>)>)
    ensures
        group_keys(group_by_description(pairs)) == first_occurrences(descriptions_of(pairs)),
        group_by_description(pairs).len() == first_occurrences(descriptions_of(pairs)).len(),
    decreases pairs.len(),
{
    if pairs.len() > 0 {
        let p = pairs.drop_last();
        law_groups_are_distinct_descriptions(p);
        let g = group_by_description(p);
        let e = pairs.last().1;
        let url = pairs.last().0;
        let ds = descriptions_of(pairs);
        assert(ds.drop_last() =~= descriptions_of(p));
        assert(ds.last() == e);
        lemma_group_keys(p, e);
        lemma_group_index_bounds(g, e);
        lemma_first_occurrences_contains(descriptions_of(p), e);
        assert(descriptions_of(p).contains(e) <==> exists|i: int| 0 <= i < p.len() && #[trigger] p[i].1 == e) by {
            if descriptions_of(p).contains(e) {
                let i = choose|i: int| 0 <= i < descriptions_of(p).len() && descriptions_of(p)[i] == e;
                assert(p[i].1 == e);
            }
            if exists|i: int| 0 <= i < p.len() && #[trigger] p[i].1 == e {
                let i = choose|i: int| 0 <= i < p.len() && #[trigger] p[i].1 == e;
                assert(descriptions_of(p)[i] == e);
            }
        }
        match group_index(g, e) {
            Some(j) => {
                assert(group_keys(g.update(j, (e, g[j].1.push(url)))) =~= group_keys(g));
            },
            None => {
                assert(group_keys(g.push((e, seq![url]))) =~= group_keys(g).push(e));
            },
        }
    } else {
        assert(group_keys(group_by_description(pairs)) =~= Seq::<Seq<char>>::empty());
    }
}

/// The views of a sequence of groups.
pub open spec fn groups_view(v: Seq<(String, Vec<String>)>) -> Seq<(Seq<char>, Seq<Seq<char>>)> {
    v.map_values(|g: (String, Vec<String>)| group_view(g))
}

impl MetaDescriptionSitePlugin {
    /// The recorded descriptions are well formed.
    pub closed spec fn wf(&self) -> bool {
        self.page_descriptions.wf()
    }

    /// The recorded `(url, description)` pairs, in the order in which each
    /// URL was first recorded.
    pub closed spec fn described(&self) -> Seq<(Seq<char>, Seq<char>)> {
        Seq::new(self.page_descriptions.key_seq().len(), |i: int| (self.page_descriptions.key_seq()[i], self.page_descriptions.value_seq()[i]@))
    }

    /// The plugin, with nothing recorded.
    pub fn new() -> (res: Self)
        ensures
            res.wf(),
            res.described() == Seq::<(Seq<char>, Seq<char>)>::empty(),
    {
        let res = MetaDescriptionSitePlugin { page_descriptions: TextMap::new() };
        assert(res.described() =~= Seq::<(Seq<char>, Seq<char>)>::empty());
        res
    }

    /// The plugin's name.
    pub fn name(&self) -> (res: &'static str)
        ensures
            res@ == META_DESCRIPTION_SITE_PLUGIN_NAME@,
    {
        META_DESCRIPTION_SITE_PLUGIN_NAME
    }

    /// What the plugin is about.
    pub fn description(&self) -> (res: &'static str)
        ensures
            res@ == META_DESCRIPTION_SITE_PLUGIN_DESCRIPTION@,
    {
        META_DESCRIPTION_SITE_PLUGIN_DESCRIPTION
    }

    /// The rules this plugin checks.
    pub fn available_rules(&self) -> (res: Vec<SiteRule>)
        ensures
            res@ == meta_description_site_rules(),
    {
        vec![
            SiteRule {
                id: "meta_description_uniqueness",
                name: "Meta Description Uniqueness",
                description: "Checks if meta descriptions are unique 90% of the time",
                default_severity: Severity::Warning,
                category: RuleCategory::SEO,
            },
        ]
    }

    /// Records the meta description of an analyzed page under the page's
    /// URL; a page without one leaves the record as it was.
    pub fn after_page_hook(&mut self, page: &Page)
        requires
            old(self).wf(),
            page_queries_valid(),
        ensures
            final(self).wf(),
            final(self).described() == match meta_of_document(page.html_view()).description {
                Some(d) => record_pair(old(self).described(), page.base_view(), d),
                None => old(self).described(),
            },
    {
        let url = page.get_url().as_string();
        let meta = page.extract_meta_tags();
        if let Some(description) = meta.description {
            let ghost pairs = self.described();
            let ghost u = url@;
            let ghost d = description@;
            let ghost old_keys = self.page_descriptions.key_seq();
            let ghost old_vals = self.page_descriptions.value_seq();
            proof { self.page_descriptions.lemma_shape(); }
            self.page_descriptions.insert(url, description);
            proof {
                self.page_descriptions.lemma_shape();
                let urls = pairs.map_values(|p: (Seq<char>, Seq<char>)| p.0);
                assert(urls =~= old_keys);
                let new_pairs = self.described();
                if urls.contains(u) {
                    let idx = urls.index_of(u);
                    assert(old_keys[idx] == u);
                    assert(self.page_descriptions.as_map()[old_keys[idx]] == self.page_descriptions.value_seq()[idx]);
                    assert(new_pairs =~= pairs.update(idx, (u, d)));
                } else {
                    let n = old_keys.len() as int;
                    assert(self.page_descriptions.key_seq()[n] == u);
                    assert(self.page_descriptions.as_map()[self.page_descriptions.key_seq()[n]] == self.page_descriptions.value_seq()[n]);
                    assert(new_pairs =~= pairs.push((u, d)));
                }
            }
        }
    }

    /// The recorded URLs grouped by description.
    fn grouped(&self) -> (res: Vec<(String, Vec<String>)>)
        requires
            self.wf(),
        ensures
            groups_view(res@) == group_by_description(self.described()),
    {
        let pairs = Ghost(self.described());
        proof { self.page_descriptions.lemma_shape(); }
        let n = self.page_descriptions.len();
        let mut groups: Vec<(String, Vec<String>)> = Vec::new();
        assert(pairs@.take(0) =~= Seq::<(Seq<char>, Seq<char>)>::empty());
        for i in 0..n
            invariant
                self.wf(),
                n == self.page_descriptions.key_seq().len(),
                pairs@ == self.described(),
                pairs@.len() == n,
                groups_view(groups@) == group_by_description(pairs@.take(i as int)),
        {
            let (url, desc) = self.page_descriptions.entry_at(i);
            let ghost g = groups_view(groups@);
            assert(pairs@.take(i + 1).drop_last() =~= pairs@.take(i as int));
            assert(pairs@.take(i + 1).last() == (url@, desc@));
            let mut j: usize = 0;
            let mut found = false;
            assert(g.take(0) =~= Seq::<(Seq<char>, Seq<Seq<char>>)>::empty());
            while j < groups.len() && !found
                invariant
                    0 <= j <= groups@.len(),
                    g == groups_view(groups@),
                    found ==> j < groups@.len() && group_index(g, desc@) == Some(j as int),
                    !found ==> group_index(g.take(j as int), desc@) is None,
                decreases groups@.len() - j + (if found { 0int } else { 1int }),
            {
                assert(g[j as int].0 == groups@[j as int].0@);
                if str_eq(groups[j].0.as_str(), desc.as_str()) {
                    proof { lemma_group_index_prefix(g, desc@, j as int); }
                    found = true;
                } else {
                    assert(g.take(j + 1).drop_last() =~= g.take(j as int));
                    assert(g.take(j + 1).last() == g[j as int]);
                    j = j + 1;
                }
            }
            if found {
                assert(group_index(g, desc@) == Some(j as int));
                let ghost before = groups@;
                proof { lemma_group_index_bounds(g, desc@); }
                assert(g[j as int] == group_view(before[j as int]));
                let (d0, mut us) = groups.remove(j);
                let ghost us0 = us@;
                assert(d0@ == desc@);
                assert(strings_view(us0) == g[j as int].1);
                us.push(url.clone());
                assert(strings_view(us@) =~= strings_view(us0).push(url@));
                groups.insert(j, (d0, us));
                assert(groups_view(groups@) =~= g.update(j as int, (desc@, g[j as int].1.push(url@))));
            } else {
                proof { lemma_group_index_prefix(g, desc@, j as int); }
                let ghost before = groups@;
                let urls = vec![url.clone()];
                assert(strings_view(urls@) =~= seq![url@]);
                groups.push((desc.clone(), urls));
                assert(groups_view(groups@) =~= g.push((desc@, seq![url@])));
            }
        }
        assert(pairs@.take(n as int) =~= pairs@);
        groups
    }

    /// Runs the rule `rule` on the recorded descriptions.
    pub fn check(&self, rule: &SiteRule, _links: &SiteLinks) -> (res: SiteCheckResult)
        requires
            self.wf(),
        ensures
            reports_site(res, rule.id@, uniqueness_outcome(self.described(), rule.id@)),
    {
        if str_eq(rule.id, "meta_description_uniqueness") {
            let groups = self.grouped();
            let total = self.page_descriptions.len();
            let unique = groups.len();
            let passed = !((unique as u128) * 100 < (total as u128) * 90);
            SiteCheckResult {
                rule_id: owned(rule.id),
                passed,
                message: owned("Meta description is unique across pages"),
                context: if passed { SiteCheckContext::Values(groups) } else { SiteCheckContext::Empty },
            }
        } else {
            SiteCheckResult {
                rule_id: owned(rule.id),
                passed: false,
                message: owned("Unknown rule"),
                context: SiteCheckContext::Empty,
            }
        }
    }

    /// Runs the enabled rules of the plugin.
    pub fn analyze(&self, links: &SiteLinks, config: &RuleConfig) -> (res: Vec<RuleResult>)
        requires
            self.wf(),
            config.wf(),
        ensures
            results_view(res@) == enabled_site_rules(meta_description_site_rules(), config.enabled_map()).map_values(
                |r: SiteRule| site_result_model(r, META_DESCRIPTION_SITE_PLUGIN_NAME@, uniqueness_outcome(self.described(), r.id@))),
    {
        let rules = self.available_rules();
        let ghost enabled = config.enabled_map();
        let ghost pred = |r: SiteRule| enabled_in(enabled, r.id@);
        let ghost f = |r: SiteRule| site_result_model(r, META_DESCRIPTION_SITE_PLUGIN_NAME@, uniqueness_outcome(self.described(), r.id@));
        let mut out: Vec<RuleResult> = Vec::new();
        assert(rules@.take(0) =~= Seq::<SiteRule>::empty());
        for i in 0..rules.len()
            invariant
                self.wf(),
                config.wf(),
                rules@ == meta_description_site_rules(),
                enabled == config.enabled_map(),
                pred == (|r: SiteRule| enabled_in(enabled, r.id@)),
                f == (|r: SiteRule| site_result_model(r, META_DESCRIPTION_SITE_PLUGIN_NAME@, uniqueness_outcome(self.described(), r.id@))),
                results_view(out@) == keep_where(rules@.take(i as int), pred).map_values(f),
        {
            let rule = rules[i];
            assert(rules@.take(i + 1).drop_last() =~= rules@.take(i as int));
            assert(rules@.take(i + 1).last() == rule);
            if config.is_rule_enabled(rule.id) {
                let checked = self.check(&rule, links);
                let ghost prev = out@;
                let r = site_rule_result(&rule, self.name(), checked);
                out.push(r);
                assert(results_view(out@) =~= results_view(prev).push(f(rule)));
            }
        }
        assert(rules@.take(rules@.len() as int) =~= rules@);
        out
    }
}

} // verus!
