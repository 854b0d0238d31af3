//! The plugin registry: which plugins run, with which rule switches.
use vstd::prelude::*;
use crate::seo_plugins::plugins::{
    analyze_rules, analyzes, check_outcome, enabled_rules, first_match, keep_where, lemma_first_match_prefix,
    lemma_fails_concat, lemma_records_concat, named_rules, records_all, records_outcome, some_rule_fails,
};
use crate::seo_plugins::plugins::axe::{axe_rules, AxePlugin, AXE_PLUGIN_NAME};
use crate::seo_plugins::plugins::html::{html_rules, HtmlPlugin, HTML_PLUGIN_NAME};
use crate::seo_plugins::plugins::image::{image_rules, ImagePlugin, IMAGE_PLUGIN_NAME};
use crate::seo_plugins::plugins::meta_description::{meta_description_rules, MetaDescriptionPlugin, META_DESCRIPTION_PLUGIN_NAME};
use crate::seo_plugins::plugins::request::{request_rules, RequestPlugin, REQUEST_PLUGIN_NAME};
use crate::seo_plugins::plugins::seo_basic::{seo_basic_rules, SeoBasicPlugin, SEO_BASIC_PLUGIN_NAME};
use crate::seo_plugins::plugins::title::{title_rules, TitlePlugin, TITLE_PLUGIN_NAME};
use crate::seo_plugins::site_analyzer::{LinkModel, SiteLinks};
use crate::seo_plugins::site_plugins::{enabled_site_rules, site_result_model};
use crate::seo_plugins::site_plugins::meta_description::{
    meta_description_site_rules, record_pair, uniqueness_outcome, MetaDescriptionSitePlugin,
    META_DESCRIPTION_SITE_PLUGIN_NAME,
};
use crate::seo_plugins::site_plugins::orphaned_page::{
    orphan_outcome, orphaned_page_rules, OrphanedPagePlugin, ORPHANED_PAGE_PLUGIN_NAME,
};
use super::config::{
    enabled_in, Severity, displays_rule, displays_site_rule, results_view, rules_to_display, site_rules_to_display, Rule,
    RuleConfig, RuleDisplay, RuleResult, RuleResultModel, SiteRule,
};
use super::page::{meta_of_document, page_queries_valid, Page, PageError};

verus! {

/// A page plugin that can be registered.
pub enum PagePluginKind {
    Image(ImagePlugin),
    SeoBasic(SeoBasicPlugin),
    Title(TitlePlugin),
    Axe(AxePlugin),
    Request(RequestPlugin),
    MetaDescription(MetaDescriptionPlugin),
    Html(HtmlPlugin),
}

/// A site plugin that can be registered.
pub enum SitePluginKind {
    MetaDescription(MetaDescriptionSitePlugin),
    OrphanedPage(OrphanedPagePlugin),
}

/// The view of a site plugin: the descriptions the meta-description plugin
/// has recorded, or the orphaned-page plugin.
pub enum SitePluginModel {
    MetaDescription(Seq<(Seq<char>, Seq<char>)>),
    OrphanedPage,
}

/// Two page plugins are of the same kind.
pub open spec fn same_kind(a: PagePluginKind, b: PagePluginKind) -> bool {
    match (a, b) {
        (PagePluginKind::Image(_), PagePluginKind::Image(_)) => true,
        (PagePluginKind::SeoBasic(_), PagePluginKind::SeoBasic(_)) => true,
        (PagePluginKind::Title(_), PagePluginKind::Title(_)) => true,
        (PagePluginKind::Axe(_), PagePluginKind::Axe(_)) => true,
        (PagePluginKind::Request(_), PagePluginKind::Request(_)) => true,
        (PagePluginKind::MetaDescription(_), PagePluginKind::MetaDescription(_)) => true,
        (PagePluginKind::Html(_), PagePluginKind::Html(_)) => true,
        _ => false,
    }
}

/// The rules of a page plugin.
pub open spec fn kind_rules(k: PagePluginKind) -> Seq<Rule> {
    match k {
        PagePluginKind::Image(_) => image_rules(),
        PagePluginKind::SeoBasic(_) => seo_basic_rules(),
        PagePluginKind::Title(_) => title_rules(),
        PagePluginKind::Axe(_) => axe_rules(),
        PagePluginKind::Request(_) => request_rules(),
        PagePluginKind::MetaDescription(_) => meta_description_rules(),
        PagePluginKind::Html(_) => html_rules(),
    }
}

/// The name of a page plugin.
pub open spec fn kind_name(k: PagePluginKind) -> Seq<char> {
    match k {
        PagePluginKind::Image(_) => IMAGE_PLUGIN_NAME@,
        PagePluginKind::SeoBasic(_) => SEO_BASIC_PLUGIN_NAME@,
        PagePluginKind::Title(_) => TITLE_PLUGIN_NAME@,
        PagePluginKind::Axe(_) => AXE_PLUGIN_NAME@,
        PagePluginKind::Request(_) => REQUEST_PLUGIN_NAME@,
        PagePluginKind::MetaDescription(_) => META_DESCRIPTION_PLUGIN_NAME@,
        PagePluginKind::Html(_) => HTML_PLUGIN_NAME@,
    }
}

/// The rules of the page plugins `ps`, each with its plugin's name, plugin
/// after plugin.
pub open spec fn plugins_rules(ps: Seq<PagePluginKind>) -> Seq<(Rule, Seq<char>)>
    decreases ps.len(),
{
    if ps.len() == 0 {
        Seq::empty()
    } else {
        plugins_rules(ps.drop_last()) + named_rules(kind_rules(ps.last()), kind_name(ps.last()))
    }
}

/// The rules of `rs` that the switches `enabled` turn on, in order.
pub open spec fn switched_on(rs: Seq<Rule>, enabled: Map<Seq<char>, bool>) -> Seq<Rule> {
    keep_where(rs, |r: Rule| enabled_in(enabled, r.id@))
}

/// The enabled rules of a plugin, named, are its switched-on rules, each
/// with the plugin's name.
pub proof fn lemma_enabled_named(rs: Seq<Rule>, name: Seq<char>, enabled: Map<Seq<char>, bool>)
    ensures
        enabled_rules(named_rules(rs, name), enabled) == switched_on(rs, enabled).map_values(|r: Rule| (r, name)),
    decreases rs.len(),
{
    if rs.len() == 0 {
        assert(named_rules(rs, name) =~= Seq::<(Rule, Seq<char>)>::empty());
        assert(switched_on(rs, enabled).map_values(|r: Rule| (r, name)) =~= Seq::<(Rule, Seq<char>)>::empty());
    } else {
        lemma_enabled_named(rs.drop_last(), name, enabled);
        assert(named_rules(rs, name).drop_last() =~= named_rules(rs.drop_last(), name));
        assert(named_rules(rs, name).last() == (rs.last(), name));
        let prev = switched_on(rs.drop_last(), enabled);
        if enabled_in(enabled, rs.last().id@) {
            assert(switched_on(rs, enabled) == prev.push(rs.last()));
            assert(prev.push(rs.last()).map_values(|r: Rule| (r, name)) =~= prev.map_values(|r: Rule| (r, name)).push((rs.last(), name)));
        } else {
            assert(switched_on(rs, enabled) == prev);
        }
    }
}

/// Every page plugin, on a page its rules can read, gives exactly one
/// result per rule that the configuration switches on, in the order of its
/// rules: each with the rule's id, name, severity and category, the
/// plugin's name, and what the rule's check finds on the page.
pub proof fn law_one_result_per_enabled_rule(kind: PagePluginKind, res: Result<Vec<RuleResult>, PageError>, page: Page, enabled: Map<Seq<char>, bool>)
    requires
        analyzes(res, named_rules(kind_rules(kind), kind_name(kind)), page, enabled),
        res is Ok,
    ensures
        ({
            let v = res->Ok_0@;
            let on = switched_on(kind_rules(kind), enabled);
            &&& v.len() == on.len()
            &&& forall|k: int| 0 <= k < v.len() ==> {
                &&& (#[trigger] v[k]).rule_id@ == on[k].id@
                &&& v[k].name@ == on[k].name@
                &&& v[k].plugin_name@ == kind_name(kind)
                &&& v[k].severity == on[k].default_severity
                &&& v[k].category == on[k].category
                &&& check_outcome(on[k].check, page) matches Some(o) && v[k].passed == o.0 && v[k].message@ == o.1
            }
        }),
{
    lemma_enabled_named(kind_rules(kind), kind_name(kind), enabled);
    let er = enabled_rules(named_rules(kind_rules(kind), kind_name(kind)), enabled);
    let on = switched_on(kind_rules(kind), enabled);
    let v = res->Ok_0@;
    assert forall|k: int| 0 <= k < v.len() implies {
        &&& (#[trigger] v[k]).rule_id@ == on[k].id@
        &&& v[k].name@ == on[k].name@
        &&& v[k].plugin_name@ == kind_name(kind)
        &&& v[k].severity == on[k].default_severity
        &&& v[k].category == on[k].category
        &&& check_outcome(on[k].check, page) matches Some(o) && v[k].passed == o.0 && v[k].message@ == o.1
    } by {
        assert(er[k] == (on[k], kind_name(kind)));
        assert(check_outcome(er[k].0.check, page) is Some);
        assert(records_outcome(v[k], er[k].0, er[k].1, check_outcome(er[k].0.check, page)->Some_0));
    }
}

/// The rules of a site plugin.
pub open spec fn site_kind_rules(m: SitePluginModel) -> Seq<SiteRule> {
    match m {
        SitePluginModel::MetaDescription(_) => meta_description_site_rules(),
        SitePluginModel::OrphanedPage => orphaned_page_rules(),
    }
}

/// The rules of the site plugins `ms`, plugin after plugin.
pub open spec fn site_plugins_rules(ms: Seq<SitePluginModel>) -> Seq<SiteRule>
    decreases ms.len(),
{
    if ms.len() == 0 {
        Seq::empty()
    } else {
        site_plugins_rules(ms.drop_last()) + site_kind_rules(ms.last())
    }
}

/// The results of the enabled rules of the site plugin `m` on the crawled
/// links `pairs`.
pub open spec fn site_plugin_results(m: SitePluginModel, pairs: Seq<(Seq<char>, LinkModel)>, enabled: Map<Seq<char>, bool>) -> Seq<RuleResultModel> {
    match m {
        SitePluginModel::MetaDescription(d) => enabled_site_rules(meta_description_site_rules(), enabled).map_values(
            |r: SiteRule| site_result_model(r, META_DESCRIPTION_SITE_PLUGIN_NAME@, uniqueness_outcome(d, r.id@))),
        SitePluginModel::OrphanedPage => enabled_site_rules(orphaned_page_rules(), enabled).map_values(
            |r: SiteRule| site_result_model(r, ORPHANED_PAGE_PLUGIN_NAME@, orphan_outcome(pairs, r.id@))),
    }
}

/// The results of the site plugins `ms`, plugin after plugin.
pub open spec fn site_results(ms: Seq<SitePluginModel>, pairs: Seq<(Seq<char>, LinkModel)>, enabled: Map<Seq<char>, bool>) -> Seq<RuleResultModel>
    decreases ms.len(),
{
    if ms.len() == 0 {
        Seq::empty()
    } else {
        site_results(ms.drop_last(), pairs, enabled) + site_plugin_results(ms.last(), pairs, enabled)
    }
}

/// The site plugin `m` once a page with HTML `html` at `url` was analyzed.
pub open spec fn hooked(m: SitePluginModel, url: Seq<char>, html: Seq<char>) -> SitePluginModel {
    match m {
        SitePluginModel::MetaDescription(d) => SitePluginModel::MetaDescription(
            match meta_of_document(html).description {
                Some(desc) => record_pair(d, url, desc),
                None => d,
            },
        ),
        SitePluginModel::OrphanedPage => SitePluginModel::OrphanedPage,
    }
}

/// The view of a site plugin.
pub open spec fn site_model(k: SitePluginKind) -> SitePluginModel {
    match k {
        SitePluginKind::MetaDescription(p) => SitePluginModel::MetaDescription(p.described()),
        SitePluginKind::OrphanedPage(_) => SitePluginModel::OrphanedPage,
    }
}

/// The site plugin's records are well formed.
pub open spec fn site_kind_wf(k: SitePluginKind) -> bool {
    match k {
        SitePluginKind::MetaDescription(p) => p.wf(),
        SitePluginKind::OrphanedPage(_) => true,
    }
}

/// Concatenated rules of plugin sequences are the rules of the
/// concatenation.
pub proof fn lemma_plugins_rules_concat(a: Seq<PagePluginKind>, b: Seq<PagePluginKind>)
    ensures
        plugins_rules(a + b) == plugins_rules(a) + plugins_rules(b),
    decreases b.len(),
{
    if b.len() == 0 {
        assert(a + b =~= a);
        assert(plugins_rules(a) + plugins_rules(b) =~= plugins_rules(a));
    } else {
        lemma_plugins_rules_concat(a, b.drop_last());
        assert((a + b).drop_last() =~= a + b.drop_last());
        assert((a + b).last() == b.last());
        let x = named_rules(kind_rules(b.last()), kind_name(b.last()));
        assert(plugins_rules(a) + plugins_rules(b.drop_last()) + x =~= plugins_rules(a) + (plugins_rules(b.drop_last()) + x));
    }
}

/// The plugins, which rules they offer, and which are switched on.
pub struct PluginRegistry {
    plugins: Vec<PagePluginKind>,
    site_plugins: Vec<SitePluginKind>,
    config: Option<RuleConfig>,
}

/// A page plugin's rules.
fn kind_available_rules(k: &PagePluginKind) -> (res: Vec<Rule>)
    ensures
        res@ == kind_rules(*k),
{
    match k {
        PagePluginKind::Image(p) => p.available_rules(),
        PagePluginKind::SeoBasic(p) => p.available_rules(),
        PagePluginKind::Title(p) => p.available_rules(),
        PagePluginKind::Axe(p) => p.available_rules(),
        PagePluginKind::Request(p) => p.available_rules(),
        PagePluginKind::MetaDescription(p) => p.available_rules(),
        PagePluginKind::Html(p) => p.available_rules(),
    }
}

/// A page plugin's name.
fn kind_plugin_name(k: &PagePluginKind) -> (res: &'static str)
    ensures
        res@ == kind_name(*k),
{
    match k {
        PagePluginKind::Image(p) => p.name(),
        PagePluginKind::SeoBasic(p) => p.name(),
        PagePluginKind::Title(p) => p.name(),
        PagePluginKind::Axe(p) => p.name(),
        PagePluginKind::Request(p) => p.name(),
        PagePluginKind::MetaDescription(p) => p.name(),
        PagePluginKind::Html(p) => p.name(),
    }
}

/// A site plugin's rules.
fn site_kind_available_rules(k: &SitePluginKind) -> (res: Vec<SiteRule>)
    ensures
        res@ == site_kind_rules(site_model(*k)),
{
    match k {
        SitePluginKind::MetaDescription(p) => p.available_rules(),
        SitePluginKind::OrphanedPage(p) => p.available_rules(),
    }
}

impl PluginRegistry {
    /// The configuration is well formed, and so is each site plugin.
    pub closed spec fn wf(&self) -> bool {
        &&& (self.config matches Some(c) ==> c.wf())
        &&& forall|i: int| 0 <= i < self.site_plugins@.len() ==> site_kind_wf(#[trigger] self.site_plugins@[i])
    }

    /// The page plugins, in the order in which they were registered.
    pub closed spec fn page_plugins(&self) -> Seq<PagePluginKind> {
        self.plugins@
    }

    /// The site plugins, in the order in which they were registered.
    pub closed spec fn site_models(&self) -> Seq<SitePluginModel> {
        self.site_plugins@.map_values(|k: SitePluginKind| site_model(k))
    }

    /// The rule switches, once set.
    pub closed spec fn config_view(&self) -> Option<Map<Seq<char>, bool>> {
        match self.config {
            Some(c) => Some(c.enabled_map()),
            None => None,
        }
    }

    /// The rule severities, once set.
    pub closed spec fn config_severities(&self) -> Option<Map<Seq<char>, Severity>> {
        match self.config {
            Some(c) => Some(c.severity_map()),
            None => None,
        }
    }

    /// A registry without plugins or configuration.
    pub fn new() -> (res: Self)
        ensures
            res.wf(),
            res.page_plugins().len() == 0,
            res.site_models().len() == 0,
            res.config_view() is None,
    {
        let res = PluginRegistry { plugins: Vec::new(), site_plugins: Vec::new(), config: None };
        assert(res.site_models() =~= Seq::<SitePluginModel>::empty());
        res
    }

    /// Sets the rule switches.
    pub fn set_config(&mut self, config: RuleConfig)
        requires
            old(self).wf(),
            config.wf(),
        ensures
            final(self).wf(),
            final(self).config_view() == Some(config.enabled_map()),
            final(self).config_severities() == Some(config.severity_map()),
            final(self).page_plugins() == old(self).page_plugins(),
            final(self).site_models() == old(self).site_models(),
    {
        self.config = Some(config);
    }

    /// The configuration that was set (its switches and severities);
    /// `ConfigNotSet` before one was set.
    pub fn get_config(&self) -> (res: Result<&RuleConfig, PageError>)
        requires
            self.wf(),
        ensures
            match self.config_view() {
                Some(m) => res matches Ok(c) && c.wf() && c.enabled_map() == m && self.config_severities() == Some(c.severity_map()),
                None => res matches Err(PageError::ConfigNotSet),
            },
    {
        match &self.config {
            Some(c) => Ok(c),
            None => Err(PageError::ConfigNotSet),
        }
    }

    /// Registers a page plugin. A plugin of the same kind that was
    /// registered before is replaced, and keeps its place.
    pub fn register(&mut self, plugin: PagePluginKind) -> (res: Result<(), String>)
        requires
            old(self).wf(),
        ensures
            final(self).wf(),
            res is Ok,
            final(self).config_view() == old(self).config_view(),
            final(self).config_severities() == old(self).config_severities(),
            final(self).site_models() == old(self).site_models(),
            final(self).page_plugins() == match first_match(old(self).page_plugins(), |k: PagePluginKind| same_kind(k, plugin)) {
                Some(i) => old(self).page_plugins().update(i, plugin),
                None => old(self).page_plugins().push(plugin),
            },
    {
        let ghost ps = self.plugins@;
        let ghost p = |k: PagePluginKind| same_kind(k, plugin);
        let mut i: usize = 0;
        assert(ps.take(0) =~= Seq::<PagePluginKind>::empty());
        while i < self.plugins.len()
            invariant
                0 <= i <= self.plugins@.len(),
                self.plugins@ == ps,
                ps == old(self).page_plugins(),
                self.wf(),
                self.config_view() == old(self).config_view(),
                self.config_severities() == old(self).config_severities(),
                self.site_models() == old(self).site_models(),
                p == (|k: PagePluginKind| same_kind(k, plugin)),
                first_match(ps.take(i as int), p) is None,
            decreases self.plugins@.len() - i,
        {
            let same = match (&self.plugins[i], &plugin) {
                (PagePluginKind::Image(_), PagePluginKind::Image(_)) => true,
                (PagePluginKind::SeoBasic(_), PagePluginKind::SeoBasic(_)) => true,
                (PagePluginKind::Title(_), PagePluginKind::Title(_)) => true,
                (PagePluginKind::Axe(_), PagePluginKind::Axe(_)) => true,
                (PagePluginKind::Request(_), PagePluginKind::Request(_)) => true,
                (PagePluginKind::MetaDescription(_), PagePluginKind::MetaDescription(_)) => true,
                (PagePluginKind::Html(_), PagePluginKind::Html(_)) => true,
                _ => false,
            };
            assert(same == p(ps[i as int]));
            if same {
                proof { lemma_first_match_prefix(ps, p, i as int); }
                assert(first_match(ps, p) == Some(i as int));
                self.plugins.set(i, plugin);
                assert(self.plugins@ == ps.update(i as int, plugin));
                return Ok(());
            }
            assert(ps.take(i + 1).drop_last() =~= ps.take(i as int));
            assert(ps.take(i + 1).last() == ps[i as int]);
            i = i + 1;
        }
        proof { lemma_first_match_prefix(ps, p, i as int); }
        self.plugins.push(plugin);
        Ok(())
    }

    /// Registers a site plugin, after those registered before.
    pub fn register_site_plugin(&mut self, plugin: SitePluginKind) -> (res: Result<(), String>)
        requires
            old(self).wf(),
            site_kind_wf(plugin),
        ensures
            final(self).wf(),
            res is Ok,
            final(self).config_view() == old(self).config_view(),
            final(self).config_severities() == old(self).config_severities(),
            final(self).page_plugins() == old(self).page_plugins(),
            final(self).site_models() == old(self).site_models().push(site_model(plugin)),
    {
        let ghost before = self.site_plugins@;
        self.site_plugins.push(plugin);
        assert(self.site_models() =~= before.map_values(|k: SitePluginKind| site_model(k)).push(site_model(plugin)));
        Ok(())
    }

    /// Every rule that the registered plugins offer: the page rules, plugin
    /// after plugin, then the site rules.
    pub fn get_available_rules(&self) -> (res: Vec<RuleDisplay>)
        ensures
            res@.len() == plugins_rules(self.page_plugins()).len() + site_plugins_rules(self.site_models()).len(),
            forall|k: int| 0 <= k < plugins_rules(self.page_plugins()).len()
                ==> displays_rule(#[trigger] res@[k], plugins_rules(self.page_plugins())[k].0),
            forall|k: int| 0 <= k < site_plugins_rules(self.site_models()).len()
                ==> displays_site_rule(#[trigger] res@[plugins_rules(self.page_plugins()).len() + k], site_plugins_rules(self.site_models())[k]),
    {
        let ghost ps = self.plugins@;
        let mut out: Vec<RuleDisplay> = Vec::new();
        for i in 0..self.plugins.len()
            invariant
                ps == self.plugins@,
                out@.len() == plugins_rules(ps.take(i as int)).len(),
                forall|k: int| 0 <= k < out@.len() ==> displays_rule(#[trigger] out@[k], plugins_rules(ps.take(i as int))[k].0),
        {
            let rules = kind_available_rules(&self.plugins[i]);
            let mut shown = rules_to_display(&rules);
            let ghost prev = out@;
            let ghost named = named_rules(rules@, kind_name(ps[i as int]));
            assert(ps.take(i + 1).drop_last() =~= ps.take(i as int));
            assert(ps.take(i + 1).last() == ps[i as int]);
            assert(plugins_rules(ps.take(i + 1)) == plugins_rules(ps.take(i as int)) + named);
            out.append(&mut shown);
            assert forall|k: int| 0 <= k < out@.len() implies displays_rule(#[trigger] out@[k], plugins_rules(ps.take(i + 1))[k].0) by {
                if k < prev.len() {
                    assert(out@[k] == prev[k]);
                } else {
                    assert(named[k - prev.len()].0 == rules@[k - prev.len()]);
                }
            }
        }
        assert(ps.take(ps.len() as int) =~= ps);
        let ghost np = out@.len();
        let ghost ms = self.site_models();
        let ghost sps = self.site_plugins@;
        for i in 0..self.site_plugins.len()
            invariant
                ps == self.plugins@,
                sps == self.site_plugins@,
                ms == self.site_models(),
                np == plugins_rules(ps).len(),
                out@.len() == np + site_plugins_rules(ms.take(i as int)).len(),
                forall|k: int| 0 <= k < np ==> displays_rule(#[trigger] out@[k], plugins_rules(ps)[k].0),
                forall|k: int| 0 <= k < site_plugins_rules(ms.take(i as int)).len()
                    ==> displays_site_rule(#[trigger] out@[np + k], site_plugins_rules(ms.take(i as int))[k]),
        {
            let rules = site_kind_available_rules(&self.site_plugins[i]);
            let mut shown = site_rules_to_display(&rules);
            let ghost prev = out@;
            assert(ms[i as int] == site_model(sps[i as int]));
            assert(ms.take(i + 1).drop_last() =~= ms.take(i as int));
            assert(ms.take(i + 1).last() == ms[i as int]);
            let ghost before = site_plugins_rules(ms.take(i as int));
            let ghost sh = shown@;
            assert(site_plugins_rules(ms.take(i + 1)) == before + rules@);
            out.append(&mut shown);
            assert forall|k: int| 0 <= k < np implies displays_rule(#[trigger] out@[k], plugins_rules(ps)[k].0) by {
                assert(out@[k] == prev[k]);
            }
            assert forall|k: int| 0 <= k < site_plugins_rules(ms.take(i + 1)).len()
                implies displays_site_rule(#[trigger] out@[np + k], site_plugins_rules(ms.take(i + 1))[k]) by {
                if k < before.len() {
                    assert(out@[np + k] == prev[np + k]);
                } else {
                    assert(out@[np + k] == sh[k - before.len()]);
                }
            }
        }
        assert(ms.take(ms.len() as int) =~= ms);
        out
    }

    /// Runs the enabled rules of the page plugins on `page`, plugin after
    /// plugin, and lets each site plugin see the page. Fails with
    /// `ConfigNotSet` before any rule switches were set, and with
    /// `ElementNotFound` when an enabled rule cannot run on the page (the
    /// site plugins then do not see it).
    pub fn analyze(&mut self, page: &Page) -> (res: Result<Vec<RuleResult>, PageError>)
        requires
            old(self).wf(),
            page_queries_valid(),
        ensures
            final(self).wf(),
            final(self).config_view() == old(self).config_view(),
            final(self).config_severities() == old(self).config_severities(),
            final(self).page_plugins() == old(self).page_plugins(),
            match old(self).config_view() {
                None => res matches Err(PageError::ConfigNotSet) && final(self).site_models() == old(self).site_models(),
                Some(m) => analyzes(res, plugins_rules(old(self).page_plugins()), *page, m)
                    && final(self).site_models() == (if res is Ok {
                        old(self).site_models().map_values(|sm: SitePluginModel| hooked(sm, page.base_view(), page.html_view()))
                    } else {
                        old(self).site_models()
                    }),
            },
    {
        let ghost ps = self.plugins@;
        let mut out: Vec<RuleResult> = Vec::new();
        {
            let config = match &self.config {
                Some(c) => c,
                None => { return Err(PageError::ConfigNotSet); },
            };
            let ghost m = config.enabled_map();
            assert(ps.take(0) =~= Seq::<PagePluginKind>::empty());
            for i in 0..self.plugins.len()
                invariant
                    ps == self.plugins@,
                    ps == old(self).page_plugins(),
                    self.wf(),
                    self.config_view() == old(self).config_view(),
                    self.config_severities() == old(self).config_severities(),
                    self.site_plugins@ == old(self).site_plugins@,
                    old(self).config_view() == Some(m),
                    page_queries_valid(),
                    config.wf(),
                    m == config.enabled_map(),
                    records_all(out@, plugins_rules(ps.take(i as int)), *page, m),
            {
                let k = &self.plugins[i];
                let rules = kind_available_rules(k);
                let name = kind_plugin_name(k);
                let ghost named = named_rules(rules@, name@);
                assert(ps.take(i + 1).drop_last() =~= ps.take(i as int));
                assert(ps.take(i + 1).last() == ps[i as int]);
                assert(plugins_rules(ps.take(i + 1)) == plugins_rules(ps.take(i as int)) + named);
                match analyze_rules(&rules, name, page, config) {
                    Ok(mut v) => {
                        let ghost prev = out@;
                        let ghost vv = v@;
                        proof { lemma_records_concat(prev, plugins_rules(ps.take(i as int)), vv, named, *page, m); }
                        out.append(&mut v);
                        assert(out@ == prev + vv);
                    },
                    Err(e) => {
                        proof {
                            lemma_fails_concat(plugins_rules(ps.take(i as int)), named, *page, m);
                            lemma_plugins_rules_concat(ps.take(i + 1), ps.skip(i + 1));
                            assert(ps.take(i + 1) + ps.skip(i + 1) =~= ps);
                            lemma_fails_concat(plugins_rules(ps.take(i + 1)), plugins_rules(ps.skip(i + 1)), *page, m);
                        }
                        return Err(e);
                    },
                }
            }
            assert(ps.take(ps.len() as int) =~= ps);
        }
        let ghost old_sps = self.site_plugins@;
        let ghost url = page.base_view();
        let ghost html = page.html_view();
        let n = self.site_plugins.len();
        for i in 0..n
            invariant
                self.wf(),
                page_queries_valid(),
                self.plugins@ == ps,
                self.config_view() == old(self).config_view(),
                self.config_severities() == old(self).config_severities(),
                old_sps == old(self).site_plugins@,
                url == page.base_view(),
                html == page.html_view(),
                self.site_plugins@.len() == n,
                n == old_sps.len(),
                forall|j: int| 0 <= j < i ==> site_model(#[trigger] self.site_plugins@[j]) == hooked(site_model(old_sps[j]), url, html),
                forall|j: int| i <= j < n ==> #[trigger] self.site_plugins@[j] == old_sps[j],
        {
            let ghost before = self.site_plugins@;
            let sp = self.site_plugins.remove(i);
            assert(site_kind_wf(before[i as int]));
            let sp2 = match sp {
                SitePluginKind::MetaDescription(mut p) => {
                    p.after_page_hook(page);
                    SitePluginKind::MetaDescription(p)
                },
                SitePluginKind::OrphanedPage(p) => SitePluginKind::OrphanedPage(p),
            };
            self.site_plugins.insert(i, sp2);
            assert(self.site_plugins@ =~= before.update(i as int, sp2));
            assert forall|j: int| 0 <= j < self.site_plugins@.len() implies site_kind_wf(#[trigger] self.site_plugins@[j]) by {
                if j != i { assert(self.site_plugins@[j] == before[j]); }
            }
        }
        assert(self.site_models() =~= old(self).site_models().map_values(|sm: SitePluginModel| hooked(sm, url, html)));
        Ok(out)
    }

    /// Runs the enabled rules of the site plugins on the crawled links,
    /// plugin after plugin. Fails with `ConfigNotSet` before any rule
    /// switches were set.
    pub fn analyze_site(&self, links: &SiteLinks) -> (res: Result<Vec<RuleResult>, PageError>)
        requires
            self.wf(),
            links.wf(),
        ensures
            match self.config_view() {
                None => res matches Err(PageError::ConfigNotSet),
                Some(m) => res matches Ok(v) && results_view(v@) == site_results(self.site_models(), links.pairs(), m),
            },
    {
        let config = self.get_config()?;
        let ghost m = config.enabled_map();
        let ghost ms = self.site_models();
        let ghost pairs = links.pairs();
        let mut out: Vec<RuleResult> = Vec::new();
        assert(ms.take(0) =~= Seq::<SitePluginModel>::empty());
        for i in 0..self.site_plugins.len()
            invariant
                self.wf(),
                links.wf(),
                config.wf(),
                m == config.enabled_map(),
                ms == self.site_models(),
                pairs == links.pairs(),
                results_view(out@) == site_results(ms.take(i as int), pairs, m),
        {
            assert(site_kind_wf(self.site_plugins@[i as int]));
            assert(ms[i as int] == site_model(self.site_plugins@[i as int]));
            let mut v = match &self.site_plugins[i] {
                SitePluginKind::MetaDescription(p) => p.analyze(links, config),
                SitePluginKind::OrphanedPage(p) => p.analyze(links, config),
            };
            assert(results_view(v@) == site_plugin_results(ms[i as int], pairs, m));
            let ghost prev = out@;
            let ghost vv = v@;
            out.append(&mut v);
            assert(ms.take(i + 1).drop_last() =~= ms.take(i as int));
            assert(ms.take(i + 1).last() == ms[i as int]);
            assert(results_view(out@) =~= results_view(prev) + results_view(vv));
        }
        assert(ms.take(ms.len() as int) =~= ms);
        Ok(out)
    }

    /// The default registry with every rule of its plugins switched on.
    pub fn default_with_config() -> (res: Self)
        ensures
            res.wf(),
            res.page_plugins() == default_page_plugins(),
            res.site_models() == default_site_models(),
            res.config_view() matches Some(m) && (forall|k: Seq<char>| #[trigger] m.dom().contains(k) <==> default_rule_ids().contains(k))
                && (forall|k: Seq<char>| #[trigger] m.dom().contains(k) ==> m[k]),
    {
        let mut config = RuleConfig::new();
        let mut registry = Self::default();
        let rules = registry.get_available_rules();
        let ghost pr = plugins_rules(default_page_plugins());
        let ghost sr = site_plugins_rules(default_site_models());
        let ghost ids = default_rule_ids();
        assert forall|k: int| 0 <= k < rules@.len() implies #[trigger] rules@[k].id@ == ids[k] by {
            if k < pr.len() {
                assert(displays_rule(rules@[k], pr[k].0));
            } else {
                assert(displays_site_rule(rules@[pr.len() + (k - pr.len())], sr[k - pr.len()]));
            }
        }
        for i in 0..rules.len()
            invariant
                config.wf(),
                rules@.len() == ids.len(),
                forall|k: int| 0 <= k < rules@.len() ==> #[trigger] rules@[k].id@ == ids[k],
                forall|k: Seq<char>| #[trigger] config.enabled_map().dom().contains(k) <==> ids.take(i as int).contains(k),
                forall|k: Seq<char>| #[trigger] config.enabled_map().dom().contains(k) ==> config.enabled_map()[k],
        {
            let ghost before = ids.take(i as int);
            assert(rules@[i as int].id@ == ids[i as int]);
            config.enable_rule(rules[i].id.as_str());
            assert(ids.take(i + 1) =~= before.push(ids[i as int]));
            assert forall|k: Seq<char>| #[trigger] config.enabled_map().dom().contains(k) <==> ids.take(i + 1).contains(k) by {
                if before.contains(k) {
                    let j = choose|j: int| 0 <= j < before.len() && before[j] == k;
                    assert(ids.take(i + 1)[j] == k);
                }
                if k == ids[i as int] {
                    assert(ids.take(i + 1)[i as int] == k);
                }
                let after = ids.take(i + 1);
                if after.contains(k) {
                    let j = choose|j: int| 0 <= j < after.len() && #[trigger] after[j] == k;
                    if j < i { assert(before[j] == k); }
                }
            }
        }
        assert(ids.take(ids.len() as int) =~= ids);
        registry.set_config(config);
        registry
    }
}

/// The page plugins of the default registry.
pub open spec fn default_page_plugins() -> Seq<PagePluginKind> {
    seq![
        PagePluginKind::Image(ImagePlugin {}),
        PagePluginKind::SeoBasic(SeoBasicPlugin {}),
        PagePluginKind::Title(TitlePlugin {}),
        PagePluginKind::Axe(AxePlugin {}),
        PagePluginKind::Request(RequestPlugin {}),
        PagePluginKind::MetaDescription(MetaDescriptionPlugin {}),
        PagePluginKind::Html(HtmlPlugin {}),
    ]
}

/// The site plugins of the default registry, with nothing recorded.
pub open spec fn default_site_models() -> Seq<SitePluginModel> {
    seq![SitePluginModel::MetaDescription(Seq::empty()), SitePluginModel::OrphanedPage]
}

/// The ids of every rule of the default registry, page rules first.
pub open spec fn default_rule_ids() -> Seq<Seq<char>> {
    plugins_rules(default_page_plugins()).map_values(|p: (Rule, Seq<char>)| p.0.id@)
        + site_plugins_rules(default_site_models()).map_values(|r: SiteRule| r.id@)
}

impl Default for PluginRegistry {
    /// A registry with the image, basic, title, accessibility, request,
    /// meta-description and HTML page plugins and the meta-description and
    /// orphaned-page site plugins, without rule switches.
    fn default() -> (res: Self)
        ensures
            res.wf(),
            res.page_plugins() == default_page_plugins(),
            res.site_models() == default_site_models(),
            res.config_view() is None,
    {
        let res = PluginRegistry {
            plugins: vec![
                PagePluginKind::Image(ImagePlugin::new()),
                PagePluginKind::SeoBasic(SeoBasicPlugin::new()),
                PagePluginKind::Title(TitlePlugin::new()),
                PagePluginKind::Axe(AxePlugin::new()),
                PagePluginKind::Request(RequestPlugin::new()),
                PagePluginKind::MetaDescription(MetaDescriptionPlugin::new()),
                PagePluginKind::Html(HtmlPlugin::new()),
            ],
            site_plugins: vec![
                SitePluginKind::MetaDescription(MetaDescriptionSitePlugin::new()),
                SitePluginKind::OrphanedPage(OrphanedPagePlugin::new()),
            ],
            config: None,
        };
        assert(res.plugins@ =~= default_page_plugins());
        assert(res.site_models() =~= default_site_models());
        res
    }
}

} // verus!
