//! Rules, their results, and the configuration that says which rules run.
use vstd::prelude::*;
use crate::text::owned;
use crate::text_map::TextMap;

verus! {

/// How grave a failed rule is.
#[derive(Clone, Copy, Debug, PartialEq, Eq, Structural)]
pub enum Severity {
    Info,
    Warning,
    Error,
    Critical,
}

/// What a rule is about.
#[derive(Clone, Copy, Debug, PartialEq, Eq, Structural)]
pub enum RuleCategory {
    Accessibility,
    Performance,
    BestPractices,
    SEO,
}

/// Whether a rule looks at one page or at the whole site.
#[derive(Clone, Copy, Debug, PartialEq, Eq, Structural)]
pub enum RuleType {
    Page,
    Site,
}

/// The check that a page rule runs on a page.
#[derive(Clone, Copy, Debug, PartialEq, Eq, Structural)]
pub enum PageCheck {
    TitleHasTitle,
    TitleLength,
    MetaDescriptionPresent,
    MetaDescriptionLength,
    RequestRedirects,
    ImagesResponsive,
    HtmlTitle,
    HtmlMetaDescription,
    SeoBasicTitle,
    SeoBasicTitleLength,
    SeoBasicMetaDescription,
    SeoBasicMetaDescriptionLength,
    SeoBasicHasCanonicalUrl,
    SeoBasicCanonicalUrlMatchesSite,
    AxeHtmlHasLang,
    AxeImageAlt,
    AxeMetaViewport,
    AxeDocumentTitle,
    AxeButtonName,
    AxeLinkName,
    AxeFormFieldLabels,
    AxeAriaValidAttr,
    AxeAriaRequiredAttr,
    AxeDuplicateId,
    AxeFrameTitle,
    AxeTabindex,
}

/// Extra data that a site rule reports: the URLs concerned, or groups of URLs
/// under a shared value (each value once).
pub enum SiteCheckContext {
    Urls(Vec<String>),
    Values(Vec<(String, Vec<String>)>),
    Empty,
}

/// The view of a `SiteCheckContext`.
pub enum ContextModel {
    Urls(Seq<Seq<char>>),
    Values(Seq<(Seq<char>, Seq<Seq<char>>)>),
    Empty,
}

/// The views of a sequence of texts.
pub open spec fn strings_view(v: Seq<String>) -> Seq<Seq<char>> {
    v.map_values(|s: String| s@)
}

/// The view of a group of URLs under a value.
pub open spec fn group_view(g: (String, Vec<String>)) -> (Seq<char>, Seq<Seq<char>>) {
    (g.0@, strings_view(g.1@))
}

impl SiteCheckContext {
    /// The view of this context.
    pub open spec fn model(&self) -> ContextModel {
        match self {
            SiteCheckContext::Urls(u) => ContextModel::Urls(strings_view(u@)),
            SiteCheckContext::Values(v) => ContextModel::Values(v@.map_values(|g: (String, Vec<String>)| group_view(g))),
            SiteCheckContext::Empty => ContextModel::Empty,
        }
    }

    /// A copy of this context.
    pub fn duplicate(&self) -> (res: Self)
        ensures
            res.model() == self.model(),
    {
        match self {
            SiteCheckContext::Urls(u) => SiteCheckContext::Urls(clone_strings(u)),
            SiteCheckContext::Values(v) => {
                let mut out: Vec<(String, Vec<String>)> = Vec::new();
                for i in 0..v.len()
                    invariant
                        out@.map_values(|g: (String, Vec<String>)| group_view(g)) == v@.take(i as int).map_values(|g: (String, Vec<String>)| group_view(g)),
                {
                    let ghost prev = out@;
                    let g = (v[i].0.clone(), clone_strings(&v[i].1));
                    assert(group_view(g) == group_view(v@[i as int]));
                    out.push(g);
                    assert(v@.take(i + 1) =~= v@.take(i as int).push(v@[i as int]));
                    assert(out@.map_values(|g: (String, Vec<String>)| group_view(g)) =~= prev.map_values(|g: (String, Vec<String>)| group_view(g)).push(group_view(g)));
                    assert(v@.take(i + 1).map_values(|g: (String, Vec<String>)| group_view(g)) =~= v@.take(i as int).map_values(|g: (String, Vec<String>)| group_view(g)).push(group_view(v@[i as int])));
                }
                assert(v@.take(v@.len() as int) =~= v@);
                SiteCheckContext::Values(out)
            },
            SiteCheckContext::Empty => SiteCheckContext::Empty,
        }
    }
}

/// A copy of a sequence of texts.
pub fn clone_strings(v: &Vec<String>) -> (res: Vec<String>)
    ensures
        strings_view(res@) == strings_view(v@),
{
    let mut out: Vec<String> = Vec::new();
    for i in 0..v.len()
        invariant
            strings_view(out@) == strings_view(v@.take(i as int)),
    {
        let ghost prev = out@;
        let x = v[i].clone();
        out.push(x);
        assert(v@.take(i + 1) =~= v@.take(i as int).push(v@[i as int]));
        assert(strings_view(out@) =~= strings_view(prev).push(x@));
        assert(strings_view(v@.take(i + 1)) =~= strings_view(v@.take(i as int)).push(v@[i as int]@));
    }
    assert(v@.take(v@.len() as int) =~= v@);
    out
}

/// The outcome of a site rule.
pub struct SiteCheckResult {
    pub rule_id: String,
    pub passed: bool,
    pub message: String,
    pub context: SiteCheckContext,
}

/// The outcome of a page rule on one page.
pub struct CheckResult {
    pub rule_id: String,
    pub passed: bool,
    pub message: String,
}

/// The outcome of a rule, with the rule's description.
pub struct RuleResult {
    pub rule_id: String,
    pub name: String,
    pub plugin_name: String,
    pub passed: bool,
    pub message: String,
    pub severity: Severity,
    pub category: RuleCategory,
    pub context: SiteCheckContext,
}

/// The view of a rule result.
pub struct RuleResultModel {
    pub rule_id: Seq<char>,
    pub name: Seq<char>,
    pub plugin_name: Seq<char>,
    pub passed: bool,
    pub message: Seq<char>,
    pub severity: Severity,
    pub category: RuleCategory,
    pub context: ContextModel,
}

impl RuleResult {
    /// The view of this result.
    pub open spec fn model(&self) -> RuleResultModel {
        RuleResultModel {
            rule_id: self.rule_id@,
            name: self.name@,
            plugin_name: self.plugin_name@,
            passed: self.passed,
            message: self.message@,
            severity: self.severity,
            category: self.category,
            context: self.context.model(),
        }
    }

    /// A copy of this result.
    pub fn duplicate(&self) -> (res: Self)
        ensures
            res.model() == self.model(),
    {
        RuleResult {
            rule_id: self.rule_id.clone(),
            name: self.name.clone(),
            plugin_name: self.plugin_name.clone(),
            passed: self.passed,
            message: self.message.clone(),
            severity: self.severity,
            category: self.category,
            context: self.context.duplicate(),
        }
    }
}

/// The views of a sequence of rule results.
pub open spec fn results_view(v: Seq<RuleResult>) -> Seq<RuleResultModel> {
    v.map_values(|r: RuleResult| r.model())
}

/// A copy of a sequence of rule results.
pub fn clone_results(v: &Vec<RuleResult>) -> (res: Vec<RuleResult>)
    ensures
        results_view(res@) == results_view(v@),
{
    let mut out: Vec<RuleResult> = Vec::new();
    for i in 0..v.len()
        invariant
            results_view(out@) == results_view(v@.take(i as int)),
    {
        let ghost prev = out@;
        let x = v[i].duplicate();
        out.push(x);
        assert(v@.take(i + 1) =~= v@.take(i as int).push(v@[i as int]));
        assert(results_view(out@) =~= results_view(prev).push(x.model()));
        assert(results_view(v@.take(i + 1)) =~= results_view(v@.take(i as int)).push(v@[i as int].model()));
    }
    assert(v@.take(v@.len() as int) =~= v@);
    out
}

/// A page rule.
#[derive(Clone, Copy)]
pub struct Rule {
    pub id: &'static str,
    pub name: &'static str,
    pub description: &'static str,
    pub default_severity: Severity,
    pub check: PageCheck,
    pub category: RuleCategory,
}

/// A site rule.
#[derive(Clone, Copy)]
pub struct SiteRule {
    pub id: &'static str,
    pub name: &'static str,
    pub description: &'static str,
    pub default_severity: Severity,
    pub category: RuleCategory,
}

/// A rule as shown to a user.
pub struct RuleDisplay {
    pub id: String,
    pub name: String,
    pub plugin_name: String,
    pub description: String,
    pub severity: Severity,
    pub category: RuleCategory,
    pub rule_type: RuleType,
}

/// `d` shows the page rule `r`.
pub open spec fn displays_rule(d: RuleDisplay, r: Rule) -> bool {
    &&& d.id@ == r.id@
    &&& d.name@ == r.name@
    &&& d.plugin_name@ == Seq::<char>::empty()
    &&& d.description@ == r.description@
    &&& d.severity == r.default_severity
    &&& d.category == r.category
    &&& d.rule_type == RuleType::Page
}

/// `d` shows the site rule `r`.
pub open spec fn displays_site_rule(d: RuleDisplay, r: SiteRule) -> bool {
    &&& d.id@ == r.id@
    &&& d.name@ == r.name@
    &&& d.plugin_name@ == Seq::<char>::empty()
    &&& d.description@ == r.description@
    &&& d.severity == r.default_severity
    &&& d.category == r.category
    &&& d.rule_type == RuleType::Site
}

impl Rule {
    /// The rule as shown to a user; its plugin name is left empty.
    pub fn to_display(&self) -> (res: RuleDisplay)
        ensures
            displays_rule(res, *self),
    {
        RuleDisplay {
            id: owned(self.id),
            name: owned(self.name),
            plugin_name: String::new(),
            description: owned(self.description),
            severity: self.default_severity,
            category: self.category,
            rule_type: RuleType::Page,
        }
    }
}

impl SiteRule {
    /// The rule as shown to a user; its plugin name is left empty.
    pub fn to_display(&self) -> (res: RuleDisplay)
        ensures
            displays_site_rule(res, *self),
    {
        RuleDisplay {
            id: owned(self.id),
            name: owned(self.name),
            plugin_name: String::new(),
            description: owned(self.description),
            severity: self.default_severity,
            category: self.category,
            rule_type: RuleType::Site,
        }
    }
}

/// Each page rule shown to a user, in order.
pub fn rules_to_display(rules: &Vec<Rule>) -> (res: Vec<RuleDisplay>)
    ensures
        res@.len() == rules@.len(),
        forall|i: int| 0 <= i < rules@.len() ==> displays_rule(#[trigger] res@[i], rules@[i]),
{
    let mut res: Vec<RuleDisplay> = Vec::new();
    for i in 0..rules.len()
        invariant
            res@.len() == i,
            forall|j: int| 0 <= j < i ==> displays_rule(#[trigger] res@[j], rules@[j]),
    {
        res.push(rules[i].to_display());
    }
    res
}

/// Each site rule shown to a user, in order.
pub fn site_rules_to_display(rules: &Vec<SiteRule>) -> (res: Vec<RuleDisplay>)
    ensures
        res@.len() == rules@.len(),
        forall|i: int| 0 <= i < rules@.len() ==> displays_site_rule(#[trigger] res@[i], rules@[i]),
{
    let mut res: Vec<RuleDisplay> = Vec::new();
    for i in 0..rules.len()
        invariant
            res@.len() == i,
            forall|j: int| 0 <= j < i ==> displays_site_rule(#[trigger] res@[j], rules@[j]),
    {
        res.push(rules[i].to_display());
    }
    res
}

/// Which rules are switched on, and the severities set for rules.
pub struct RuleConfig {
    enabled_rules: TextMap<bool>,
    rule_severities: TextMap<Severity>,
}

/// Whether the switches `enabled` turn on the rule `rule_id` (a rule that was
/// never switched is off).
pub open spec fn enabled_in(enabled: Map<Seq<char>, bool>, rule_id: Seq<char>) -> bool {
    enabled.dom().contains(rule_id) && enabled[rule_id]
}

/// The severity that `severities` gives the rule `rule_id`, or `default`.
pub open spec fn severity_in(severities: Map<Seq<char>, Severity>, rule_id: Seq<char>, default: Severity) -> Severity {
    if severities.dom().contains(rule_id) {
        severities[rule_id]
    } else {
        default
    }
}

impl RuleConfig {
    /// The maps are well formed.
    pub closed spec fn wf(&self) -> bool {
        self.enabled_rules.wf() && self.rule_severities.wf()
    }

    /// The switch recorded for each rule.
    pub closed spec fn enabled_map(&self) -> Map<Seq<char>, bool> {
        self.enabled_rules.as_map()
    }

    /// The severity recorded for each rule.
    pub closed spec fn severity_map(&self) -> Map<Seq<char>, Severity> {
        self.rule_severities.as_map()
    }

    /// A configuration with no rule switched and no severity set.
    pub fn new() -> (res: Self)
        ensures
            res.wf(),
            res.enabled_map() == Map::<Seq<char>, bool>::empty(),
            res.severity_map() == Map::<Seq<char>, Severity>::empty(),
    {
        RuleConfig { enabled_rules: TextMap::new(), rule_severities: TextMap::new() }
    }

    /// Switches the rule on.
    pub fn enable_rule(&mut self, rule_id: &str)
        requires
            old(self).wf(),
        ensures
            final(self).wf(),
            final(self).enabled_map() == old(self).enabled_map().insert(rule_id@, true),
            final(self).severity_map() == old(self).severity_map(),
    {
        self.enabled_rules.insert(owned(rule_id), true);
    }

    /// Switches the rule off.
    pub fn disable_rule(&mut self, rule_id: &str)
        requires
            old(self).wf(),
        ensures
            final(self).wf(),
            final(self).enabled_map() == old(self).enabled_map().insert(rule_id@, false),
            final(self).severity_map() == old(self).severity_map(),
    {
        self.enabled_rules.insert(owned(rule_id), false);
    }

    /// Sets the severity of the rule.
    pub fn set_severity(&mut self, rule_id: &str, severity: Severity)
        requires
            old(self).wf(),
        ensures
            final(self).wf(),
            final(self).severity_map() == old(self).severity_map().insert(rule_id@, severity),
            final(self).enabled_map() == old(self).enabled_map(),
    {
        self.rule_severities.insert(owned(rule_id), severity);
    }

    /// Whether the rule is switched on.
    pub fn is_rule_enabled(&self, rule_id: &str) -> (res: bool)
        requires
            self.wf(),
        ensures
            res == enabled_in(self.enabled_map(), rule_id@),
    {
        match self.enabled_rules.get(rule_id) {
            Some(b) => *b,
            None => false,
        }
    }

    /// The severity set for the rule, or `default`.
    pub fn get_severity(&self, rule_id: &str, default: Severity) -> (res: Severity)
        requires
            self.wf(),
        ensures
            res == severity_in(self.severity_map(), rule_id@, default),
    {
        match self.rule_severities.get(rule_id) {
            Some(s) => *s,
            None => default,
        }
    }
}

impl Default for RuleConfig {
    fn default() -> (res: Self)
        ensures
            res.wf(),
            res.enabled_map() == Map::<Seq<char>, bool>::empty(),
            res.severity_map() == Map::<Seq<char>, Severity>::empty(),
    {
        Self::new()
    }
}

/// A rule switched on reads as on, one switched off reads as off, and a switch
/// leaves every other rule as it was.
pub proof fn law_switch_then_read(enabled: Map<Seq<char>, bool>, rule_id: Seq<char>, other: Seq<char>, on: bool)
    ensures
        enabled_in(enabled.insert(rule_id, on), rule_id) == on,
        other != rule_id ==> enabled_in(enabled.insert(rule_id, on), other) == enabled_in(enabled, other),
{
}

/// A severity that was set reads back, whatever the default; setting one
/// leaves the severity of every other rule as it was.
pub proof fn law_severity_set_then_read(severities: Map<Seq<char>, Severity>, rule_id: Seq<char>, other: Seq<char>, severity: Severity, default: Severity)
    ensures
        severity_in(severities.insert(rule_id, severity), rule_id, default) == severity,
        other != rule_id ==> severity_in(severities.insert(rule_id, severity), other, default) == severity_in(severities, other, default),
{
}

/// In a fresh configuration every rule is off and has its default severity.
pub proof fn law_fresh_config(rule_id: Seq<char>, default: Severity)
    ensures
        !enabled_in(Map::<Seq<char>, bool>::empty(), rule_id),
        severity_in(Map::<Seq<char>, Severity>::empty(), rule_id, default) == default,
{
}


/// A call that changes a configuration, as a view: switching a rule on or
/// off, or setting its severity.
pub enum ConfigCall {
    Enable(Seq<char>),
    Disable(Seq<char>),
    SetSeverity(Seq<char>, Severity),
}

/// The switches and severities after the calls `calls`, in order, starting
/// from `enabled` and `severities` (each call as `enable_rule`,
/// `disable_rule` and `set_severity` state it).
pub open spec fn after_calls(enabled: Map<Seq<char>, bool>, severities: Map<Seq<char>, Severity>, calls: Seq<ConfigCall>) -> (Map<Seq<char>, bool>, Map<Seq<char>, Severity>)
    decreases calls.len(),
{
    if calls.len() == 0 {
        (enabled, severities)
    } else {
        let (e, s) = after_calls(enabled, severities, calls.drop_last());
        match calls.last() {
            ConfigCall::Enable(id) => (e.insert(id, true), s),
            ConfigCall::Disable(id) => (e.insert(id, false), s),
            ConfigCall::SetSeverity(id, sev) => (e, s.insert(id, sev)),
        }
    }
}

/// Whether the last switch of `rule_id` among `calls` turned it on.
pub open spec fn last_switch_on(calls: Seq<ConfigCall>, rule_id: Seq<char>) -> bool
    decreases calls.len(),
{
    if calls.len() == 0 {
        false
    } else {
        match calls.last() {
            ConfigCall::Enable(id) => if id == rule_id { true } else { last_switch_on(calls.drop_last(), rule_id) },
            ConfigCall::Disable(id) => if id == rule_id { false } else { last_switch_on(calls.drop_last(), rule_id) },
            ConfigCall::SetSeverity(_, _) => last_switch_on(calls.drop_last(), rule_id),
        }
    }
}

/// The severity the last `SetSeverity` of `rule_id` among `calls` set, if
/// any.
pub open spec fn last_severity(calls: Seq<ConfigCall>, rule_id: Seq<char>) -> Option<Severity>
    decreases calls.len(),
{
    if calls.len() == 0 {
        None
    } else {
        match calls.last() {
            ConfigCall::SetSeverity(id, sev) => if id == rule_id { Some(sev) } else { last_severity(calls.drop_last(), rule_id) },
            _ => last_severity(calls.drop_last(), rule_id),
        }
    }
}

/// After any sequence of calls on a fresh configuration, a rule is on
/// exactly when the last call that switched it switched it on, and its
/// severity is the one last set for it, or the default.
pub proof fn law_last_call_wins(calls: Seq<ConfigCall>, rule_id: Seq<char>, default: Severity)
    ensures
        ({
            let (e, s) = after_calls(Map::<Seq<char>, bool>::empty(), Map::<Seq<char>, Severity>::empty(), calls);
            &&& enabled_in(e, rule_id) == last_switch_on(calls, rule_id)
            &&& severity_in(s, rule_id, default) == match last_severity(calls, rule_id) {
                Some(sev) => sev,
                None => default,
            }
        }),
    decreases calls.len(),
{
    if calls.len() > 0 {
        law_last_call_wins(calls.drop_last(), rule_id, default);
    }
}

} // verus!
