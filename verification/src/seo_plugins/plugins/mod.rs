//! The page plugins: each offers rules, and each rule runs a check on a page.
pub mod axe;
pub mod html;
pub mod image;
pub mod meta_description;
pub mod network_request;
pub mod request;
pub mod seo_basic;
pub mod title;

use vstd::prelude::*;
use crate::text::{concat2, decimal, owned, usize_to_decimal};
use super::utils::config::{enabled_in, results_view, CheckResult, ContextModel, PageCheck, Rule, RuleConfig, RuleResult, RuleResultModel, SiteCheckContext};
use super::utils::page::{page_queries_valid, Page, PageError};

verus! {

/// `res` reports `outcome` for the rule `rule_id`.
pub open spec fn reports(res: CheckResult, rule_id: Seq<char>, outcome: (bool, Seq<char>)) -> bool {
    res.rule_id@ == rule_id && res.passed == outcome.0 && res.message@ == outcome.1
}

/// The length of `s` in bytes of UTF-8, as `str::len` reports it.
pub open spec fn byte_len(s: Seq<char>) -> usize {
    vstd::utf8::encode_utf8(s).len() as usize
}

/// The text, or the empty text when there is none.
pub open spec fn or_empty(o: Option<Seq<char>>) -> Seq<char> {
    match o {
        Some(s) => s,
        None => Seq::empty(),
    }
}

/// How many elements of `s` satisfy `p`.
pub open spec fn count_where<T>(s: Seq<T>, p: spec_fn(T) -> bool) -> nat
    decreases s.len(),
{
    if s.len() == 0 {
        0
    } else {
        count_where(s.drop_last(), p) + if p(s.last()) { 1nat } else { 0nat }
    }
}

/// Counting over a prefix one element longer.
pub proof fn lemma_count_step<T>(s: Seq<T>, p: spec_fn(T) -> bool, i: int)
    requires
        0 <= i < s.len(),
    ensures
        count_where(s.take(i + 1), p) == count_where(s.take(i), p) + if p(s[i]) { 1nat } else { 0nat },
{
    assert(s.take(i + 1).drop_last() =~= s.take(i));
}

/// Counting over the whole sequence, as the last prefix.
pub proof fn lemma_count_all<T>(s: Seq<T>, p: spec_fn(T) -> bool)
    ensures
        count_where(s.take(s.len() as int), p) == count_where(s, p),
{
    assert(s.take(s.len() as int) =~= s);
}

/// No element counts, so none satisfies `p`.
pub proof fn lemma_count_zero<T>(s: Seq<T>, p: spec_fn(T) -> bool)
    ensures
        count_where(s, p) == 0 <==> forall|i: int| 0 <= i < s.len() ==> !p(#[trigger] s[i]),
    decreases s.len(),
{
    if s.len() > 0 {
        lemma_count_zero(s.drop_last(), p);
        assert forall|i: int| 0 <= i < s.len() - 1 implies s.drop_last()[i] == s[i] by {}
        if forall|i: int| 0 <= i < s.len() ==> !p(#[trigger] s[i]) {
            assert(!p(s[s.len() - 1]));
            assert forall|i: int| 0 <= i < s.drop_last().len() implies !p(#[trigger] s.drop_last()[i]) by {
                assert(s.drop_last()[i] == s[i]);
            }
        }
    }
}

/// Counting with a weaker property counts at least as many.
pub proof fn lemma_count_mono<T>(s: Seq<T>, p: spec_fn(T) -> bool, q: spec_fn(T) -> bool)
    requires
        forall|x: T| #[trigger] p(x) ==> q(x),
    ensures
        count_where(s, p) <= count_where(s, q),
    decreases s.len(),
{
    if s.len() > 0 {
        lemma_count_mono(s.drop_last(), p, q);
    }
}

/// No more elements are counted than there are.
pub proof fn lemma_count_le<T>(s: Seq<T>, p: spec_fn(T) -> bool)
    ensures
        count_where(s, p) <= s.len(),
    decreases s.len(),
{
    if s.len() > 0 {
        lemma_count_le(s.drop_last(), p);
    }
}

/// Counting over a sequence extended by one element.
pub proof fn lemma_count_push<T>(s: Seq<T>, p: spec_fn(T) -> bool, x: T)
    ensures
        count_where(s.push(x), p) == count_where(s, p) + if p(x) { 1nat } else { 0nat },
{
    assert(s.push(x).drop_last() =~= s);
}

/// The length of `s` in bytes of UTF-8.
pub fn text_byte_len(s: &String) -> (res: usize)
    ensures
        res == byte_len(s@),
{
    s.as_str().len()
}

/// The count `n` followed by `suffix`.
pub fn count_message(n: usize, suffix: &str) -> (res: String)
    ensures
        res@ == decimal(n as nat) + suffix@,
{
    let d = usize_to_decimal(n);
    concat2(d.as_str(), suffix)
}

/// `prefix`, then the count `n`, then `suffix`.
pub fn counted_message(prefix: &str, n: usize, suffix: &str) -> (res: String)
    ensures
        res@ == prefix@ + decimal(n as nat) + suffix@,
{
    let d = usize_to_decimal(n);
    crate::text::concat3(prefix, d.as_str(), suffix)
}

/// The outcome `passed` of the rule `rule_id`, with one of two messages.
pub fn outcome(rule_id: &str, passed: bool, passed_message: &str, failed_message: &str) -> (res: CheckResult)
    ensures
        res.rule_id@ == rule_id@,
        res.passed == passed,
        res.message@ == (if passed { passed_message@ } else { failed_message@ }),
{
    CheckResult {
        rule_id: owned(rule_id),
        passed,
        message: owned(if passed { passed_message } else { failed_message }),
    }
}

/// What the check `check` finds on `page`: whether it passes, and its
/// message; nothing when the check cannot run on the page.
pub open spec fn check_outcome(check: PageCheck, page: Page) -> Option<(bool, Seq<char>)> {
    let html = page.html_view();
    match check {
        PageCheck::TitleHasTitle => Some(title::has_title_outcome(html)),
        PageCheck::TitleLength => Some(title::title_length_outcome(html)),
        PageCheck::MetaDescriptionPresent => Some(meta_description::has_description_outcome(html)),
        PageCheck::MetaDescriptionLength => Some(meta_description::description_length_outcome(html)),
        PageCheck::RequestRedirects => Some(request::redirects_outcome(page)),
        PageCheck::ImagesResponsive => Some(image::responsive_outcome(html)),
        PageCheck::HtmlTitle => Some(title::has_title_outcome(html)),
        PageCheck::HtmlMetaDescription => Some(meta_description::has_description_outcome(html)),
        PageCheck::SeoBasicTitle => Some(title::has_title_outcome(html)),
        PageCheck::SeoBasicTitleLength => Some(title::title_length_outcome(html)),
        PageCheck::SeoBasicMetaDescription => Some(meta_description::has_description_outcome(html)),
        PageCheck::SeoBasicMetaDescriptionLength => Some(meta_description::description_length_outcome(html)),
        PageCheck::SeoBasicHasCanonicalUrl => Some(seo_basic::has_canonical_outcome(html)),
        PageCheck::SeoBasicCanonicalUrlMatchesSite => Some(seo_basic::canonical_matches_outcome(page)),
        PageCheck::AxeHtmlHasLang => axe::html_has_lang_outcome(html),
        PageCheck::AxeImageAlt => Some(axe::count_outcome(axe::counted(html, "img"@, axe::ElementTest::LacksAlt), "All images have alt text"@, ""@, " images missing alt text"@)),
        PageCheck::AxeMetaViewport => Some(axe::meta_viewport_outcome(html)),
        PageCheck::AxeDocumentTitle => Some(axe::document_title_outcome(html)),
        PageCheck::AxeButtonName => Some(axe::count_outcome(axe::counted(html, "button"@, axe::ElementTest::LacksAccessibleName), "All buttons have accessible names"@, ""@, " buttons missing accessible names"@)),
        PageCheck::AxeLinkName => Some(axe::count_outcome(axe::counted(html, "a"@, axe::ElementTest::LacksAccessibleName), "All links have accessible names"@, ""@, " links missing accessible names"@)),
        PageCheck::AxeFormFieldLabels => Some(axe::count_outcome(axe::counted(html, "input, select, textarea"@, axe::ElementTest::FieldUnlabelled), "All form fields have labels"@, ""@, " form fields missing labels"@)),
        PageCheck::AxeAriaValidAttr => Some(axe::count_outcome(axe::counted(html, "*"@, axe::ElementTest::HasInvalidAria), "All ARIA attributes are valid"@, "Found "@, " elements with invalid ARIA attributes"@)),
        PageCheck::AxeAriaRequiredAttr => Some(axe::count_outcome(axe::counted(html, "[role]"@, axe::ElementTest::MissesRequiredAria), "All ARIA roles have required attributes"@, "Found "@, " elements missing required ARIA attributes"@)),
        PageCheck::AxeDuplicateId => Some(axe::count_outcome(axe::duplicate_id_count(html), "No duplicate IDs found"@, "Found "@, " duplicate IDs"@)),
        PageCheck::AxeFrameTitle => Some(axe::count_outcome(axe::counted(html, "frame, iframe"@, axe::ElementTest::LacksTitle), "All frames have title attributes"@, ""@, " frames missing title attributes"@)),
        PageCheck::AxeTabindex => Some(axe::count_outcome(axe::counted(html, "[tabindex]"@, axe::ElementTest::PositiveTabindex), "No invalid tabindex values found"@, "Found "@, " elements with invalid tabindex values"@)),
    }
}

/// Runs the check `check` of the rule `rule_id` on `page`. Fails with
/// `ElementNotFound` when the check cannot run on the page.
pub fn run_check(check: PageCheck, rule_id: &str, page: &Page) -> (res: Result<CheckResult, PageError>)
    requires
        page_queries_valid(),
    ensures
        match check_outcome(check, *page) {
            Some(o) => res matches Ok(r) && reports(r, rule_id@, o),
            None => res matches Err(PageError::ElementNotFound),
        },
{
    match check {
        PageCheck::TitleHasTitle => Ok(title::check_has_title(page, rule_id)),
        PageCheck::TitleLength => Ok(title::check_title_length(page, rule_id)),
        PageCheck::MetaDescriptionPresent => Ok(meta_description::check_has_description(page, rule_id)),
        PageCheck::MetaDescriptionLength => Ok(meta_description::check_description_length(page, rule_id)),
        PageCheck::RequestRedirects => Ok(request::check_redirects(page, rule_id)),
        PageCheck::ImagesResponsive => Ok(image::check_responsive(page, rule_id)),
        PageCheck::HtmlTitle => Ok(title::check_has_title(page, rule_id)),
        PageCheck::HtmlMetaDescription => Ok(meta_description::check_has_description(page, rule_id)),
        PageCheck::SeoBasicTitle => Ok(title::check_has_title(page, rule_id)),
        PageCheck::SeoBasicTitleLength => Ok(title::check_title_length(page, rule_id)),
        PageCheck::SeoBasicMetaDescription => Ok(meta_description::check_has_description(page, rule_id)),
        PageCheck::SeoBasicMetaDescriptionLength => Ok(meta_description::check_description_length(page, rule_id)),
        PageCheck::SeoBasicHasCanonicalUrl => Ok(seo_basic::check_has_canonical(page, rule_id)),
        PageCheck::SeoBasicCanonicalUrlMatchesSite => Ok(seo_basic::check_canonical_matches(page, rule_id)),
        PageCheck::AxeHtmlHasLang => axe::check_html_has_lang(page, rule_id),
        PageCheck::AxeImageAlt => Ok(axe::check_image_alt(page, rule_id)),
        PageCheck::AxeMetaViewport => Ok(axe::check_meta_viewport(page, rule_id)),
        PageCheck::AxeDocumentTitle => Ok(axe::check_document_title(page, rule_id)),
        PageCheck::AxeButtonName => Ok(axe::check_button_name(page, rule_id)),
        PageCheck::AxeLinkName => Ok(axe::check_link_name(page, rule_id)),
        PageCheck::AxeFormFieldLabels => Ok(axe::check_form_field_labels(page, rule_id)),
        PageCheck::AxeAriaValidAttr => Ok(axe::check_aria_valid_attr(page, rule_id)),
        PageCheck::AxeAriaRequiredAttr => Ok(axe::check_aria_required_attr(page, rule_id)),
        PageCheck::AxeDuplicateId => Ok(axe::check_duplicate_id(page, rule_id)),
        PageCheck::AxeFrameTitle => Ok(axe::check_frame_title(page, rule_id)),
        PageCheck::AxeTabindex => Ok(axe::check_tabindex(page, rule_id)),
    }
}

/// The elements of `s` that satisfy `p`, in order.
pub open spec fn keep_where<T>(s: Seq<T>, p: spec_fn(T) -> bool) -> Seq<T>
    decreases s.len(),
{
    if s.len() == 0 {
        Seq::empty()
    } else {
        let rest = keep_where(s.drop_last(), p);
        if p(s.last()) { rest.push(s.last()) } else { rest }
    }
}

/// The position of the first element of `s` that satisfies `p`.
pub open spec fn first_match<T>(s: Seq<T>, p: spec_fn(T) -> bool) -> Option<int>
    decreases s.len(),
{
    if s.len() == 0 {
        None
    } else {
        match first_match(s.drop_last(), p) {
            Some(i) => Some(i),
            None => if p(s.last()) { Some(s.len() - 1) } else { None },
        }
    }
}

/// How the first match of a sequence shows in its prefixes: a prefix
/// without a match followed by a matching element gives the first match,
/// and a whole sequence without one has none.
pub proof fn lemma_first_match_prefix<T>(s: Seq<T>, p: spec_fn(T) -> bool, n: int)
    requires
        0 <= n <= s.len(),
        first_match(s.take(n), p) is None,
    ensures
        n < s.len() && p(s[n]) ==> first_match(s, p) == Some(n),
        n == s.len() ==> first_match(s, p) is None,
    decreases s.len() - n,
{
    if n < s.len() {
        assert(s.take(n + 1).drop_last() =~= s.take(n));
        assert(s.take(n + 1).last() == s[n]);
        if p(s[n]) {
            assert(first_match(s.take(n + 1), p) == Some(n));
            lemma_first_match_keeps(s, p, n + 1);
        } else {
            lemma_first_match_prefix(s, p, n + 1);
        }
    } else {
        assert(s.take(n) =~= s);
    }
}

/// A match found in a prefix is the first match of the whole.
pub proof fn lemma_first_match_keeps<T>(s: Seq<T>, p: spec_fn(T) -> bool, n: int)
    requires
        0 <= n <= s.len(),
        first_match(s.take(n), p) is Some,
    ensures
        first_match(s, p) == first_match(s.take(n), p),
    decreases s.len() - n,
{
    if n < s.len() {
        assert(s.take(n + 1).drop_last() =~= s.take(n));
        lemma_first_match_keeps(s, p, n + 1);
    } else {
        assert(s.take(n) =~= s);
    }
}

/// The first match lies within the sequence and matches.
pub proof fn lemma_first_match_bounds<T>(s: Seq<T>, p: spec_fn(T) -> bool)
    ensures
        first_match(s, p) matches Some(i) ==> 0 <= i < s.len() && p(s[i]),
        first_match(s, p) is None ==> forall|i: int| 0 <= i < s.len() ==> !p(#[trigger] s[i]),
    decreases s.len(),
{
    if s.len() > 0 {
        lemma_first_match_bounds(s.drop_last(), p);
        assert forall|i: int| 0 <= i < s.len() - 1 implies s.drop_last()[i] == s[i] by {}
    }
}

/// Each rule of `rules` paired with the name of the plugin that offers it.
pub open spec fn named_rules(rules: Seq<Rule>, plugin_name: Seq<char>) -> Seq<(Rule, Seq<char>)> {
    rules.map_values(|r: Rule| (r, plugin_name))
}

/// The rules of `named` that the switches `enabled` turn on, in order.
pub open spec fn enabled_rules(named: Seq<(Rule, Seq<char>)>, enabled: Map<Seq<char>, bool>) -> Seq<(Rule, Seq<char>)> {
    keep_where(named, |p: (Rule, Seq<char>)| enabled_in(enabled, p.0.id@))
}

/// `res` records the outcome `o` of `rule` from the plugin `plugin_name`.
pub open spec fn records_outcome(res: RuleResult, rule: Rule, plugin_name: Seq<char>, o: (bool, Seq<char>)) -> bool {
    &&& res.rule_id@ == rule.id@
    &&& res.name@ == rule.name@
    &&& res.plugin_name@ == plugin_name
    &&& res.passed == o.0
    &&& res.message@ == o.1
    &&& res.severity == rule.default_severity
    &&& res.category == rule.category
    &&& res.context is Empty
}

/// `v` holds one result per enabled rule of `named`, in order, each
/// recording what the rule's check finds on `page`.
pub open spec fn records_all(v: Seq<RuleResult>, named: Seq<(Rule, Seq<char>)>, page: Page, enabled: Map<Seq<char>, bool>) -> bool {
    let er = enabled_rules(named, enabled);
    &&& v.len() == er.len()
    &&& forall|k: int| 0 <= k < er.len() ==> (#[trigger] check_outcome(er[k].0.check, page)) is Some
    &&& forall|k: int| 0 <= k < er.len() ==> records_outcome(#[trigger] v[k], er[k].0, er[k].1, check_outcome(er[k].0.check, page)->Some_0)
}

/// Some enabled rule of `named` cannot run on `page`.
pub open spec fn some_rule_fails(named: Seq<(Rule, Seq<char>)>, page: Page, enabled: Map<Seq<char>, bool>) -> bool {
    let er = enabled_rules(named, enabled);
    exists|k: int| 0 <= k < er.len() && (#[trigger] check_outcome(er[k].0.check, page)) is None
}

/// `res` is what running the enabled rules of `named` on `page` gives: one
/// result per enabled rule, in order; or, when some enabled rule cannot run
/// on the page, `ElementNotFound`.
pub open spec fn analyzes(res: Result<Vec<RuleResult>, PageError>, named: Seq<(Rule, Seq<char>)>, page: Page, enabled: Map<Seq<char>, bool>) -> bool {
    match res {
        Ok(v) => records_all(v@, named, page, enabled),
        Err(e) => (e matches PageError::ElementNotFound) && some_rule_fails(named, page, enabled),
    }
}

/// The view of the result of `rule` from the plugin `plugin_name` with
/// outcome `o`.
pub open spec fn outcome_model(rule: Rule, plugin_name: Seq<char>, o: (bool, Seq<char>)) -> RuleResultModel {
    RuleResultModel {
        rule_id: rule.id@,
        name: rule.name@,
        plugin_name,
        passed: o.0,
        message: o.1,
        severity: rule.default_severity,
        category: rule.category,
        context: ContextModel::Empty,
    }
}

/// The results of the enabled rules of `named` on `page`, in order.
pub open spec fn analysis_results(named: Seq<(Rule, Seq<char>)>, page: Page, enabled: Map<Seq<char>, bool>) -> Seq<RuleResultModel> {
    enabled_rules(named, enabled).map_values(|p: (Rule, Seq<char>)| outcome_model(p.0, p.1, check_outcome(p.0.check, page)->Some_0))
}

/// Recorded results are the results of the enabled rules.
pub proof fn lemma_records_view(v: Seq<RuleResult>, named: Seq<(Rule, Seq<char>)>, page: Page, enabled: Map<Seq<char>, bool>)
    requires
        records_all(v, named, page, enabled),
    ensures
        results_view(v) == analysis_results(named, page, enabled),
{
    let er = enabled_rules(named, enabled);
    assert forall|k: int| 0 <= k < v.len() implies #[trigger] results_view(v)[k] == analysis_results(named, page, enabled)[k] by {
        assert(records_outcome(v[k], er[k].0, er[k].1, check_outcome(er[k].0.check, page)->Some_0));
    }
    assert(results_view(v) =~= analysis_results(named, page, enabled));
}

/// The result of one rule that ran on a page.
pub fn rule_result(rule: &Rule, plugin_name: &str, checked: CheckResult) -> (res: RuleResult)
    ensures
        res.rule_id@ == checked.rule_id@,
        res.name@ == rule.name@,
        res.plugin_name@ == plugin_name@,
        res.passed == checked.passed,
        res.message@ == checked.message@,
        res.severity == rule.default_severity,
        res.category == rule.category,
        res.context is Empty,
{
    RuleResult {
        rule_id: checked.rule_id,
        name: owned(rule.name),
        plugin_name: owned(plugin_name),
        passed: checked.passed,
        message: checked.message,
        severity: rule.default_severity,
        category: rule.category,
        context: SiteCheckContext::Empty,
    }
}

/// Runs the enabled rules of `rules` (those of the plugin `plugin_name`) on
/// `page`, each with its default severity.
pub fn analyze_rules(rules: &Vec<Rule>, plugin_name: &str, page: &Page, config: &RuleConfig) -> (res: Result<Vec<RuleResult>, PageError>)
    requires
        page_queries_valid(),
        config.wf(),
    ensures
        analyzes(res, named_rules(rules@, plugin_name@), *page, config.enabled_map()),
{
    let ghost enabled = config.enabled_map();
    let ghost named = named_rules(rules@, plugin_name@);
    let ghost pred = |p: (Rule, Seq<char>)| enabled_in(enabled, p.0.id@);
    let mut out: Vec<RuleResult> = Vec::new();
    assert(named.take(0) =~= Seq::<(Rule, Seq<char>)>::empty());
    let ghost mut kept: Seq<(Rule, Seq<char>)> = Seq::empty();
    for i in 0..rules.len()
        invariant
            page_queries_valid(),
            config.wf(),
            enabled == config.enabled_map(),
            named == named_rules(rules@, plugin_name@),
            pred == (|p: (Rule, Seq<char>)| enabled_in(enabled, p.0.id@)),
            kept == keep_where(named.take(i as int), pred),
            out@.len() == kept.len(),
            forall|k: int| 0 <= k < kept.len() ==> (#[trigger] check_outcome(kept[k].0.check, *page)) is Some,
            forall|k: int| 0 <= k < kept.len() ==> records_outcome(#[trigger] out@[k], kept[k].0, kept[k].1, check_outcome(kept[k].0.check, *page)->Some_0),
    {
        let rule = rules[i];
        let ghost item = (rule, plugin_name@);
        assert(named.take(i + 1).drop_last() =~= named.take(i as int));
        assert(named.take(i + 1).last() == item);
        if config.is_rule_enabled(rule.id) {
            assert(pred(item));
            assert(keep_where(named.take(i + 1), pred) == kept.push(item));
            match run_check(rule.check, rule.id, page) {
                Ok(result) => {
                    out.push(rule_result(&rule, plugin_name, result));
                    proof { kept = kept.push(item); }
                },
                Err(e) => {
                    proof {
                        let er = enabled_rules(named, enabled);
                        let k = kept.len() as int;
                        let kept1 = kept.push(item);
                        assert(kept1[k] == item);
                        lemma_filter_prefix(named, pred, i + 1);
                        assert(kept1.is_prefix_of(er));
                        assert(er[k] == item);
                    }
                    return Err(e);
                },
            }
        } else {
            assert(!pred(item));
            assert(keep_where(named.take(i + 1), pred) == kept);
        }
    }
    assert(named.take(named.len() as int) =~= named);
    Ok(out)
}

/// Keeping from a concatenation keeps from each part.
pub proof fn lemma_keep_concat<T>(a: Seq<T>, b: Seq<T>, p: spec_fn(T) -> bool)
    ensures
        keep_where(a + b, p) == keep_where(a, p) + keep_where(b, p),
    decreases b.len(),
{
    if b.len() == 0 {
        assert(a + b =~= a);
        assert(keep_where(a, p) + keep_where(b, p) =~= keep_where(a, p));
    } else {
        lemma_keep_concat(a, b.drop_last(), p);
        assert((a + b).drop_last() =~= a + b.drop_last());
        assert((a + b).last() == b.last());
        if p(b.last()) {
            assert(keep_where(a, p) + keep_where(b.drop_last(), p).push(b.last())
                =~= (keep_where(a, p) + keep_where(b.drop_last(), p)).push(b.last()));
        }
    }
}

/// Results recorded for two runs of rules, one after the other, are the
/// results recorded for the rules of both.
pub proof fn lemma_records_concat(v1: Seq<RuleResult>, n1: Seq<(Rule, Seq<char>)>, v2: Seq<RuleResult>, n2: Seq<(Rule, Seq<char>)>, page: Page, enabled: Map<Seq<char>, bool>)
    requires
        records_all(v1, n1, page, enabled),
        records_all(v2, n2, page, enabled),
    ensures
        records_all(v1 + v2, n1 + n2, page, enabled),
{
    let pred = |p: (Rule, Seq<char>)| enabled_in(enabled, p.0.id@);
    lemma_keep_concat(n1, n2, pred);
    let e1 = enabled_rules(n1, enabled);
    let e2 = enabled_rules(n2, enabled);
    let er = enabled_rules(n1 + n2, enabled);
    assert(er == e1 + e2);
    assert forall|k: int| 0 <= k < er.len() implies (#[trigger] check_outcome(er[k].0.check, page)) is Some by {
        if k < e1.len() { assert(er[k] == e1[k]); } else { assert(er[k] == e2[k - e1.len()]); }
    }
    assert forall|k: int| 0 <= k < er.len() implies records_outcome(#[trigger] (v1 + v2)[k], er[k].0, er[k].1, check_outcome(er[k].0.check, page)->Some_0) by {
        if k < e1.len() {
            assert(er[k] == e1[k]);
            assert((v1 + v2)[k] == v1[k]);
        } else {
            assert(er[k] == e2[k - e1.len()]);
            assert((v1 + v2)[k] == v2[k - v1.len()]);
        }
    }
}

/// A rule that cannot run in one part cannot run in the whole.
pub proof fn lemma_fails_concat(n1: Seq<(Rule, Seq<char>)>, n2: Seq<(Rule, Seq<char>)>, page: Page, enabled: Map<Seq<char>, bool>)
    requires
        some_rule_fails(n1, page, enabled) || some_rule_fails(n2, page, enabled),
    ensures
        some_rule_fails(n1 + n2, page, enabled),
{
    let pred = |p: (Rule, Seq<char>)| enabled_in(enabled, p.0.id@);
    lemma_keep_concat(n1, n2, pred);
    let e1 = enabled_rules(n1, enabled);
    let e2 = enabled_rules(n2, enabled);
    let er = enabled_rules(n1 + n2, enabled);
    assert(er == e1 + e2);
    if some_rule_fails(n1, page, enabled) {
        let k = choose|k: int| 0 <= k < e1.len() && (#[trigger] check_outcome(e1[k].0.check, page)) is None;
        assert(er[k] == e1[k]);
    } else {
        let k = choose|k: int| 0 <= k < e2.len() && (#[trigger] check_outcome(e2[k].0.check, page)) is None;
        assert(er[k + e1.len()] == e2[k]);
    }
}

/// Keeping from a prefix gives a prefix of the filtered sequence.
pub proof fn lemma_filter_prefix<T>(s: Seq<T>, p: spec_fn(T) -> bool, n: int)
    requires
        0 <= n <= s.len(),
    ensures
        keep_where(s.take(n), p).is_prefix_of(keep_where(s, p)),
    decreases s.len() - n,
{
    if n < s.len() {
        lemma_filter_prefix(s, p, n + 1);
        assert(s.take(n + 1).drop_last() =~= s.take(n));
    } else {
        assert(s.take(n) =~= s);
    }
}

} // verus!
