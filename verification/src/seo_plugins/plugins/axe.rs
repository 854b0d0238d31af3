//! The accessibility plugin: checks modelled on the Axe rules.
use vstd::prelude::*;
use crate::seo_plugins::utils::config::{RuleConfig, RuleResult};
use super::{analyze_rules, analyzes, named_rules};
use crate::html_doc::{attr_of, element_view, elements_view, spec_select, spec_selector_parses, ElementData, ElementView};
use crate::seo_plugins::utils::config::{CheckResult, PageCheck, Rule, RuleCategory, Severity};
use crate::seo_plugins::utils::page::{Page, PageError, image_of, image_view, lemma_page_queries, meta_of_document, page_queries_valid};
use crate::text::{all_white_space, concat3, contains, decimal, has_prefix, has_substring, owned,
    parse_i32, spec_parse_i32, starts_with, str_eq, trims_to_empty};
use crate::text_map::TextMap;
use super::{count_message, count_where, counted_message, lemma_count_all, lemma_count_le, lemma_count_push, lemma_count_step, lemma_count_zero, or_empty, outcome, reports};

verus! {

/// Checks accessibility.
pub struct AxePlugin {}

/// The name of the plugin.
pub const AXE_PLUGIN_NAME: &'static str = "Axe";

/// What the plugin is about.
pub const AXE_PLUGIN_DESCRIPTION: &'static str = "Accessibility testing using Axe rules";

/// The rules of the accessibility plugin.
pub open spec fn axe_rules() -> Seq<Rule> {
    seq![
        Rule {
            id: "axe.html_has_lang",
            name: "HTML has lang attribute",
            description: "Ensures every HTML document has a lang attribute",
            default_severity: Severity::Error,
            category: RuleCategory::Accessibility,
            check: PageCheck::AxeHtmlHasLang,
        },
        Rule {
            id: "axe.image_alt",
            name: "Images have alt text",
            description: "Ensures <img> elements have alternate text or a role of none or presentation",
            default_severity: Severity::Error,
            category: RuleCategory::Accessibility,
            check: PageCheck::AxeImageAlt,
        },
        Rule {
            id: "axe.meta_viewport",
            name: "Meta viewport allows zoom",
            description: "Ensures the meta viewport element does not disable text scaling and zooming",
            default_severity: Severity::Error,
            category: RuleCategory::Accessibility,
            check: PageCheck::AxeMetaViewport,
        },
        Rule {
            id: "axe.document_title",
            name: "Document has title",
            description: "Ensures the document has a title element",
            default_severity: Severity::Error,
            category: RuleCategory::Accessibility,
            check: PageCheck::AxeDocumentTitle,
        },
        Rule {
            id: "axe.button_name",
            name: "Buttons have accessible name",
            description: "Ensures buttons have an accessible name",
            default_severity: Severity::Error,
            category: RuleCategory::Accessibility,
            check: PageCheck::AxeButtonName,
        },
        Rule {
            id: "axe.link_name",
            name: "Links have accessible name",
            description: "Ensures links have an accessible name",
            default_severity: Severity::Error,
            category: RuleCategory::Accessibility,
            check: PageCheck::AxeLinkName,
        },
        Rule {
            id: "axe.form_field_labels",
            name: "Form fields have labels",
            description: "Ensures form fields have associated labels",
            default_severity: Severity::Error,
            category: RuleCategory::Accessibility,
            check: PageCheck::AxeFormFieldLabels,
        },
        Rule {
            id: "axe.aria_valid_attr",
            name: "ARIA attributes are valid",
            description: "Ensures ARIA attributes are valid",
            default_severity: Severity::Error,
            category: RuleCategory::Accessibility,
            check: PageCheck::AxeAriaValidAttr,
        },
        Rule {
            id: "axe.aria_required_attr",
            name: "ARIA required attributes",
            description: "Ensures elements with ARIA roles have required attributes",
            default_severity: Severity::Error,
            category: RuleCategory::Accessibility,
            check: PageCheck::AxeAriaRequiredAttr,
        },
        Rule {
            id: "axe.duplicate_id",
            name: "No duplicate IDs",
            description: "Ensures IDs are unique",
            default_severity: Severity::Error,
            category: RuleCategory::Accessibility,
            check: PageCheck::AxeDuplicateId,
        },
        Rule {
            id: "axe.frame_title",
            name: "Frames have title",
            description: "Ensures frames have title attributes",
            default_severity: Severity::Error,
            category: RuleCategory::Accessibility,
            check: PageCheck::AxeFrameTitle,
        },
        Rule {
            id: "axe.tabindex",
            name: "Valid tabindex values",
            description: "Ensures tabindex values are valid",
            default_severity: Severity::Warning,
            category: RuleCategory::Accessibility,
            check: PageCheck::AxeTabindex,
        },
    ]
}

impl AxePlugin {
    /// The plugin.
    pub fn new() -> (res: Self) {
        AxePlugin {}
    }

    /// The plugin's name.
    pub fn name(&self) -> (res: &'static str)
        ensures
            res@ == AXE_PLUGIN_NAME@,
    {
        AXE_PLUGIN_NAME
    }

    /// What the plugin is about.
    pub fn description(&self) -> (res: &'static str)
        ensures
            res@ == AXE_PLUGIN_DESCRIPTION@,
    {
        AXE_PLUGIN_DESCRIPTION
    }

    /// The rules this plugin checks.
    pub fn available_rules(&self) -> (res: Vec<Rule>)
        ensures
            res@ == axe_rules(),
    {
        vec![
            Rule {
                id: "axe.html_has_lang",
                name: "HTML has lang attribute",
                description: "Ensures every HTML document has a lang attribute",
                default_severity: Severity::Error,
                category: RuleCategory::Accessibility,
                check: PageCheck::AxeHtmlHasLang,
            },
            Rule {
                id: "axe.image_alt",
                name: "Images have alt text",
                description: "Ensures <img> elements have alternate text or a role of none or presentation",
                default_severity: Severity::Error,
                category: RuleCategory::Accessibility,
                check: PageCheck::AxeImageAlt,
            },
            Rule {
                id: "axe.meta_viewport",
                name: "Meta viewport allows zoom",
                description: "Ensures the meta viewport element does not disable text scaling and zooming",
                default_severity: Severity::Error,
                category: RuleCategory::Accessibility,
                check: PageCheck::AxeMetaViewport,
            },
            Rule {
                id: "axe.document_title",
                name: "Document has title",
                description: "Ensures the document has a title element",
                default_severity: Severity::Error,
                category: RuleCategory::Accessibility,
                check: PageCheck::AxeDocumentTitle,
            },
            Rule {
                id: "axe.button_name",
                name: "Buttons have accessible name",
                description: "Ensures buttons have an accessible name",
                default_severity: Severity::Error,
                category: RuleCategory::Accessibility,
                check: PageCheck::AxeButtonName,
            },
            Rule {
                id: "axe.link_name",
                name: "Links have accessible name",
                description: "Ensures links have an accessible name",
                default_severity: Severity::Error,
                category: RuleCategory::Accessibility,
                check: PageCheck::AxeLinkName,
            },
            Rule {
                id: "axe.form_field_labels",
                name: "Form fields have labels",
                description: "Ensures form fields have associated labels",
                default_severity: Severity::Error,
                category: RuleCategory::Accessibility,
                check: PageCheck::AxeFormFieldLabels,
            },
            Rule {
                id: "axe.aria_valid_attr",
                name: "ARIA attributes are valid",
                description: "Ensures ARIA attributes are valid",
                default_severity: Severity::Error,
                category: RuleCategory::Accessibility,
                check: PageCheck::AxeAriaValidAttr,
            },
            Rule {
                id: "axe.aria_required_attr",
                name: "ARIA required attributes",
                description: "Ensures elements with ARIA roles have required attributes",
                default_severity: Severity::Error,
                category: RuleCategory::Accessibility,
                check: PageCheck::AxeAriaRequiredAttr,
            },
            Rule {
                id: "axe.duplicate_id",
                name: "No duplicate IDs",
                description: "Ensures IDs are unique",
                default_severity: Severity::Error,
                category: RuleCategory::Accessibility,
                check: PageCheck::AxeDuplicateId,
            },
            Rule {
                id: "axe.frame_title",
                name: "Frames have title",
                description: "Ensures frames have title attributes",
                default_severity: Severity::Error,
                category: RuleCategory::Accessibility,
                check: PageCheck::AxeFrameTitle,
            },
            Rule {
                id: "axe.tabindex",
                name: "Valid tabindex values",
                description: "Ensures tabindex values are valid",
                default_severity: Severity::Warning,
                category: RuleCategory::Accessibility,
                check: PageCheck::AxeTabindex,
            },
        ]
    }

    /// Runs the plugin's enabled rules on `page`, in order. Fails with
    /// `ElementNotFound` when an enabled rule cannot run on the page.
    pub fn analyze(&self, page: &Page, config: &RuleConfig) -> (res: Result<Vec<RuleResult>, PageError>)
        requires
            page_queries_valid(),
            config.wf(),
        ensures
            analyzes(res, named_rules(axe_rules(), AXE_PLUGIN_NAME@), *page, config.enabled_map()),
    {
        let rules = self.available_rules();
        analyze_rules(&rules, self.name(), page, config)
    }
}

/// The ARIA attributes that exist.
pub open spec fn aria_attributes() -> Seq<Seq<char>> {
    seq![
        "aria-activedescendant"@, "aria-atomic"@, "aria-autocomplete"@, "aria-busy"@,
        "aria-checked"@, "aria-colcount"@, "aria-colindex"@, "aria-colspan"@, "aria-controls"@,
        "aria-current"@, "aria-describedby"@, "aria-details"@, "aria-disabled"@,
        "aria-dropeffect"@, "aria-errormessage"@, "aria-expanded"@, "aria-flowto"@,
        "aria-grabbed"@, "aria-haspopup"@, "aria-hidden"@, "aria-invalid"@,
        "aria-keyshortcuts"@, "aria-label"@, "aria-labelledby"@, "aria-level"@, "aria-live"@,
        "aria-modal"@, "aria-multiline"@, "aria-multiselectable"@, "aria-orientation"@,
        "aria-owns"@, "aria-placeholder"@, "aria-posinset"@, "aria-pressed"@,
        "aria-readonly"@, "aria-relevant"@, "aria-required"@, "aria-roledescription"@,
        "aria-rowcount"@, "aria-rowindex"@, "aria-rowspan"@, "aria-selected"@,
        "aria-setsize"@, "aria-sort"@, "aria-valuemax"@, "aria-valuemin"@, "aria-valuenow"@,
        "aria-valuetext"@,
    ]
}

/// Whether `attr` is one of the ARIA attributes that exist.
pub fn is_valid_aria_attribute(attr: &str) -> (res: bool)
    ensures
        res == aria_attributes().contains(attr@),
{
    let valid_attrs: [&str; 48] = [
        "aria-activedescendant", "aria-atomic", "aria-autocomplete", "aria-busy",
        "aria-checked", "aria-colcount", "aria-colindex", "aria-colspan", "aria-controls",
        "aria-current", "aria-describedby", "aria-details", "aria-disabled",
        "aria-dropeffect", "aria-errormessage", "aria-expanded", "aria-flowto",
        "aria-grabbed", "aria-haspopup", "aria-hidden", "aria-invalid",
        "aria-keyshortcuts", "aria-label", "aria-labelledby", "aria-level", "aria-live",
        "aria-modal", "aria-multiline", "aria-multiselectable", "aria-orientation",
        "aria-owns", "aria-placeholder", "aria-posinset", "aria-pressed",
        "aria-readonly", "aria-relevant", "aria-required", "aria-roledescription",
        "aria-rowcount", "aria-rowindex", "aria-rowspan", "aria-selected",
        "aria-setsize", "aria-sort", "aria-valuemax", "aria-valuemin", "aria-valuenow",
        "aria-valuetext",
    ];
    let ghost names = aria_attributes();
    assert(valid_attrs@.map_values(|s: &str| s@) =~= names);
    let mut i: usize = 0;
    while i < 48
        invariant
            0 <= i <= 48,
            names == aria_attributes(),
            valid_attrs@.map_values(|s: &str| s@) == names,
            forall|j: int| 0 <= j < i ==> names[j] != attr@,
        decreases 48 - i,
    {
        assert(valid_attrs@.map_values(|s: &str| s@)[i as int] == names[i as int]);
        if str_eq(valid_attrs[i], attr) {
            assert(names[i as int] == attr@);
            return true;
        }
        i = i + 1;
    }
    false
}

/// The attributes that an element with ARIA role `role` must have.
pub open spec fn required_aria(role: Seq<char>) -> Seq<Seq<char>> {
    if role == "checkbox"@ {
        seq!["aria-checked"@]
    } else if role == "combobox"@ {
        seq!["aria-expanded"@]
    } else if role == "slider"@ {
        seq!["aria-valuenow"@, "aria-valuemin"@, "aria-valuemax"@]
    } else if role == "spinbutton"@ {
        seq!["aria-valuenow"@, "aria-valuemin"@, "aria-valuemax"@]
    } else if role == "tablist"@ {
        seq!["aria-orientation"@]
    } else if role == "tab"@ {
        seq!["aria-selected"@]
    } else if role == "treeitem"@ {
        seq!["aria-expanded"@]
    } else {
        seq![]
    }
}

/// The attributes that an element with ARIA role `role` must have.
pub fn get_required_aria_attributes(role: &str) -> (res: Vec<&'static str>)
    ensures
        res@.map_values(|s: &str| s@) == required_aria(role@),
{
    let res: Vec<&'static str> = if str_eq(role, "checkbox") {
        vec!["aria-checked"]
    } else if str_eq(role, "combobox") {
        vec!["aria-expanded"]
    } else if str_eq(role, "slider") {
        vec!["aria-valuenow", "aria-valuemin", "aria-valuemax"]
    } else if str_eq(role, "spinbutton") {
        vec!["aria-valuenow", "aria-valuemin", "aria-valuemax"]
    } else if str_eq(role, "tablist") {
        vec!["aria-orientation"]
    } else if str_eq(role, "tab") {
        vec!["aria-selected"]
    } else if str_eq(role, "treeitem") {
        vec!["aria-expanded"]
    } else {
        vec![]
    };
    assert(res@.map_values(|s: &str| s@) =~= required_aria(role@));
    res
}

/// The element has neither text (other than white space) nor an ARIA label.
pub open spec fn lacks_accessible_name(e: ElementView) -> bool {
    all_white_space(e.2) && attr_of(e.0, "aria-label"@) is None && attr_of(e.0, "aria-labelledby"@) is None
}

/// The selector for the labels of the field with id `id`.
pub open spec fn label_selector(id: Seq<char>) -> Seq<char> {
    "label[for="@ + id + "]"@
}

/// The form field has no associated label: it has no id, or the page has no
/// `<label for=..>` naming its id.
pub open spec fn field_unlabelled(html: Seq<char>, e: ElementView) -> bool {
    match attr_of(e.0, "id"@) {
        Some(id) => !(spec_selector_parses(label_selector(id)) && spec_select(html, label_selector(id)).len() > 0),
        None => true,
    }
}

/// The element has an attribute named `aria-...` that is not an ARIA
/// attribute.
pub open spec fn has_invalid_aria(e: ElementView) -> bool {
    exists|k: int| 0 <= k < e.0.len() && has_prefix(#[trigger] e.0[k].2, "aria-"@) && !aria_attributes().contains(e.0[k].2)
}

/// The element has an ARIA role and lacks an attribute that the role needs.
pub open spec fn misses_required_aria(e: ElementView) -> bool {
    match attr_of(e.0, "role"@) {
        Some(r) => exists|k: int| 0 <= k < required_aria(r).len() && attr_of(e.0, #[trigger] required_aria(r)[k]) is None,
        None => false,
    }
}

/// The element's `tabindex` reads as a number above zero.
pub open spec fn positive_tabindex(e: ElementView) -> bool {
    match attr_of(e.0, "tabindex"@) {
        Some(t) => match spec_parse_i32(t) {
            Some(v) => v > 0,
            None => false,
        },
        None => false,
    }
}

/// The element has no `title`.
pub open spec fn lacks_title(e: ElementView) -> bool {
    attr_of(e.0, "title"@) is None
}

/// The image has no alt text.
pub open spec fn lacks_alt(e: ElementView) -> bool {
    attr_of(e.0, "alt"@) is None
}

/// A property of elements that the rules count.
#[derive(Clone, Copy, PartialEq, Eq, Structural)]
pub enum ElementTest {
    LacksAccessibleName,
    FieldUnlabelled,
    HasInvalidAria,
    MissesRequiredAria,
    PositiveTabindex,
    LacksTitle,
    LacksAlt,
}

/// Whether element `e` of the document `html` has the property `t`.
pub open spec fn test_holds(t: ElementTest, html: Seq<char>, e: ElementView) -> bool {
    match t {
        ElementTest::LacksAccessibleName => lacks_accessible_name(e),
        ElementTest::FieldUnlabelled => field_unlabelled(html, e),
        ElementTest::HasInvalidAria => has_invalid_aria(e),
        ElementTest::MissesRequiredAria => misses_required_aria(e),
        ElementTest::PositiveTabindex => positive_tabindex(e),
        ElementTest::LacksTitle => lacks_title(e),
        ElementTest::LacksAlt => lacks_alt(e),
    }
}

/// Whether the element has an attribute named `aria-...` that is not an
/// ARIA attribute.
fn element_has_invalid_aria(e: &ElementData) -> (res: bool)
    ensures
        res == has_invalid_aria(element_view(*e)),
{
    let ghost attrs = element_view(*e).0;
    let mut k: usize = 0;
    while k < e.attrs.len()
        invariant
            0 <= k <= e.attrs@.len(),
            attrs == element_view(*e).0,
            attrs.len() == e.attrs@.len(),
            forall|j: int| 0 <= j < k ==> !(has_prefix(#[trigger] attrs[j].2, "aria-"@) && !aria_attributes().contains(attrs[j].2)),
        decreases e.attrs@.len() - k,
    {
        let local = e.attrs[k].local.as_str();
        assert(attrs[k as int].2 == local@);
        if starts_with(local, "aria-") && !is_valid_aria_attribute(local) {
            return true;
        }
        k = k + 1;
    }
    false
}

/// Whether the element has an ARIA role and lacks an attribute the role needs.
fn element_misses_required_aria(e: &ElementData) -> (res: bool)
    ensures
        res == misses_required_aria(element_view(*e)),
{
    let role = match e.attr("role") {
        Some(r) => r,
        None => { return false; },
    };
    let required = get_required_aria_attributes(role.as_str());
    let ghost req = required_aria(role@);
    let mut k: usize = 0;
    while k < required.len()
        invariant
            0 <= k <= required@.len(),
            required@.map_values(|s: &str| s@) == req,
            req == required_aria(role@),
            attr_of(element_view(*e).0, "role"@) == Some(role@),
            forall|j: int| 0 <= j < k ==> attr_of(element_view(*e).0, #[trigger] req[j]) is Some,
        decreases required@.len() - k,
    {
        assert(required@.map_values(|s: &str| s@)[k as int] == req[k as int]);
        if !e.has_attr(required[k]) {
            assert(attr_of(element_view(*e).0, req[k as int]) is None);
            assert(attr_of(element_view(*e).0, "role"@) == Some(role@));
            return true;
        }
        k = k + 1;
    }
    false
}

/// Whether the element's `tabindex` reads as a number above zero.
fn element_positive_tabindex(e: &ElementData) -> (res: bool)
    ensures
        res == positive_tabindex(element_view(*e)),
{
    match e.attr("tabindex") {
        Some(t) => match parse_i32(t.as_str()) {
            Some(v) => v > 0,
            None => false,
        },
        None => false,
    }
}

/// Whether the page has a label for the field with id `id`.
fn page_has_label_for(page: &Page, id: &str) -> (res: bool)
    ensures
        res == (spec_selector_parses(label_selector(id@)) && spec_select(page.html_view(), label_selector(id@)).len() > 0),
{
    let selector = concat3("label[for=", id, "]");
    page.get_element(selector.as_str()).is_ok()
}

/// Whether element `e` of `page` has the property `t`.
fn element_test(t: ElementTest, page: &Page, e: &ElementData) -> (res: bool)
    ensures
        res == test_holds(t, page.html_view(), element_view(*e)),
{
    match t {
        ElementTest::LacksAccessibleName => trims_to_empty(e.text.as_str()) && !e.has_attr("aria-label") && !e.has_attr("aria-labelledby"),
        ElementTest::FieldUnlabelled => match e.attr("id") {
            Some(id) => !page_has_label_for(page, id.as_str()),
            None => true,
        },
        ElementTest::HasInvalidAria => element_has_invalid_aria(e),
        ElementTest::MissesRequiredAria => element_misses_required_aria(e),
        ElementTest::PositiveTabindex => element_positive_tabindex(e),
        ElementTest::LacksTitle => !e.has_attr("title"),
        ElementTest::LacksAlt => !e.has_attr("alt"),
    }
}

/// How many of the page's elements matched by `selector` have property `t`.
fn count_selected(page: &Page, selector: &str, t: ElementTest) -> (res: usize)
    requires
        spec_selector_parses(selector@),
    ensures
        res == count_where(spec_select(page.html_view(), selector@), |e: ElementView| test_holds(t, page.html_view(), e)),
{
    let els = page.select(selector);
    let ghost ev = elements_view(els@);
    let ghost p = |e: ElementView| test_holds(t, page.html_view(), e);
    let mut n: usize = 0;
    for i in 0..els.len()
        invariant
            ev == elements_view(els@),
            p == (|e: ElementView| test_holds(t, page.html_view(), e)),
            n == count_where(ev.take(i as int), p),
            n <= i,
    {
        proof { lemma_count_step(ev, p, i as int); }
        assert(ev[i as int] == element_view(els@[i as int]));
        if element_test(t, page, &els[i]) {
            n = n + 1;
        }
    }
    proof { lemma_count_all(ev, p); }
    n
}

/// The outcome of a counting rule: it passes when nothing is counted.
pub open spec fn count_outcome(n: nat, passed_message: Seq<char>, prefix: Seq<char>, suffix: Seq<char>) -> (bool, Seq<char>) {
    (n == 0, if n == 0 { passed_message } else { prefix + decimal(n) + suffix })
}

/// The number of the page's elements matched by `selector` with property `t`.
pub open spec fn counted(html: Seq<char>, selector: Seq<char>, t: ElementTest) -> nat {
    count_where(spec_select(html, selector), |e: ElementView| test_holds(t, html, e))
}

/// A counting rule's result.
fn count_result(rule_id: &str, n: usize, passed_message: &str, prefix: &str, suffix: &str) -> (res: CheckResult)
    ensures
        reports(res, rule_id@, count_outcome(n as nat, passed_message@, prefix@, suffix@)),
{
    CheckResult {
        rule_id: owned(rule_id),
        passed: n == 0,
        message: if n == 0 { owned(passed_message) } else { counted_message(prefix, n, suffix) },
    }
}

/// The `id` values of the elements that have one, in order.
pub open spec fn ids_of(es: Seq<ElementView>) -> Seq<Seq<char>>
    decreases es.len(),
{
    if es.len() == 0 {
        Seq::empty()
    } else {
        let rest = ids_of(es.drop_last());
        match attr_of(es.last().0, "id"@) {
            Some(h) => rest.push(h),
            None => rest,
        }
    }
}

/// The distinct values of `s`, each where it first occurs.
pub open spec fn first_occurrences(s: Seq<Seq<char>>) -> Seq<Seq<char>>
    decreases s.len(),
{
    if s.len() == 0 {
        Seq::empty()
    } else {
        let f = first_occurrences(s.drop_last());
        if f.contains(s.last()) { f } else { f.push(s.last()) }
    }
}

/// How often `x` occurs in `s`.
pub open spec fn occurrences(s: Seq<Seq<char>>, x: Seq<char>) -> nat {
    count_where(s, equal_to(x))
}

/// How many distinct ids occur more than once in the document `html`.
pub open spec fn duplicate_id_count(html: Seq<char>) -> nat {
    let ids = ids_of(spec_select(html, "[id]"@));
    count_where(first_occurrences(ids), |x: Seq<char>| occurrences(ids, x) > 1)
}

/// Whether a text equals `x`.
pub open spec fn equal_to(x: Seq<char>) -> spec_fn(Seq<char>) -> bool {
    |y: Seq<char>| y == x
}

/// A sequence extended by one value contains what it contained, and that
/// value.
pub proof fn lemma_push_contains(t: Seq<Seq<char>>, l: Seq<char>, x: Seq<char>)
    ensures
        t.push(l).contains(x) <==> (t.contains(x) || x == l),
{
    let s = t.push(l);
    if s.contains(x) {
        let j = choose|j: int| 0 <= j < s.len() && s[j] == x;
        if j < t.len() {
            assert(t[j] == x);
        }
    }
    if t.contains(x) {
        let j = choose|j: int| 0 <= j < t.len() && t[j] == x;
        assert(s[j] == x);
    }
    if x == l {
        assert(s[t.len() as int] == x);
    }
}

/// A value occurs among the first occurrences exactly when it occurs.
pub proof fn lemma_first_occurrences_contains(s: Seq<Seq<char>>, x: Seq<char>)
    ensures
        first_occurrences(s).contains(x) <==> s.contains(x),
    decreases s.len(),
{
    if s.len() > 0 {
        let t = s.drop_last();
        let l = s.last();
        assert(s =~= t.push(l));
        lemma_first_occurrences_contains(t, x);
        lemma_first_occurrences_contains(t, l);
        lemma_push_contains(t, l, x);
        lemma_push_contains(first_occurrences(t), l, x);
    }
}

/// How many distinct ids occur more than once on the page.
fn count_duplicate_ids(page: &Page) -> (res: usize)
    requires
        spec_selector_parses("[id]"@),
    ensures
        res == duplicate_id_count(page.html_view()),
{
    let els = page.select("[id]");
    let ghost ev = elements_view(els@);
    let mut counts: TextMap<usize> = TextMap::new();
    proof { counts.lemma_shape(); }
    let ghost mut ids: Seq<Seq<char>> = Seq::empty();
    assert(ev.take(0) =~= Seq::<ElementView>::empty());
    for i in 0..els.len()
        invariant
            ev == elements_view(els@),
            ids == ids_of(ev.take(i as int)),
            ids.len() <= i,
            counts.wf(),
            counts.key_seq() == first_occurrences(ids),
            counts.value_seq().len() == counts.key_seq().len(),
            forall|k: int| 0 <= k < counts.key_seq().len() ==> #[trigger] counts.value_seq()[k] == occurrences(ids, counts.key_seq()[k]),
            forall|k: int| 0 <= k < counts.key_seq().len() ==> #[trigger] counts.value_seq()[k] <= ids.len(),
    {
        assert(ev.take(i + 1).drop_last() =~= ev.take(i as int));
        assert(ev.take(i + 1).last() == ev[i as int]);
        assert(ev[i as int] == element_view(els@[i as int]));
        proof { counts.lemma_shape(); }
        if let Some(id) = els[i].attr("id") {
            let ghost x = id@;
            let ghost old_keys = counts.key_seq();
            let ghost old_vals = counts.value_seq();
            let ghost old_map = counts.as_map();
            let ghost old_ids = ids;
            let ghost new_ids = ids.push(x);
            proof {
                lemma_first_occurrences_contains(ids, x);
                assert(new_ids.drop_last() =~= ids);
                assert forall|y: Seq<char>| #[trigger] occurrences(new_ids, y) == occurrences(old_ids, y) + if y == x { 1nat } else { 0nat } by {
                    lemma_count_push(old_ids, equal_to(y), x);
                }
            }
            let c: usize = match counts.get(id.as_str()) {
                Some(c) => {
                    proof {
                        let k = old_keys.index_of(x);
                        assert(old_keys[k] == x);
                        assert(old_map[old_keys[k]] == old_vals[k]);
                    }
                    *c
                },
                None => {
                    proof {
                        assert forall|j: int| 0 <= j < ids.len() implies !(equal_to(x)(#[trigger] ids[j])) by {
                            assert(!ids.contains(x));
                        }
                        lemma_count_zero(ids, equal_to(x));
                    }
                    0
                },
            };
            assert(c <= ids.len()) by {
                lemma_count_le(ids, equal_to(x));
            }
            counts.insert(id, c + 1);
            proof {
                counts.lemma_shape();
                ids = new_ids;
                assert(ids == ids_of(ev.take(i + 1)));
                assert forall|k: int| 0 <= k < counts.key_seq().len() implies
                    #[trigger] counts.value_seq()[k] == occurrences(ids, counts.key_seq()[k])
                    && counts.value_seq()[k] <= ids.len() by {
                    if counts.key_seq()[k] == x {
                        assert(counts.as_map()[counts.key_seq()[k]] == counts.value_seq()[k]);
                        assert(c == occurrences(old_ids, x));
                    } else {
                        assert(counts.key_seq()[k] == old_keys[k]);
                        assert(counts.value_seq()[k] == old_vals[k]);
                        assert(old_vals[k] == occurrences(old_ids, old_keys[k]));
                    }
                }
            }
        } else {
            assert(ids_of(ev.take(i + 1)) == ids);
        }
    }
    assert(ev.take(els@.len() as int) =~= ev);
    let ghost keys = counts.key_seq();
    let ghost p = |x: Seq<char>| occurrences(ids, x) > 1;
    let mut n: usize = 0;
    let total = counts.len();
    for k in 0..total
        invariant
            counts.wf(),
            total == keys.len(),
            keys == counts.key_seq(),
            counts.value_seq().len() == keys.len(),
            forall|j: int| 0 <= j < keys.len() ==> #[trigger] counts.value_seq()[j] == occurrences(ids, keys[j]),
            p == (|x: Seq<char>| occurrences(ids, x) > 1),
            n == count_where(keys.take(k as int), p),
            n <= k,
    {
        proof { lemma_count_step(keys, p, k as int); }
        let (_, v) = counts.entry_at(k);
        assert(counts.value_seq()[k as int] == occurrences(ids, keys[k as int]));
        if *v > 1 {
            n = n + 1;
        }
    }
    proof { lemma_count_all(keys, p); }
    n
}

/// Whether the page's `<html>` element has a `lang`, and the message saying
/// so; nothing when the document has no `<html>` element.
pub open spec fn html_has_lang_outcome(html: Seq<char>) -> Option<(bool, Seq<char>)> {
    let els = spec_select(html, "html"@);
    if els.len() == 0 {
        None
    } else {
        let has = attr_of(els[0].0, "lang"@) is Some;
        Some((has, if has { "HTML has lang attribute"@ } else { "HTML is missing lang attribute"@ }))
    }
}

/// Whether the page's viewport allows zooming, and the message saying so.
/// A missing viewport counts as disabling it.
pub open spec fn meta_viewport_outcome(html: Seq<char>) -> (bool, Seq<char>) {
    let v = or_empty(meta_of_document(html).viewport);
    let disables = has_substring(v, "user-scalable=no"@) || has_substring(v, "maximum-scale=1.0"@)
        || has_substring(v, "maximum-scale=1"@) || v.len() == 0;
    (!disables, if !disables { "Meta viewport allows zooming"@ } else { "Meta viewport disables zooming"@ })
}

/// Whether the document has a `<title>` element, and the message saying so.
pub open spec fn document_title_outcome(html: Seq<char>) -> (bool, Seq<char>) {
    let has = spec_select(html, "title"@).len() > 0;
    (has, if has { "Document has title"@ } else { "Document is missing title"@ })
}

/// The `<html>` element has a `lang`. Fails with `ElementNotFound` when the
/// document has no `<html>` element.
pub fn check_html_has_lang(page: &Page, rule_id: &str) -> (res: Result<CheckResult, PageError>)
    requires
        page_queries_valid(),
    ensures
        match html_has_lang_outcome(page.html_view()) {
            Some(o) => res matches Ok(r) && reports(r, rule_id@, o),
            None => res matches Err(PageError::ElementNotFound),
        },
{
    proof { lemma_page_queries(); }
    let html = match page.get_element("html") {
        Ok(e) => e,
        Err(_) => { return Err(PageError::ElementNotFound); },
    };
    let has_lang = html.has_attr("lang");
    Ok(outcome(rule_id, has_lang, "HTML has lang attribute", "HTML is missing lang attribute"))
}

/// Every image has alt text.
pub fn check_image_alt(page: &Page, rule_id: &str) -> (res: CheckResult)
    requires
        page_queries_valid(),
    ensures
        reports(res, rule_id@, count_outcome(counted(page.html_view(), "img"@, ElementTest::LacksAlt), "All images have alt text"@, ""@, " images missing alt text"@)),
{
    proof { lemma_page_queries(); }
    let n = count_selected(page, "img", ElementTest::LacksAlt);
    count_result(rule_id, n, "All images have alt text", "", " images missing alt text")
}

/// The viewport allows zooming.
pub fn check_meta_viewport(page: &Page, rule_id: &str) -> (res: CheckResult)
    requires
        page_queries_valid(),
    ensures
        reports(res, rule_id@, meta_viewport_outcome(page.html_view())),
{
    let meta = page.extract_meta_tags();
    let viewport = match meta.viewport {
        Some(v) => v,
        None => String::new(),
    };
    let v = viewport.as_str();
    let disables_zoom = contains(v, "user-scalable=no") || contains(v, "maximum-scale=1.0")
        || contains(v, "maximum-scale=1") || v.is_empty();
    outcome(rule_id, !disables_zoom, "Meta viewport allows zooming", "Meta viewport disables zooming")
}

/// The document has a `<title>` element.
pub fn check_document_title(page: &Page, rule_id: &str) -> (res: CheckResult)
    requires
        page_queries_valid(),
    ensures
        reports(res, rule_id@, document_title_outcome(page.html_view())),
{
    proof { lemma_page_queries(); }
    let has_title = page.get_element("title").is_ok();
    outcome(rule_id, has_title, "Document has title", "Document is missing title")
}

/// Every button has an accessible name.
pub fn check_button_name(page: &Page, rule_id: &str) -> (res: CheckResult)
    requires
        page_queries_valid(),
    ensures
        reports(res, rule_id@, count_outcome(counted(page.html_view(), "button"@, ElementTest::LacksAccessibleName), "All buttons have accessible names"@, ""@, " buttons missing accessible names"@)),
{
    proof { lemma_page_queries(); }
    let n = count_selected(page, "button", ElementTest::LacksAccessibleName);
    count_result(rule_id, n, "All buttons have accessible names", "", " buttons missing accessible names")
}

/// Every link has an accessible name.
pub fn check_link_name(page: &Page, rule_id: &str) -> (res: CheckResult)
    requires
        page_queries_valid(),
    ensures
        reports(res, rule_id@, count_outcome(counted(page.html_view(), "a"@, ElementTest::LacksAccessibleName), "All links have accessible names"@, ""@, " links missing accessible names"@)),
{
    proof { lemma_page_queries(); }
    let n = count_selected(page, "a", ElementTest::LacksAccessibleName);
    count_result(rule_id, n, "All links have accessible names", "", " links missing accessible names")
}

/// The form field rule: it counts the fields without an associated label.
pub fn check_form_field_labels(page: &Page, rule_id: &str) -> (res: CheckResult)
    requires
        page_queries_valid(),
    ensures
        reports(res, rule_id@, count_outcome(counted(page.html_view(), "input, select, textarea"@, ElementTest::FieldUnlabelled), "All form fields have labels"@, ""@, " form fields missing labels"@)),
{
    proof { lemma_page_queries(); }
    let n = count_selected(page, "input, select, textarea", ElementTest::FieldUnlabelled);
    count_result(rule_id, n, "All form fields have labels", "", " form fields missing labels")
}

/// No element has an `aria-...` attribute that is not an ARIA attribute.
pub fn check_aria_valid_attr(page: &Page, rule_id: &str) -> (res: CheckResult)
    requires
        page_queries_valid(),
    ensures
        reports(res, rule_id@, count_outcome(counted(page.html_view(), "*"@, ElementTest::HasInvalidAria), "All ARIA attributes are valid"@, "Found "@, " elements with invalid ARIA attributes"@)),
{
    proof { lemma_page_queries(); }
    let n = count_selected(page, "*", ElementTest::HasInvalidAria);
    count_result(rule_id, n, "All ARIA attributes are valid", "Found ", " elements with invalid ARIA attributes")
}

/// Every element with an ARIA role has the attributes the role needs.
pub fn check_aria_required_attr(page: &Page, rule_id: &str) -> (res: CheckResult)
    requires
        page_queries_valid(),
    ensures
        reports(res, rule_id@, count_outcome(counted(page.html_view(), "[role]"@, ElementTest::MissesRequiredAria), "All ARIA roles have required attributes"@, "Found "@, " elements missing required ARIA attributes"@)),
{
    proof { lemma_page_queries(); }
    let n = count_selected(page, "[role]", ElementTest::MissesRequiredAria);
    count_result(rule_id, n, "All ARIA roles have required attributes", "Found ", " elements missing required ARIA attributes")
}

/// No id occurs twice.
pub fn check_duplicate_id(page: &Page, rule_id: &str) -> (res: CheckResult)
    requires
        page_queries_valid(),
    ensures
        reports(res, rule_id@, count_outcome(duplicate_id_count(page.html_view()), "No duplicate IDs found"@, "Found "@, " duplicate IDs"@)),
{
    proof { lemma_page_queries(); }
    let n = count_duplicate_ids(page);
    count_result(rule_id, n, "No duplicate IDs found", "Found ", " duplicate IDs")
}

/// Every frame has a title.
pub fn check_frame_title(page: &Page, rule_id: &str) -> (res: CheckResult)
    requires
        page_queries_valid(),
    ensures
        reports(res, rule_id@, count_outcome(counted(page.html_view(), "frame, iframe"@, ElementTest::LacksTitle), "All frames have title attributes"@, ""@, " frames missing title attributes"@)),
{
    proof { lemma_page_queries(); }
    let n = count_selected(page, "frame, iframe", ElementTest::LacksTitle);
    count_result(rule_id, n, "All frames have title attributes", "", " frames missing title attributes")
}

/// No `tabindex` is above zero.
pub fn check_tabindex(page: &Page, rule_id: &str) -> (res: CheckResult)
    requires
        page_queries_valid(),
    ensures
        reports(res, rule_id@, count_outcome(counted(page.html_view(), "[tabindex]"@, ElementTest::PositiveTabindex), "No invalid tabindex values found"@, "Found "@, " elements with invalid tabindex values"@)),
{
    proof { lemma_page_queries(); }
    let n = count_selected(page, "[tabindex]", ElementTest::PositiveTabindex);
    count_result(rule_id, n, "No invalid tabindex values found", "Found ", " elements with invalid tabindex values")
}

} // verus!
