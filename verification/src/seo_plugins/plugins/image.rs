//! The image plugin: the images of a page are responsive.
use vstd::prelude::*;
use crate::seo_plugins::utils::config::{RuleConfig, RuleResult};
use super::{analyze_rules, analyzes, named_rules};
use crate::html_doc::{attr_of, ElementView};
use crate::seo_plugins::utils::config::{CheckResult, PageCheck, Rule, RuleCategory, Severity};
use crate::seo_plugins::utils::page::{Image, Page, PageError, image_view, page_queries_valid};
use crate::html_doc::spec_select;
use crate::text::{decimal, owned};
use super::{count_message, count_where, lemma_count_all, lemma_count_mono, lemma_count_step, lemma_count_zero, reports};

verus! {

/// An image as the plugin records it.
pub struct ImageData {
    pub src: String,
    pub alt: Option<String>,
    pub srcset: Option<String>,
}

/// Checks the images of a page.
pub struct ImagePlugin {}

/// The name of the plugin.
pub const IMAGE_PLUGIN_NAME: &'static str = "Images";

/// What the plugin is about.
pub const IMAGE_PLUGIN_DESCRIPTION: &'static str = "Image optimization analysis";

/// The rules of the image plugin.
pub open spec fn image_rules() -> Seq<Rule> {
    seq![
        Rule {
            id: "images.responsive",
            name: "Images are responsive",
            description: "Checks if images use srcset for responsive design",
            default_severity: Severity::Warning,
            category: RuleCategory::SEO,
            check: PageCheck::ImagesResponsive,
        },
    ]
}

/// The `<img>` element has no `srcset`.
pub open spec fn lacks_srcset(e: ElementView) -> bool {
    attr_of(e.0, "srcset"@) is None
}

/// Whether every image of the page has a `srcset`, and the message saying so
/// or counting those that lack one.
pub open spec fn responsive_outcome(html: Seq<char>) -> (bool, Seq<char>) {
    let n = count_where(spec_select(html, "img"@), |e: ElementView| lacks_srcset(e));
    (n == 0, if n == 0 { "All images use srcset"@ } else { decimal(n) + " images missing srcset"@ })
}

impl ImagePlugin {
    /// The plugin.
    pub fn new() -> (res: Self) {
        ImagePlugin {}
    }

    /// The plugin's name.
    pub fn name(&self) -> (res: &'static str)
        ensures
            res@ == IMAGE_PLUGIN_NAME@,
    {
        IMAGE_PLUGIN_NAME
    }

    /// What the plugin is about.
    pub fn description(&self) -> (res: &'static str)
        ensures
            res@ == IMAGE_PLUGIN_DESCRIPTION@,
    {
        IMAGE_PLUGIN_DESCRIPTION
    }

    /// The rules this plugin checks.
    pub fn available_rules(&self) -> (res: Vec<Rule>)
        ensures
            res@ == image_rules(),
    {
        vec![
            Rule {
                id: "images.responsive",
                name: "Images are responsive",
                description: "Checks if images use srcset for responsive design",
                default_severity: Severity::Warning,
                category: RuleCategory::SEO,
                check: PageCheck::ImagesResponsive,
            },
        ]
    }

    /// Runs the plugin's enabled rules on `page`, in order. Fails with
    /// `ElementNotFound` when an enabled rule cannot run on the page.
    pub fn analyze(&self, page: &Page, config: &RuleConfig) -> (res: Result<Vec<RuleResult>, PageError>)
        requires
            page_queries_valid(),
            config.wf(),
        ensures
            analyzes(res, named_rules(image_rules(), IMAGE_PLUGIN_NAME@), *page, config.enabled_map()),
    {
        let rules = self.available_rules();
        analyze_rules(&rules, self.name(), page, config)
    }
}

/// Every image of the page has a `srcset`.
pub fn check_responsive(page: &Page, rule_id: &str) -> (res: CheckResult)
    requires
        page_queries_valid(),
    ensures
        reports(res, rule_id@, responsive_outcome(page.html_view())),
{
    let images = page.extract_images();
    let ghost els = spec_select(page.html_view(), "img"@);
    let ghost p = |e: ElementView| lacks_srcset(e);
    let mut n: usize = 0;
    for i in 0..images.len()
        invariant
            images@.len() == els.len(),
            p == (|e: ElementView| lacks_srcset(e)),
            forall|j: int| 0 <= j < images@.len() ==> image_view(#[trigger] images@[j]) == crate::seo_plugins::utils::page::image_of(els[j]),
            n == count_where(els.take(i as int), p),
            n <= i,
    {
        proof { lemma_count_step(els, p, i as int); }
        assert(image_view(images@[i as int]) == crate::seo_plugins::utils::page::image_of(els[i as int]));
        assert(p(els[i as int]) == lacks_srcset(els[i as int]));
        if images[i].srcset.is_none() {
            n = n + 1;
        }
    }
    proof { lemma_count_all(els, p); }
    CheckResult {
        rule_id: owned(rule_id),
        passed: n == 0,
        message: if n == 0 { owned("All images use srcset") } else { count_message(n, " images missing srcset") },
    }
}


/// The responsive-images rule passes exactly when every `<img>` element of
/// the page has a `srcset` attribute, whatever its other attributes; when it
/// fails, its message counts the `<img>` elements without one.
pub proof fn law_every_image_needs_srcset(html: Seq<char>)
    ensures
        ({
            let imgs = spec_select(html, "img"@);
            let missing = count_where(imgs, |e: ElementView| attr_of(e.0, "srcset"@) is None);
            &&& responsive_outcome(html).0 <==> (forall|i: int| 0 <= i < imgs.len() ==> attr_of((#[trigger] imgs[i]).0, "srcset"@) is Some)
            &&& !responsive_outcome(html).0 ==> responsive_outcome(html).1 == decimal(missing) + " images missing srcset"@
        }),
{
    let imgs = spec_select(html, "img"@);
    let p = |e: ElementView| lacks_srcset(e);
    let q = |e: ElementView| attr_of(e.0, "srcset"@) is None;
    lemma_count_mono(imgs, p, q);
    lemma_count_mono(imgs, q, p);
    lemma_count_zero(imgs, q);
}

} // verus!
