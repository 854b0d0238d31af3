use serpeo::seo_plugins::site_analyzer::SiteLinks;
use serpeo::seo_plugins::site_plugins::meta_description::MetaDescriptionSitePlugin;
use serpeo::seo_plugins::utils::config::{RuleCategory, Severity, SiteCheckContext, SiteRule};
use serpeo::seo_plugins::utils::link_parser::to_url;
use serpeo::seo_plugins::utils::page::Page;

fn uniqueness_rule() -> SiteRule {
    SiteRule {
        id: "meta_description_uniqueness",
        name: "Meta Description Uniqueness",
        description: "Checks if meta descriptions are unique 90% of the time",
        default_severity: Severity::Warning,
        category: RuleCategory::SEO,
    }
}

fn described(url: &str, description: &str) -> Page {
    let html = format!(r#"<html><head><meta name="description" content="{}"></head></html>"#, description);
    Page::from_fetch(to_url(url).unwrap(), html, None, 200)
}

#[test]
fn one_group_per_distinct_description() {
    let mut plugin = MetaDescriptionSitePlugin::new();
    for i in 0..9 {
        plugin.after_page_hook(&described(&format!("https://a.com/p{}", i), &format!("d{}", i)));
    }
    plugin.after_page_hook(&described("https://a.com/p9", "d0"));
    // 9 distinct descriptions on 10 pages: 90%, so the rule passes.
    let res = plugin.check(&uniqueness_rule(), &SiteLinks::new());
    assert!(res.passed);
    match &res.context {
        SiteCheckContext::Values(groups) => {
            assert_eq!(groups.len(), 9);
            assert_eq!(groups[0].0, "d0");
            assert_eq!(groups[0].1, vec!["https://a.com/p0".to_string(), "https://a.com/p9".to_string()]);
        }
        _ => panic!("expected the groups"),
    }
    // An eleventh page repeating a description drops it below 90%.
    plugin.after_page_hook(&described("https://a.com/p10", "d1"));
    let res = plugin.check(&uniqueness_rule(), &SiteLinks::new());
    assert!(!res.passed);
    assert!(matches!(res.context, SiteCheckContext::Empty));
}
